use vstd::prelude::*;

verus! {

/// A stored grocery item.
///
/// `position` is the item's zero-based rank in display order; across all live
/// items the positions form a gapless permutation of `0 .. N-1` (the store's
/// invariant).  `checked_off_at` and `created_at` are timestamps carried as
/// plain integers (seconds since an epoch); which clock supplies them is the
/// caller's concern.
#[derive(Debug)]
pub struct GroceryItem {
    pub id: i32,
    pub name: String,
    pub checked_off: bool,
    pub position: i32,
    pub checked_off_at: Option<i64>,
    pub created_at: i64,
}

/// The creation payload: only the fields a client chooses.  The store assigns
/// `id` and `created_at`, and starts `checked_off_at` at `None`.
#[derive(Debug)]
pub struct NewGroceryItem {
    pub name: String,
    pub checked_off: bool,
    pub position: u32,
}

impl GroceryItem {
    /// An exact copy of the item.
    pub fn duplicate(&self) -> (r: GroceryItem)
        ensures
            r == *self,
    {
        GroceryItem {
            id: self.id,
            name: self.name.clone(),
            checked_off: self.checked_off,
            position: self.position,
            checked_off_at: self.checked_off_at,
            created_at: self.created_at,
        }
    }
}

/// The record an update stores for a checked/unchecked item: when the payload
/// says `checked_off`, the checked-off timestamp is stamped with `now`; when
/// it says unchecked, the timestamp is cleared.  Every other field is kept.
pub fn stamped_for_update(item: GroceryItem, now: i64) -> (r: GroceryItem)
    ensures
        r.checked_off_at == (if item.checked_off {
            Some(now)
        } else {
            None::<i64>
        }),
        r.id == item.id,
        r.name == item.name,
        r.checked_off == item.checked_off,
        r.position == item.position,
        r.created_at == item.created_at,
{
    let stamp: Option<i64> = if item.checked_off {
        Some(now)
    } else {
        None
    };
    GroceryItem { checked_off_at: stamp, ..item }
}

} // verus!

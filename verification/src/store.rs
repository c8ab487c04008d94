use vstd::prelude::*;

use crate::errors::StoreError;
use crate::models::GroceryItem;
use crate::models::NewGroceryItem;

verus! {

/// The sequence with every `position` field set to its index: the shape every
/// store state has, and the compensating renumbering that re-establishes
/// density after an insertion or a removal.
pub open spec fn renumber(s: Seq<GroceryItem>) -> Seq<GroceryItem> {
    s.map(|i: int, g: GroceryItem| GroceryItem { position: i as i32, ..g })
}

/// Density: every item's position is exactly its index, so the positions in
/// use form the gapless set `{0, ..., N-1}`.
pub open spec fn dense(s: Seq<GroceryItem>) -> bool {
    forall|i: int| 0 <= i < s.len() ==> (#[trigger] s[i]).position == i as i32
}

/// Identifier hygiene: every id is positive, below the fresh-id counter, and
/// no two live items share one.
pub open spec fn ids_ok(s: Seq<GroceryItem>, next_id: i32) -> bool {
    &&& forall|i: int| 0 <= i < s.len() ==> 1 <= (#[trigger] s[i]).id < next_id
    &&& forall|i: int, j: int|
        #![trigger s[i].id, s[j].id]
        0 <= i < j < s.len() ==> s[i].id != s[j].id
}

/// Whether some live item carries the identifier `id`.
pub open spec fn has_id(s: Seq<GroceryItem>, id: i32) -> bool {
    exists|i: int| 0 <= i < s.len() && s[i].id == id
}

/// The index of the item carrying `id` (unique in a well-formed store).
pub open spec fn idx_of(s: Seq<GroceryItem>, id: i32) -> int {
    choose|i: int| 0 <= i < s.len() && s[i].id == id
}

/// A well-formed creation payload against a store of `n` live items: the name
/// is non-empty and the position lies in `0 ..= n`.  Position `n` appends; a
/// smaller position inserts there, and the store shifts the items above it up
/// by one, keeping the positions dense.
pub open spec fn valid_new(n: nat, item: NewGroceryItem) -> bool {
    item.name@.len() > 0 && item.position <= n
}

/// The record `create` assigns for payload `item`: the next fresh id, the
/// caller's fields, a creation timestamp of `now`, and no checked-off stamp.
pub open spec fn created_item(st: ItemStore, item: NewGroceryItem, now: i64) -> GroceryItem {
    GroceryItem {
        id: st.next_id,
        name: item.name,
        checked_off: item.checked_off,
        position: item.position as i32,
        checked_off_at: None,
        created_at: now,
    }
}

/// Renumbering touches only the position fields: the length and every other
/// field at every index are kept.
pub proof fn lemma_renumber(t: Seq<GroceryItem>)
    ensures
        renumber(t).len() == t.len(),
        dense(renumber(t)),
        forall|i: int|
            0 <= i < t.len() ==> (#[trigger] renumber(t)[i]) == (GroceryItem {
                position: i as i32,
                ..t[i]
            }),
{
    assert forall|i: int| 0 <= i < t.len() implies (#[trigger] renumber(t)[i]) == (GroceryItem {
        position: i as i32,
        ..t[i]
    }) by {
        assert(renumber(t)[i] == (GroceryItem { position: i as i32, ..t[i] }));
    }
}

/// Renumbering keeps identifier hygiene: ids are untouched.
pub proof fn lemma_renumber_ids_ok(t: Seq<GroceryItem>, next_id: i32)
    requires
        ids_ok(t, next_id),
    ensures
        ids_ok(renumber(t), next_id),
{
    lemma_renumber(t);
    assert forall|i: int, j: int|
        #![trigger renumber(t)[i].id, renumber(t)[j].id]
        0 <= i < j < renumber(t).len() implies renumber(t)[i].id != renumber(t)[j].id by {
        assert(t[i].id != t[j].id);
    }
}

/// The Item Store: the collection of live items, held sorted by position so
/// that an item's position equals its index, together with the counter that
/// assigns fresh identifiers (starting at 1, never reused).
pub struct ItemStore {
    pub items: Vec<GroceryItem>,
    pub next_id: i32,
}

impl View for ItemStore {
    type V = Seq<GroceryItem>;

    open spec fn view(&self) -> Seq<GroceryItem> {
        self.items@
    }
}

impl ItemStore {
    /// Well-formedness: positions are dense, identifiers are hygienic, and
    /// the fresh-id counter exceeds the live count (so there is always room
    /// to have numbered the items so far).
    pub open spec fn wf(self) -> bool {
        &&& dense(self@)
        &&& ids_ok(self@, self.next_id)
        &&& self@.len() < self.next_id
        &&& 1 <= self.next_id
        &&& self.next_id <= i32::MAX
    }

    /// An empty store; the first created item receives identifier 1.
    pub fn new() -> (s: ItemStore)
        ensures
            s.wf(),
            s@ =~= Seq::<GroceryItem>::empty(),
            s.next_id == 1,
    {
        ItemStore { items: Vec::new(), next_id: 1 }
    }

    /// The full list, ordered by position ascending.  Read-only: the result
    /// is exactly the store's current sequence, so two reads with no write
    /// between them see the same sequence.
    pub fn list(&self) -> (r: &Vec<GroceryItem>)
        ensures
            r@ == self@,
    {
        &self.items
    }

    /// The index at which the item carrying `id` lives, if any.  Read-only.
    fn index_of_id(&self, id: i32) -> (r: Option<usize>)
        requires
            self.wf(),
        ensures
            r matches Some(i) ==> i < self@.len() && self@[i as int].id == id && i as int
                == idx_of(self@, id) && has_id(self@, id),
            r is None ==> !has_id(self@, id),
    {
        let mut i: usize = 0;
        while i < self.items.len()
            invariant
                self.wf(),
                i <= self.items.len(),
                forall|k: int| 0 <= k < i ==> (#[trigger] self@[k]).id != id,
            decreases self.items.len() - i,
        {
            if self.items[i].id == id {
                proof {
                    assert(self@[i as int].id == id);
                    let k = idx_of(self@, id);
                    assert(0 <= k < self@.len() && self@[k].id == id);
                    assert(k == i as int) by {
                        if k < i as int {
                            assert(self@[k].id != self@[i as int].id);
                        } else if k > i as int {
                            assert(self@[i as int].id != self@[k].id);
                        }
                    }
                }
                return Some(i);
            }
            i = i + 1;
        }
        None
    }

    /// The item carrying `id`, or `NotFound` when no live item does.
    /// Read-only.
    pub fn get(&self, id: i32) -> (r: Result<&GroceryItem, StoreError>)
        requires
            self.wf(),
        ensures
            r is Ok <==> has_id(self@, id),
            r matches Ok(g) ==> *g == self@[idx_of(self@, id)] && g.id == id,
            r is Err ==> r == Err::<&GroceryItem, StoreError>(StoreError::NotFound),
    {
        match self.index_of_id(id) {
            Some(i) => Ok(&self.items[i]),
            None => Err(StoreError::NotFound),
        }
    }

    /// Creation.  A payload with an empty name or a position beyond the
    /// current count is rejected as a validation error; when the id space is
    /// exhausted the storage error is reported; otherwise the item is stored
    /// at its requested position (items above it shift up by one) with a
    /// fresh id, `created_at` stamped with `now`, and no checked-off stamp,
    /// and the stored record is returned.
    pub fn create(&mut self, new_item: NewGroceryItem, now: i64) -> (r: Result<
        GroceryItem,
        StoreError,
    >)
        requires
            old(self).wf(),
        ensures
            final(self).wf(),
            r is Ok <==> valid_new(old(self)@.len(), new_item) && old(self).next_id < i32::MAX,
            r matches Ok(g) ==> ({
                &&& g == created_item(*old(self), new_item, now)
                &&& g.position == new_item.position
                &&& final(self)@ == renumber(old(self)@.insert(new_item.position as int, g))
                &&& final(self).next_id == old(self).next_id + 1
            }),
            !valid_new(old(self)@.len(), new_item) ==> r == Err::<GroceryItem, StoreError>(
                StoreError::Validation,
            ),
            valid_new(old(self)@.len(), new_item) && old(self).next_id == i32::MAX ==> r == Err::<
                GroceryItem,
                StoreError,
            >(StoreError::Storage),
            r is Err ==> *final(self) == *old(self),
    {
        if new_item.name.as_str().is_empty() {
            return Err(StoreError::Validation);
        }
        if new_item.position as usize > self.items.len() {
            return Err(StoreError::Validation);
        }
        if self.next_id == i32::MAX {
            return Err(StoreError::Storage);
        }
        proof {
            assert(new_item.position < i32::MAX);
        }
        let pos: usize = new_item.position as usize;
        let g = GroceryItem {
            id: self.next_id,
            name: new_item.name,
            checked_off: new_item.checked_off,
            position: pos as i32,
            checked_off_at: None,
            created_at: now,
        };
        let created = g.duplicate();
        let ghost pre = self@;
        let ghost inserted = pre.insert(pos as int, g);
        proof {
            pre.insert_ensures(pos as int, g);
        }
        self.items.insert(pos, g);
        self.next_id = self.next_id + 1;
        renumber_from(&mut self.items, pos);
        proof {
            lemma_renumber(inserted);
            assert(ids_ok(inserted, self.next_id)) by {
                assert(forall|i: int|
                    0 <= i < pre.len() ==> 1 <= (#[trigger] pre[i]).id < self.next_id);
                assert forall|i: int, j: int|
                    #![trigger inserted[i].id, inserted[j].id]
                    0 <= i < j < inserted.len() implies inserted[i].id != inserted[j].id by {
                    if i < pos as int {
                        assert(inserted[i] == pre[i]);
                    }
                    if j < pos as int {
                        assert(inserted[j] == pre[j]);
                    }
                    if i > pos as int {
                        assert(inserted[i] == pre[i - 1]);
                    }
                    if j > pos as int {
                        assert(inserted[j] == pre[j - 1]);
                    }
                }
            }
            lemma_renumber_ids_ok(inserted, self.next_id);
            assert(final(self).wf());
        }
        Ok(created)
    }

    /// Creation as the front end performs it: the creation stamp is the
    /// clock's reading at the present moment.  The contract pins every field
    /// of the stored record and the new state except that reading, which no
    /// caller can predict.
    pub fn create_now(&mut self, new_item: NewGroceryItem) -> (r: Result<GroceryItem, StoreError>)
        requires
            old(self).wf(),
        ensures
            final(self).wf(),
            r is Ok <==> valid_new(old(self)@.len(), new_item) && old(self).next_id < i32::MAX,
            r matches Ok(g) ==> ({
                &&& g.id == old(self).next_id
                &&& g.name == new_item.name
                &&& g.checked_off == new_item.checked_off
                &&& g.position == new_item.position
                &&& g.checked_off_at is None
                &&& final(self)@ == renumber(old(self)@.insert(new_item.position as int, g))
                &&& final(self).next_id == old(self).next_id + 1
            }),
            !valid_new(old(self)@.len(), new_item) ==> r == Err::<GroceryItem, StoreError>(
                StoreError::Validation,
            ),
            valid_new(old(self)@.len(), new_item) && old(self).next_id == i32::MAX ==> r == Err::<
                GroceryItem,
                StoreError,
            >(StoreError::Storage),
            r is Err ==> *final(self) == *old(self),
    {
        let now = crate::clock::now_timestamp();
        self.create(new_item, now)
    }

    /// Full-record update of the item carrying `id`: name, checked state,
    /// checked-off stamp and creation stamp are overwritten from the payload;
    /// the id comes from the caller's selector, not the payload.  The list
    /// does not support reordering by update, so a payload whose position
    /// differs from the item's current one is rejected, as is an empty name;
    /// an absent id is reported as `NotFound`.
    pub fn replace(&mut self, id: i32, item: GroceryItem) -> (r: Result<(), StoreError>)
        requires
            old(self).wf(),
        ensures
            final(self).wf(),
            final(self).next_id == old(self).next_id,
            r is Ok <==> has_id(old(self)@, id) && valid_replacement(old(self)@, id, item),
            !has_id(old(self)@, id) ==> r == Err::<(), StoreError>(StoreError::NotFound),
            has_id(old(self)@, id) && !valid_replacement(old(self)@, id, item) ==> r == Err::<
                (),
                StoreError,
            >(StoreError::Validation),
            r is Err ==> *final(self) == *old(self),
            r is Ok ==> final(self)@ == old(self)@.update(
                idx_of(old(self)@, id),
                (GroceryItem { id: id, ..item }),
            ),
    {
        let idx = match self.index_of_id(id) {
            Some(i) => i,
            None => {
                return Err(StoreError::NotFound);
            },
        };
        if item.name.as_str().is_empty() {
            return Err(StoreError::Validation);
        }
        if item.position != self.items[idx].position {
            return Err(StoreError::Validation);
        }
        let stored = GroceryItem { id: id, ..item };
        self.items[idx] = stored;
        proof {
            assert(final(self).wf());
        }
        Ok(())
    }

    /// Full-record update as the front end performs it: the checked-off
    /// stamp is recomputed at the present moment — set to the clock's
    /// reading when the payload says checked, cleared when it says
    /// unchecked — and the stamped record replaces the stored one.  The
    /// contract pins every stored field except the reading itself, which no
    /// caller can predict.
    pub fn replace_stamped(&mut self, id: i32, item: GroceryItem) -> (r: Result<(), StoreError>)
        requires
            old(self).wf(),
        ensures
            final(self).wf(),
            final(self).next_id == old(self).next_id,
            r is Ok <==> has_id(old(self)@, id) && valid_replacement(old(self)@, id, item),
            !has_id(old(self)@, id) ==> r == Err::<(), StoreError>(StoreError::NotFound),
            has_id(old(self)@, id) && !valid_replacement(old(self)@, id, item) ==> r == Err::<
                (),
                StoreError,
            >(StoreError::Validation),
            r is Err ==> *final(self) == *old(self),
            r is Ok ==> ({
                let i = idx_of(old(self)@, id);
                let g = final(self)@[i];
                &&& final(self)@.len() == old(self)@.len()
                &&& forall|k: int|
                    0 <= k < old(self)@.len() && k != i ==> final(self)@[k] == old(self)@[k]
                &&& g.id == id
                &&& g.name == item.name
                &&& g.checked_off == item.checked_off
                &&& g.position == item.position
                &&& g.created_at == item.created_at
                &&& (g.checked_off_at is Some <==> item.checked_off)
            }),
    {
        let now = crate::clock::now_timestamp();
        let stamped = crate::models::stamped_for_update(item, now);
        proof {
            assert(valid_replacement(old(self)@, id, stamped) == valid_replacement(
                old(self)@,
                id,
                item,
            ));
        }
        self.replace(id, stamped)
    }

    /// The read step of the delete protocol: locate the target and record
    /// where it stands.  Read-only — a caller that stops after this step (a
    /// simulated failure before the commit) has changed nothing.
    pub fn plan_delete(&self, id: i32) -> (r: Result<DeletePlan, StoreError>)
        requires
            self.wf(),
        ensures
            r is Ok <==> has_id(self@, id),
            r matches Ok(p) ==> p.id == id && p.index < self@.len() && p.index as int == idx_of(
                self@,
                id,
            ) && self@[p.index as int].id == id,
            r is Err ==> r == Err::<DeletePlan, StoreError>(StoreError::NotFound),
    {
        match self.index_of_id(id) {
            Some(i) => Ok(DeletePlan { id: id, index: i }),
            None => Err(StoreError::NotFound),
        }
    }

    /// The write step of the delete protocol: remove the planned row and
    /// shift every higher position down by one, in one all-or-nothing
    /// mutation of the store.
    pub fn commit_delete(&mut self, plan: DeletePlan)
        requires
            old(self).wf(),
            plan.index < old(self)@.len(),
            old(self)@[plan.index as int].id == plan.id,
        ensures
            final(self).wf(),
            final(self).next_id == old(self).next_id,
            final(self)@ == renumber(old(self)@.remove(plan.index as int)),
    {
        let ghost pre = self@;
        let ghost removed = pre.remove(plan.index as int);
        proof {
            pre.remove_ensures(plan.index as int);
        }
        self.items.remove(plan.index);
        renumber_from(&mut self.items, plan.index);
        proof {
            lemma_renumber(removed);
            assert(ids_ok(removed, self.next_id)) by {
                assert forall|i: int, j: int|
                    #![trigger removed[i].id, removed[j].id]
                    0 <= i < j < removed.len() implies removed[i].id != removed[j].id by {
                    if i >= plan.index as int {
                        assert(removed[i] == pre[i + 1]);
                    }
                    if j >= plan.index as int {
                        assert(removed[j] == pre[j + 1]);
                    }
                }
            }
            lemma_renumber_ids_ok(removed, self.next_id);
            assert(final(self).wf());
        }
    }

    /// Deletion with reindexing: remove the item carrying `id` and decrement
    /// the position of every item that stood above it, so the positions stay
    /// dense.  All-or-nothing: on `NotFound` — the only failure — the store
    /// is exactly as it was.
    pub fn delete_and_reindex(&mut self, id: i32) -> (r: Result<(), StoreError>)
        requires
            old(self).wf(),
        ensures
            final(self).wf(),
            final(self).next_id == old(self).next_id,
            r is Ok <==> has_id(old(self)@, id),
            r is Ok ==> final(self)@ == renumber(old(self)@.remove(idx_of(old(self)@, id))),
            r is Err ==> r == Err::<(), StoreError>(StoreError::NotFound) && *final(self) == *old(
                self,
            ),
    {
        let plan = match self.plan_delete(id) {
            Ok(p) => p,
            Err(e) => {
                return Err(e);
            },
        };
        self.commit_delete(plan);
        Ok(())
    }
}

/// A validated full-record update for the item carrying `id`: the name is
/// non-empty and the position is left at the item's current one.
pub open spec fn valid_replacement(s: Seq<GroceryItem>, id: i32, item: GroceryItem) -> bool {
    item.name@.len() > 0 && item.position == s[idx_of(s, id)].position
}

/// What `plan_delete` reads inside the delete protocol: the target's id and
/// the index (equally, position) at which it stands.
#[derive(Clone, Copy, Debug, PartialEq, Eq, Structural)]
pub struct DeletePlan {
    pub id: i32,
    pub index: usize,
}

/// Set every position from `start` on to its index; the positions before
/// `start` must already equal their indices, so the whole vector comes out
/// renumbered.
pub(crate) fn renumber_from(items: &mut Vec<GroceryItem>, start: usize)
    requires
        start <= old(items)@.len(),
        old(items)@.len() <= i32::MAX,
        forall|i: int| 0 <= i < start ==> (#[trigger] old(items)@[i]).position == i as i32,
    ensures
        final(items)@ == renumber(old(items)@),
{
    let ghost orig = items@;
    proof {
        lemma_renumber(orig);
    }
    let mut j: usize = start;
    while j < items.len()
        invariant
            start <= j <= orig.len(),
            items@.len() == orig.len(),
            orig.len() <= i32::MAX,
            forall|i: int| 0 <= i < start ==> (#[trigger] orig[i]).position == i as i32,
            forall|i: int|
                0 <= i < orig.len() ==> (#[trigger] renumber(orig)[i]) == (GroceryItem {
                    position: i as i32,
                    ..orig[i]
                }),
            forall|i: int| 0 <= i < j ==> #[trigger] items@[i] == renumber(orig)[i],
            forall|i: int| j <= i < orig.len() ==> #[trigger] items@[i] == orig[i],
        decreases orig.len() - j,
    {
        let mut g = items[j].duplicate();
        g.position = j as i32;
        items[j] = g;
        j = j + 1;
    }
    proof {
        assert(items@ =~= renumber(orig));
    }
}

} // verus!

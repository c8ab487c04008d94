use vstd::prelude::*;

use crate::models::GroceryItem;
use crate::store::ItemStore;
use crate::store::dense;
use crate::store::has_id;
use crate::store::idx_of;
use crate::store::lemma_renumber;
use crate::store::renumber;
use crate::sweep::expired;
use crate::sweep::kept_pred;

verus! {

/// The set of position values the items of `s` use.
pub open spec fn positions_in_use(s: Seq<GroceryItem>) -> Set<int> {
    Set::new(|p: int| exists|i: int| 0 <= i < s.len() && s[i].position == p)
}

/// The density invariant as a law: a dense sequence of N items uses exactly
/// the positions `{0, ..., N-1}` — no gap, no duplicate rank.  Every store
/// operation ends in a well-formed (hence dense) state, so this holds of the
/// store at all times.
pub proof fn lemma_dense_positions(s: Seq<GroceryItem>)
    requires
        dense(s),
        s.len() <= i32::MAX,
    ensures
        positions_in_use(s) =~= Set::new(|p: int| 0 <= p < s.len()),
{
    assert forall|p: int| positions_in_use(s).contains(p) implies 0 <= p < s.len() by {
        let i = choose|i: int| 0 <= i < s.len() && s[i].position == p;
        assert(s[i].position == i as i32);
    }
    assert forall|p: int| 0 <= p < s.len() implies positions_in_use(s).contains(p) by {
        assert(s[p].position == p as i32);
    }
}

/// Density after a create: inserting an item at any admissible slot of a
/// well-formed store of N items, with the compensating shift, leaves
/// positions that are exactly `{0, ..., N}`.  `create`'s contract gives the
/// new state the exact shape this law speaks of.
pub proof fn lemma_density_after_create(s: ItemStore, g: GroceryItem, pos: int)
    requires
        s.wf(),
        0 <= pos <= s@.len(),
        s@.len() + 1 <= i32::MAX,
    ensures
        renumber(s@.insert(pos, g)).len() == s@.len() + 1,
        positions_in_use(renumber(s@.insert(pos, g))) =~= Set::new(
            |p: int| 0 <= p < s@.len() + 1,
        ),
{
    let t = s@.insert(pos, g);
    assert(t.len() == s@.len() + 1);
    lemma_renumber(t);
    lemma_dense_positions(renumber(t));
}

/// Density after a delete: removing any one live item from a well-formed
/// store of N items, with the compensating reindex, leaves positions that
/// are exactly `{0, ..., N-2}`.  `delete_and_reindex`'s contract gives the
/// new state the exact shape this law speaks of.
pub proof fn lemma_density_after_delete(s: ItemStore, id: i32)
    requires
        s.wf(),
        has_id(s@, id),
    ensures
        renumber(s@.remove(idx_of(s@, id))).len() == s@.len() - 1,
        positions_in_use(renumber(s@.remove(idx_of(s@, id)))) =~= Set::new(
            |p: int| 0 <= p < s@.len() - 1,
        ),
{
    let idx = idx_of(s@, id);
    assert(0 <= idx < s@.len());
    let t = s@.remove(idx);
    assert(t.len() == s@.len() - 1);
    lemma_renumber(t);
    lemma_dense_positions(renumber(t));
}

/// The idempotent-read law: `list` returns exactly the store's sequence, so
/// two reads bound by that contract against the same state — that is, with
/// no intervening write — return the same ordered sequence.
pub proof fn lemma_list_idempotent(
    s: ItemStore,
    first: Seq<GroceryItem>,
    second: Seq<GroceryItem>,
)
    requires
        first == s@,
        second == s@,
    ensures
        first == second,
{
}

/// Every element a filter keeps comes from the underlying sequence.
proof fn lemma_filter_subset(s: Seq<GroceryItem>, pred: spec_fn(GroceryItem) -> bool)
    ensures
        forall|j: int| 0 <= j < s.filter(pred).len() ==> s.contains(#[trigger] s.filter(pred)[j]),
    decreases s.len(),
{
    reveal(Seq::filter);
    if s.len() > 0 {
        lemma_filter_subset(s.drop_last(), pred);
        assert forall|j: int|
            0 <= j < s.filter(pred).len() implies s.contains(s.filter(pred)[j]) by {
            let sub = s.drop_last().filter(pred);
            if pred(s.last()) && j == s.filter(pred).len() - 1 {
                assert(s.filter(pred)[j] == s.last());
                assert(s[s.len() - 1] == s.last());
            } else {
                assert(s.filter(pred)[j] == sub[j]);
                assert(s.drop_last().contains(sub[j]));
                let w = choose|w: int| 0 <= w < s.drop_last().len() && s.drop_last()[w] == sub[j];
                assert(s[w] == sub[j]);
            }
        }
    }
}

/// The expiry law: after a sweep at cutoff `c`, an identifier is live iff
/// its item was not checked off before `c` — an item checked off earlier
/// than the cutoff is absent from every later list, one checked off at or
/// after it (or never) is still present.  `sweep`'s contract gives the new
/// state the exact shape this law speaks of.
pub proof fn lemma_sweep_membership(s: Seq<GroceryItem>, cutoff: i64, id: i32)
    ensures
        has_id(renumber(s.filter(kept_pred(cutoff))), id) <==> exists|i: int|
            0 <= i < s.len() && s[i].id == id && !expired(s[i], cutoff),
{
    let p = kept_pred(cutoff);
    let f = s.filter(p);
    lemma_renumber(f);
    lemma_filter_subset(s, p);
    if has_id(renumber(f), id) {
        let j = choose|j: int| 0 <= j < renumber(f).len() && renumber(f)[j].id == id;
        assert(f[j].id == id);
        s.lemma_filter_pred(p, j);
        assert(!expired(f[j], cutoff));
        assert(s.contains(f[j]));
        let w = choose|w: int| 0 <= w < s.len() && s[w] == f[j];
        assert(0 <= w < s.len() && s[w].id == id && !expired(s[w], cutoff));
    }
    if exists|i: int| 0 <= i < s.len() && s[i].id == id && !expired(s[i], cutoff) {
        let i = choose|i: int| 0 <= i < s.len() && s[i].id == id && !expired(s[i], cutoff);
        assert(p(s[i]));
        s.lemma_filter_contains(p, i);
        assert(f.contains(s[i]));
        let j = choose|j: int| 0 <= j < f.len() && f[j] == s[i];
        assert(renumber(f)[j].id == id);
        assert(has_id(renumber(f), id));
    }
}

} // verus!

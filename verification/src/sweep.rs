use vstd::prelude::*;

use crate::models::GroceryItem;
use crate::store::ItemStore;
use crate::store::ids_ok;
use crate::store::lemma_renumber;
use crate::store::lemma_renumber_ids_ok;
use crate::store::renumber;
use crate::store::renumber_from;

verus! {

/// Whether the retention policy removes the item: it was checked off, and
/// its checked-off stamp lies strictly before the cutoff.
pub open spec fn expired(g: GroceryItem, cutoff: i64) -> bool {
    match g.checked_off_at {
        Some(t) => t < cutoff,
        None => false,
    }
}

/// The predicate the sweep keeps: not expired at the given cutoff.
pub open spec fn kept_pred(cutoff: i64) -> spec_fn(GroceryItem) -> bool {
    |g: GroceryItem| !expired(g, cutoff)
}

/// Whether the retention policy removes the item, executably.
pub fn is_expired(g: &GroceryItem, cutoff: i64) -> (r: bool)
    ensures
        r == expired(*g, cutoff),
{
    match g.checked_off_at {
        Some(t) => t < cutoff,
        None => false,
    }
}

/// The retention sweep, run before a list is served: every item checked off
/// before `cutoff` is removed, and the remainder is renumbered so the
/// positions stay dense, in the items' original relative order.
pub fn sweep(store: &mut ItemStore, cutoff: i64)
    requires
        old(store).wf(),
    ensures
        final(store).wf(),
        final(store).next_id == old(store).next_id,
        final(store)@ == renumber(old(store)@.filter(kept_pred(cutoff))),
{
    let ghost pre = store@;
    let ghost p = kept_pred(cutoff);
    let mut kept: Vec<GroceryItem> = Vec::new();
    let mut j: usize = 0;
    proof {
        reveal(Seq::filter);
        assert(pre.take(0).filter(p) =~= Seq::<GroceryItem>::empty());
    }
    while j < store.items.len()
        invariant
            store.items@ == pre,
            store.next_id == old(store).next_id,
            old(store).wf(),
            pre == old(store)@,
            p == kept_pred(cutoff),
            j <= pre.len(),
            kept@.len() <= j,
            kept@ == pre.take(j as int).filter(p),
            forall|k: int|
                0 <= k < kept@.len() ==> exists|i: int| 0 <= i < j && #[trigger] kept@[k] == pre[i],
            forall|k1: int, k2: int|
                #![trigger kept@[k1].id, kept@[k2].id]
                0 <= k1 < k2 < kept@.len() ==> kept@[k1].id != kept@[k2].id,
        decreases pre.len() - j,
    {
        let ghost kept_before = kept@;
        let keep = !is_expired(&store.items[j], cutoff);
        if keep {
            kept.push(store.items[j].duplicate());
        }
        proof {
            reveal(Seq::filter);
            let tj = pre.take(j as int);
            let tj1 = pre.take(j as int + 1);
            assert(tj1.drop_last() =~= tj);
            assert(tj1.last() == pre[j as int]);
            assert(kept@ == tj1.filter(p));
            assert forall|k: int|
                0 <= k < kept@.len() implies exists|i: int|
                0 <= i < j + 1 && #[trigger] kept@[k] == pre[i] by {
                if k < kept_before.len() {
                    assert(kept@[k] == kept_before[k]);
                    let i = choose|i: int| 0 <= i < j && kept_before[k] == pre[i];
                    assert(0 <= i < j + 1 && kept@[k] == pre[i]);
                } else {
                    assert(kept@[k] == pre[j as int]);
                }
            }
            assert forall|k1: int, k2: int|
                #![trigger kept@[k1].id, kept@[k2].id]
                0 <= k1 < k2 < kept@.len() implies kept@[k1].id != kept@[k2].id by {
                if k2 < kept_before.len() {
                    assert(kept@[k1] == kept_before[k1] && kept@[k2] == kept_before[k2]);
                    assert(kept_before[k1].id != kept_before[k2].id);
                } else {
                    assert(kept@[k2] == pre[j as int]);
                    assert(kept@[k1] == kept_before[k1]);
                    let i = choose|i: int| 0 <= i < j && kept_before[k1] == pre[i];
                    assert(pre[i].id != pre[j as int].id);
                }
            }
        }
        j = j + 1;
    }
    proof {
        assert(pre.take(pre.len() as int) =~= pre);
        assert(kept@ == pre.filter(p));
    }
    store.items = kept;
    renumber_from(&mut store.items, 0);
    proof {
        let filtered = pre.filter(p);
        lemma_renumber(filtered);
        assert(ids_ok(filtered, store.next_id)) by {
            assert forall|i: int|
                0 <= i < filtered.len() implies 1 <= (#[trigger] filtered[i]).id
                < store.next_id by {
                let w = choose|w: int| 0 <= w < pre.len() && filtered[i] == pre[w];
                assert(1 <= pre[w].id < store.next_id);
            }
        }
        lemma_renumber_ids_ok(filtered, store.next_id);
        assert(final(store).wf());
    }
}

/// The pre-list cleanup as the front end performs it: sweep at midnight of
/// the current UTC day, so items checked off yesterday or earlier are
/// removed and today's survive.  The cutoff is the clock's reading, which no
/// caller can predict: what is promised is that the new state is the swept
/// image of the old one at some single cutoff.
pub fn sweep_today(store: &mut ItemStore)
    requires
        old(store).wf(),
    ensures
        final(store).wf(),
        final(store).next_id == old(store).next_id,
        exists|cutoff: i64|
            final(store)@ == renumber(old(store)@.filter(#[trigger] kept_pred(cutoff))),
{
    let cutoff = crate::clock::start_of_today();
    sweep(store, cutoff);
    proof {
        assert(store@ == renumber(old(store)@.filter(kept_pred(cutoff))));
    }
}

} // verus!

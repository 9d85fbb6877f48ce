use vstd::prelude::*;
use vstd::multiset::Multiset;

use crate::entry::StoredEntry;

verus! {

/// The rows stand in most-recent-first order: ids never increase from one
/// row to the next.
pub open spec fn sorted_desc(s: Seq<StoredEntry>) -> bool {
    forall|i: int, j: int| 0 <= i < j < s.len() ==> (#[trigger] s[i]).id >= (#[trigger] s[j]).id
}

/// Rows in most-recent-first order whose ids are pairwise distinct, as the
/// store assigns them, stand in strictly descending id order.
pub proof fn lemma_sorted_distinct_ids_strict(s: Seq<StoredEntry>)
    requires
        sorted_desc(s),
        forall|i: int, j: int|
            0 <= i < j < s.len() ==> (#[trigger] s[i]).id != (#[trigger] s[j]).id,
    ensures
        forall|i: int, j: int|
            0 <= i < j < s.len() ==> (#[trigger] s[i]).id > (#[trigger] s[j]).id,
{
}

fn max_id_index(v: &Vec<StoredEntry>) -> (best: usize)
    requires
        v@.len() > 0,
    ensures
        best < v@.len(),
        forall|j: int| 0 <= j < v@.len() ==> v@[best as int].id >= (#[trigger] v@[j]).id,
{
    let mut best: usize = 0;
    let mut k: usize = 1;
    while k < v.len()
        invariant
            best < v@.len(),
            k <= v@.len(),
            forall|j: int| 0 <= j < k ==> v@[best as int].id >= (#[trigger] v@[j]).id,
        decreases v@.len() - k,
    {
        if v[k].id > v[best].id {
            best = k;
        }
        k = k + 1;
    }
    best
}

/// Sort rows by id, largest first, keeping exactly the given rows.
pub fn sort_desc(rows: Vec<StoredEntry>) -> (r: Vec<StoredEntry>)
    ensures
        sorted_desc(r@),
        r@.to_multiset() == rows@.to_multiset(),
        r@.len() == rows@.len(),
{
    broadcast use vstd::seq_lib::group_to_multiset_ensures;

    let mut src = rows;
    let mut out: Vec<StoredEntry> = Vec::new();
    proof {
        assert(out@.to_multiset().add(src@.to_multiset()) =~= rows@.to_multiset());
    }
    while src.len() > 0
        invariant
            sorted_desc(out@),
            out@.to_multiset().add(src@.to_multiset()) == rows@.to_multiset(),
            out@.len() + src@.len() == rows@.len(),
            forall|i: int, j: int|
                0 <= i < out@.len() && 0 <= j < src@.len() ==> (#[trigger] out@[i]).id
                    >= (#[trigger] src@[j]).id,
        decreases src.len(),
    {
        broadcast use vstd::seq_lib::group_to_multiset_ensures;

        let best = max_id_index(&src);
        let ghost src0 = src@;
        let ghost out0 = out@;
        let e = src.remove(best);
        out.push(e);
        proof {
            src0.remove_ensures(best as int);
            assert(src@.to_multiset() =~= src0.to_multiset().remove(e));
            assert(out@.to_multiset() =~= out0.to_multiset().insert(e));
            assert(src0.to_multiset().count(e) > 0);
            assert(out@.to_multiset().add(src@.to_multiset()) =~= out0.to_multiset().add(
                src0.to_multiset(),
            ));
            assert forall|i: int, j: int|
                0 <= i < out@.len() && 0 <= j < src@.len() implies (#[trigger] out@[i]).id
                >= (#[trigger] src@[j]).id by {
                if j < best {
                    assert(src@[j] == src0[j]);
                } else {
                    assert(src@[j] == src0[j + 1]);
                }
                if i < out0.len() {
                    assert(out@[i] == out0[i]);
                } else {
                    assert(out@[i] == e);
                }
            }
            assert forall|i: int, j: int| 0 <= i < j < out@.len() implies (#[trigger] out@[i]).id
                >= (#[trigger] out@[j]).id by {
                if j < out0.len() {
                    assert(out@[i] == out0[i]);
                    assert(out@[j] == out0[j]);
                } else {
                    assert(out@[j] == e);
                    assert(out@[i] == out0[i]);
                    assert(out0[i].id >= src0[best as int].id);
                }
            }
        }
    }
    proof {
        assert(src@.to_multiset() =~= Multiset::<StoredEntry>::empty());
        assert(out@.to_multiset().add(Multiset::<StoredEntry>::empty()) =~= out@.to_multiset());
    }
    out
}

/// Keep the `amount` most recent of the given rows, most recent first; an
/// `amount` of zero keeps them all. The result is a most-recent-first
/// arrangement of the given rows, cut off after `amount` rows: every row
/// that is kept has an id at least as large as every row that is dropped.
pub fn select_recent(rows: Vec<StoredEntry>, amount: usize) -> (r: Vec<StoredEntry>)
    ensures
        sorted_desc(r@),
        r@.len() == if amount == 0 || rows@.len() <= amount {
            rows@.len() as int
        } else {
            amount as int
        },
        exists|full: Seq<StoredEntry>|
            {
                &&& full.to_multiset() == rows@.to_multiset()
                &&& sorted_desc(full)
                &&& r@ == if amount == 0 || full.len() <= amount {
                    full
                } else {
                    full.take(amount as int)
                }
            },
        forall|i: int, x: StoredEntry|
            0 <= i < r@.len() && (#[trigger] r@.to_multiset().count(x)) < rows@.to_multiset().count(
                x,
            ) ==> (#[trigger] r@[i]).id >= x.id,
{
    let mut sorted = sort_desc(rows);
    let ghost full = sorted@;
    if amount > 0 && sorted.len() > amount {
        sorted.truncate(amount);
        proof {
            assert(sorted@ =~= full.take(amount as int));
            assert forall|i: int, j: int| 0 <= i < j < sorted@.len() implies (#[trigger] sorted@[i]).id
                >= (#[trigger] sorted@[j]).id by {
                assert(sorted@[i] == full[i]);
                assert(sorted@[j] == full[j]);
            }
        }
    }
    proof {
        broadcast use vstd::seq_lib::group_to_multiset_ensures;

        if amount > 0 && full.len() > amount {
            let taken = full.take(amount as int);
            let dropped = full.skip(amount as int);
            assert(full =~= taken + dropped);
            vstd::seq_lib::lemma_multiset_commutative(taken, dropped);
            assert forall|i: int, x: StoredEntry|
                0 <= i < sorted@.len() && (#[trigger] sorted@.to_multiset().count(x))
                    < rows@.to_multiset().count(x) implies (#[trigger] sorted@[i]).id >= x.id by {
                assert(dropped.to_multiset().count(x) > 0);
                assert(dropped.contains(x));
                let k = choose|k: int| 0 <= k < dropped.len() && dropped[k] == x;
                assert(full[amount + k] == x);
                assert(sorted@[i] == full[i]);
                assert(full[i].id >= full[amount + k].id);
            }
        } else {
            assert(sorted@.to_multiset() == rows@.to_multiset());
        }
        assert(exists|f: Seq<StoredEntry>|
            {
                &&& f.to_multiset() == rows@.to_multiset()
                &&& sorted_desc(f)
                &&& sorted@ == if amount == 0 || f.len() <= amount {
                    f
                } else {
                    f.take(amount as int)
                }
            }) by {
            assert({
                &&& full.to_multiset() == rows@.to_multiset()
                &&& sorted_desc(full)
                &&& sorted@ == if amount == 0 || full.len() <= amount {
                    full
                } else {
                    full.take(amount as int)
                }
            });
        }
    }
    sorted
}

} // verus!

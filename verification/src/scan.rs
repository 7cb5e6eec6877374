//! Counting over a scan: the part of a set that lies in a prefix of a
//! duplicate-free sequence.

use vstd::prelude::*;
use vstd::set_lib::*;
use crate::address::Id;

verus! {

/// The members of `set` among the first `i` elements of `ids`.
pub open spec fn seen(set: Set<Id>, ids: Seq<Id>, i: int) -> Set<Id> {
    Set::new(|x: Id| set.contains(x) && ids.take(i).contains(x))
}

/// What a prefix that is one element longer holds.
pub proof fn lemma_take_step(ids: Seq<Id>, i: int)
    requires
        ids.no_duplicates(),
        0 <= i < ids.len(),
    ensures
        !ids.take(i).contains(ids[i]),
        forall|x: Id| ids.take(i + 1).contains(x) <==> (x == ids[i] || ids.take(i).contains(x)),
{
    assert(ids.take(i + 1) =~= ids.take(i).push(ids[i]));
    assert forall|x: Id| ids.take(i + 1).contains(x) <==> (x == ids[i] || ids.take(i).contains(
        x,
    )) by {
        if ids.take(i).contains(x) {
            let p = ids.take(i).index_of(x);
            assert(ids.take(i + 1)[p] == x);
        }
        if x == ids[i] {
            assert(ids.take(i + 1)[i] == x);
        }
    }
}

/// Nothing has been seen before the scan starts.
pub proof fn lemma_seen_none(set: Set<Id>, ids: Seq<Id>)
    ensures
        seen(set, ids, 0) == Set::<Id>::empty(),
        seen(set, ids, 0).len() == 0,
{
    assert(seen(set, ids, 0) =~= Set::<Id>::empty());
}

/// One step of the scan: the element at `i` joins what was seen exactly when
/// it belongs to `set`, and it was not seen before.
pub proof fn lemma_seen_step(set: Set<Id>, ids: Seq<Id>, i: int)
    requires
        ids.no_duplicates(),
        0 <= i < ids.len(),
    ensures
        seen(set, ids, i).finite(),
        seen(set, ids, i + 1).finite(),
        seen(set, ids, i).len() <= i,
        !seen(set, ids, i).contains(ids[i]),
        set.contains(ids[i]) ==> seen(set, ids, i + 1) == seen(set, ids, i).insert(ids[i])
            && seen(set, ids, i + 1).len() == seen(set, ids, i).len() + 1,
        !set.contains(ids[i]) ==> seen(set, ids, i + 1) == seen(set, ids, i),
{
    lemma_take_step(ids, i);
    let prefix = ids.take(i);
    vstd::seq_lib::seq_to_set_is_finite(prefix);
    assert(seen(set, ids, i).subset_of(prefix.to_set()));
    lemma_len_subset(seen(set, ids, i), prefix.to_set());
    prefix.unique_seq_to_set();
    if set.contains(ids[i]) {
        assert(seen(set, ids, i + 1) =~= seen(set, ids, i).insert(ids[i]));
    } else {
        assert(seen(set, ids, i + 1) =~= seen(set, ids, i));
    }
}

/// When the scan is over, all of `set` that the sequence holds has been seen.
pub proof fn lemma_seen_all(set: Set<Id>, ids: Seq<Id>)
    requires
        forall|x: Id| set.contains(x) ==> ids.contains(x),
    ensures
        seen(set, ids, ids.len() as int) == set,
{
    assert(ids.take(ids.len() as int) =~= ids);
    assert(seen(set, ids, ids.len() as int) =~= set);
}

/// Inserting an element into a sequence adds that element and nothing else,
/// and makes no duplicate when the element is new.
pub proof fn lemma_insert_contains(ids: Seq<Id>, at: int, added: Id)
    requires
        0 <= at <= ids.len(),
    ensures
        forall|x: Id| ids.insert(at, added).contains(x) <==> (x == added || ids.contains(x)),
        ids.no_duplicates() && !ids.contains(added) ==> ids.insert(at, added).no_duplicates(),
{
    let longer = ids.insert(at, added);
    assert forall|x: Id| longer.contains(x) <==> (x == added || ids.contains(x)) by {
        if ids.contains(x) {
            let p = ids.index_of(x);
            if p < at {
                assert(longer[p] == x);
            } else {
                assert(longer[p + 1] == x);
            }
        }
        if x == added {
            assert(longer[at] == x);
        }
        if longer.contains(x) {
            let p = longer.index_of(x);
            if p < at {
                assert(ids[p] == x);
            } else if p > at {
                assert(ids[p - 1] == x);
            }
        }
    }
    if ids.no_duplicates() && !ids.contains(added) {
        assert forall|i: int, j: int| 0 <= i < longer.len() && 0 <= j < longer.len() && i != j implies longer[i] != longer[j] by {
            let oi = if i < at { i } else { i - 1 };
            let oj = if j < at { j } else { j - 1 };
            if i != at && j != at {
                assert(longer[i] == ids[oi]);
                assert(longer[j] == ids[oj]);
            } else if i == at {
                assert(longer[j] == ids[oj]);
                assert(ids.contains(ids[oj]));
            } else {
                assert(longer[i] == ids[oi]);
                assert(ids.contains(ids[oi]));
            }
        }
    }
}

} // verus!

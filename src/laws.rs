use vstd::prelude::*;

use crate::delta::{apply_all, apply_spec, DeltaOp};
use crate::executor::{read_set_valid, read_still_valid, ReadDescriptor};
use crate::mvhashmap::{
    deltas_between, observed_spec, read_spec, stop_below, versions_between, Entry, EntryCell,
    ReadModel,
};
use crate::resolver::{failure_scan, values_before};

verus! {

proof fn lemma_prefix_agree(h1: Seq<Option<Entry>>, h2: Seq<Option<Entry>>, lo: int, i: int)
    requires
        0 <= lo,
        0 <= i <= h1.len(),
        i <= h2.len(),
        forall|m: int| 0 <= m < i ==> h1[m] == h2[m],
    ensures
        stop_below(h1, i) == stop_below(h2, i),
        deltas_between(h1, lo, i) == deltas_between(h2, lo, i),
        versions_between(h1, lo, i) == versions_between(h2, lo, i),
    decreases i,
{
    if i > 0 {
        lemma_prefix_agree(h1, h2, lo, i - 1);
    }
}

proof fn lemma_stop_below_range(h: Seq<Option<Entry>>, i: int)
    requires
        0 <= i <= h.len(),
    ensures
        -1 <= stop_below(h, i) < i,
    decreases i,
{
    if i > 0 {
        lemma_stop_below_range(h, i - 1);
    }
}

/// A read by position `i` depends only on the entries below `i`: whatever a position
/// at or above `i` writes, deletes or marks, the read returns the same result and
/// observes the same versions.
pub proof fn lemma_read_ignores_entries_above(
    h: Seq<Option<Entry>>,
    i: int,
    p: int,
    e: Option<Entry>,
)
    requires
        0 <= i <= p < h.len(),
    ensures
        read_spec(h.update(p, e), i) == read_spec(h, i),
        observed_spec(h.update(p, e), i) == observed_spec(h, i),
{
    let h2 = h.update(p, e);
    lemma_stop_below_range(h, i);
    let s = stop_below(h, i);
    lemma_prefix_agree(h, h2, s + 1, i);
    lemma_prefix_agree(h, h2, if s >= 0 { s } else { 0 }, i);
}

/// Once an incarnation of position `i` passes validation, its read set stays valid
/// while only positions at or above `i` change the store: the versions it recorded are
/// still the ones a read would observe when it commits.
pub proof fn lemma_read_set_stays_valid(
    hs: Seq<Seq<Option<Entry>>>,
    i: int,
    reads: Seq<ReadDescriptor>,
    k: int,
    p: int,
    e: Option<Entry>,
)
    requires
        read_set_valid(hs, i, reads),
        0 <= k < hs.len(),
        0 <= i <= p < hs[k].len(),
    ensures
        read_set_valid(hs.update(k, hs[k].update(p, e)), i, reads),
{
    let hs2 = hs.update(k, hs[k].update(p, e));
    lemma_read_ignores_entries_above(hs[k], i, p, e);
    assert forall|j: int| 0 <= j < reads.len() implies {
        &&& (#[trigger] reads[j]).key < hs2.len()
        &&& read_still_valid(hs2[reads[j].key as int], i, reads[j].versions@)
    } by {
        assert(read_still_valid(hs[reads[j].key as int], i, reads[j].versions@));
    }
}

/// Changes to a key that a read set never read cannot make it fail validation. A
/// transaction that only adds deltas to an aggregator records no read of it, so those
/// deltas never cause an abort.
pub proof fn lemma_unread_key_keeps_validity(
    hs: Seq<Seq<Option<Entry>>>,
    i: int,
    reads: Seq<ReadDescriptor>,
    k: int,
    h2: Seq<Option<Entry>>,
)
    requires
        0 <= k < hs.len(),
        forall|j: int| 0 <= j < reads.len() ==> (#[trigger] reads[j]).key != k,
    ensures
        read_set_valid(hs.update(k, h2), i, reads) == read_set_valid(hs, i, reads),
{
    let hs2 = hs.update(k, h2);
    assert forall|j: int| 0 <= j < reads.len() && (#[trigger] reads[j]).key < hs.len() implies hs2[
    reads[j].key as int] == hs[reads[j].key as int] by {}
}

/// An entry that holds a delta and is not an estimate.
pub open spec fn is_plain_delta(e: Option<Entry>) -> bool {
    match e {
        Some(en) => !en.estimate && en.cell is Delta,
        None => true,
    }
}

proof fn lemma_delta_history_no_stop(h: Seq<Option<Entry>>, i: int)
    requires
        i <= h.len(),
        forall|m: int| 0 <= m < i ==> is_plain_delta(#[trigger] h[m]),
    ensures
        stop_below(h, i) == -1,
    decreases i,
{
    if i > 0 {
        lemma_delta_history_no_stop(h, i - 1);
    }
}

/// Deltas commute: a read over a history that holds only deltas below it never waits
/// on another position. It returns all of those deltas, in position order, to be
/// applied to the base state, or `NotFound` where there are none.
pub proof fn lemma_delta_history_never_waits(h: Seq<Option<Entry>>, i: int)
    requires
        0 <= i <= h.len(),
        forall|m: int| 0 <= m < i ==> is_plain_delta(#[trigger] h[m]),
    ensures
        !(read_spec(h, i) is Dependency),
        deltas_between(h, 0, i).len() == 0 ==> read_spec(h, i) is NotFound,
        deltas_between(h, 0, i).len() > 0 ==> read_spec(h, i) == ReadModel::Delta(
            deltas_between(h, 0, i),
            None,
        ),
{
    lemma_delta_history_no_stop(h, i);
}

proof fn lemma_apply_all_push(ds: Seq<DeltaOp>, d: DeltaOp, base: u128)
    ensures
        apply_all(ds.push(d), base) == match apply_all(ds, base) {
            Some(v) => apply_spec(d, v),
            None => None,
        },
    decreases ds.len(),
{
    let dp = ds.push(d);
    if ds.len() > 0 {
        assert(dp.drop_first() =~= ds.drop_first().push(d));
        assert(dp[0] == ds[0]);
        assert(dp.len() > 0);
        match apply_spec(ds[0], base) {
            Some(v) => {
                lemma_apply_all_push(ds.drop_first(), d, v);
                assert(apply_all(dp, base) == apply_all(dp.drop_first(), v));
                assert(apply_all(ds, base) == apply_all(ds.drop_first(), v));
            },
            None => {
                assert(apply_all(dp, base) == None::<u128>);
                assert(apply_all(ds, base) == None::<u128>);
            },
        }
    } else {
        assert(dp.drop_first() =~= Seq::<DeltaOp>::empty());
        assert(dp[0] == d);
        assert(apply_all(ds, base) == Some(base));
        match apply_spec(d, base) {
            Some(v) => {
                assert(apply_all(dp, base) == apply_all(dp.drop_first(), v));
                assert(apply_all(dp.drop_first(), v) == Some(v));
            },
            None => {},
        }
    }
}

/// The value the resolver materializes at a position is the one sequential execution
/// gives: for an aggregator whose history holds only deltas, where applying them one
/// after the other from `base` succeeds, its value after the positions below `i` is
/// exactly that result, the same a reader at `i` obtains from its `Delta` read.
pub proof fn lemma_resolved_value_is_sequential(h: Seq<Option<Entry>>, base: u128, i: int)
    requires
        0 <= i <= h.len(),
        forall|m: int| 0 <= m < i ==> is_plain_delta(#[trigger] h[m]),
        apply_all(deltas_between(h, 0, i), base) is Some,
    ensures
        values_before(seq![h], seq![Some(base)], i).len() == 1,
        values_before(seq![h], seq![Some(base)], i)[0] == apply_all(
            deltas_between(h, 0, i),
            base,
        )->Some_0,
    decreases i,
{
    let hs = seq![h];
    let bases = seq![Some(base)];
    if i == 0 {
        assert(deltas_between(h, 0, 0) =~= Seq::<DeltaOp>::empty());
    } else {
        let prev = deltas_between(h, 0, i - 1);
        assert(is_plain_delta(h[i - 1]));
        assert(hs[0] == h);
        match h[i - 1] {
            Some(en) => match en.cell {
                EntryCell::Delta(d) => {
                    lemma_apply_all_push(prev, d, base);
                    lemma_resolved_value_is_sequential(h, base, i - 1);
                    let vals = values_before(hs, bases, i - 1);
                    assert(failure_scan(hs, bases, vals, i - 1, 0) is None);
                    assert(failure_scan(hs, bases, vals, i - 1, 1) is None);
                },
                EntryCell::Write(_) => {},
            },
            None => {
                lemma_resolved_value_is_sequential(h, base, i - 1);
                let vals = values_before(hs, bases, i - 1);
                assert(failure_scan(hs, bases, vals, i - 1, 0) is None);
                assert(failure_scan(hs, bases, vals, i - 1, 1) is None);
            },
        }
    }
}

/// Workers record the outputs of different positions in whatever order they finish;
/// the store does not depend on that order. Two entries put at different positions,
/// of the same key or of different keys, give the same histories either way round, so
/// the reads, validations and resolved deltas computed from them are the same.
pub proof fn lemma_recording_order_irrelevant(
    hs: Seq<Seq<Option<Entry>>>,
    k1: int,
    p1: int,
    e1: Option<Entry>,
    k2: int,
    p2: int,
    e2: Option<Entry>,
)
    requires
        0 <= k1 < hs.len(),
        0 <= k2 < hs.len(),
        0 <= p1 < hs[k1].len(),
        0 <= p2 < hs[k2].len(),
        p1 != p2,
    ensures
        ({
            let a = hs.update(k1, hs[k1].update(p1, e1));
            let ab = a.update(k2, a[k2].update(p2, e2));
            let b = hs.update(k2, hs[k2].update(p2, e2));
            let ba = b.update(k1, b[k1].update(p1, e1));
            ab == ba
        }),
{
    let a = hs.update(k1, hs[k1].update(p1, e1));
    let ab = a.update(k2, a[k2].update(p2, e2));
    let b = hs.update(k2, hs[k2].update(p2, e2));
    let ba = b.update(k1, b[k1].update(p1, e1));
    if k1 == k2 {
        assert(ab[k1] =~= ba[k1]);
    }
    assert(ab =~= ba);
}

} // verus!

use vstd::prelude::*;

use crate::delta::apply_spec;
use crate::mvhashmap::{Entry, EntryCell, MVHashMap};
use crate::output::{
    writes_view, AptosWrite, Op, OpModel, WriteModel, DELTA_APPLICATION_FAILURE, STORAGE_ERROR,
};

verus! {

/// `256^n`.
pub open spec fn pow256(n: nat) -> nat
    decreases n,
{
    if n == 0 {
        1
    } else {
        256 * pow256((n - 1) as nat)
    }
}

/// The unsigned number whose little-endian bytes are `b`.
pub open spec fn le_value(b: Seq<u8>) -> nat
    decreases b.len(),
{
    if b.len() == 0 {
        0
    } else {
        (b[0] + 256 * le_value(b.drop_first())) as nat
    }
}

/// An aggregator value as storage holds it: a `u128` in 16 little-endian bytes.
pub open spec fn decode_spec(b: Seq<u8>) -> Option<u128> {
    if b.len() == 16 {
        Some(le_value(b) as u128)
    } else {
        None
    }
}

/// What storage holds for a key at the start of the block.
#[derive(Clone, Debug, PartialEq, Eq)]
pub enum BaseValue {
    /// Nothing: an aggregator starts from 0.
    Absent,
    /// The stored bytes.
    Bytes(Vec<u8>),
    /// Reading storage failed.
    Unreadable,
}

/// The value an aggregator starts the block with, or `None` where storage could not
/// be read or does not hold an aggregator value.
pub open spec fn base_of(b: BaseValue) -> Option<u128> {
    match b {
        BaseValue::Absent => Some(0),
        BaseValue::Bytes(bs) => decode_spec(bs@),
        BaseValue::Unreadable => None,
    }
}

/// The starting value that the deltas of a key fold from (0 where it is unknown; its
/// deltas then fail anyway).
pub open spec fn start_of(b: Option<u128>) -> u128 {
    match b {
        Some(v) => v,
        None => 0,
    }
}

/// The aggregator value that a write leaves: 0 for a deletion or unreadable bytes.
pub open spec fn op_value(op: OpModel) -> u128 {
    match op {
        OpModel::Creation(w) | OpModel::Modification(w) => match w {
            WriteModel::AggregatorValue(v) => v,
            WriteModel::Standard(bs) => match decode_spec(bs) {
                Some(v) => v,
                None => 0,
            },
        },
        OpModel::Deletion => 0,
    }
}

/// What the entry of position `i` in history `h` does to an aggregator holding `v`:
/// a write sets the value it writes, a delta that applies sets its result, and
/// anything else leaves `v`.
pub open spec fn entry_step(h: Seq<Option<Entry>>, i: int, v: u128) -> u128 {
    match h[i] {
        Some(en) => match en.cell {
            EntryCell::Write(op) => op_value(op@),
            EntryCell::Delta(d) => match apply_spec(d, v) {
                Some(w) => w,
                None => v,
            },
        },
        None => v,
    }
}

/// The values of all aggregators after position `i` takes effect.
pub open spec fn stepped(hs: Seq<Seq<Option<Entry>>>, vals: Seq<u128>, i: int) -> Seq<u128> {
    Seq::new(vals.len(), |k: int| entry_step(hs[k], i, vals[k]))
}

/// Where the delta of position `i` on key `k` fails, given the key's current value
/// `v`: the status code of the failure, a storage error where the key's base value is
/// unknown.
pub open spec fn key_failure(h: Seq<Option<Entry>>, base: Option<u128>, i: int, v: u128) -> Option<
    u64,
> {
    match h[i] {
        Some(en) => match en.cell {
            EntryCell::Delta(d) => if base is None {
                Some(STORAGE_ERROR)
            } else if apply_spec(d, v) is None {
                Some(DELTA_APPLICATION_FAILURE)
            } else {
                None
            },
            EntryCell::Write(_) => None,
        },
        None => None,
    }
}

/// The failure of the first key below `nk` whose delta at position `i` fails.
pub open spec fn failure_scan(
    hs: Seq<Seq<Option<Entry>>>,
    bases: Seq<Option<u128>>,
    vals: Seq<u128>,
    i: int,
    nk: int,
) -> Option<u64>
    decreases nk,
{
    if nk <= 0 {
        None
    } else {
        let prev = failure_scan(hs, bases, vals, i, nk - 1);
        if prev is Some {
            prev
        } else {
            key_failure(hs[nk - 1], bases[nk - 1], i, vals[nk - 1])
        }
    }
}

/// The materialized writes of the deltas of position `i` on the keys below `nk`, in
/// key order, given the current values.
pub open spec fn writes_scan(hs: Seq<Seq<Option<Entry>>>, vals: Seq<u128>, i: int, nk: int) -> Seq<
    (usize, OpModel),
>
    decreases nk,
{
    if nk <= 0 {
        Seq::empty()
    } else {
        let prev = writes_scan(hs, vals, i, nk - 1);
        match hs[nk - 1][i] {
            Some(en) => match en.cell {
                EntryCell::Delta(d) => match apply_spec(d, vals[nk - 1]) {
                    Some(w) => prev.push(
                        ((nk - 1) as usize, OpModel::Modification(WriteModel::AggregatorValue(w))),
                    ),
                    None => prev,
                },
                EntryCell::Write(_) => prev,
            },
            None => prev,
        }
    }
}

/// The values of all aggregators before position `i`, the positions below it taken
/// in order. A position with a failing delta is discarded whole: none of its writes
/// or deltas, on any key, takes effect.
pub open spec fn values_before(hs: Seq<Seq<Option<Entry>>>, bases: Seq<Option<u128>>, i: int) -> Seq<
    u128,
>
    decreases i,
{
    if i <= 0 {
        bases.map_values(|b: Option<u128>| start_of(b))
    } else {
        let vals = values_before(hs, bases, i - 1);
        if failure_scan(hs, bases, vals, i - 1, bases.len() as int) is Some {
            vals
        } else {
            stepped(hs, vals, i - 1)
        }
    }
}

/// The status code position `i` is discarded with, where one of its deltas on a key
/// below `nk` fails: that of the first such key.
pub open spec fn delta_failure_at(
    hs: Seq<Seq<Option<Entry>>>,
    bases: Seq<Option<u128>>,
    i: int,
    nk: int,
) -> Option<u64> {
    failure_scan(hs, bases, values_before(hs, bases, i), i, nk)
}

/// The materialized writes of position `i` for the keys below `nk`: none where the
/// position is discarded.
pub open spec fn delta_writes_at(
    hs: Seq<Seq<Option<Entry>>>,
    bases: Seq<Option<u128>>,
    i: int,
    nk: int,
) -> Seq<(usize, OpModel)> {
    if delta_failure_at(hs, bases, i, bases.len() as int) is Some {
        Seq::empty()
    } else {
        writes_scan(hs, values_before(hs, bases, i), i, nk)
    }
}

/// The starting values of all keys.
pub open spec fn bases_of(base_values: Seq<BaseValue>) -> Seq<Option<u128>> {
    base_values.map_values(|b: BaseValue| base_of(b))
}

proof fn lemma_le_value_bound(b: Seq<u8>)
    ensures
        le_value(b) < pow256(b.len()),
    decreases b.len(),
{
    if b.len() > 0 {
        lemma_le_value_bound(b.drop_first());
        let x = le_value(b.drop_first());
        let p = pow256((b.len() - 1) as nat);
        let b0 = b[0] as int;
        assert(b0 + 256 * x < 256 * p) by (nonlinear_arith)
            requires
                x < p,
                0 <= b0 < 256,
        ;
    }
}

/// Reads an aggregator value from 16 little-endian bytes.
pub fn decode_aggregator_value(b: &Vec<u8>) -> (r: Option<u128>)
    ensures
        r == decode_spec(b@),
{
    if b.len() != 16 {
        return None;
    }
    proof {
        lemma_le_value_bound(b@);
        reveal_with_fuel(pow256, 17);
    }
    let mut acc: u128 = 0;
    let mut i: usize = 16;
    assert(b@.subrange(16, 16).len() == 0);
    while i > 0
        invariant
            i <= 16,
            b@.len() == 16,
            acc as nat == le_value(b@.subrange(i as int, 16)),
            le_value(b@) < pow256(16),
            pow256(16) == 0x1_0000_0000_0000_0000_0000_0000_0000_0000,
        decreases i,
    {
        let ghost tail = b@.subrange(i as int, 16);
        let ghost ext = b@.subrange(i - 1, 16);
        assert(ext.drop_first() =~= tail);
        assert(le_value(ext) == b@[i - 1] + 256 * le_value(tail));
        proof {
            lemma_le_value_bound(ext);
            lemma_le_value_bound(tail);
            lemma_pow256_mono((17 - i) as nat, 16);
        }
        acc = acc * 256 + b[i - 1] as u128;
        i = i - 1;
    }
    assert(b@.subrange(0, 16) =~= b@);
    Some(acc)
}

proof fn lemma_pow256_mono(a: nat, b: nat)
    requires
        a <= b,
    ensures
        pow256(a) <= pow256(b),
    decreases b - a,
{
    if a < b {
        lemma_pow256_mono(a, (b - 1) as nat);
    }
}

/// The aggregator value that a write leaves, as `op_value` states.
fn value_of_op(op: &Op) -> (r: u128)
    ensures
        r == op_value(op@),
{
    match op {
        Op::Creation(w) | Op::Modification(w) => match w {
            AptosWrite::AggregatorValue(v) => *v,
            AptosWrite::Standard(bs) => match decode_aggregator_value(bs) {
                Some(v) => v,
                None => 0,
            },
        },
        Op::Deletion => 0,
    }
}

/// The starting value of one aggregator, as `base_of` states.
fn value_of_base(b: &BaseValue) -> (r: Option<u128>)
    ensures
        r == base_of(*b),
{
    match b {
        BaseValue::Absent => Some(0),
        BaseValue::Bytes(bs) => decode_aggregator_value(bs),
        BaseValue::Unreadable => None,
    }
}

/// Materializes the deltas of a block once all its transactions are committed.
pub struct OutputDeltaResolver {
    pub versioned_outputs: MVHashMap,
}

impl OutputDeltaResolver {
    pub fn new(versioned_outputs: MVHashMap) -> (r: Self)
        ensures
            r.versioned_outputs == versioned_outputs,
    {
        Self { versioned_outputs }
    }

    /// For each position, the aggregator writes that its deltas materialize to, and
    /// the status code it is discarded with where one of its deltas failed.
    /// `base_values` holds what storage has for each key. Each key's history is walked
    /// in position order from its starting value; a delta that applies yields a
    /// modification to the new value, one that fails marks its position and leaves the
    /// value unchanged. Where the base value cannot be read, every delta on the key
    /// fails with a storage error.
    pub fn resolve(self, base_values: &Vec<BaseValue>, block_size: usize) -> (r: (
        Vec<Vec<(usize, Op)>>,
        Vec<Option<u64>>,
    ))
        requires
            self.versioned_outputs.wf(),
            block_size == self.versioned_outputs.spec_block_size(),
            base_values@.len() == self.versioned_outputs.histories().len(),
        ensures
            r.0@.len() == block_size,
            r.1@.len() == block_size,
            forall|i: int|
                0 <= i < block_size ==> writes_view(#[trigger] r.0@[i]@) == delta_writes_at(
                    self.versioned_outputs.histories(),
                    bases_of(base_values@),
                    i,
                    base_values@.len() as int,
                ),
            forall|i: int|
                0 <= i < block_size ==> #[trigger] r.1@[i] == delta_failure_at(
                    self.versioned_outputs.histories(),
                    bases_of(base_values@),
                    i,
                    base_values@.len() as int,
                ),
    {
        let store = &self.versioned_outputs;
        let ghost hs = store.histories();
        let ghost bases = bases_of(base_values@);
        let n = store.block_size();
        let nk = store.num_keys();
        let mut base_opts: Vec<Option<u128>> = Vec::new();
        let mut vals: Vec<u128> = Vec::new();
        let mut k: usize = 0;
        while k < nk
            invariant
                nk == base_values@.len(),
                bases == bases_of(base_values@),
                k <= nk,
                base_opts@.len() == k,
                vals@.len() == k,
                forall|m: int| 0 <= m < k ==> #[trigger] base_opts@[m] == bases[m],
                forall|m: int| 0 <= m < k ==> #[trigger] vals@[m] == start_of(bases[m]),
            decreases nk - k,
        {
            let bo = value_of_base(&base_values[k]);
            base_opts.push(bo);
            vals.push(
                match bo {
                    Some(v) => v,
                    None => 0,
                },
            );
            k = k + 1;
        }
        assert(base_opts@ =~= bases);
        assert(vals@ =~= values_before(hs, bases, 0));
        let mut ret: Vec<Vec<(usize, Op)>> = Vec::new();
        let mut failed: Vec<Option<u64>> = Vec::new();
        let mut p: usize = 0;
        while p < n
            invariant
                store.wf(),
                hs == store.histories(),
                bases == bases_of(base_values@),
                n == block_size == store.spec_block_size(),
                nk == hs.len() == base_values@.len() == bases.len(),
                base_opts@ == bases,
                p <= n,
                vals@ == values_before(hs, bases, p as int),
                vals@.len() == nk,
                ret@.len() == p,
                failed@.len() == p,
                forall|q: int|
                    0 <= q < p ==> writes_view(#[trigger] ret@[q]@) == delta_writes_at(
                        hs,
                        bases,
                        q,
                        nk as int,
                    ),
                forall|q: int|
                    0 <= q < p ==> #[trigger] failed@[q] == delta_failure_at(
                        hs,
                        bases,
                        q,
                        nk as int,
                    ),
            decreases n - p,
        {
            let mut code: Option<u64> = None;
            let mut k: usize = 0;
            while k < nk
                invariant
                    store.wf(),
                    hs == store.histories(),
                    nk == hs.len() == bases.len(),
                    n == store.spec_block_size(),
                    p < n,
                    base_opts@ == bases,
                    vals@.len() == nk,
                    k <= nk,
                    code == failure_scan(hs, bases, vals@, p as int, k as int),
                decreases nk - k,
            {
                if code.is_none() {
                    let h = store.history(k);
                    match &h[p] {
                        Some(en) => match &en.cell {
                            EntryCell::Delta(d) => {
                                if base_opts[k].is_none() {
                                    code = Some(STORAGE_ERROR);
                                } else if d.apply_to(vals[k]).is_none() {
                                    code = Some(DELTA_APPLICATION_FAILURE);
                                }
                            },
                            EntryCell::Write(_) => {},
                        },
                        None => {},
                    }
                }
                k = k + 1;
            }
            if code.is_some() {
                ret.push(Vec::new());
                failed.push(code);
                proof {
                    assert(writes_view(ret@[p as int]@) =~= Seq::empty());
                }
            } else {
                let ghost old_vals = vals@;
                let mut row: Vec<(usize, Op)> = Vec::new();
                let mut k: usize = 0;
                while k < nk
                    invariant
                        store.wf(),
                        hs == store.histories(),
                        nk == hs.len() == bases.len(),
                        n == store.spec_block_size(),
                        p < n,
                        old_vals.len() == nk,
                        vals@.len() == nk,
                        k <= nk,
                        writes_view(row@) == writes_scan(hs, old_vals, p as int, k as int),
                        forall|m: int|
                            0 <= m < k ==> #[trigger] vals@[m] == entry_step(
                                hs[m],
                                p as int,
                                old_vals[m],
                            ),
                        forall|m: int| k <= m < nk ==> #[trigger] vals@[m] == old_vals[m],
                    decreases nk - k,
                {
                    let h = store.history(k);
                    let ghost before_row = row@;
                    match &h[p] {
                        Some(en) => match &en.cell {
                            EntryCell::Write(op) => {
                                let v = value_of_op(op);
                                vals.set(k, v);
                            },
                            EntryCell::Delta(d) => {
                                match d.apply_to(vals[k]) {
                                    Some(w) => {
                                        vals.set(k, w);
                                        let wr = Op::Modification(AptosWrite::AggregatorValue(w));
                                        row.push((k, wr));
                                        assert(writes_view(row@) =~= writes_view(before_row).push(
                                            (k, wr@),
                                        ));
                                    },
                                    None => {},
                                }
                            },
                        },
                        None => {},
                    }
                    k = k + 1;
                }
                assert(vals@ =~= stepped(hs, old_vals, p as int));
                ret.push(row);
                failed.push(None);
            }
            p = p + 1;
        }
        (ret, failed)
    }
}

} // verus!

use vstd::prelude::*;

use crate::delta::DeltaOp;
use crate::mvhashmap::{
    observed_spec, read_spec, Entry, EntryCell, MVHashMap, ReadResult, Version,
};
use crate::output::{
    copy_bytes, writes_view, Op, OpModel, TransactionOutput, TransactionStatus,
    VMTransactionOutput,
};

verus! {

/// One recorded read: the key, and the versions the read observed (empty where it
/// fell through to the base state).
#[derive(Debug)]
pub struct ReadDescriptor {
    pub key: usize,
    pub versions: Vec<Version>,
}

/// A read that would observe `versions` again, without waiting.
pub open spec fn read_still_valid(h: Seq<Option<Entry>>, i: int, versions: Seq<Version>) -> bool {
    !(read_spec(h, i) is Dependency) && observed_spec(h, i) == versions
}

/// Every read of the set, made again by position `i`, observes what it recorded.
pub open spec fn read_set_valid(
    hs: Seq<Seq<Option<Entry>>>,
    i: int,
    reads: Seq<ReadDescriptor>,
) -> bool {
    forall|j: int|
        0 <= j < reads.len() ==> {
            &&& (#[trigger] reads[j]).key < hs.len()
            &&& read_still_valid(hs[reads[j].key as int], i, reads[j].versions@)
        }
}

fn same_versions(a: &Vec<Version>, b: &Vec<Version>) -> (r: bool)
    ensures
        r == (a@ == b@),
{
    if a.len() != b.len() {
        return false;
    }
    let mut i: usize = 0;
    while i < a.len()
        invariant
            a@.len() == b@.len(),
            i <= a@.len(),
            forall|m: int| 0 <= m < i ==> a@[m] == b@[m],
        decreases a.len() - i,
    {
        if a[i] != b[i] {
            return false;
        }
        i = i + 1;
    }
    assert(a@ =~= b@);
    true
}

/// Validates the reads recorded by an incarnation of position `idx`: `true` exactly
/// when each of them, made again now, observes the same versions.
pub fn validate_read_set(store: &MVHashMap, idx: usize, reads: &Vec<ReadDescriptor>) -> (r: bool)
    requires
        store.wf(),
        idx <= store.spec_block_size(),
    ensures
        r == read_set_valid(store.histories(), idx as int, reads@),
{
    let mut j: usize = 0;
    while j < reads.len()
        invariant
            store.wf(),
            idx <= store.spec_block_size(),
            j <= reads@.len(),
            read_set_valid(store.histories(), idx as int, reads@.subrange(0, j as int)),
        decreases reads.len() - j,
    {
        let rd = &reads[j];
        if rd.key >= store.num_keys() {
            assert(!read_set_valid(store.histories(), idx as int, reads@)) by {
                assert(reads@[j as int] == *rd);
            }
            return false;
        }
        match store.observed_versions(rd.key, idx) {
            Some(vs) => {
                if !same_versions(&vs, &rd.versions) {
                    assert(!read_set_valid(store.histories(), idx as int, reads@)) by {
                        assert(reads@[j as int] == *rd);
                    }
                    return false;
                }
            },
            None => {
                assert(!read_set_valid(store.histories(), idx as int, reads@)) by {
                    assert(reads@[j as int] == *rd);
                }
                return false;
            },
        }
        assert(read_set_valid(store.histories(), idx as int, reads@.subrange(0, j + 1))) by {
            assert forall|m: int| 0 <= m < j + 1 implies {
                &&& (#[trigger] reads@.subrange(0, j + 1)[m]).key < store.histories().len()
                &&& read_still_valid(
                    store.histories()[reads@.subrange(0, j + 1)[m].key as int],
                    idx as int,
                    reads@.subrange(0, j + 1)[m].versions@,
                )
            } by {
                if m < j {
                    assert(reads@.subrange(0, j + 1)[m] == reads@.subrange(0, j as int)[m]);
                }
            }
        }
        j = j + 1;
    }
    assert(reads@.subrange(0, reads@.len() as int) =~= reads@);
    true
}

/// The content of an entry cell, seen through the view of its write.
pub enum CellModel {
    Write(OpModel),
    Delta(DeltaOp),
}

pub open spec fn cell_model(c: EntryCell) -> CellModel {
    match c {
        EntryCell::Write(op) => CellModel::Write(op@),
        EntryCell::Delta(d) => CellModel::Delta(d),
    }
}

/// The last write to key `k` among the first `n` writes.
pub open spec fn last_write(ws: Seq<(usize, Op)>, k: usize, n: int) -> Option<CellModel>
    decreases n,
{
    if n <= 0 {
        None
    } else if ws[n - 1].0 == k {
        Some(CellModel::Write(ws[n - 1].1@))
    } else {
        last_write(ws, k, n - 1)
    }
}

/// The last delta to key `k` among the first `n` deltas.
pub open spec fn last_delta(ds: Seq<(usize, DeltaOp)>, k: usize, n: int) -> Option<CellModel>
    decreases n,
{
    if n <= 0 {
        None
    } else if ds[n - 1].0 == k {
        Some(CellModel::Delta(ds[n - 1].1))
    } else {
        last_delta(ds, k, n - 1)
    }
}

/// What an output leaves at key `k`: its last delta there, else its last write.
pub open spec fn output_cell(o: VMTransactionOutput, k: usize) -> Option<CellModel> {
    match last_delta(o.deltas@, k, o.deltas@.len() as int) {
        Some(c) => Some(c),
        None => last_write(o.writes@, k, o.writes@.len() as int),
    }
}

/// The entry that position `idx` holds at a key after recording an output there.
pub open spec fn recorded_entry(
    before: Option<Entry>,
    c: Option<CellModel>,
    cleared: bool,
    incarnation: u32,
    after: Option<Entry>,
) -> bool {
    match c {
        Some(cm) => match after {
            Some(en) => en.incarnation == incarnation && !en.estimate && cell_model(en.cell) == cm,
            None => false,
        },
        None => if cleared {
            after is None
        } else {
            after == before
        },
    }
}

/// Whether `k` is among the first `n` keys.
pub open spec fn key_among(keys: Seq<usize>, k: usize, n: int) -> bool
    decreases n,
{
    n > 0 && (keys[n - 1] == k || key_among(keys, k, n - 1))
}

pub open spec fn keys_in_range(keys: Seq<usize>, nk: nat) -> bool {
    forall|j: int| 0 <= j < keys.len() ==> #[trigger] keys[j] < nk
}

/// `after` is `before` with `output` recorded for incarnation `incarnation` of
/// position `idx`, the keys of the previous incarnation (`prev_keys`) cleared first:
/// no other position changes, and at `idx` each key holds what `recorded_entry` says.
pub open spec fn output_recorded(
    before: Seq<Seq<Option<Entry>>>,
    after: Seq<Seq<Option<Entry>>>,
    n: nat,
    idx: int,
    incarnation: u32,
    prev_keys: Seq<usize>,
    output: VMTransactionOutput,
) -> bool {
    &&& after.len() == before.len()
    &&& forall|k: int|
        0 <= k < before.len() ==> (#[trigger] after[k]).len() == before[k].len()
    &&& forall|k: int, p: int|
        0 <= k < before.len() && 0 <= p < n && p != idx ==> #[trigger] after[k][p]
            == before[k][p]
    &&& forall|k: int|
        0 <= k < before.len() ==> recorded_entry(
            before[k][idx],
            output_cell(output, k as usize),
            key_among(prev_keys, k as usize, prev_keys.len() as int),
            incarnation,
            #[trigger] after[k][idx],
        )
}

/// Records what incarnation `incarnation` of position `idx` produced: the keys that its
/// previous incarnation wrote (`prev_keys`) are cleared, then each write and each
/// delta is put in the store. Returns the keys written, to be cleared in turn by the
/// next incarnation.
pub fn record_output(
    store: &mut MVHashMap,
    idx: usize,
    incarnation: u32,
    prev_keys: &Vec<usize>,
    output: &VMTransactionOutput,
) -> (keys: Vec<usize>)
    requires
        old(store).wf(),
        idx < old(store).spec_block_size(),
        keys_in_range(prev_keys@, old(store).histories().len()),
        keys_in_range(output.writes@.map_values(|w: (usize, Op)| w.0), old(store).histories().len()),
        keys_in_range(output.deltas@.map_values(|d: (usize, DeltaOp)| d.0), old(store).histories().len()),
    ensures
        final(store).wf(),
        final(store).spec_block_size() == old(store).spec_block_size(),
        final(store).histories().len() == old(store).histories().len(),
        keys@ == output.writes@.map_values(|w: (usize, Op)| w.0) + output.deltas@.map_values(
            |d: (usize, DeltaOp)| d.0,
        ),
        output_recorded(
            old(store).histories(),
            final(store).histories(),
            old(store).spec_block_size(),
            idx as int,
            incarnation,
            prev_keys@,
            *output,
        ),
{
    let ghost h0 = store.histories();
    let ghost nk = h0.len();
    let nkeys = store.num_keys();
    let ghost n = store.spec_block_size();
    let mut a: usize = 0;
    while a < prev_keys.len()
        invariant
            store.wf(),
            store.spec_block_size() == n,
            store.histories().len() == nk,
            nkeys == nk,
            idx < n,
            keys_in_range(prev_keys@, nk),
            a <= prev_keys@.len(),
            forall|k: int, p: int|
                0 <= k < nk && 0 <= p < n && p != idx ==> #[trigger] store.histories()[k][p]
                    == h0[k][p],
            forall|k: int|
                0 <= k < nk ==> #[trigger] store.histories()[k][idx as int] == if key_among(
                    prev_keys@,
                    k as usize,
                    a as int,
                ) {
                    None
                } else {
                    h0[k][idx as int]
                },
        decreases prev_keys.len() - a,
    {
        let key = prev_keys[a];
        assert(prev_keys@[a as int] < nk);
        let ghost before = store.histories();
        store.delete(key, idx);
        assert forall|k: int| 0 <= k < nk implies #[trigger] store.histories()[k][idx as int] == if key_among(
            prev_keys@,
            k as usize,
            a + 1,
        ) {
            None
        } else {
            h0[k][idx as int]
        } by {
            if k != key as int {
                assert(store.histories()[k] == before[k]);
            }
        }
        a = a + 1;
    }
    let ghost h1 = store.histories();
    let mut keys: Vec<usize> = Vec::new();
    let mut b: usize = 0;
    while b < output.writes.len()
        invariant
            store.wf(),
            store.spec_block_size() == n,
            store.histories().len() == nk,
            nkeys == nk,
            idx < n,
            keys_in_range(output.writes@.map_values(|w: (usize, Op)| w.0), nk),
            b <= output.writes@.len(),
            keys@ == output.writes@.map_values(|w: (usize, Op)| w.0).subrange(0, b as int),
            forall|k: int, p: int|
                0 <= k < nk && 0 <= p < n && p != idx ==> #[trigger] store.histories()[k][p]
                    == h0[k][p],
            forall|k: int|
                0 <= k < nk ==> recorded_entry(
                    h1[k][idx as int],
                    last_write(output.writes@, k as usize, b as int),
                    false,
                    incarnation,
                    #[trigger] store.histories()[k][idx as int],
                ),
        decreases output.writes.len() - b,
    {
        let key = output.writes[b].0;
        assert(output.writes@.map_values(|w: (usize, Op)| w.0)[b as int] == key);
        let ghost before = store.histories();
        let cell = EntryCell::Write(output.writes[b].1.duplicate());
        store.write(key, idx, incarnation, cell);
        assert forall|k: int| 0 <= k < nk implies recorded_entry(
            h1[k][idx as int],
            last_write(output.writes@, k as usize, b + 1),
            false,
            incarnation,
            #[trigger] store.histories()[k][idx as int],
        ) by {
            if k != key as int {
                assert(store.histories()[k] == before[k]);
            }
        }
        keys.push(key);
        b = b + 1;
        assert(keys@ =~= output.writes@.map_values(|w: (usize, Op)| w.0).subrange(0, b as int));
    }
    let ghost h2 = store.histories();
    let mut c: usize = 0;
    while c < output.deltas.len()
        invariant
            store.wf(),
            store.spec_block_size() == n,
            store.histories().len() == nk,
            nkeys == nk,
            idx < n,
            keys_in_range(output.deltas@.map_values(|d: (usize, DeltaOp)| d.0), nk),
            c <= output.deltas@.len(),
            keys@ == output.writes@.map_values(|w: (usize, Op)| w.0) + output.deltas@.map_values(
                |d: (usize, DeltaOp)| d.0,
            ).subrange(0, c as int),
            forall|k: int, p: int|
                0 <= k < nk && 0 <= p < n && p != idx ==> #[trigger] store.histories()[k][p]
                    == h0[k][p],
            forall|k: int|
                0 <= k < nk ==> match last_delta(output.deltas@, k as usize, c as int) {
                    Some(cm) => match #[trigger] store.histories()[k][idx as int] {
                        Some(en) => en.incarnation == incarnation && !en.estimate && cell_model(
                            en.cell,
                        ) == cm,
                        None => false,
                    },
                    None => store.histories()[k][idx as int] == h2[k][idx as int],
                },
        decreases output.deltas.len() - c,
    {
        let key = output.deltas[c].0;
        assert(output.deltas@.map_values(|d: (usize, DeltaOp)| d.0)[c as int] == key);
        let ghost before = store.histories();
        store.write(key, idx, incarnation, EntryCell::Delta(output.deltas[c].1));
        assert forall|k: int| 0 <= k < nk implies match last_delta(
            output.deltas@,
            k as usize,
            c + 1,
        ) {
            Some(cm) => match #[trigger] store.histories()[k][idx as int] {
                Some(en) => en.incarnation == incarnation && !en.estimate && cell_model(en.cell)
                    == cm,
                None => false,
            },
            None => store.histories()[k][idx as int] == h2[k][idx as int],
        } by {
            if k != key as int {
                assert(store.histories()[k] == before[k]);
            }
        }
        keys.push(key);
        c = c + 1;
        assert(keys@ =~= output.writes@.map_values(|w: (usize, Op)| w.0) + output.deltas@.map_values(
            |d: (usize, DeltaOp)| d.0,
        ).subrange(0, c as int));
    }
    assert(output.writes@.map_values(|w: (usize, Op)| w.0).subrange(
        0,
        output.writes@.len() as int,
    ) =~= output.writes@.map_values(|w: (usize, Op)| w.0));
    assert(output.deltas@.map_values(|d: (usize, DeltaOp)| d.0).subrange(
        0,
        output.deltas@.len() as int,
    ) =~= output.deltas@.map_values(|d: (usize, DeltaOp)| d.0));
    keys
}

/// Reads `key` for position `idx` and records the read: the versions it observed are
/// appended to `reads`. A read that must wait records nothing.
pub fn read_recorded(store: &MVHashMap, key: usize, idx: usize, reads: &mut Vec<ReadDescriptor>) -> (r:
    ReadResult)
    requires
        store.wf(),
        key < store.histories().len(),
        idx <= store.spec_block_size(),
    ensures
        r@ == read_spec(store.histories()[key as int], idx as int),
        r is Dependency ==> final(reads)@ == old(reads)@,
        !(r is Dependency) ==> {
            &&& final(reads)@.len() == old(reads)@.len() + 1
            &&& final(reads)@.subrange(0, old(reads)@.len() as int) == old(reads)@
            &&& final(reads)@.last().key == key
            &&& final(reads)@.last().versions@ == observed_spec(
                store.histories()[key as int],
                idx as int,
            )
        },
{
    let r = store.read(key, idx);
    match store.observed_versions(key, idx) {
        Some(versions) => {
            reads.push(ReadDescriptor { key, versions });
            assert(reads@.subrange(0, old(reads)@.len() as int) =~= old(reads)@);
        },
        None => {},
    }
    r
}

/// A list of events, seen through the bytes of each.
pub open spec fn events_view(s: Seq<Vec<u8>>) -> Seq<Seq<u8>> {
    s.map_values(|e: Vec<u8>| e@)
}

/// The final record of a committed transaction: its writes followed by its
/// materialized deltas; where one of its deltas failed, nothing is written and it is
/// discarded with the failure's status code. Events and gas are kept either way.
pub open spec fn finalized(
    o: VMTransactionOutput,
    delta_writes: Seq<(usize, OpModel)>,
    failed: Option<u64>,
    r: TransactionOutput,
) -> bool {
    &&& events_view(r.events@) == events_view(o.events@)
    &&& r.gas_used == o.gas_used
    &&& match failed {
        Some(code) => {
            &&& r.write_set@.len() == 0
            &&& r.status == TransactionStatus::Discard(code)
        },
        None => {
            &&& writes_view(r.write_set@) == writes_view(o.writes@) + delta_writes
            &&& r.status == o.status
        },
    }
}

fn copy_events(es: &Vec<Vec<u8>>) -> (r: Vec<Vec<u8>>)
    ensures
        events_view(r@) == events_view(es@),
{
    let mut r: Vec<Vec<u8>> = Vec::new();
    let mut i: usize = 0;
    while i < es.len()
        invariant
            i <= es@.len(),
            r@.len() == i,
            forall|m: int| 0 <= m < i ==> (#[trigger] r@[m])@ == es@[m]@,
        decreases es.len() - i,
    {
        r.push(copy_bytes(&es[i]));
        i = i + 1;
    }
    assert(events_view(r@) =~= events_view(es@));
    r
}

fn finalize_one(o: &VMTransactionOutput, dw: &Vec<(usize, Op)>, failed: Option<u64>) -> (r:
    TransactionOutput)
    ensures
        finalized(*o, writes_view(dw@), failed, r),
{
    let events = copy_events(&o.events);
    if let Some(code) = failed {
        return TransactionOutput {
            write_set: Vec::new(),
            events,
            gas_used: o.gas_used,
            status: TransactionStatus::Discard(code),
        };
    }
    let mut ws: Vec<(usize, Op)> = Vec::new();
    let mut i: usize = 0;
    while i < o.writes.len()
        invariant
            i <= o.writes@.len(),
            ws@.len() == i,
            forall|m: int|
                0 <= m < i ==> #[trigger] ws@[m].0 == o.writes@[m].0 && ws@[m].1@
                    == o.writes@[m].1@,
        decreases o.writes.len() - i,
    {
        ws.push((o.writes[i].0, o.writes[i].1.duplicate()));
        i = i + 1;
    }
    let mut j: usize = 0;
    while j < dw.len()
        invariant
            j <= dw@.len(),
            ws@.len() == o.writes@.len() + j,
            forall|m: int|
                0 <= m < o.writes@.len() ==> #[trigger] ws@[m].0 == o.writes@[m].0 && ws@[m].1@
                    == o.writes@[m].1@,
            forall|m: int|
                0 <= m < j ==> #[trigger] ws@[o.writes@.len() + m].0 == dw@[m].0 && ws@[o.writes@.len()
                    + m].1@ == dw@[m].1@,
        decreases dw.len() - j,
    {
        ws.push((dw[j].0, dw[j].1.duplicate()));
        j = j + 1;
    }
    let ghost n0 = o.writes@.len();
    assert forall|m: int| 0 <= m < ws@.len() implies #[trigger] writes_view(ws@)[m] == (
    writes_view(o.writes@) + writes_view(dw@))[m] by {
        if m >= n0 {
            let d = m - n0;
            assert(ws@[n0 + d].0 == dw@[d].0 && ws@[n0 + d].1@ == dw@[d].1@);
        }
    }
    assert(writes_view(ws@) =~= writes_view(o.writes@) + writes_view(dw@));
    TransactionOutput { write_set: ws, events, gas_used: o.gas_used, status: o.status }
}

/// The block executor.
pub struct BlockAptosVM();

impl BlockAptosVM {
    /// Turns the committed outputs of a block, with the resolved deltas of each
    /// position (`delta_writes`, `failed`, as the delta resolver returns them), into
    /// the block's final records, in position order.
    pub fn finalize_outputs(
        outputs: &Vec<VMTransactionOutput>,
        delta_writes: &Vec<Vec<(usize, Op)>>,
        failed: &Vec<Option<u64>>,
    ) -> (r: Vec<TransactionOutput>)
        requires
            delta_writes@.len() == outputs@.len(),
            failed@.len() == outputs@.len(),
        ensures
            r@.len() == outputs@.len(),
            forall|i: int|
                0 <= i < outputs@.len() ==> finalized(
                    outputs@[i],
                    writes_view(delta_writes@[i]@),
                    failed@[i],
                    #[trigger] r@[i],
                ),
    {
        let mut r: Vec<TransactionOutput> = Vec::new();
        let mut i: usize = 0;
        while i < outputs.len()
            invariant
                delta_writes@.len() == outputs@.len(),
                failed@.len() == outputs@.len(),
                i <= outputs@.len(),
                r@.len() == i,
                forall|m: int|
                    0 <= m < i ==> finalized(
                        outputs@[m],
                        writes_view(delta_writes@[m]@),
                        failed@[m],
                        #[trigger] r@[m],
                    ),
            decreases outputs.len() - i,
        {
            r.push(finalize_one(&outputs[i], &delta_writes[i], failed[i]));
            i = i + 1;
        }
        r
    }
}

} // verus!

use vstd::prelude::*;

use crate::executor::{
    events_view, finalized, keys_in_range, key_among, output_recorded, read_set_valid,
    record_output, validate_read_set, BlockAptosVM, ReadDescriptor,
};
use crate::mvhashmap::{Entry, MVHashMap};
use crate::output::{
    copy_bytes, writes_view, AptosTransactionOutput, Op, TransactionOutput, VMTransactionOutput,
};
use crate::resolver::{bases_of, BaseValue, delta_failure_at, delta_writes_at, OutputDeltaResolver};
use crate::scheduler::{first_halt, invalidate, Error, Scheduler, Status};
use crate::sequential::{
    check_writes_disjoint, writes_disjoint, lemma_untouched_position, output_keys_in_range, output_keys_valid, retry_from, BlockError,
    ExecutionStatus,
};

verus! {

/// The entry left by an aborted incarnation: kept, but marked as an estimate.
pub open spec fn as_estimate(e: Option<Entry>) -> Option<Entry> {
    match e {
        Some(en) => Some(Entry { estimate: true, ..en }),
        None => None,
    }
}

/// `after` is `before` with the entries of position `idx` at `keys` marked as
/// estimates, and nothing else changed.
pub open spec fn estimates_marked(
    before: Seq<Seq<Option<Entry>>>,
    after: Seq<Seq<Option<Entry>>>,
    n: nat,
    idx: int,
    keys: Seq<usize>,
) -> bool {
    &&& after.len() == before.len()
    &&& forall|k: int| 0 <= k < before.len() ==> (#[trigger] after[k]).len() == before[k].len()
    &&& forall|k: int, p: int|
        0 <= k < before.len() && 0 <= p < n && p != idx ==> #[trigger] after[k][p]
            == before[k][p]
    &&& forall|k: int|
        0 <= k < before.len() ==> #[trigger] after[k][idx] == if key_among(
            keys,
            k as usize,
            keys.len() as int,
        ) {
            as_estimate(before[k][idx])
        } else {
            before[k][idx]
        }
}

/// The histories with every position from `stop` on emptied.
pub open spec fn cleared_from(hs: Seq<Seq<Option<Entry>>>, stop: int) -> Seq<Seq<Option<Entry>>> {
    Seq::new(
        hs.len(),
        |k: int| Seq::new(hs[k].len(), |p: int| if p >= stop { None } else { hs[k][p] }),
    )
}

/// The error a halted block ends with.
pub open spec fn block_error_of(e: Error) -> BlockError {
    match e {
        Error::ModulePathReadWrite => BlockError::ModulePathReadWrite,
        Error::IncarnationLimit => BlockError::IncarnationLimit,
        Error::UserError(c) => BlockError::UserError(c),
        Error::UnknownStateKey => BlockError::UnknownStateKey,
        Error::ConflictingWrites => BlockError::ConflictingWrites,
    }
}

/// The sizes a block's shared state keeps.
pub open spec fn block_shapes(
    sched: Scheduler,
    store: MVHashMap,
    written: Seq<Vec<usize>>,
    outputs: Seq<Option<VMTransactionOutput>>,
    reads: Seq<Vec<ReadDescriptor>>,
) -> bool {
    &&& sched.wf()
    &&& store.wf()
    &&& sched.spec_block_size() == store.spec_block_size()
    &&& written.len() == store.spec_block_size()
    &&& outputs.len() == store.spec_block_size()
    &&& reads.len() == store.spec_block_size()
    &&& forall|i: int|
        0 <= i < written.len() ==> keys_in_range(
            (#[trigger] written[i])@,
            store.histories().len(),
        )
}

/// Where the executor's report is not a recordable output (or the wave counter cannot
/// advance), the store and the per-position records are left as they were.
pub open spec fn unchanged_unless_recorded(
    store0: MVHashMap,
    store1: MVHashMap,
    written0: Seq<Vec<usize>>,
    written1: Seq<Vec<usize>>,
    outputs0: Seq<Option<VMTransactionOutput>>,
    outputs1: Seq<Option<VMTransactionOutput>>,
    reads0: Seq<Vec<ReadDescriptor>>,
    reads1: Seq<Vec<ReadDescriptor>>,
    status: ExecutionStatus,
    wave: u64,
) -> bool {
    let recorded = match status {
        ExecutionStatus::Success(o) | ExecutionStatus::SkipRest(o) => output_keys_valid(
            o,
            store0.histories().len(),
        ) && writes_disjoint(o) && wave < u64::MAX,
        _ => false,
    };
    !recorded ==> {
        &&& store1 == store0
        &&& written1 == written0
        &&& outputs1 == outputs0
        &&& reads1 == reads0
    }
}

/// Handles what the executor reported for incarnation `k` of position `idx`, with
/// the reads it recorded. A clash or a machine failure halts the block, as does an
/// output outside the key table or a wave counter that cannot advance. A wait hands
/// the position back to the scheduler. Otherwise the output replaces the previous
/// incarnation's in the store, its keys, output and reads are kept for the position,
/// and the scheduler learns that it executed, and whether it asked to skip the rest.
pub fn handle_execution(
    sched: &mut Scheduler,
    store: &mut MVHashMap,
    written: &mut Vec<Vec<usize>>,
    outputs: &mut Vec<Option<VMTransactionOutput>>,
    reads: &mut Vec<Vec<ReadDescriptor>>,
    idx: usize,
    k: u32,
    status: ExecutionStatus,
    new_reads: Vec<ReadDescriptor>,
)
    requires
        block_shapes(*old(sched), *old(store), old(written)@, old(outputs)@, old(reads)@),
        idx < old(store).spec_block_size(),
        old(sched).statuses()[idx as int] == Status::Executing(k),
    ensures
        block_shapes(*final(sched), *final(store), final(written)@, final(outputs)@, final(reads)@),
        final(sched).spec_block_size() == old(sched).spec_block_size(),
        final(sched).spec_commit_idx() == old(sched).spec_commit_idx(),
        final(sched).spec_stop_idx() == old(sched).spec_stop_idx(),
        final(store).spec_block_size() == old(store).spec_block_size(),
        match status {
            ExecutionStatus::ModulePathReadWrite => final(sched).spec_halted() == first_halt(old(sched).spec_halted(), Error::ModulePathReadWrite),
            ExecutionStatus::UserError(c) => final(sched).spec_halted() == first_halt(old(sched).spec_halted(), Error::UserError(c)),
            ExecutionStatus::Dependency(_) => {
                &&& final(sched).spec_halted() == old(sched).spec_halted()
                &&& final(sched).statuses() == old(sched).statuses().update(
                    idx as int,
                    Status::ReadyToExecute(k),
                )
            },
            ExecutionStatus::Success(o) | ExecutionStatus::SkipRest(o) => {
                &&& !output_keys_valid(o, old(store).histories().len()) ==> final(sched).spec_halted() == first_halt(old(sched).spec_halted(), Error::UnknownStateKey)
                &&& output_keys_valid(o, old(store).histories().len()) && !writes_disjoint(o)
                    ==> final(sched).spec_halted() == first_halt(
                    old(sched).spec_halted(),
                    Error::ConflictingWrites,
                )
                &&& output_keys_valid(o, old(store).histories().len()) && writes_disjoint(o)
                    && old(sched).spec_wave() == u64::MAX ==> final(sched).spec_halted() == first_halt(old(sched).spec_halted(), Error::IncarnationLimit)
                &&& output_keys_valid(o, old(store).histories().len()) && writes_disjoint(o)
                    && old(sched).spec_wave() < u64::MAX ==> {
                    &&& output_recorded(
                        old(store).histories(),
                        final(store).histories(),
                        old(store).spec_block_size(),
                        idx as int,
                        k,
                        old(written)@[idx as int]@,
                        o,
                    )
                    &&& final(written)@[idx as int]@ == o.writes@.map_values(
                        |w: (usize, Op)| w.0,
                    ) + o.deltas@.map_values(|d: (usize, crate::delta::DeltaOp)| d.0)
                    &&& final(written)@ == old(written)@.update(
                        idx as int,
                        final(written)@[idx as int],
                    )
                    &&& final(outputs)@ == old(outputs)@.update(idx as int, Some(o))
                    &&& final(reads)@ == old(reads)@.update(idx as int, new_reads)
                    &&& final(sched).spec_halted() == old(sched).spec_halted()
                    &&& final(sched).statuses()[idx as int] == Status::Executed(k)
                    &&& final(sched).spec_skip_requested()[idx as int] == (status is SkipRest)
                    &&& forall|j: int|
                        0 <= j < idx ==> #[trigger] final(sched).statuses()[j] == old(sched).statuses()[j]
                    &&& forall|j: int|
                        idx < j < old(sched).spec_block_size() ==> #[trigger] final(sched).statuses()[j] == invalidate(old(sched).statuses()[j])
                }
            },
        },
        unchanged_unless_recorded(
            *old(store),
            *final(store),
            old(written)@,
            final(written)@,
            old(outputs)@,
            final(outputs)@,
            old(reads)@,
            final(reads)@,
            status,
            old(sched).spec_wave(),
        ),
{
    let (output, skip) = match status {
        ExecutionStatus::Success(o) => (o, false),
        ExecutionStatus::SkipRest(o) => (o, true),
        ExecutionStatus::ModulePathReadWrite => {
            sched.halt(Error::ModulePathReadWrite);
            return ;
        },
        ExecutionStatus::UserError(c) => {
            sched.halt(Error::UserError(c));
            return ;
        },
        ExecutionStatus::Dependency(_) => {
            sched.suspend(idx, k);
            return ;
        },
    };
    if !output_keys_in_range(&output, store.num_keys()) {
        sched.halt(Error::UnknownStateKey);
        return ;
    }
    if !check_writes_disjoint(&output) {
        sched.halt(Error::ConflictingWrites);
        return ;
    }
    if !sched.wave_available() {
        sched.halt(Error::IncarnationLimit);
        return ;
    }
    let keys = record_output(store, idx, k, &written[idx], &output);
    let ghost new_keys = keys@;
    written.set(idx, keys);
    assert(keys_in_range(new_keys, store.histories().len())) by {
        assert forall|j: int| 0 <= j < new_keys.len() implies #[trigger] new_keys[j]
            < store.histories().len() by {
            let wl = output.writes@.len();
            if j < wl {
                assert(new_keys[j] == output.writes@.map_values(|w: (usize, Op)| w.0)[j]);
            } else {
                assert(new_keys[j] == output.deltas@.map_values(
                    |d: (usize, crate::delta::DeltaOp)| d.0,
                )[j - wl]);
            }
        }
    }
    outputs.set(idx, Some(output));
    reads.set(idx, new_reads);
    sched.finish_execution(idx, k, skip);
}

/// Handles validation task `(idx, k, w)`: the reads recorded for the position are
/// checked against the store. Where they no longer hold and the incarnation is
/// current, it is aborted and the entries it wrote become estimates, so that readers
/// above wait for its next incarnation. Returns whether it was aborted. Where the wave
/// counter cannot advance, the block halts instead.
pub fn handle_validation(
    sched: &mut Scheduler,
    store: &mut MVHashMap,
    written: &Vec<Vec<usize>>,
    reads: &Vec<Vec<ReadDescriptor>>,
    idx: usize,
    k: u32,
    w: u64,
) -> (aborted: bool)
    requires
        old(sched).wf(),
        old(store).wf(),
        old(sched).spec_block_size() == old(store).spec_block_size(),
        written@.len() == old(store).spec_block_size(),
        reads@.len() == old(store).spec_block_size(),
        idx < old(store).spec_block_size(),
        keys_in_range(written@[idx as int]@, old(store).histories().len()),
    ensures
        final(sched).wf(),
        final(store).wf(),
        final(sched).spec_block_size() == old(sched).spec_block_size(),
        final(sched).spec_commit_idx() == old(sched).spec_commit_idx(),
        final(sched).spec_stop_idx() == old(sched).spec_stop_idx(),
        final(store).spec_block_size() == old(store).spec_block_size(),
        final(store).histories().len() == old(store).histories().len(),
        old(sched).spec_wave() == u64::MAX ==> !aborted && final(sched).spec_halted() == first_halt(old(sched).spec_halted(), Error::IncarnationLimit) && *final(store) == *old(store),
        aborted <==> old(sched).spec_wave() < u64::MAX && old(sched).statuses()[idx as int]
            == Status::Executed(k) && !read_set_valid(
            old(store).histories(),
            idx as int,
            reads@[idx as int]@,
        ) && k < u32::MAX,
        aborted ==> final(sched).statuses()[idx as int] == Status::ReadyToExecute((k + 1) as u32)
            && estimates_marked(
            old(store).histories(),
            final(store).histories(),
            old(store).spec_block_size(),
            idx as int,
            written@[idx as int]@,
        ),
        !aborted ==> *final(store) == *old(store),
        old(sched).spec_wave() < u64::MAX && old(sched).statuses()[idx as int] == Status::Executed(
            k,
        ) && read_set_valid(old(store).histories(), idx as int, reads@[idx as int]@)
            ==> final(sched).statuses() == old(sched).statuses().update(
            idx as int,
            if old(sched).spec_invalidated_at()[idx as int] <= w {
                Status::Validated(k)
            } else {
                Status::Executed(k)
            },
        ),
{
    if !sched.wave_available() {
        sched.halt(Error::IncarnationLimit);
        return false;
    }
    let valid = validate_read_set(store, idx, &reads[idx]);
    let aborted = sched.finish_validation(idx, k, w, valid);
    if aborted {
        let keys = &written[idx];
        let ghost h0 = store.histories();
        let ghost nk = h0.len();
        let ghost n = store.spec_block_size();
        let nkeys = store.num_keys();
        let mut a: usize = 0;
        while a < keys.len()
            invariant
                store.wf(),
                store.spec_block_size() == n,
                store.histories().len() == nk,
                nkeys == nk,
                idx < n,
                keys_in_range(keys@, nk),
                a <= keys@.len(),
                forall|kk: int, p: int|
                    0 <= kk < nk && 0 <= p < n && p != idx ==> #[trigger] store.histories()[kk][p]
                        == h0[kk][p],
                forall|kk: int|
                    0 <= kk < nk ==> #[trigger] store.histories()[kk][idx as int] == if key_among(
                        keys@,
                        kk as usize,
                        a as int,
                    ) {
                        as_estimate(h0[kk][idx as int])
                    } else {
                        h0[kk][idx as int]
                    },
            decreases keys.len() - a,
        {
            let key = keys[a];
            assert(keys@[a as int] < nk);
            let ghost before = store.histories();
            store.mark_estimate(key, idx);
            assert forall|kk: int| 0 <= kk < nk implies #[trigger] store.histories()[kk][idx as int]
                == if key_among(keys@, kk as usize, a + 1) {
                as_estimate(h0[kk][idx as int])
            } else {
                h0[kk][idx as int]
            } by {
                if kk != key as int {
                    assert(store.histories()[kk] == before[kk]);
                } else {
                    assert(before[kk][idx as int] == as_estimate(h0[kk][idx as int])
                        || before[kk][idx as int] == h0[kk][idx as int]);
                }
            }
            a = a + 1;
        }
    }
    aborted
}

/// The view of an output that its final record depends on.
pub open spec fn same_record_view(a: VMTransactionOutput, b: VMTransactionOutput) -> bool {
    &&& writes_view(a.writes@) == writes_view(b.writes@)
    &&& events_view(a.events@) == events_view(b.events@)
    &&& a.gas_used == b.gas_used
    &&& a.status == b.status
}

fn copy_output(o: &VMTransactionOutput) -> (r: VMTransactionOutput)
    ensures
        same_record_view(r, *o),
        r.deltas@ == o.deltas@,
{
    let ao = &o.writes;
    let mut writes: Vec<(usize, Op)> = Vec::new();
    let mut i: usize = 0;
    while i < ao.len()
        invariant
            i <= ao@.len(),
            writes@.len() == i,
            forall|m: int|
                0 <= m < i ==> #[trigger] writes@[m].0 == ao@[m].0 && writes@[m].1@ == ao@[m].1@,
        decreases ao.len() - i,
    {
        writes.push((ao[i].0, ao[i].1.duplicate()));
        i = i + 1;
    }
    assert(writes_view(writes@) =~= writes_view(ao@));
    let mut deltas: Vec<(usize, crate::delta::DeltaOp)> = Vec::new();
    let mut j: usize = 0;
    while j < o.deltas.len()
        invariant
            j <= o.deltas@.len(),
            deltas@ == o.deltas@.subrange(0, j as int),
        decreases o.deltas.len() - j,
    {
        deltas.push(o.deltas[j]);
        j = j + 1;
        assert(deltas@ =~= o.deltas@.subrange(0, j as int));
    }
    assert(o.deltas@.subrange(0, o.deltas@.len() as int) =~= o.deltas@);
    let mut events: Vec<Vec<u8>> = Vec::new();
    let mut e: usize = 0;
    while e < o.events.len()
        invariant
            e <= o.events@.len(),
            events@.len() == e,
            forall|m: int| 0 <= m < e ==> (#[trigger] events@[m])@ == o.events@[m]@,
        decreases o.events.len() - e,
    {
        events.push(copy_bytes(&o.events[e]));
        e = e + 1;
    }
    assert(events_view(events@) =~= events_view(o.events@));
    VMTransactionOutput { writes, deltas, events, gas_used: o.gas_used, status: o.status }
}

/// Ends a block whose scheduler is done. A halted block gives its error. Otherwise the
/// entries of the positions from the stop position on are removed from the store, the
/// committed outputs below it are kept, the positions from it on get the `Retry`
/// output, and the deltas are resolved against `base_values` and folded into the final
/// records.
pub fn finish_block(
    sched: &Scheduler,
    store: MVHashMap,
    outputs: &Vec<Option<VMTransactionOutput>>,
    base_values: &Vec<BaseValue>,
) -> (r: Result<Vec<TransactionOutput>, BlockError>)
    requires
        sched.wf(),
        store.wf(),
        sched.spec_done(),
        sched.spec_block_size() == store.spec_block_size(),
        outputs@.len() == store.spec_block_size(),
        base_values@.len() == store.histories().len(),
        sched.spec_halted() is None ==> forall|i: int|
            0 <= i < sched.spec_stop_idx() ==> (#[trigger] outputs@[i]) is Some,
    ensures
        sched.spec_halted() matches Some(e) ==> r == Err::<Vec<TransactionOutput>, BlockError>(
            block_error_of(e),
        ),
        sched.spec_halted() is None ==> r is Ok,
        r matches Ok(outs) ==> {
            let hs = cleared_from(store.histories(), sched.spec_stop_idx() as int);
            let bases = bases_of(base_values@);
            &&& outs@.len() == outputs@.len()
            &&& retry_from(outs@, sched.spec_stop_idx() as int)
            &&& forall|i: int|
                0 <= i < sched.spec_stop_idx() ==> finalized(
                    outputs@[i]->Some_0,
                    delta_writes_at(hs, bases, i, bases.len() as int),
                    delta_failure_at(hs, bases, i, bases.len() as int),
                    #[trigger] outs@[i],
                )
        },
{
    match sched.halted() {
        Some(Error::ModulePathReadWrite) => {
            return Err(BlockError::ModulePathReadWrite);
        },
        Some(Error::IncarnationLimit) => {
            return Err(BlockError::IncarnationLimit);
        },
        Some(Error::UserError(c)) => {
            return Err(BlockError::UserError(c));
        },
        Some(Error::UnknownStateKey) => {
            return Err(BlockError::UnknownStateKey);
        },
        Some(Error::ConflictingWrites) => {
            return Err(BlockError::ConflictingWrites);
        },
        None => {},
    }
    let stop = sched.stop_idx();
    let n = store.block_size();
    proof {
        sched.lemma_committed_prefix();
    }
    let nk = store.num_keys();
    let mut store = store;
    let ghost h0 = store.histories();
    let mut key: usize = 0;
    while key < nk
        invariant
            store.wf(),
            store.spec_block_size() == n,
            store.histories().len() == nk,
            h0.len() == nk,
            stop <= n,
            key <= nk,
            forall|kk: int| 0 <= kk < nk ==> (#[trigger] h0[kk]).len() == n,
            forall|kk: int, p: int|
                0 <= kk < nk && 0 <= p < n ==> #[trigger] store.histories()[kk][p] == if kk < key
                    && p >= stop {
                    None
                } else {
                    h0[kk][p]
                },
        decreases nk - key,
    {
        let mut p: usize = stop;
        while p < n
            invariant
                store.wf(),
                store.spec_block_size() == n,
                store.histories().len() == nk,
                h0.len() == nk,
                key < nk,
                stop <= p <= n,
                forall|kk: int| 0 <= kk < nk ==> (#[trigger] h0[kk]).len() == n,
                forall|kk: int, q: int|
                    0 <= kk < nk && 0 <= q < n ==> #[trigger] store.histories()[kk][q] == if (kk
                        < key && q >= stop) || (kk == key && stop <= q < p) {
                        None
                    } else {
                        h0[kk][q]
                    },
            decreases n - p,
        {
            let ghost before = store.histories();
            store.delete(key, p);
            assert forall|kk: int, q: int| 0 <= kk < nk && 0 <= q < n implies #[trigger] store.histories()[kk][q]
                == if (kk < key && q >= stop) || (kk == key && stop <= q < p + 1) {
                None
            } else {
                h0[kk][q]
            } by {
                if kk != key as int {
                    assert(store.histories()[kk] == before[kk]);
                } else if q != p as int {
                    assert(store.histories()[kk][q] == before[kk][q]);
                }
            }
            p = p + 1;
        }
        key = key + 1;
    }
    assert(store.histories() =~= cleared_from(h0, stop as int)) by {
        assert forall|kk: int| 0 <= kk < nk implies #[trigger] store.histories()[kk]
            =~= cleared_from(h0, stop as int)[kk] by {}
    }
    let mut vm: Vec<VMTransactionOutput> = Vec::new();
    let mut i: usize = 0;
    while i < n
        invariant
            i <= n,
            stop <= n,
            outputs@.len() == n,
            vm@.len() == i,
            forall|m: int| 0 <= m < stop ==> (#[trigger] outputs@[m]) is Some,
            forall|m: int|
                0 <= m < i && m < stop ==> same_record_view(#[trigger] vm@[m], outputs@[m]->Some_0),
            forall|m: int|
                stop <= m < i ==> (#[trigger] vm@[m]).status
                    == crate::output::TransactionStatus::Retry && vm@[m].writes@.len() == 0
                    && vm@[m].deltas@.len() == 0 && vm@[m].gas_used == 0,
        decreases n - i,
    {
        if i < stop {
            match &outputs[i] {
                Some(o) => {
                    vm.push(copy_output(o));
                },
                None => {
                    assert(false);
                    vm.push(AptosTransactionOutput::skip_output().into());
                },
            }
        } else {
            vm.push(AptosTransactionOutput::skip_output().into());
        }
        i = i + 1;
    }
    let resolver = OutputDeltaResolver::new(store);
    let ghost hs = resolver.versioned_outputs.histories();
    let (delta_writes, failed) = resolver.resolve(base_values, n);
    let outs = BlockAptosVM::finalize_outputs(&vm, &delta_writes, &failed);
    proof {
        let bases = bases_of(base_values@);
        assert forall|j: int| stop <= j < n implies (#[trigger] outs@[j]).status
            == crate::output::TransactionStatus::Retry && outs@[j].write_set@.len() == 0
            && outs@[j].gas_used == 0 by {
            assert forall|kk: int| 0 <= kk < nk implies (#[trigger] hs[kk])[j] is None by {
                assert(hs[kk][j] == hs[kk][j]);
            }
            lemma_untouched_position(hs, bases, j, nk as int);
            assert(writes_view(vm@[j].writes@) =~= Seq::empty());
        }
        assert(retry_from(outs@, stop as int));
        assert forall|j: int| 0 <= j < stop implies finalized(
            outputs@[j]->Some_0,
            delta_writes_at(hs, bases, j, bases.len() as int),
            delta_failure_at(hs, bases, j, bases.len() as int),
            #[trigger] outs@[j],
        ) by {
            assert(same_record_view(vm@[j], outputs@[j]->Some_0));
            assert(finalized(
                vm@[j],
                writes_view(delta_writes@[j]@),
                failed@[j],
                outs@[j],
            ));
        }
    }
    Ok(outs)
}

} // verus!

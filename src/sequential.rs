use vstd::prelude::*;

use crate::delta::DeltaOp;
use crate::executor::{
    finalized, keys_in_range, output_cell, output_recorded, read_recorded, record_output,
    recorded_entry, BlockAptosVM, ReadDescriptor,
};
use crate::mvhashmap::{observed_spec, read_spec, Entry, MVHashMap, ReadResult};
use crate::output::{
    writes_view, AptosTransactionOutput, Op, TransactionOutput, TransactionStatus,
    VMTransactionOutput,
};
use crate::resolver::{bases_of, BaseValue, delta_failure_at, delta_writes_at, OutputDeltaResolver};

verus! {

/// What the virtual machine reports for one transaction.
pub enum ExecutionStatus {
    Success(VMTransactionOutput),
    /// The transaction succeeded, and no later transaction of the block may run.
    SkipRest(VMTransactionOutput),
    /// A code module was both published and read in this block.
    ModulePathReadWrite,
    /// A read met an estimate left by this lower position: run the transaction again
    /// once that position has executed.
    Dependency(usize),
    /// The virtual machine failed in a way that fails the whole block; its status code.
    UserError(u64),
}

/// Why a block could not be executed.
#[derive(Clone, Copy, Debug, PartialEq, Eq, Structural)]
pub enum BlockError {
    /// Run the block again with concurrency 1.
    ModulePathReadWrite,
    /// The executor wrote to a key outside the block's key table.
    UnknownStateKey,
    /// A position was aborted more often than its incarnation counter can count.
    IncarnationLimit,
    /// The executor reported a wait on a lower position, which cannot happen when
    /// the block runs in order.
    Dependency(usize),
    /// The virtual machine failed the block; its status code.
    UserError(u64),
    /// The executor both wrote a key and added a delta to it in one output.
    ConflictingWrites,
}

/// What a transaction at position `idx` sees of the store: each read returns what
/// the positions below `idx` left, and is recorded for validation. `NotFound` sends the
/// reader to the base state.
pub struct ReadView<'a> {
    store: &'a MVHashMap,
    idx: usize,
    reads: Vec<ReadDescriptor>,
}

impl<'a> ReadView<'a> {
    pub closed spec fn spec_store(&self) -> MVHashMap {
        *self.store
    }

    pub closed spec fn spec_idx(&self) -> usize {
        self.idx
    }

    pub closed spec fn spec_reads(&self) -> Seq<ReadDescriptor> {
        self.reads@
    }

    /// A view for position `idx`, with no reads recorded yet.
    pub fn new(store: &'a MVHashMap, idx: usize) -> (r: Self)
        ensures
            r.spec_store() == *store,
            r.spec_idx() == idx,
            r.spec_reads().len() == 0,
    {
        ReadView { store, idx, reads: Vec::new() }
    }

    /// Reads `key`: `None` for a key outside the block's key table. A read that does not
    /// wait is recorded with the versions it observed.
    pub fn get(&mut self, key: usize) -> (r: Option<ReadResult>)
        requires
            old(self).spec_store().wf(),
            old(self).spec_idx() <= old(self).spec_store().spec_block_size(),
        ensures
            final(self).spec_store() == old(self).spec_store(),
            final(self).spec_idx() == old(self).spec_idx(),
            key >= old(self).spec_store().histories().len() ==> r is None && final(self).spec_reads() == old(self).spec_reads(),
            key < old(self).spec_store().histories().len() ==> {
                &&& r matches Some(res) && res@ == read_spec(
                    old(self).spec_store().histories()[key as int],
                    old(self).spec_idx() as int,
                )
                &&& res_waits(r) ==> final(self).spec_reads() == old(self).spec_reads()
                &&& !res_waits(r) ==> final(self).spec_reads() == old(self).spec_reads().push(
                    final(self).spec_reads().last(),
                ) && final(self).spec_reads().last().key == key
                    && final(self).spec_reads().last().versions@ == observed_spec(
                    old(self).spec_store().histories()[key as int],
                    old(self).spec_idx() as int,
                )
            },
    {
        if key >= self.store.num_keys() {
            return None;
        }
        let r = read_recorded(self.store, key, self.idx, &mut self.reads);
        proof {
            if !(r is Dependency) {
                assert(self.reads@ =~= old(self).reads@.push(self.reads@.last()));
            }
        }
        Some(r)
    }

    /// The reads recorded so far.
    pub fn into_reads(self) -> (r: Vec<ReadDescriptor>)
        ensures
            r@ == self.spec_reads(),
    {
        self.reads
    }
}

/// The read waited on another position.
pub open spec fn res_waits(r: Option<ReadResult>) -> bool {
    match r {
        Some(res) => res is Dependency,
        None => false,
    }
}

/// The virtual machine: runs the transaction at position `idx`, reading through the
/// view, which records every read.
pub trait ExecutorTask {
    type Txn;

    fn execute_transaction(&self, view: &mut ReadView<'_>, txn: &Self::Txn) -> ExecutionStatus;
}

/// From position `s` on, every output is an empty `Retry`.
pub open spec fn retry_from(outs: Seq<TransactionOutput>, s: int) -> bool {
    &&& 0 <= s <= outs.len()
    &&& forall|j: int|
        s <= j < outs.len() ==> (#[trigger] outs[j]).status == TransactionStatus::Retry
            && outs[j].write_set@.len() == 0 && outs[j].gas_used == 0
}

pub proof fn lemma_untouched_position(hs: Seq<Seq<Option<Entry>>>, bases: Seq<Option<u128>>, p: int, nk: int)
    requires
        0 <= nk <= hs.len(),
        forall|k: int| 0 <= k < nk ==> (#[trigger] hs[k])[p] is None,
    ensures
        delta_writes_at(hs, bases, p, nk).len() == 0,
        delta_failure_at(hs, bases, p, nk) is None,
    decreases nk,
{
    if nk > 0 {
        assert(hs[nk - 1][p] is None);
        lemma_untouched_position(hs, bases, p, nk - 1);
    }
}

pub fn output_keys_in_range(o: &VMTransactionOutput, num_keys: usize) -> (r: bool)
    ensures
        r == (keys_in_range(o.writes@.map_values(|w: (usize, Op)| w.0), num_keys as nat)
            && keys_in_range(o.deltas@.map_values(|d: (usize, DeltaOp)| d.0), num_keys as nat)),
{
    let mut i: usize = 0;
    while i < o.writes.len()
        invariant
            i <= o.writes@.len(),
            forall|j: int| 0 <= j < i ==> #[trigger] o.writes@[j].0 < num_keys,
        decreases o.writes.len() - i,
    {
        if o.writes[i].0 >= num_keys {
            assert(o.writes@.map_values(|w: (usize, Op)| w.0)[i as int] >= num_keys);
            return false;
        }
        i = i + 1;
    }
    let mut j: usize = 0;
    while j < o.deltas.len()
        invariant
            j <= o.deltas@.len(),
            forall|m: int| 0 <= m < j ==> #[trigger] o.deltas@[m].0 < num_keys,
        decreases o.deltas.len() - j,
    {
        if o.deltas[j].0 >= num_keys {
            assert(o.deltas@.map_values(|d: (usize, DeltaOp)| d.0)[j as int] >= num_keys);
            return false;
        }
        j = j + 1;
    }
    let ghost ws = o.writes@.map_values(|w: (usize, Op)| w.0);
    let ghost ds = o.deltas@.map_values(|d: (usize, DeltaOp)| d.0);
    assert forall|m: int| 0 <= m < ws.len() implies #[trigger] ws[m] < num_keys by {
        assert(o.writes@[m].0 < num_keys);
    }
    assert forall|m: int| 0 <= m < ds.len() implies #[trigger] ds[m] < num_keys by {
        assert(o.deltas@[m].0 < num_keys);
    }
    true
}

/// No key of an output is both written and updated by a delta.
pub open spec fn writes_disjoint(o: VMTransactionOutput) -> bool {
    forall|a: int, b: int|
        0 <= a < o.writes@.len() && 0 <= b < o.deltas@.len() ==> #[trigger] o.writes@[a].0
            != #[trigger] o.deltas@[b].0
}

/// Whether no key of `o` is both written and updated by a delta.
pub fn check_writes_disjoint(o: &VMTransactionOutput) -> (r: bool)
    ensures
        r == writes_disjoint(*o),
{
    let mut a: usize = 0;
    while a < o.writes.len()
        invariant
            a <= o.writes@.len(),
            forall|x: int, y: int|
                0 <= x < a && 0 <= y < o.deltas@.len() ==> #[trigger] o.writes@[x].0
                    != #[trigger] o.deltas@[y].0,
        decreases o.writes.len() - a,
    {
        let mut b: usize = 0;
        while b < o.deltas.len()
            invariant
                a < o.writes@.len(),
                b <= o.deltas@.len(),
                forall|x: int, y: int|
                    0 <= x < a && 0 <= y < o.deltas@.len() ==> #[trigger] o.writes@[x].0
                        != #[trigger] o.deltas@[y].0,
                forall|y: int| 0 <= y < b ==> o.writes@[a as int].0 != #[trigger] o.deltas@[y].0,
            decreases o.deltas.len() - b,
        {
            if o.writes[a].0 == o.deltas[b].0 {
                return false;
            }
            b = b + 1;
        }
        a = a + 1;
    }
    true
}

/// Every key of an output lies in the block's key table.
pub open spec fn output_keys_valid(o: VMTransactionOutput, num_keys: nat) -> bool {
    &&& keys_in_range(o.writes@.map_values(|w: (usize, Op)| w.0), num_keys)
    &&& keys_in_range(o.deltas@.map_values(|d: (usize, DeltaOp)| d.0), num_keys)
}

/// One step of in-order execution: what the executor reported for position `idx`
/// decides the outcome. A clash, a wait or a machine failure is an error, and so is an
/// output that writes outside the key table; then nothing changes. Otherwise the
/// output is recorded in the store and appended, and the result says whether it asked
/// to skip the rest of the block.
pub fn sequential_step(
    store: &mut MVHashMap,
    outputs: &mut Vec<VMTransactionOutput>,
    idx: usize,
    status: ExecutionStatus,
) -> (r: Result<bool, BlockError>)
    requires
        old(store).wf(),
        idx < old(store).spec_block_size(),
    ensures
        final(store).wf(),
        final(store).spec_block_size() == old(store).spec_block_size(),
        match status {
            ExecutionStatus::ModulePathReadWrite => r == Err::<bool, BlockError>(
                BlockError::ModulePathReadWrite,
            ),
            ExecutionStatus::Dependency(j) => r == Err::<bool, BlockError>(BlockError::Dependency(j)),
            ExecutionStatus::UserError(c) => r == Err::<bool, BlockError>(BlockError::UserError(c)),
            ExecutionStatus::Success(o) | ExecutionStatus::SkipRest(o) => {
                &&& !output_keys_valid(o, old(store).histories().len()) ==> r == Err::<
                    bool,
                    BlockError,
                >(BlockError::UnknownStateKey)
                &&& output_keys_valid(o, old(store).histories().len()) && !writes_disjoint(o)
                    ==> r == Err::<bool, BlockError>(BlockError::ConflictingWrites)
                &&& output_keys_valid(o, old(store).histories().len()) && writes_disjoint(o) ==> {
                    &&& r == Ok::<bool, BlockError>(status is SkipRest)
                    &&& final(outputs)@ == old(outputs)@.push(o)
                    &&& output_recorded(
                        old(store).histories(),
                        final(store).histories(),
                        old(store).spec_block_size(),
                        idx as int,
                        0,
                        Seq::empty(),
                        o,
                    )
                }
            },
        },
        r is Err ==> *final(store) == *old(store) && final(outputs)@ == old(outputs)@,
{
    let (output, skip) = match status {
        ExecutionStatus::Success(o) => (o, false),
        ExecutionStatus::SkipRest(o) => (o, true),
        ExecutionStatus::ModulePathReadWrite => {
            return Err(BlockError::ModulePathReadWrite);
        },
        ExecutionStatus::Dependency(j) => {
            return Err(BlockError::Dependency(j));
        },
        ExecutionStatus::UserError(c) => {
            return Err(BlockError::UserError(c));
        },
    };
    let num_keys = store.num_keys();
    if !output_keys_in_range(&output, num_keys) {
        return Err(BlockError::UnknownStateKey);
    }
    if !check_writes_disjoint(&output) {
        return Err(BlockError::ConflictingWrites);
    }
    let no_keys: Vec<usize> = Vec::new();
    let _keys = record_output(store, idx, 0, &no_keys, &output);
    assert(no_keys@ =~= Seq::<usize>::empty());
    outputs.push(output);
    Ok(skip)
}

/// The outputs of an in-order run: the positions below `s` ran, producing `vm`, and
/// are finalized against the resolved deltas of the store `hs` they left; the
/// positions from `s` on were skipped and are empty `Retry` outputs.
/// `hs` are the histories of a block of `n` positions and `nk` keys after recording
/// `vm[p]` at each position `p` below `vm.len()`, as incarnation 0, into an empty store:
/// each key holds what `output_recorded` leaves there, and nothing above.
pub open spec fn recorded_in_order(
    hs: Seq<Seq<Option<Entry>>>,
    nk: nat,
    n: nat,
    vm: Seq<VMTransactionOutput>,
) -> bool {
    &&& hs.len() == nk
    &&& forall|k: int| 0 <= k < nk ==> (#[trigger] hs[k]).len() == n
    &&& forall|k: int, p: int|
        0 <= k < nk && 0 <= p < n ==> if p < vm.len() {
            recorded_entry(None, output_cell(vm[p], k as usize), false, 0, #[trigger] hs[k][p])
        } else {
            hs[k][p] is None
        }
}

pub open spec fn sequential_result(
    outs: Seq<TransactionOutput>,
    vm: Seq<VMTransactionOutput>,
    hs: Seq<Seq<Option<Entry>>>,
    bases: Seq<Option<u128>>,
    s: int,
) -> bool {
    &&& retry_from(outs, s)
    &&& vm.len() == s
    &&& forall|i: int|
        0 <= i < s ==> finalized(
            vm[i],
            delta_writes_at(hs, bases, i, bases.len() as int),
            delta_failure_at(hs, bases, i, bases.len() as int),
            #[trigger] outs[i],
        )
}

impl BlockAptosVM {
    /// Executes the block in order, one transaction after the other, with no
    /// validation: the fallback where parallel execution reported a module clash.
    /// Each transaction reads what the ones before it wrote; after one that asks to
    /// skip the rest, every later position gets the `Retry` output. The deltas are
    /// then resolved against `base_values`, one per key, and the outputs finalized.
    pub fn execute_block_sequential<E: ExecutorTask>(
        executor: &E,
        transactions: &Vec<E::Txn>,
        num_keys: usize,
        base_values: &Vec<BaseValue>,
    ) -> (r: Result<Vec<TransactionOutput>, BlockError>)
        requires
            base_values@.len() == num_keys,
        ensures
            transactions@.len() == 0 ==> (r matches Ok(outs) && outs@.len() == 0),
            r matches Ok(outs) ==> {
                &&& outs@.len() == transactions@.len()
                &&& exists|s: int, vm: Seq<VMTransactionOutput>, hs: Seq<Seq<Option<Entry>>>|
                    recorded_in_order(hs, num_keys as nat, transactions@.len(), vm)
                        && #[trigger] sequential_result(outs@, vm, hs, bases_of(base_values@), s)
            },
    {
        let n = transactions.len();
        let mut store = MVHashMap::new(num_keys, n);
        let mut outputs: Vec<VMTransactionOutput> = Vec::new();
        let mut skipping = false;
        let ghost mut skip_from: int = n as int;
        let mut i: usize = 0;
        while i < n
            invariant
                store.wf(),
                store.spec_block_size() == n,
                store.histories().len() == num_keys,
                n == transactions@.len(),
                i <= n,
                outputs@.len() == i,
                0 <= skip_from <= n,
                skipping ==> skip_from <= i,
                !skipping ==> skip_from == n,
                forall|j: int|
                    skip_from <= j < i ==> (#[trigger] outputs@[j]).status
                        == TransactionStatus::Retry && outputs@[j].writes@.len() == 0
                        && outputs@[j].deltas@.len() == 0 && outputs@[j].gas_used == 0,
                forall|k: int, p: int|
                    0 <= k < num_keys && (p >= i || (skip_from <= p < n)) && 0 <= p < n
                        ==> #[trigger] store.histories()[k][p] is None,
                forall|k: int, p: int|
                    0 <= k < num_keys && 0 <= p < i && p < skip_from ==> recorded_entry(
                        None,
                        output_cell(outputs@[p], k as usize),
                        false,
                        0,
                        #[trigger] store.histories()[k][p],
                    ),
            decreases n - i,
        {
            if skipping {
                let skipped = AptosTransactionOutput::skip_output();
                let o = skipped.into();
                outputs.push(o);
            } else {
                let status = {
                    let mut view = ReadView::new(&store, i);
                    executor.execute_transaction(&mut view, &transactions[i])
                };
                let ghost before = store.histories();
                let ghost before_outs = outputs@;
                let skip = match sequential_step(&mut store, &mut outputs, i, status) {
                    Ok(skip) => skip,
                    Err(e) => {
                        return Err(e);
                    },
                };
                proof {
                    assert forall|k: int, p: int|
                        0 <= k < num_keys && (p >= i + 1 || (skip_from <= p < n)) && 0 <= p < n
                            implies #[trigger] store.histories()[k][p] is None by {
                        assert(store.histories()[k][p] == before[k][p]);
                    }
                    assert forall|k: int, p: int|
                        0 <= k < num_keys && 0 <= p < i + 1 implies recorded_entry(
                            None,
                            output_cell(outputs@[p], k as usize),
                            false,
                            0,
                            #[trigger] store.histories()[k][p],
                        ) by {
                        if p < i {
                            assert(store.histories()[k][p] == before[k][p]);
                            assert(outputs@[p] == before_outs[p]);
                        } else {
                            assert(before[k][p] is None);
                        }
                    }
                    if skip {
                        skip_from = i + 1;
                    }
                }
                skipping = skip;
            }
            i = i + 1;
        }
        let resolver = OutputDeltaResolver::new(store);
        let ghost hs = resolver.versioned_outputs.histories();
        let (delta_writes, failed) = resolver.resolve(base_values, n);
        let outs = BlockAptosVM::finalize_outputs(&outputs, &delta_writes, &failed);
        proof {
            assert forall|j: int| skip_from <= j < n implies (#[trigger] outs@[j]).status
                == TransactionStatus::Retry && outs@[j].write_set@.len() == 0 && outs@[j].gas_used
                == 0 by {
                assert forall|k: int| 0 <= k < num_keys implies (#[trigger] hs[k])[j] is None by {
                    assert(hs[k][j] == hs[k][j]);
                }
                lemma_untouched_position(
                    hs,
                    bases_of(base_values@),
                    j,
                    num_keys as int,
                );
                assert(outputs@[j].writes@.len() == 0);
                assert(writes_view(outputs@[j].writes@) =~= Seq::empty());
            }
            assert(retry_from(outs@, skip_from));
            let vm = outputs@.subrange(0, skip_from);
            let bases = bases_of(base_values@);
            assert forall|i: int| 0 <= i < skip_from implies finalized(
                vm[i],
                delta_writes_at(hs, bases, i, bases.len() as int),
                delta_failure_at(hs, bases, i, bases.len() as int),
                #[trigger] outs@[i],
            ) by {
                assert(vm[i] == outputs@[i]);
            }
            assert(sequential_result(outs@, vm, hs, bases, skip_from));
            assert forall|k: int, p: int| 0 <= k < num_keys && 0 <= p < n implies if p < vm.len() {
                recorded_entry(None, output_cell(vm[p], k as usize), false, 0, #[trigger] hs[k][p])
            } else {
                hs[k][p] is None
            } by {
                if p < vm.len() {
                    assert(vm[p] == outputs@[p]);
                }
            }
            assert(recorded_in_order(hs, num_keys as nat, n as nat, vm));
        }
        Ok(outs)
    }
}

} // verus!

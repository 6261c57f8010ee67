use vstd::prelude::*;

use crate::delta::DeltaOp;

verus! {

/// Status code of a transaction discarded because one of its aggregator updates failed.
pub const DELTA_APPLICATION_FAILURE: u64 = 1;

/// Status code of a transaction discarded because the base value of an aggregator it
/// updates could not be read from storage.
pub const STORAGE_ERROR: u64 = 2;

/// The content of a write.
#[derive(Clone, Debug, PartialEq, Eq)]
pub enum AptosWrite {
    /// An opaque blob.
    Standard(Vec<u8>),
    /// A materialized aggregator value.
    AggregatorValue(u128),
}

/// A write to one state cell.
#[derive(Clone, Debug, PartialEq, Eq)]
pub enum Op {
    Creation(AptosWrite),
    Modification(AptosWrite),
    Deletion,
}

/// The mathematical content of an `AptosWrite`.
pub enum WriteModel {
    Standard(Seq<u8>),
    AggregatorValue(u128),
}

/// The mathematical content of an `Op`.
pub enum OpModel {
    Creation(WriteModel),
    Modification(WriteModel),
    Deletion,
}

impl View for AptosWrite {
    type V = WriteModel;

    open spec fn view(&self) -> WriteModel {
        match self {
            AptosWrite::Standard(b) => WriteModel::Standard(b@),
            AptosWrite::AggregatorValue(v) => WriteModel::AggregatorValue(*v),
        }
    }
}

impl View for Op {
    type V = OpModel;

    open spec fn view(&self) -> OpModel {
        match self {
            Op::Creation(w) => OpModel::Creation(w@),
            Op::Modification(w) => OpModel::Modification(w@),
            Op::Deletion => OpModel::Deletion,
        }
    }
}

/// A list of keyed writes, seen through the view of each write.
pub open spec fn writes_view(s: Seq<(usize, Op)>) -> Seq<(usize, OpModel)> {
    s.map_values(|p: (usize, Op)| (p.0, p.1@))
}

/// Outcome of one transaction, as it appears in the block's output.
#[derive(Clone, Copy, Debug, PartialEq, Eq, Structural)]
pub enum TransactionStatus {
    /// The transaction's effects are kept; the status code it finished with.
    Keep(u64),
    /// The transaction is dropped, writes and all; the reason.
    Discard(u64),
    /// The transaction was not run in this block.
    Retry,
}

/// What the executor produced for one transaction. State keys are numbered
/// `0..num_keys` within the block.
#[derive(Clone, Debug, PartialEq, Eq)]
pub struct VMTransactionOutput {
    pub writes: Vec<(usize, Op)>,
    pub deltas: Vec<(usize, DeltaOp)>,
    pub events: Vec<Vec<u8>>,
    pub gas_used: u64,
    pub status: TransactionStatus,
}

/// The final record of one transaction: its writes with the deltas materialized.
#[derive(Clone, Debug, PartialEq, Eq)]
pub struct TransactionOutput {
    pub write_set: Vec<(usize, Op)>,
    pub events: Vec<Vec<u8>>,
    pub gas_used: u64,
    pub status: TransactionStatus,
}

/// Output of the executor as the block executor handles it.
#[derive(Debug, PartialEq)]
pub struct AptosTransactionOutput(pub VMTransactionOutput);

pub fn copy_bytes(b: &Vec<u8>) -> (r: Vec<u8>)
    ensures
        r@ == b@,
{
    let mut r: Vec<u8> = Vec::new();
    let mut i: usize = 0;
    while i < b.len()
        invariant
            i <= b@.len(),
            r@ == b@.subrange(0, i as int),
        decreases b.len() - i,
    {
        r.push(b[i]);
        i = i + 1;
        assert(r@ =~= b@.subrange(0, i as int));
    }
    assert(b@.subrange(0, b@.len() as int) =~= b@);
    r
}

impl AptosWrite {
    pub fn duplicate(&self) -> (r: AptosWrite)
        ensures
            r@ == self@,
    {
        match self {
            AptosWrite::Standard(b) => {
                AptosWrite::Standard(copy_bytes(b))
            },
            AptosWrite::AggregatorValue(v) => AptosWrite::AggregatorValue(*v),
        }
    }
}

impl Op {
    pub fn duplicate(&self) -> (r: Op)
        ensures
            r@ == self@,
    {
        match self {
            Op::Creation(w) => Op::Creation(w.duplicate()),
            Op::Modification(w) => Op::Modification(w.duplicate()),
            Op::Deletion => Op::Deletion,
        }
    }
}

impl AptosTransactionOutput {
    pub fn new(output: VMTransactionOutput) -> (r: Self)
        ensures
            r.0 == output,
    {
        Self(output)
    }

    pub fn into(self) -> (r: VMTransactionOutput)
        ensures
            r == self.0,
    {
        self.0
    }

    /// A copy of the writes, in order.
    pub fn get_writes(&self) -> (r: Vec<(usize, Op)>)
        ensures
            writes_view(r@) == writes_view(self.0.writes@),
    {
        let mut r: Vec<(usize, Op)> = Vec::new();
        let mut i: usize = 0;
        while i < self.0.writes.len()
            invariant
                i <= self.0.writes@.len(),
                r@.len() == i,
                forall|j: int|
                    0 <= j < i ==> #[trigger] r@[j].0 == self.0.writes@[j].0 && r@[j].1@
                        == self.0.writes@[j].1@,
            decreases self.0.writes.len() - i,
        {
            let (k, op) = &self.0.writes[i];
            r.push((*k, op.duplicate()));
            i = i + 1;
        }
        assert(writes_view(r@) =~= writes_view(self.0.writes@));
        r
    }

    /// A copy of the deltas, in order.
    pub fn get_deltas(&self) -> (r: Vec<(usize, DeltaOp)>)
        ensures
            r@ == self.0.deltas@,
    {
        let mut r: Vec<(usize, DeltaOp)> = Vec::new();
        let mut i: usize = 0;
        while i < self.0.deltas.len()
            invariant
                i <= self.0.deltas@.len(),
                r@ == self.0.deltas@.subrange(0, i as int),
            decreases self.0.deltas.len() - i,
        {
            r.push(self.0.deltas[i]);
            i = i + 1;
            assert(r@ =~= self.0.deltas@.subrange(0, i as int));
        }
        assert(self.0.deltas@.subrange(0, self.0.deltas@.len() as int) =~= self.0.deltas@);
        r
    }

    /// Output of a transaction that comes after a skip-rest signal: nothing written,
    /// no events, no gas, status `Retry`.
    pub fn skip_output() -> (r: Self)
        ensures
            r.0.writes@.len() == 0,
            r.0.deltas@.len() == 0,
            r.0.events@.len() == 0,
            r.0.gas_used == 0,
            r.0.status == TransactionStatus::Retry,
    {
        Self(
            VMTransactionOutput {
                writes: Vec::new(),
                deltas: Vec::new(),
                events: Vec::new(),
                gas_used: 0,
                status: TransactionStatus::Retry,
            },
        )
    }
}

} // verus!

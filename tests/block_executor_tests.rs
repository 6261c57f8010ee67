use block_executor::delta::{apply_deltas, DeltaOp};
use block_executor::executor::{
    read_recorded, record_output, validate_read_set, BlockAptosVM, ReadDescriptor,
};
use block_executor::mvhashmap::{EntryCell, MVHashMap, ReadResult, Version};
use block_executor::output::{
    AptosTransactionOutput, AptosWrite, Op, TransactionOutput, TransactionStatus,
    VMTransactionOutput, DELTA_APPLICATION_FAILURE, STORAGE_ERROR,
};
use block_executor::resolver::{decode_aggregator_value, BaseValue, OutputDeltaResolver};
use block_executor::scheduler::{Error, Scheduler, Status, Task};
use block_executor::parallel::{finish_block, handle_execution, handle_validation};
use block_executor::sequential::{
    sequential_step, BlockError, ExecutionStatus, ExecutorTask, ReadView,
};

fn bytes_of(v: u128) -> Vec<u8> {
    v.to_le_bytes().to_vec()
}

fn standard(v: u8) -> Op {
    Op::Modification(AptosWrite::Standard(vec![v]))
}

fn aggregator(v: u128) -> Op {
    Op::Modification(AptosWrite::AggregatorValue(v))
}

fn plain_output(writes: Vec<(usize, Op)>, deltas: Vec<(usize, DeltaOp)>) -> VMTransactionOutput {
    VMTransactionOutput {
        writes,
        deltas,
        events: vec![vec![7]],
        gas_used: 10,
        status: TransactionStatus::Keep(0),
    }
}

fn read_value(store: &MVHashMap, key: usize, idx: usize) -> Option<Op> {
    match store.read(key, idx) {
        ReadResult::Value(op, _) => Some(op),
        _ => None,
    }
}

/// Runs a block on one thread through the scheduler, executing each task as it is
/// handed out. Returns the block's result and the number of executions.
fn drive(
    txns: &[TestTxn],
    num_keys: usize,
    base_values: &Vec<BaseValue>,
) -> (Result<Vec<TransactionOutput>, BlockError>, usize) {
    let n = txns.len();
    let mut sched = Scheduler::new(n);
    let mut store = MVHashMap::new(num_keys, n);
    let mut written: Vec<Vec<usize>> = vec![vec![]; n];
    let mut outputs: Vec<Option<VMTransactionOutput>> = (0..n).map(|_| None).collect();
    let mut reads: Vec<Vec<ReadDescriptor>> = (0..n).map(|_| vec![]).collect();
    let mut executions = 0;
    let mut guard = 0;
    loop {
        guard += 1;
        assert!(guard < 10_000);
        match sched.next_task() {
            Task::Execution(i, k) => {
                let (status, rs) = {
                    let mut view = ReadView::new(&store, i);
                    let status = TestVm.execute_transaction(&mut view, &txns[i]);
                    (status, view.into_reads())
                };
                handle_execution(
                    &mut sched, &mut store, &mut written, &mut outputs, &mut reads, i, k, status, rs,
                );
                executions += 1;
            },
            Task::Validation(i, k, w) => {
                handle_validation(&mut sched, &mut store, &written, &reads, i, k, w);
            },
            Task::NoTask => {},
            Task::Done => break,
        }
        while sched.try_commit().is_some() {}
    }
    (finish_block(&sched, store, &outputs, base_values), executions)
}

#[test]
fn delta_addition_within_bounds() {
    let d = DeltaOp::addition(3, 100);
    assert_eq!(d.apply_to(5), Some(8));
}

#[test]
fn delta_addition_clamps_at_limit() {
    let d = DeltaOp::addition(3, 100);
    assert_eq!(d.apply_to(98), Some(100));
}

#[test]
fn delta_addition_fails_at_limit() {
    let d = DeltaOp::addition(3, 100);
    assert_eq!(d.apply_to(100), None);
}

#[test]
fn delta_subtraction_clamps_and_fails_at_zero() {
    let d = DeltaOp::subtraction(5, 100);
    assert_eq!(d.apply_to(7), Some(2));
    assert_eq!(d.apply_to(3), Some(0));
    assert_eq!(d.apply_to(0), None);
}

#[test]
fn delta_addition_near_u128_max() {
    let d = DeltaOp::addition(u128::MAX, u128::MAX);
    assert_eq!(d.apply_to(1), Some(u128::MAX));
    assert_eq!(d.apply_to(u128::MAX), None);
}

#[test]
fn apply_deltas_in_order() {
    let ds = vec![DeltaOp::addition(3, 10), DeltaOp::subtraction(4, 10)];
    assert_eq!(apply_deltas(&ds, 9), Some(6));
    assert_eq!(apply_deltas(&vec![], 9), Some(9));
    let failing = vec![DeltaOp::addition(1, 10), DeltaOp::addition(1, 10)];
    assert_eq!(apply_deltas(&failing, 9), None);
}

#[test]
fn decode_little_endian_value() {
    assert_eq!(decode_aggregator_value(&bytes_of(5)), Some(5));
    assert_eq!(decode_aggregator_value(&bytes_of(0x0102_0304)), Some(0x0102_0304));
    assert_eq!(decode_aggregator_value(&bytes_of(u128::MAX)), Some(u128::MAX));
    assert_eq!(decode_aggregator_value(&vec![1, 2, 3]), None);
    assert_eq!(decode_aggregator_value(&vec![]), None);
}

#[test]
fn read_returns_highest_write_below() {
    let mut store = MVHashMap::new(1, 4);
    store.write(0, 0, 0, EntryCell::Write(standard(1)));
    store.write(0, 2, 1, EntryCell::Write(standard(3)));
    assert_eq!(read_value(&store, 0, 1), Some(standard(1)));
    assert_eq!(read_value(&store, 0, 2), Some(standard(1)));
    match store.read(0, 3) {
        ReadResult::Value(op, v) => {
            assert_eq!(op, standard(3));
            assert_eq!(v, Version { idx: 2, incarnation: 1 });
        },
        other => panic!("unexpected {:?}", other),
    }
    assert!(matches!(store.read(0, 0), ReadResult::NotFound));
}

#[test]
fn read_waits_on_estimate() {
    let mut store = MVHashMap::new(1, 3);
    store.write(0, 0, 0, EntryCell::Write(standard(1)));
    store.write(0, 1, 0, EntryCell::Write(standard(2)));
    store.mark_estimate(0, 1);
    assert!(matches!(store.read(0, 2), ReadResult::Dependency(1)));
    assert_eq!(store.observed_versions(0, 2), None);
    store.delete(0, 1);
    assert_eq!(read_value(&store, 0, 2), Some(standard(1)));
}

#[test]
fn read_over_deltas_returns_chain() {
    let mut store = MVHashMap::new(1, 4);
    store.write(0, 0, 0, EntryCell::Write(aggregator(10)));
    store.write(0, 1, 0, EntryCell::Delta(DeltaOp::addition(1, 100)));
    store.write(0, 2, 0, EntryCell::Delta(DeltaOp::addition(2, 100)));
    match store.read(0, 3) {
        ReadResult::Delta(ds, base) => {
            assert_eq!(ds, vec![DeltaOp::addition(1, 100), DeltaOp::addition(2, 100)]);
            assert_eq!(base, Some(Version { idx: 0, incarnation: 0 }));
        },
        other => panic!("unexpected {:?}", other),
    }
    assert_eq!(
        store.observed_versions(0, 3),
        Some(vec![
            Version { idx: 0, incarnation: 0 },
            Version { idx: 1, incarnation: 0 },
            Version { idx: 2, incarnation: 0 },
        ])
    );
}

#[test]
fn delta_only_history_never_waits() {
    let mut store = MVHashMap::new(1, 5);
    for i in 0..4 {
        store.write(0, i, 0, EntryCell::Delta(DeltaOp::addition(3, 100)));
    }
    match store.read(0, 4) {
        ReadResult::Delta(ds, base) => {
            assert_eq!(ds.len(), 4);
            assert_eq!(base, None);
            assert_eq!(apply_deltas(&ds, 5), Some(17));
        },
        other => panic!("unexpected {:?}", other),
    }
}

#[test]
fn validation_fails_after_lower_write() {
    let mut store = MVHashMap::new(1, 2);
    let seen = store.observed_versions(0, 1).unwrap();
    assert!(seen.is_empty());
    let reads = vec![ReadDescriptor { key: 0, versions: seen }];
    assert!(validate_read_set(&store, 1, &reads));
    store.write(0, 0, 0, EntryCell::Write(standard(10)));
    assert!(!validate_read_set(&store, 1, &reads));
}

#[test]
fn validation_ignores_higher_writes() {
    let mut store = MVHashMap::new(2, 3);
    store.write(0, 0, 0, EntryCell::Write(standard(1)));
    let reads = vec![ReadDescriptor { key: 0, versions: store.observed_versions(0, 1).unwrap() }];
    store.write(0, 1, 0, EntryCell::Write(standard(2)));
    store.write(0, 2, 0, EntryCell::Write(standard(3)));
    store.write(1, 0, 0, EntryCell::Delta(DeltaOp::addition(1, 5)));
    assert!(validate_read_set(&store, 1, &reads));
}

#[test]
fn validation_rejects_unknown_key() {
    let store = MVHashMap::new(1, 2);
    let reads = vec![ReadDescriptor { key: 3, versions: vec![] }];
    assert!(!validate_read_set(&store, 1, &reads));
}

fn resolve_counter(base: u128, limit: u128, n: usize) -> (Vec<Vec<(usize, Op)>>, Vec<Option<u64>>) {
    let mut store = MVHashMap::new(1, n);
    for i in 0..n {
        store.write(0, i, 0, EntryCell::Delta(DeltaOp::addition(3, limit)));
    }
    OutputDeltaResolver::new(store).resolve(&vec![BaseValue::Bytes(bytes_of(base))], n)
}

#[test]
fn aggregator_only_parallel_adds() {
    let (writes, failed) = resolve_counter(5, 100, 5);
    let expected = [8u128, 11, 14, 17, 20];
    for i in 0..5 {
        assert_eq!(writes[i], vec![(0, aggregator(expected[i]))]);
        assert_eq!(failed[i], None);
    }
}

#[test]
fn aggregator_saturation() {
    let (writes, failed) = resolve_counter(95, 100, 4);
    assert_eq!(writes[0], vec![(0, aggregator(98))]);
    assert_eq!(writes[1], vec![(0, aggregator(100))]);
    assert!(writes[2].is_empty());
    assert!(writes[3].is_empty());
    assert_eq!(
        failed,
        vec![None, None, Some(DELTA_APPLICATION_FAILURE), Some(DELTA_APPLICATION_FAILURE)]
    );
}

#[test]
fn resolver_is_deterministic() {
    assert_eq!(resolve_counter(95, 100, 4), resolve_counter(95, 100, 4));
}

#[test]
fn resolver_treats_missing_base_as_zero_and_follows_writes() {
    let mut store = MVHashMap::new(2, 3);
    store.write(0, 0, 0, EntryCell::Delta(DeltaOp::addition(4, 50)));
    store.write(0, 1, 0, EntryCell::Write(Op::Creation(AptosWrite::Standard(bytes_of(30)))));
    store.write(0, 2, 0, EntryCell::Delta(DeltaOp::subtraction(10, 50)));
    store.write(1, 2, 0, EntryCell::Write(standard(9)));
    let (writes, failed) = OutputDeltaResolver::new(store).resolve(&vec![BaseValue::Absent, BaseValue::Absent], 3);
    assert_eq!(writes[0], vec![(0, aggregator(4))]);
    assert!(writes[1].is_empty());
    assert_eq!(writes[2], vec![(0, aggregator(20))]);
    assert_eq!(failed, vec![None, None, None]);
}

#[test]
fn finalize_appends_delta_writes_and_discards_failures() {
    let outputs = vec![
        plain_output(vec![(1, standard(1))], vec![(0, DeltaOp::addition(3, 100))]),
        plain_output(vec![(1, standard(2))], vec![(0, DeltaOp::addition(3, 100))]),
    ];
    let delta_writes = vec![vec![(0, aggregator(98))], vec![]];
    let failed = vec![None, Some(DELTA_APPLICATION_FAILURE)];
    let r = BlockAptosVM::finalize_outputs(&outputs, &delta_writes, &failed);
    assert_eq!(r.len(), 2);
    assert_eq!(r[0].write_set, vec![(1, standard(1)), (0, aggregator(98))]);
    assert_eq!(r[0].status, TransactionStatus::Keep(0));
    assert_eq!(r[0].events, vec![vec![7]]);
    assert_eq!(r[0].gas_used, 10);
    assert!(r[1].write_set.is_empty());
    assert_eq!(r[1].status, TransactionStatus::Discard(DELTA_APPLICATION_FAILURE));
    assert_eq!(r[1].gas_used, 10);
}

#[test]
fn output_accessors_copy_contents() {
    let o = AptosTransactionOutput::new(plain_output(
        vec![(2, standard(5)), (3, Op::Deletion)],
        vec![(0, DeltaOp::subtraction(1, 9))],
    ));
    assert_eq!(o.get_writes(), vec![(2, standard(5)), (3, Op::Deletion)]);
    assert_eq!(o.get_deltas(), vec![(0, DeltaOp::subtraction(1, 9))]);
    let inner = o.into();
    assert_eq!(inner.gas_used, 10);
}

#[test]
fn skip_output_is_retry() {
    let o = AptosTransactionOutput::skip_output().into();
    assert!(o.writes.is_empty());
    assert!(o.deltas.is_empty());
    assert!(o.events.is_empty());
    assert_eq!(o.gas_used, 0);
    assert_eq!(o.status, TransactionStatus::Retry);
}

#[test]
fn two_independent_writes() {
    let txns = vec![txn(None, 0, 1), txn(None, 1, 2)];
    let (r, executions) = drive(&txns, 2, &vec![BaseValue::Absent, BaseValue::Absent]);
    let r = r.unwrap();
    assert_eq!(executions, 2);
    assert_eq!(r[0].write_set, vec![(0, standard(1))]);
    assert_eq!(r[1].write_set, vec![(1, standard(2))]);
    assert_eq!(r[0].status, TransactionStatus::Keep(0));
}

#[test]
fn read_after_write_driven() {
    let txns = vec![txn(None, 0, 10), txn(Some(0), 1, 0)];
    let (r, _) = drive(&txns, 2, &vec![BaseValue::Absent, BaseValue::Absent]);
    let r = r.unwrap();
    assert_eq!(r[0].write_set, vec![(0, standard(10))]);
    assert_eq!(r[1].write_set, vec![(1, standard(11))]);
}

#[test]
fn driven_clash_then_sequential_rerun() {
    let mut t1 = txn(Some(0), 1, 0);
    t1.clash = true;
    let txns = vec![txn(None, 0, 10), t1];
    let (r, _) = drive(&txns, 2, &vec![BaseValue::Absent, BaseValue::Absent]);
    assert_eq!(r, Err(BlockError::ModulePathReadWrite));
    let rerun = vec![txn(None, 0, 10), txn(Some(0), 1, 0)];
    let outs = BlockAptosVM::execute_block_sequential(&TestVm, &rerun, 2, &vec![BaseValue::Absent, BaseValue::Absent]).unwrap();
    assert_eq!(outs.len(), 2);
}

#[test]
fn driven_skip_rest_and_deltas() {
    let mut t1 = txn(None, 1, 2);
    t1.skip_rest = true;
    let mut t0 = txn(None, 0, 1);
    t0.delta = Some(3);
    let txns = vec![t0, t1, txn(None, 0, 3), txn(None, 1, 4)];
    let (r, _) = drive(&txns, 3, &vec![BaseValue::Absent, BaseValue::Absent, BaseValue::Bytes(bytes_of(5))]);
    let r = r.unwrap();
    assert_eq!(r.len(), 4);
    assert_eq!(r[0].write_set, vec![(0, standard(1)), (2, aggregator(8))]);
    assert_eq!(r[1].write_set, vec![(1, standard(2))]);
    for out in &r[2..] {
        assert_eq!(out.status, TransactionStatus::Retry);
        assert!(out.write_set.is_empty());
        assert!(out.events.is_empty());
        assert_eq!(out.gas_used, 0);
    }
}

#[test]
fn driven_user_error_fails_block() {
    let mut t1 = txn(None, 1, 0);
    t1.user_error = true;
    let (r, _) = drive(&vec![txn(None, 0, 1), t1], 2, &vec![BaseValue::Absent, BaseValue::Absent]);
    assert_eq!(r, Err(BlockError::UserError(7)));
    let r = BlockAptosVM::execute_block_sequential(&TestVm, &vec![txn(None, 1, 0), {
        let mut t = txn(None, 0, 0);
        t.user_error = true;
        t
    }], 2, &vec![BaseValue::Absent, BaseValue::Absent]);
    assert_eq!(r, Err(BlockError::UserError(7)));
}

#[test]
fn sequential_empty_block() {
    let r = BlockAptosVM::execute_block_sequential(&TestVm, &vec![], 0, &vec![]);
    assert_eq!(r, Ok(vec![]));
}

#[test]
fn sequential_step_outcomes() {
    let mut store = MVHashMap::new(2, 2);
    let mut outs = vec![];
    assert_eq!(
        sequential_step(&mut store, &mut outs, 0, ExecutionStatus::ModulePathReadWrite),
        Err(BlockError::ModulePathReadWrite)
    );
    assert_eq!(
        sequential_step(&mut store, &mut outs, 0, ExecutionStatus::Dependency(0)),
        Err(BlockError::Dependency(0))
    );
    let bad = plain_output(vec![(5, standard(1))], vec![]);
    assert_eq!(
        sequential_step(&mut store, &mut outs, 0, ExecutionStatus::Success(bad)),
        Err(BlockError::UnknownStateKey)
    );
    assert!(outs.is_empty());
    let good = plain_output(vec![(1, standard(1))], vec![]);
    assert_eq!(sequential_step(&mut store, &mut outs, 0, ExecutionStatus::SkipRest(good)), Ok(true));
    assert_eq!(outs.len(), 1);
    assert_eq!(read_value(&store, 1, 1), Some(standard(1)));
}

#[test]
fn read_after_write_is_revalidated() {
    let mut sched = Scheduler::new(2);
    let mut store = MVHashMap::new(2, 2);
    // Run position 1 first, while position 0 has not written yet.
    assert_eq!(sched.next_task(), Task::Execution(0, 0));
    assert_eq!(sched.next_task(), Task::Execution(1, 0));
    let seen = store.observed_versions(0, 1).unwrap();
    assert!(seen.is_empty());
    let mut reads1 = vec![ReadDescriptor { key: 0, versions: seen }];
    store.write(1, 1, 0, EntryCell::Write(standard(1)));
    sched.finish_execution(1, 0, false);
    store.write(0, 0, 0, EntryCell::Write(standard(10)));
    sched.finish_execution(0, 0, false);
    assert_eq!(sched.status(1), Status::Executed(0));
    let mut aborted = false;
    let mut guard = 0;
    while !sched.done() {
        guard += 1;
        assert!(guard < 100);
        match sched.next_task() {
            Task::Validation(0, k, w) => {
                sched.finish_validation(0, k, w, true);
            },
            Task::Validation(1, k, w) => {
                let ok = validate_read_set(&store, 1, &reads1);
                if !ok {
                    store.mark_estimate(1, 1);
                    aborted = sched.finish_validation(1, k, w, ok) || aborted;
                } else {
                    sched.finish_validation(1, k, w, ok);
                }
            },
            Task::Execution(1, k) => {
                assert_eq!(k, 1);
                assert_eq!(read_value(&store, 0, 1), Some(standard(10)));
                reads1 = vec![ReadDescriptor { key: 0, versions: store.observed_versions(0, 1).unwrap() }];
                store.write(1, 1, k, EntryCell::Write(standard(11)));
                sched.finish_execution(1, k, false);
            },
            _ => {},
        }
        while sched.try_commit().is_some() {}
    }
    assert!(aborted);
    assert_eq!(sched.status(0), Status::Committed(0));
    assert_eq!(sched.status(1), Status::Committed(1));
    assert_eq!(read_value(&store, 1, 2), Some(standard(11)));
}

#[test]
fn module_clash_halts_block() {
    let mut sched = Scheduler::new(2);
    assert_eq!(sched.next_task(), Task::Execution(0, 0));
    sched.halt(Error::ModulePathReadWrite);
    assert!(sched.done());
    assert_eq!(sched.halted(), Some(Error::ModulePathReadWrite));
    assert_eq!(sched.next_task(), Task::Done);
    assert_eq!(sched.try_commit(), None);
}

#[test]
fn skip_rest_stops_later_positions() {
    let mut sched = Scheduler::new(4);
    assert_eq!(sched.next_task(), Task::Execution(0, 0));
    assert_eq!(sched.next_task(), Task::Execution(1, 0));
    sched.finish_execution(0, 0, false);
    sched.finish_execution(1, 0, true);
    assert_eq!(sched.stop_idx(), 4);
    let mut guard = 0;
    while !sched.done() {
        guard += 1;
        assert!(guard < 100);
        match sched.next_task() {
            Task::Validation(i, k, w) => {
                sched.finish_validation(i, k, w, true);
            },
            Task::Execution(i, k) => {
                sched.finish_execution(i, k, false);
            },
            _ => {},
        }
        while sched.try_commit().is_some() {}
    }
    assert_eq!(sched.stop_idx(), 2);
    assert_eq!(sched.commit_idx(), 2);
    assert!(!matches!(sched.status(2), Status::Committed(_)));
}

#[test]
fn stale_validation_does_not_count() {
    let mut sched = Scheduler::new(2);
    assert_eq!(sched.next_task(), Task::Execution(0, 0));
    assert_eq!(sched.next_task(), Task::Execution(1, 0));
    sched.finish_execution(1, 0, false);
    // position 0 is still executing, so its validation is passed over
    let (i, k, w) = match sched.next_task() {
        Task::Validation(i, k, w) => (i, k, w),
        other => panic!("unexpected {:?}", other),
    };
    assert_eq!((i, k), (1, 0));
    sched.finish_execution(0, 0, false);
    assert!(!sched.finish_validation(i, k, w, true));
    assert_eq!(sched.status(1), Status::Executed(0));
}

#[test]
fn empty_block_is_done_at_once() {
    let mut sched = Scheduler::new(0);
    assert!(sched.done());
    assert_eq!(sched.next_task(), Task::Done);
    let (writes, failed) = OutputDeltaResolver::new(MVHashMap::new(0, 0)).resolve(&vec![], 0);
    assert!(writes.is_empty());
    assert!(failed.is_empty());
}

#[test]
fn record_output_replaces_previous_incarnation() {
    let mut store = MVHashMap::new(3, 2);
    let first = plain_output(vec![(0, standard(1)), (1, standard(2))], vec![]);
    let keys = record_output(&mut store, 0, 0, &vec![], &first);
    assert_eq!(keys, vec![0, 1]);
    let second = plain_output(vec![(0, standard(5))], vec![(2, DeltaOp::addition(1, 9))]);
    let keys2 = record_output(&mut store, 0, 1, &keys, &second);
    assert_eq!(keys2, vec![0, 2]);
    assert_eq!(read_value(&store, 0, 1), Some(standard(5)));
    assert_eq!(store.observed_versions(0, 1), Some(vec![Version { idx: 0, incarnation: 1 }]));
    assert!(matches!(store.read(1, 1), ReadResult::NotFound));
    match store.read(2, 1) {
        ReadResult::Delta(ds, base) => {
            assert_eq!(ds, vec![DeltaOp::addition(1, 9)]);
            assert_eq!(base, None);
        },
        other => panic!("unexpected {:?}", other),
    }
}

#[test]
fn read_recorded_appends_descriptor() {
    let mut store = MVHashMap::new(1, 3);
    store.write(0, 0, 2, EntryCell::Write(standard(4)));
    let mut reads = vec![];
    let r = read_recorded(&store, 0, 1, &mut reads);
    assert!(matches!(r, ReadResult::Value(_, Version { idx: 0, incarnation: 2 })));
    assert_eq!(reads.len(), 1);
    assert_eq!(reads[0].key, 0);
    assert_eq!(reads[0].versions, vec![Version { idx: 0, incarnation: 2 }]);
    store.write(0, 1, 0, EntryCell::Write(standard(5)));
    store.mark_estimate(0, 1);
    let r = read_recorded(&store, 0, 2, &mut reads);
    assert!(matches!(r, ReadResult::Dependency(1)));
    assert_eq!(reads.len(), 1);
}

/// A transaction of the test machine: read `read` (if any), then write `value + 1`
/// (or `value` where nothing was read) to `write`, add `delta` to key 2, and maybe
/// ask to skip the rest.
struct TestTxn {
    read: Option<usize>,
    write: usize,
    value: u8,
    delta: Option<u128>,
    skip_rest: bool,
    clash: bool,
    user_error: bool,
}

struct TestVm;

impl ExecutorTask for TestVm {
    type Txn = TestTxn;

    fn execute_transaction(&self, view: &mut ReadView<'_>, txn: &TestTxn) -> ExecutionStatus {
        if txn.clash {
            return ExecutionStatus::ModulePathReadWrite;
        }
        if txn.user_error {
            return ExecutionStatus::UserError(7);
        }
        let mut value = txn.value;
        if let Some(k) = txn.read {
            match view.get(k) {
                Some(ReadResult::Value(Op::Modification(AptosWrite::Standard(b)), _)) => {
                    value = b[0] + 1
                },
                Some(ReadResult::Dependency(j)) => return ExecutionStatus::Dependency(j),
                _ => {},
            }
        }
        let deltas = match txn.delta {
            Some(d) => vec![(2, DeltaOp::addition(d, 100))],
            None => vec![],
        };
        let o = plain_output(vec![(txn.write, standard(value))], deltas);
        if txn.skip_rest {
            ExecutionStatus::SkipRest(o)
        } else {
            ExecutionStatus::Success(o)
        }
    }
}

fn txn(read: Option<usize>, write: usize, value: u8) -> TestTxn {
    TestTxn { read, write, value, delta: None, skip_rest: false, clash: false, user_error: false }
}

#[test]
fn sequential_read_after_write() {
    let txns = vec![txn(None, 0, 10), txn(Some(0), 1, 0)];
    let r = BlockAptosVM::execute_block_sequential(&TestVm, &txns, 3, &vec![BaseValue::Absent, BaseValue::Absent, BaseValue::Absent]).unwrap();
    assert_eq!(r.len(), 2);
    assert_eq!(r[0].write_set, vec![(0, standard(10))]);
    assert_eq!(r[1].write_set, vec![(1, standard(11))]);
    assert_eq!(r[1].status, TransactionStatus::Keep(0));
}

#[test]
fn sequential_skip_rest_gives_retry() {
    let mut t1 = txn(None, 1, 2);
    t1.skip_rest = true;
    let txns = vec![txn(None, 0, 1), t1, txn(None, 0, 3), txn(None, 1, 4)];
    let r = BlockAptosVM::execute_block_sequential(&TestVm, &txns, 3, &vec![BaseValue::Absent, BaseValue::Absent, BaseValue::Absent]).unwrap();
    assert_eq!(r.len(), 4);
    assert_eq!(r[1].write_set, vec![(1, standard(2))]);
    for out in &r[2..] {
        assert_eq!(out.status, TransactionStatus::Retry);
        assert!(out.write_set.is_empty());
        assert_eq!(out.gas_used, 0);
    }
}

#[test]
fn sequential_materializes_deltas() {
    let mut txns = vec![];
    for i in 0..4 {
        let mut t = txn(None, 0, i);
        t.delta = Some(3);
        txns.push(t);
    }
    let base = vec![BaseValue::Absent, BaseValue::Absent, BaseValue::Bytes(bytes_of(95))];
    let r = BlockAptosVM::execute_block_sequential(&TestVm, &txns, 3, &base).unwrap();
    assert_eq!(r[0].write_set, vec![(0, standard(0)), (2, aggregator(98))]);
    assert_eq!(r[1].write_set, vec![(0, standard(1)), (2, aggregator(100))]);
    assert_eq!(r[2].status, TransactionStatus::Discard(DELTA_APPLICATION_FAILURE));
    assert!(r[2].write_set.is_empty());
    assert_eq!(r[3].status, TransactionStatus::Discard(DELTA_APPLICATION_FAILURE));
}

#[test]
fn sequential_reports_clash_and_bad_keys() {
    let mut t = txn(None, 0, 1);
    t.clash = true;
    let r = BlockAptosVM::execute_block_sequential(&TestVm, &vec![t], 1, &vec![BaseValue::Absent]);
    assert_eq!(r, Err(BlockError::ModulePathReadWrite));
    let r = BlockAptosVM::execute_block_sequential(&TestVm, &vec![txn(None, 5, 1)], 1, &vec![BaseValue::Absent]);
    assert_eq!(r, Err(BlockError::UnknownStateKey));
}

#[test]
fn unreadable_base_discards_with_storage_error() {
    let mut store = MVHashMap::new(2, 3);
    store.write(0, 0, 0, EntryCell::Delta(DeltaOp::addition(1, 10)));
    store.write(1, 1, 0, EntryCell::Delta(DeltaOp::addition(1, 10)));
    store.write(0, 2, 0, EntryCell::Write(standard(4)));
    let (writes, failed) = OutputDeltaResolver::new(store)
        .resolve(&vec![BaseValue::Unreadable, BaseValue::Absent], 3);
    assert!(writes[0].is_empty());
    assert_eq!(writes[1], vec![(1, aggregator(1))]);
    assert_eq!(failed, vec![Some(STORAGE_ERROR), None, None]);
    let outputs = vec![
        plain_output(vec![], vec![(0, DeltaOp::addition(1, 10))]),
        plain_output(vec![], vec![(1, DeltaOp::addition(1, 10))]),
        plain_output(vec![(0, standard(4))], vec![]),
    ];
    let r = BlockAptosVM::finalize_outputs(&outputs, &writes, &failed);
    assert_eq!(r[0].status, TransactionStatus::Discard(STORAGE_ERROR));
    assert!(r[0].write_set.is_empty());
    assert_eq!(r[1].write_set, vec![(1, aggregator(1))]);
}

#[test]
fn discarded_transaction_leaves_no_delta_behind() {
    let mut store = MVHashMap::new(2, 2);
    store.write(0, 0, 0, EntryCell::Delta(DeltaOp::subtraction(3, 10)));
    store.write(1, 0, 0, EntryCell::Delta(DeltaOp::addition(1, 10)));
    store.write(1, 1, 0, EntryCell::Delta(DeltaOp::addition(1, 10)));
    let (writes, failed) = OutputDeltaResolver::new(store)
        .resolve(&vec![BaseValue::Absent, BaseValue::Absent], 2);
    assert_eq!(failed, vec![Some(DELTA_APPLICATION_FAILURE), None]);
    assert!(writes[0].is_empty());
    assert_eq!(writes[1], vec![(1, aggregator(1))]);
}

#[test]
fn write_and_delta_on_one_key_is_refused() {
    let mut store = MVHashMap::new(2, 1);
    let mut outs = vec![];
    let both = plain_output(vec![(0, standard(1))], vec![(0, DeltaOp::addition(1, 9))]);
    assert_eq!(
        sequential_step(&mut store, &mut outs, 0, ExecutionStatus::Success(both)),
        Err(BlockError::ConflictingWrites)
    );
    assert!(outs.is_empty());
    assert!(matches!(store.read(0, 1), ReadResult::NotFound));
}

#[test]
fn first_halt_reason_is_kept() {
    let mut sched = Scheduler::new(2);
    sched.halt(Error::ModulePathReadWrite);
    sched.halt(Error::IncarnationLimit);
    assert_eq!(sched.halted(), Some(Error::ModulePathReadWrite));
}

#[test]
fn no_execution_above_a_pending_skip() {
    let mut sched = Scheduler::new(3);
    assert_eq!(sched.next_task(), Task::Execution(0, 0));
    sched.finish_execution(0, 0, true);
    // position 0 asked to skip: position 1 is not handed out, only validated work is
    assert_eq!(sched.next_task(), Task::Validation(0, 0, 1));
    assert_eq!(sched.next_task(), Task::NoTask);
    sched.finish_validation(0, 0, 1, true);
    assert_eq!(sched.try_commit(), Some(0));
    assert_eq!(sched.stop_idx(), 1);
    assert!(sched.done());
}

#[test]
fn read_view_records_reads_and_refuses_unknown_keys() {
    let mut store = MVHashMap::new(1, 2);
    store.write(0, 0, 3, EntryCell::Write(standard(9)));
    let mut view = ReadView::new(&store, 1);
    assert!(view.get(4).is_none());
    assert!(matches!(view.get(0), Some(ReadResult::Value(_, Version { idx: 0, incarnation: 3 }))));
    let reads = view.into_reads();
    assert_eq!(reads.len(), 1);
    assert_eq!(reads[0].versions, vec![Version { idx: 0, incarnation: 3 }]);
}

use block_executor::quorum_store::{CleanError, LogicalTime, PullAction, QuorumStoreWrapper};

fn wrapper() -> QuorumStoreWrapper {
    QuorumStoreWrapper::new(3, None, 10, 100, 2).unwrap().0
}

#[test]
fn first_batch_id_follows_stored_one() {
    assert_eq!(QuorumStoreWrapper::new(1, None, 10, 100, 2).unwrap().1, 0);
    assert_eq!(QuorumStoreWrapper::new(1, Some(41), 10, 100, 2).unwrap().1, 42);
    assert!(QuorumStoreWrapper::new(1, Some(u64::MAX), 10, 100, 2).is_none());
}

#[test]
fn back_pressure_from_remaining_proofs_or_block_store() {
    let mut w = wrapper();
    assert!(!w.back_pressure(false));
    assert!(w.back_pressure(true));
    w.set_remaining_proof_num(2);
    assert!(!w.back_pressure(false));
    w.set_remaining_proof_num(3);
    assert!(w.back_pressure(false));
}

#[test]
fn tick_closes_batch_once_under_back_pressure() {
    let mut w = wrapper();
    assert_eq!(w.on_tick(false), Some(false));
    assert_eq!(w.on_tick(true), Some(true));
    assert_eq!(w.on_tick(true), None);
    assert_eq!(w.on_tick(false), Some(false));
}

#[test]
fn pull_appends_while_batch_open() {
    let mut w = wrapper();
    assert_eq!(w.handle_scheduled_pull(false, true, 5, false, false, 7), PullAction::AppendToBatch(7));
    assert_eq!(w.handle_scheduled_pull(false, true, 5, true, false, 7), PullAction::Nothing);
}

#[test]
fn pull_closes_batch_on_overflow_timeout_or_back_pressure() {
    let mut w = wrapper();
    let expected = PullAction::EndBatch {
        batch_id: 7,
        expiry: LogicalTime { epoch: 3, round: 10 },
        next_batch_id: 8,
    };
    assert_eq!(w.handle_scheduled_pull(false, false, 5, false, false, 7), expected);
    assert_eq!(w.handle_scheduled_pull(false, true, 101, false, false, 7), expected);
    assert_eq!(w.handle_scheduled_pull(true, true, 5, false, false, 7), expected);
    assert_eq!(w.handle_scheduled_pull(true, true, 5, true, true, 7), PullAction::RestartTimer);
}

#[test]
fn batch_ids_out_of_order_and_gaps() {
    let mut w = wrapper();
    assert_eq!(w.record_batch_id(1), (false, false));
    assert_eq!(w.record_batch_id(2), (false, false));
    assert_eq!(w.record_batch_id(4), (false, true));
    assert_eq!(w.record_batch_id(3), (true, true));
    assert_eq!(w.record_batch_id(0), (false, false));
}

#[test]
fn clean_request_expires_batches() {
    let mut w = wrapper();
    w.handle_scheduled_pull(true, true, 0, false, false, 1);
    assert_eq!(w.handle_clean_request(LogicalTime { epoch: 3, round: 5 }), vec![]);
    w.handle_scheduled_pull(true, true, 0, false, false, 2);
    assert_eq!(w.handle_clean_request(LogicalTime { epoch: 3, round: 10 }), vec![1]);
    assert_eq!(w.handle_clean_request(LogicalTime { epoch: 3, round: 15 }), vec![2]);
}

#[test]
fn clean_request_errors() {
    let mut w = wrapper();
    assert_eq!(w.check_clean_request(LogicalTime { epoch: 4, round: 1 }), Err(CleanError::WrongEpoch));
    assert_eq!(w.check_clean_request(LogicalTime { epoch: 3, round: 6 }), Ok(()));
    assert_eq!(w.handle_clean_request(LogicalTime { epoch: 3, round: 6 }), vec![]);
    assert_eq!(
        w.check_clean_request(LogicalTime { epoch: 3, round: 5 }),
        Err(CleanError::DecreasingLogicalTime)
    );
}

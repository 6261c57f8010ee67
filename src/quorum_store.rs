use vstd::prelude::*;

verus! {

/// A point in consensus time: an epoch and a round within it.
#[derive(Clone, Copy, Debug, PartialEq, Eq, Structural)]
pub struct LogicalTime {
    pub epoch: u64,
    pub round: u64,
}

/// `a` comes no later than `b`: epochs first, then rounds.
pub open spec fn time_le(a: LogicalTime, b: LogicalTime) -> bool {
    a.epoch < b.epoch || (a.epoch == b.epoch && a.round <= b.round)
}

/// What to do with the transactions of a scheduled pull from mempool.
#[derive(Clone, Copy, Debug, PartialEq, Eq, Structural)]
pub enum PullAction {
    /// Nothing to send.
    Nothing,
    /// Add the pulled transactions to the open batch.
    AppendToBatch(u64),
    /// The open batch is empty: only restart the batch timer.
    RestartTimer,
    /// Close the batch: persist `next_batch_id`, ask for a proof that expires at
    /// `expiry`, and restart the batch timer.
    EndBatch { batch_id: u64, expiry: LogicalTime, next_batch_id: u64 },
}

/// Why a clean request from execution cannot be taken.
#[derive(Clone, Copy, Debug, PartialEq, Eq, Structural)]
pub enum CleanError {
    WrongEpoch,
    DecreasingLogicalTime,
}

/// The decisions of the quorum store wrapper: when to pull from mempool, when to
/// close a batch, how batch ids advance, and which batches expire. The channels,
/// mempool and network it talks to are driven by its caller.
pub struct QuorumStoreWrapper {
    latest_logical_time: LogicalTime,
    max_batch_id: u64,
    last_batch_id: u64,
    remaining_proof_num: usize,
    back_pressure_limit: usize,
    back_pressure_in_last_pull: bool,
    batch_expiry_round_gap_when_init: u64,
    end_batch_ms: u128,
    /// Open batches, with the round after which they expire.
    batch_expirations: Vec<(u64, u64)>,
}

/// The batch id a new epoch starts from: one past the one stored, or 0.
pub open spec fn first_batch_id(stored: Option<u64>) -> Option<u64> {
    match stored {
        Some(id) => if id < u64::MAX {
            Some((id + 1) as u64)
        } else {
            None
        },
        None => Some(0),
    }
}

/// `a + b`, saturated at the largest `u64`.
pub open spec fn sat_add(a: u64, b: u64) -> u64 {
    if a + b > u64::MAX {
        u64::MAX
    } else {
        (a + b) as u64
    }
}

impl QuorumStoreWrapper {
    pub closed spec fn spec_latest_logical_time(&self) -> LogicalTime {
        self.latest_logical_time
    }

    pub closed spec fn spec_max_batch_id(&self) -> u64 {
        self.max_batch_id
    }

    pub closed spec fn spec_last_batch_id(&self) -> u64 {
        self.last_batch_id
    }

    pub closed spec fn spec_remaining_proof_num(&self) -> usize {
        self.remaining_proof_num
    }

    pub closed spec fn spec_back_pressure_limit(&self) -> usize {
        self.back_pressure_limit
    }

    pub closed spec fn spec_back_pressure_in_last_pull(&self) -> bool {
        self.back_pressure_in_last_pull
    }

    pub closed spec fn spec_end_batch_ms(&self) -> u128 {
        self.end_batch_ms
    }

    pub closed spec fn spec_expiry_gap(&self) -> u64 {
        self.batch_expiry_round_gap_when_init
    }

    /// The open batches and the rounds after which they expire.
    pub closed spec fn spec_expirations(&self) -> Seq<(u64, u64)> {
        self.batch_expirations@
    }

    /// The state for `epoch`, with the batch id the store last persisted for it
    /// (`stored_batch_id`). Returns the state and the first batch id, or `None` where
    /// batch ids are used up.
    pub fn new(
        epoch: u64,
        stored_batch_id: Option<u64>,
        batch_expiry_round_gap_when_init: u64,
        end_batch_ms: u128,
        back_pressure_limit: usize,
    ) -> (r: Option<(Self, u64)>)
        ensures
            r is Some <==> first_batch_id(stored_batch_id) is Some,
            r matches Some((w, id)) ==> {
                &&& Some(id) == first_batch_id(stored_batch_id)
                &&& w.spec_latest_logical_time() == (LogicalTime { epoch, round: 0 })
                &&& w.spec_max_batch_id() == 0
                &&& w.spec_last_batch_id() == 0
                &&& w.spec_remaining_proof_num() == 0
                &&& w.spec_back_pressure_limit() == back_pressure_limit
                &&& !w.spec_back_pressure_in_last_pull()
                &&& w.spec_end_batch_ms() == end_batch_ms
                &&& w.spec_expiry_gap() == batch_expiry_round_gap_when_init
                &&& w.spec_expirations().len() == 0
            },
    {
        let batch_id = match stored_batch_id {
            Some(id) => {
                if id == u64::MAX {
                    return None;
                }
                id + 1
            },
            None => 0,
        };
        let w = QuorumStoreWrapper {
            latest_logical_time: LogicalTime { epoch, round: 0 },
            max_batch_id: 0,
            last_batch_id: 0,
            remaining_proof_num: 0,
            back_pressure_limit,
            back_pressure_in_last_pull: false,
            batch_expiry_round_gap_when_init,
            end_batch_ms,
            batch_expirations: Vec::new(),
        };
        Some((w, batch_id))
    }

    /// Whether the quorum store is back pressured: more proofs wait for consensus than
    /// the limit allows, or the block store itself is back pressured.
    pub fn back_pressure(&self, block_store_back_pressure: bool) -> (r: bool)
        ensures
            r == (self.spec_remaining_proof_num() > self.spec_back_pressure_limit()
                || block_store_back_pressure),
    {
        self.remaining_proof_num > self.back_pressure_limit || block_store_back_pressure
    }

    /// Records how many proofs were left after consensus pulled a block.
    pub fn set_remaining_proof_num(&mut self, n: usize)
        ensures
            final(self).spec_remaining_proof_num() == n,
            final(self).spec_back_pressure_limit() == old(self).spec_back_pressure_limit(),
            final(self).spec_latest_logical_time() == old(self).spec_latest_logical_time(),
            final(self).spec_expirations() == old(self).spec_expirations(),
    {
        self.remaining_proof_num = n;
    }

    /// On a tick of the pull timer: whether to pull from mempool, and if so whether the
    /// open batch must be closed because of back pressure. Under back pressure only
    /// the first tick pulls, to close the batch left open; without it every tick pulls.
    pub fn on_tick(&mut self, back_pressure: bool) -> (r: Option<bool>)
        ensures
            r == if back_pressure {
                if old(self).spec_back_pressure_in_last_pull() {
                    None
                } else {
                    Some(true)
                }
            } else {
                Some(false)
            },
            final(self).spec_back_pressure_in_last_pull() == back_pressure,
            final(self).spec_latest_logical_time() == old(self).spec_latest_logical_time(),
            final(self).spec_expirations() == old(self).spec_expirations(),
            final(self).spec_max_batch_id() == old(self).spec_max_batch_id(),
            final(self).spec_last_batch_id() == old(self).spec_last_batch_id(),
    {
        let r = if back_pressure {
            if self.back_pressure_in_last_pull {
                None
            } else {
                Some(true)
            }
        } else {
            Some(false)
        };
        self.back_pressure_in_last_pull = back_pressure;
        r
    }

    /// What to do after a pull. The batch closes where a pulled transaction did not
    /// fit, where the batch has been open longer than `end_batch_ms`, or where back
    /// pressure asks for it. A batch that closes is registered to expire
    /// `batch_expiry_round_gap_when_init` rounds after the latest round.
    pub fn handle_scheduled_pull(
        &mut self,
        end_batch_when_back_pressure: bool,
        all_appended: bool,
        elapsed_ms: u128,
        nothing_serialized: bool,
        batch_empty: bool,
        batch_id: u64,
    ) -> (r: PullAction)
        ensures
            ({
                let end = !all_appended || elapsed_ms > old(self).spec_end_batch_ms()
                    || end_batch_when_back_pressure;
                let t = old(self).spec_latest_logical_time();
                let expiry = LogicalTime {
                    epoch: t.epoch,
                    round: sat_add(t.round, old(self).spec_expiry_gap()),
                };
                &&& !end && nothing_serialized ==> r == PullAction::Nothing
                &&& !end && !nothing_serialized ==> r == PullAction::AppendToBatch(batch_id)
                &&& end && batch_empty ==> r == PullAction::RestartTimer
                &&& end && !batch_empty && batch_id == u64::MAX ==> r == PullAction::Nothing
                &&& end && !batch_empty && batch_id < u64::MAX ==> r == (PullAction::EndBatch {
                    batch_id,
                    expiry,
                    next_batch_id: (batch_id + 1) as u64,
                })
                &&& r is EndBatch ==> final(self).spec_expirations() == old(
                    self,
                ).spec_expirations().push((expiry.round, batch_id))
                &&& !(r is EndBatch) ==> final(self).spec_expirations() == old(
                    self,
                ).spec_expirations()
            }),
            final(self).spec_latest_logical_time() == old(self).spec_latest_logical_time(),
            final(self).spec_end_batch_ms() == old(self).spec_end_batch_ms(),
            final(self).spec_expiry_gap() == old(self).spec_expiry_gap(),
    {
        let end_batch = !all_appended || elapsed_ms > self.end_batch_ms
            || end_batch_when_back_pressure;
        if !end_batch {
            if nothing_serialized {
                return PullAction::Nothing;
            }
            return PullAction::AppendToBatch(batch_id);
        }
        if batch_empty {
            return PullAction::RestartTimer;
        }
        if batch_id == u64::MAX {
            return PullAction::Nothing;
        }
        let t = self.latest_logical_time;
        let round = t.round.saturating_add(self.batch_expiry_round_gap_when_init);
        let expiry = LogicalTime { epoch: t.epoch, round };
        self.batch_expirations.push((round, batch_id));
        PullAction::EndBatch { batch_id, expiry, next_batch_id: batch_id + 1 }
    }

    /// Tracks the id of a batch whose proof (or timeout) came back. Returns whether it
    /// came out of order (not above the highest seen) and whether it broke the
    /// sequence (not one past the previous); id 0 is never flagged.
    pub fn record_batch_id(&mut self, batch_id: u64) -> (r: (bool, bool))
        ensures
            r.0 == (old(self).spec_max_batch_id() >= batch_id && batch_id > 0),
            r.1 == (old(self).spec_last_batch_id() + 1 != batch_id && batch_id > 0),
            final(self).spec_max_batch_id() == if r.0 {
                old(self).spec_max_batch_id()
            } else {
                batch_id
            },
            final(self).spec_last_batch_id() == batch_id,
            final(self).spec_latest_logical_time() == old(self).spec_latest_logical_time(),
            final(self).spec_expirations() == old(self).spec_expirations(),
    {
        let out_of_order = self.max_batch_id >= batch_id && batch_id > 0;
        if !out_of_order {
            self.max_batch_id = batch_id;
        }
        let not_sequential = batch_id > 0 && (self.last_batch_id == u64::MAX
            || self.last_batch_id + 1 != batch_id);
        self.last_batch_id = batch_id;
        (out_of_order, not_sequential)
    }

    /// A clean request from execution at `logical_time`, which is in the current epoch
    /// and not earlier than the latest time seen (execution only cleans certified
    /// rounds). The latest time advances, and the batches that expire by its round are
    /// returned and forgotten.
    pub fn handle_clean_request(&mut self, logical_time: LogicalTime) -> (expired: Vec<u64>)
        requires
            logical_time.epoch == old(self).spec_latest_logical_time().epoch,
            time_le(old(self).spec_latest_logical_time(), logical_time),
        ensures
            final(self).spec_latest_logical_time() == logical_time,
            expired@ == old(self).spec_expirations().filter(
                |e: (u64, u64)| e.0 <= logical_time.round,
            ).map_values(|e: (u64, u64)| e.1),
            final(self).spec_expirations() == old(self).spec_expirations().filter(
                |e: (u64, u64)| e.0 > logical_time.round,
            ),
            final(self).spec_max_batch_id() == old(self).spec_max_batch_id(),
            final(self).spec_last_batch_id() == old(self).spec_last_batch_id(),
    {
        self.latest_logical_time = logical_time;
        let round = logical_time.round;
        let ghost old_e = self.batch_expirations@;
        let mut expired: Vec<u64> = Vec::new();
        let mut kept: Vec<(u64, u64)> = Vec::new();
        let mut i: usize = 0;
        while i < self.batch_expirations.len()
            invariant
                self.batch_expirations@ == old_e,
                i <= old_e.len(),
                expired@ == old_e.subrange(0, i as int).filter(|e: (u64, u64)| e.0 <= round).map_values(
                    |e: (u64, u64)| e.1,
                ),
                kept@ == old_e.subrange(0, i as int).filter(|e: (u64, u64)| e.0 > round),
            decreases old_e.len() - i,
        {
            let e = self.batch_expirations[i];
            proof {
                let s = old_e.subrange(0, i + 1);
                assert(s.drop_last() =~= old_e.subrange(0, i as int));
                assert(s.last() == e);
                reveal(Seq::filter);
            }
            if e.0 <= round {
                expired.push(e.1);
            } else {
                kept.push(e);
            }
            i = i + 1;
            proof {
                assert(expired@ =~= old_e.subrange(0, i as int).filter(|e: (u64, u64)| e.0 <= round).map_values(
                    |e: (u64, u64)| e.1,
                ));
            }
        }
        assert(old_e.subrange(0, old_e.len() as int) =~= old_e);
        self.batch_expirations = kept;
        expired
    }

    /// Whether a clean request at `logical_time` can be taken: `Err` names what is
    /// wrong with it.
    pub fn check_clean_request(&self, logical_time: LogicalTime) -> (r: Result<(), CleanError>)
        ensures
            r is Ok <==> logical_time.epoch == self.spec_latest_logical_time().epoch && time_le(
                self.spec_latest_logical_time(),
                logical_time,
            ),
            logical_time.epoch != self.spec_latest_logical_time().epoch ==> r == Err::<
                (),
                CleanError,
            >(CleanError::WrongEpoch),
            logical_time.epoch == self.spec_latest_logical_time().epoch && !time_le(
                self.spec_latest_logical_time(),
                logical_time,
            ) ==> r == Err::<(), CleanError>(CleanError::DecreasingLogicalTime),
    {
        if logical_time.epoch != self.latest_logical_time.epoch {
            return Err(CleanError::WrongEpoch);
        }
        if logical_time.round < self.latest_logical_time.round {
            return Err(CleanError::DecreasingLogicalTime);
        }
        Ok(())
    }
}

} // verus!

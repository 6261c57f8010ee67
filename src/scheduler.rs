use vstd::prelude::*;

verus! {

/// Where a position stands; the number is its current incarnation.
#[derive(Clone, Copy, Debug, PartialEq, Eq, Structural)]
pub enum Status {
    ReadyToExecute(u32),
    Executing(u32),
    Executed(u32),
    Validated(u32),
    Committed(u32),
}

/// Work handed to a worker.
#[derive(Clone, Copy, Debug, PartialEq, Eq, Structural)]
pub enum Task {
    /// Run the transaction at this position, as this incarnation.
    Execution(usize, u32),
    /// Check the reads of this incarnation of this position; the wave it was issued in.
    Validation(usize, u32, u64),
    /// Nothing ready yet: ask again.
    NoTask,
    /// The block is finished or halted.
    Done,
}

/// Why a block stopped before all its positions were committed.
#[derive(Clone, Copy, Debug, PartialEq, Eq, Structural)]
pub enum Error {
    /// A code module was both published and read in the block: run it sequentially.
    ModulePathReadWrite,
    /// A position was aborted more often than its incarnation counter can count.
    IncarnationLimit,
    /// The virtual machine failed in a way that fails the whole block; its status code.
    UserError(u64),
    /// An output wrote to a key outside the block's key table.
    UnknownStateKey,
    /// An output both wrote a key and added a delta to it.
    ConflictingWrites,
}

/// Hands out execution and validation tasks over positions `0..block_size` and
/// moves the commit cursor.
pub struct Scheduler {
    block_size: usize,
    status: Vec<Status>,
    /// The wave in which each position's last validation was invalidated.
    invalidated_at: Vec<u64>,
    wave: u64,
    execution_idx: usize,
    validation_idx: usize,
    commit_idx: usize,
    stop_idx: usize,
    halted: Option<Error>,
    /// Whether the latest execution of each position asked to skip the rest.
    skip_requested: Vec<bool>,
}

pub open spec fn is_committed(s: Status) -> bool {
    s is Committed
}

/// Some position below `e` asked to skip the rest of the block.
pub open spec fn skip_below(flags: Seq<bool>, e: int) -> bool
    decreases e,
{
    e > 0 && (flags[e - 1] || skip_below(flags, e - 1))
}

/// The halt reason after halting for `e`: the first reason is kept.
pub open spec fn first_halt(h: Option<Error>, e: Error) -> Option<Error> {
    if h is Some {
        h
    } else {
        Some(e)
    }
}

/// A validation of `s` no longer counts: a position below it wrote again.
pub open spec fn invalidate(s: Status) -> Status {
    match s {
        Status::Validated(k) => Status::Executed(k),
        _ => s,
    }
}

impl Scheduler {
    pub closed spec fn spec_block_size(&self) -> nat {
        self.block_size as nat
    }

    pub closed spec fn statuses(&self) -> Seq<Status> {
        self.status@
    }

    pub closed spec fn spec_commit_idx(&self) -> nat {
        self.commit_idx as nat
    }

    /// Positions from here on are not run: a transaction below asked to skip the rest.
    pub closed spec fn spec_stop_idx(&self) -> nat {
        self.stop_idx as nat
    }

    /// The smallest position that may still need an execution handed out.
    pub closed spec fn spec_execution_idx(&self) -> nat {
        self.execution_idx as nat
    }

    /// The smallest position that may still need a validation handed out.
    pub closed spec fn spec_validation_idx(&self) -> nat {
        self.validation_idx as nat
    }

    /// The task `next_task` hands out: the validation at the validation cursor where
    /// that cursor is below the execution cursor and the position there is executed;
    /// otherwise the execution at the execution cursor where that position is ready and
    /// no position below it asked to skip the rest of the block.
    pub open spec fn expected_task(&self) -> Task {
        let v = self.spec_validation_idx();
        let e = self.spec_execution_idx();
        let stop = self.spec_stop_idx();
        if self.spec_done() {
            Task::Done
        } else if v < e && v < stop && self.statuses()[v as int] is Executed {
            Task::Validation(v as usize, self.statuses()[v as int]->Executed_0, self.spec_wave())
        } else if e < stop && !skip_below(self.spec_skip_requested(), e as int)
            && self.statuses()[e as int] is ReadyToExecute {
            Task::Execution(e as usize, self.statuses()[e as int]->ReadyToExecute_0)
        } else {
            Task::NoTask
        }
    }

    pub closed spec fn spec_wave(&self) -> u64 {
        self.wave
    }

    pub closed spec fn spec_halted(&self) -> Option<Error> {
        self.halted
    }

    /// Whether the latest finished execution of each position asked to skip the rest
    /// of the block; it takes effect when that position commits.
    pub closed spec fn spec_skip_requested(&self) -> Seq<bool> {
        self.skip_requested@
    }

    pub closed spec fn spec_invalidated_at(&self) -> Seq<u64> {
        self.invalidated_at@
    }

    /// The positions below the commit cursor are exactly the committed ones.
    pub closed spec fn wf(&self) -> bool {
        &&& self.status@.len() == self.block_size
        &&& self.invalidated_at@.len() == self.block_size
        &&& self.skip_requested@.len() == self.block_size
        &&& self.commit_idx <= self.stop_idx <= self.block_size
        &&& self.execution_idx <= self.block_size
        &&& self.validation_idx <= self.block_size
        &&& forall|j: int| 0 <= j < self.commit_idx ==> is_committed(#[trigger] self.status@[j])
        &&& forall|j: int|
            self.commit_idx <= j < self.block_size ==> !is_committed(#[trigger] self.status@[j])
        &&& forall|j: int|
            0 <= j < self.block_size ==> #[trigger] self.invalidated_at@[j] <= self.wave
    }

    /// Whether the block is finished: halted, or committed up to the stop position.
    pub open spec fn spec_done(&self) -> bool {
        self.spec_halted() is Some || self.spec_commit_idx() == self.spec_stop_idx()
    }

    pub fn new(block_size: usize) -> (r: Self)
        ensures
            r.wf(),
            r.spec_block_size() == block_size,
            r.spec_commit_idx() == 0,
            r.spec_stop_idx() == block_size,
            r.spec_halted() is None,
            r.spec_execution_idx() == 0,
            r.spec_validation_idx() == 0,
            r.spec_wave() == 0,
            r.spec_skip_requested() == Seq::new(block_size as nat, |j: int| false),
            r.statuses() == Seq::new(block_size as nat, |j: int| Status::ReadyToExecute(0)),
    {
        let mut status: Vec<Status> = Vec::new();
        let mut invalidated_at: Vec<u64> = Vec::new();
        let mut skip_requested: Vec<bool> = Vec::new();
        let mut i: usize = 0;
        while i < block_size
            invariant
                i <= block_size,
                status@.len() == i,
                invalidated_at@.len() == i,
                skip_requested@.len() == i,
                forall|j: int| 0 <= j < i ==> !skip_requested@[j],
                forall|j: int| 0 <= j < i ==> status@[j] == Status::ReadyToExecute(0),
                forall|j: int| 0 <= j < i ==> invalidated_at@[j] == 0,
            decreases block_size - i,
        {
            status.push(Status::ReadyToExecute(0));
            invalidated_at.push(0);
            skip_requested.push(false);
            i = i + 1;
        }
        let r = Scheduler {
            block_size,
            status,
            invalidated_at,
            wave: 0,
            execution_idx: 0,
            validation_idx: 0,
            commit_idx: 0,
            stop_idx: block_size,
            halted: None,
            skip_requested,
        };
        assert(r.statuses() =~= Seq::new(block_size as nat, |j: int| Status::ReadyToExecute(0)));
        assert(r.spec_skip_requested() =~= Seq::new(block_size as nat, |j: int| false));
        r
    }

    pub fn block_size(&self) -> (r: usize)
        ensures
            r == self.spec_block_size(),
    {
        self.block_size
    }

    pub fn commit_idx(&self) -> (r: usize)
        ensures
            r == self.spec_commit_idx(),
    {
        self.commit_idx
    }

    pub fn stop_idx(&self) -> (r: usize)
        ensures
            r == self.spec_stop_idx(),
    {
        self.stop_idx
    }

    pub fn halted(&self) -> (r: Option<Error>)
        ensures
            r == self.spec_halted(),
    {
        self.halted
    }

    pub fn done(&self) -> (r: bool)
        requires
            self.wf(),
        ensures
            r == self.spec_done(),
    {
        self.halted.is_some() || self.commit_idx == self.stop_idx
    }

    pub fn status(&self, idx: usize) -> (r: Status)
        requires
            self.wf(),
            idx < self.spec_block_size(),
        ensures
            r == self.statuses()[idx as int],
    {
        self.status[idx]
    }
    /// Commits are final and in order: in every reachable state the positions below
    /// the commit cursor are exactly the committed ones, and the cursor never passes
    /// the stop position. Every operation keeps the cursor or moves it up by one, so
    /// once it reaches the stop position the block is done.
    pub proof fn lemma_committed_prefix(&self)
        requires
            self.wf(),
        ensures
            self.spec_commit_idx() <= self.spec_stop_idx() <= self.spec_block_size(),
            self.statuses().len() == self.spec_block_size(),
            forall|j: int|
                0 <= j < self.spec_block_size() ==> (is_committed(#[trigger] self.statuses()[j])
                    <==> j < self.spec_commit_idx()),
    {
    }

    fn skip_requested_below(&self, e: usize) -> (r: bool)
        requires
            self.wf(),
            e <= self.spec_block_size(),
        ensures
            r == skip_below(self.spec_skip_requested(), e as int),
    {
        let mut j: usize = 0;
        let mut found = false;
        while j < e
            invariant
                self.wf(),
                j <= e <= self.spec_block_size(),
                found == skip_below(self.spec_skip_requested(), j as int),
            decreases e - j,
        {
            found = found || self.skip_requested[j];
            j = j + 1;
        }
        found
    }

    /// Hands out the next task: a validation where one is pending below the execution
    /// cursor, else an execution. `Done` exactly when the block is finished.
    pub fn next_task(&mut self) -> (t: Task)
        requires
            old(self).wf(),
        ensures
            final(self).wf(),
            final(self).spec_block_size() == old(self).spec_block_size(),
            final(self).spec_commit_idx() == old(self).spec_commit_idx(),
            final(self).spec_stop_idx() == old(self).spec_stop_idx(),
            final(self).spec_halted() == old(self).spec_halted(),
            final(self).spec_wave() == old(self).spec_wave(),
            final(self).spec_invalidated_at() == old(self).spec_invalidated_at(),
            final(self).spec_skip_requested() == old(self).spec_skip_requested(),
            (t is Done) == old(self).spec_done(),
            t == old(self).expected_task(),
            ({
                let v = old(self).spec_validation_idx();
                let e = old(self).spec_execution_idx();
                let stop = old(self).spec_stop_idx();
                let validating = v < e && v < stop;
                &&& final(self).spec_validation_idx() == if !old(self).spec_done() && validating {
                    v + 1
                } else {
                    v
                }
                &&& final(self).spec_execution_idx() == if old(self).spec_done() || t is Validation
                    || e >= stop || skip_below(old(self).spec_skip_requested(), e as int) {
                    e
                } else {
                    e + 1
                }
            }),
            match t {
                Task::Execution(i, k) => {
                    &&& i < old(self).spec_stop_idx()
                    &&& old(self).statuses()[i as int] == Status::ReadyToExecute(k)
                    &&& final(self).statuses() == old(self).statuses().update(
                        i as int,
                        Status::Executing(k),
                    )
                },
                Task::Validation(i, k, w) => {
                    &&& i < old(self).spec_stop_idx()
                    &&& old(self).statuses()[i as int] == Status::Executed(k)
                    &&& w == old(self).spec_wave()
                    &&& final(self).statuses() == old(self).statuses()
                },
                _ => final(self).statuses() == old(self).statuses(),
            },
    {
        if self.halted.is_some() || self.commit_idx == self.stop_idx {
            return Task::Done;
        }
        if self.validation_idx < self.execution_idx && self.validation_idx < self.stop_idx {
            let i = self.validation_idx;
            self.validation_idx = i + 1;
            if let Status::Executed(k) = self.status[i] {
                return Task::Validation(i, k, self.wave);
            }
        }
        if self.execution_idx < self.stop_idx {
            let i = self.execution_idx;
            if self.skip_requested_below(i) {
                return Task::NoTask;
            }
            self.execution_idx = i + 1;
            match self.status[i] {
                Status::ReadyToExecute(k) => {
                    self.status.set(i, Status::Executing(k));
                    return Task::Execution(i, k);
                },
                _ => {
                    return Task::NoTask;
                },
            }
        }
        Task::NoTask
    }

    /// Withdraws the validations of the positions above `i` and opens a new wave.
    fn invalidate_above(&mut self, i: usize)
        requires
            old(self).wf(),
            i < old(self).spec_block_size(),
            i >= old(self).spec_commit_idx(),
            old(self).spec_wave() < u64::MAX,
        ensures
            final(self).wf(),
            final(self).spec_block_size() == old(self).spec_block_size(),
            final(self).spec_commit_idx() == old(self).spec_commit_idx(),
            final(self).spec_stop_idx() == old(self).spec_stop_idx(),
            final(self).spec_halted() == old(self).spec_halted(),
            final(self).spec_wave() == old(self).spec_wave() + 1,
            final(self).statuses().len() == old(self).statuses().len(),
            forall|j: int|
                0 <= j <= i ==> #[trigger] final(self).statuses()[j] == old(self).statuses()[j],
            forall|j: int|
                i < j < old(self).spec_block_size() ==> #[trigger] final(self).statuses()[j]
                    == invalidate(old(self).statuses()[j]),
            forall|j: int|
                0 <= j < i ==> #[trigger] final(self).spec_invalidated_at()[j]
                    == old(self).spec_invalidated_at()[j],
            forall|j: int|
                i <= j < old(self).spec_block_size() ==> #[trigger] final(self).spec_invalidated_at()[j]
                    == final(self).spec_wave(),
            final(self).validation_idx == if old(self).validation_idx > i {
                i
            } else {
                old(self).validation_idx
            },
            final(self).execution_idx == old(self).execution_idx,
            final(self).skip_requested == old(self).skip_requested,
    {
        self.wave = self.wave + 1;
        let ghost st0 = self.status@;
        let ghost inv0 = self.invalidated_at@;
        let ghost entry_state = *self;
        let mut j: usize = i;
        while j < self.block_size
            invariant
                self.block_size == entry_state.block_size,
                self.commit_idx == entry_state.commit_idx,
                self.stop_idx == entry_state.stop_idx,
                self.halted == entry_state.halted,
                self.wave == entry_state.wave,
                self.execution_idx == entry_state.execution_idx,
                self.validation_idx == entry_state.validation_idx,
                self.skip_requested == entry_state.skip_requested,
                st0 == entry_state.status@,
                inv0 == entry_state.invalidated_at@,
                forall|m: int| 0 <= m < self.block_size ==> #[trigger] inv0[m] < self.wave,
                self.status@.len() == self.block_size,
                self.invalidated_at@.len() == self.block_size,
                st0.len() == self.block_size,
                inv0.len() == self.block_size,
                i <= j <= self.block_size,
                self.commit_idx <= i,
                forall|m: int| 0 <= m <= i ==> #[trigger] self.status@[m] == st0[m],
                forall|m: int| i < m < j ==> #[trigger] self.status@[m] == invalidate(st0[m]),
                forall|m: int| j <= m < self.block_size ==> #[trigger] self.status@[m] == st0[m],
                forall|m: int| 0 <= m < i ==> #[trigger] self.invalidated_at@[m] == inv0[m],
                forall|m: int| i <= m < j ==> #[trigger] self.invalidated_at@[m] == self.wave,
                forall|m: int| j <= m < self.block_size ==> #[trigger] self.invalidated_at@[m] == inv0[m],
            decreases self.block_size - j,
        {
            if j > i {
                let s = self.status[j];
                if let Status::Validated(k) = s {
                    self.status.set(j, Status::Executed(k));
                }
            }
            self.invalidated_at.set(j, self.wave);
            j = j + 1;
        }
        if self.validation_idx > i {
            self.validation_idx = i;
        }
    }

    /// Records that incarnation `k` of position `i` finished executing, and whether it
    /// asked to skip the rest of the block. Its own reads and those of every position
    /// above must be validated again: the validation cursor comes back to `i` and a new
    /// wave invalidates the validations from `i` on.
    pub fn finish_execution(&mut self, i: usize, k: u32, skip_rest: bool)
        requires
            old(self).wf(),
            i < old(self).spec_block_size(),
            old(self).statuses()[i as int] == Status::Executing(k),
            old(self).spec_wave() < u64::MAX,
        ensures
            final(self).wf(),
            final(self).spec_block_size() == old(self).spec_block_size(),
            final(self).spec_commit_idx() == old(self).spec_commit_idx(),
            final(self).spec_stop_idx() == old(self).spec_stop_idx(),
            final(self).spec_halted() == old(self).spec_halted(),
            final(self).spec_wave() == old(self).spec_wave() + 1,
            final(self).statuses().len() == old(self).statuses().len(),
            final(self).statuses()[i as int] == Status::Executed(k),
            final(self).spec_validation_idx() == if old(self).spec_validation_idx() > i {
                i as nat
            } else {
                old(self).spec_validation_idx()
            },
            final(self).spec_execution_idx() == old(self).spec_execution_idx(),
            final(self).spec_skip_requested() == old(self).spec_skip_requested().update(
                i as int,
                skip_rest,
            ),
            final(self).spec_skip_requested()[i as int] == skip_rest,
            final(self).spec_invalidated_at().len() == old(self).spec_invalidated_at().len(),
            forall|j: int|
                0 <= j < i ==> #[trigger] final(self).spec_invalidated_at()[j]
                    == old(self).spec_invalidated_at()[j],
            forall|j: int|
                i <= j < old(self).spec_block_size() ==> #[trigger] final(self).spec_invalidated_at()[j]
                    == final(self).spec_wave(),
            forall|j: int|
                0 <= j < i ==> #[trigger] final(self).statuses()[j] == old(self).statuses()[j],
            forall|j: int|
                i < j < old(self).spec_block_size() ==> #[trigger] final(self).statuses()[j]
                    == invalidate(old(self).statuses()[j]),
    {
        self.status.set(i, Status::Executed(k));
        self.skip_requested.set(i, skip_rest);
        self.invalidate_above(i);
    }

    /// Records the outcome of validation task `(i, k, w)`. A passing validation marks
    /// the position validated, unless it was invalidated after the task was issued. A
    /// failing one aborts the incarnation: the position is executed again as `k + 1`
    /// and the positions above lose their validations; `true` is returned, and the
    /// caller marks the incarnation's writes as estimates. A task about an incarnation
    /// that is no longer current changes nothing.
    pub fn finish_validation(&mut self, i: usize, k: u32, w: u64, valid: bool) -> (aborted: bool)
        requires
            old(self).wf(),
            i < old(self).spec_block_size(),
            old(self).spec_wave() < u64::MAX,
        ensures
            final(self).wf(),
            final(self).spec_block_size() == old(self).spec_block_size(),
            final(self).spec_commit_idx() == old(self).spec_commit_idx(),
            final(self).spec_stop_idx() == old(self).spec_stop_idx(),
            final(self).statuses().len() == old(self).statuses().len(),
            aborted <==> old(self).statuses()[i as int] == Status::Executed(k) && !valid && k
                < u32::MAX,
            final(self).spec_skip_requested() == old(self).spec_skip_requested(),
            old(self).statuses()[i as int] != Status::Executed(k) ==> *final(self) == *old(self),
            old(self).statuses()[i as int] == Status::Executed(k) && valid ==> {
                &&& !aborted
                &&& final(self).statuses() == old(self).statuses().update(
                    i as int,
                    if old(self).spec_invalidated_at()[i as int] <= w {
                        Status::Validated(k)
                    } else {
                        Status::Executed(k)
                    },
                )
                &&& final(self).spec_halted() == old(self).spec_halted()
            },
            old(self).statuses()[i as int] == Status::Executed(k) && !valid && k == u32::MAX
                ==> !aborted && final(self).spec_halted() == first_halt(
                old(self).spec_halted(),
                Error::IncarnationLimit,
            )
                && final(self).statuses() == old(self).statuses(),
            aborted ==> {
                &&& final(self).statuses()[i as int] == Status::ReadyToExecute((k + 1) as u32)
                &&& final(self).spec_execution_idx() <= i
                &&& final(self).spec_validation_idx() <= i
                &&& forall|j: int|
                    0 <= j < i ==> #[trigger] final(self).statuses()[j] == old(self).statuses()[j]
                &&& forall|j: int|
                    i < j < old(self).spec_block_size() ==> #[trigger] final(self).statuses()[j]
                        == invalidate(old(self).statuses()[j])
                &&& final(self).spec_halted() == old(self).spec_halted()
            },
    {
        if self.status[i] != Status::Executed(k) {
            return false;
        }
        if valid {
            if self.invalidated_at[i] <= w {
                self.status.set(i, Status::Validated(k));
            }
            return false;
        }
        if k == u32::MAX {
            if self.halted.is_none() {
                self.halted = Some(Error::IncarnationLimit);
            }
            return false;
        }
        self.invalidate_above(i);
        self.status.set(i, Status::ReadyToExecute(k + 1));
        if self.execution_idx > i {
            self.execution_idx = i;
        }
        true
    }

    /// Incarnation `k` of position `i` stopped on a read that waits for a lower
    /// position: it is handed out again, as the same incarnation, once the execution
    /// cursor comes back to it.
    pub fn suspend(&mut self, i: usize, k: u32)
        requires
            old(self).wf(),
            i < old(self).spec_block_size(),
            old(self).statuses()[i as int] == Status::Executing(k),
        ensures
            final(self).wf(),
            final(self).spec_block_size() == old(self).spec_block_size(),
            final(self).spec_commit_idx() == old(self).spec_commit_idx(),
            final(self).spec_stop_idx() == old(self).spec_stop_idx(),
            final(self).spec_halted() == old(self).spec_halted(),
            final(self).spec_wave() == old(self).spec_wave(),
            final(self).spec_skip_requested() == old(self).spec_skip_requested(),
            final(self).statuses() == old(self).statuses().update(
                i as int,
                Status::ReadyToExecute(k),
            ),
    {
        self.status.set(i, Status::ReadyToExecute(k));
        if self.execution_idx > i {
            self.execution_idx = i;
        }
    }

    /// Commits the position at the commit cursor if its current incarnation is
    /// validated; returns it. Where that incarnation asked to skip the rest, the block
    /// stops right after it.
    pub fn try_commit(&mut self) -> (r: Option<usize>)
        requires
            old(self).wf(),
        ensures
            final(self).wf(),
            final(self).spec_block_size() == old(self).spec_block_size(),
            final(self).spec_halted() == old(self).spec_halted(),
            final(self).spec_skip_requested() == old(self).spec_skip_requested(),
            r is Some <==> old(self).spec_halted() is None && old(self).spec_commit_idx()
                < old(self).spec_stop_idx() && old(self).statuses()[old(
                self,
            ).spec_commit_idx() as int] is Validated,
            r matches Some(i) ==> {
                &&& i == old(self).spec_commit_idx()
                &&& final(self).spec_commit_idx() == i + 1
                &&& final(self).spec_stop_idx() == if old(self).spec_skip_requested()[i as int] {
                    i + 1
                } else {
                    old(self).spec_stop_idx() as int
                }
                &&& final(self).statuses() == old(self).statuses().update(
                    i as int,
                    Status::Committed(old(self).statuses()[i as int]->Validated_0),
                )
            },
            r is None ==> *final(self) == *old(self),
    {
        if self.halted.is_none() && self.commit_idx < self.stop_idx {
            let c = self.commit_idx;
            if let Status::Validated(k) = self.status[c] {
                self.status.set(c, Status::Committed(k));
                self.commit_idx = c + 1;
                if self.skip_requested[c] {
                    self.stop_idx = c + 1;
                }
                return Some(c);
            }
        }
        None
    }

    /// Stops the block: every worker is handed `Done` from now on. Where it was already
    /// halted, the first reason stays.
    pub fn halt(&mut self, e: Error)
        requires
            old(self).wf(),
        ensures
            final(self).wf(),
            final(self).spec_block_size() == old(self).spec_block_size(),
            final(self).spec_commit_idx() == old(self).spec_commit_idx(),
            final(self).spec_stop_idx() == old(self).spec_stop_idx(),
            final(self).statuses() == old(self).statuses(),
            final(self).spec_skip_requested() == old(self).spec_skip_requested(),
            final(self).spec_halted() == first_halt(old(self).spec_halted(), e),
    {
        if self.halted.is_none() {
            self.halted = Some(e);
        }
    }

    /// The wave counter can still advance.
    pub fn wave_available(&self) -> (r: bool)
        ensures
            r == (self.spec_wave() < u64::MAX),
    {
        self.wave < u64::MAX
    }
}

} // verus!

//! The bookkeeping of a background worker.
//!
//! A worker runs the tasks handed to it one at a time, in the order in which
//! they were submitted, on a thread of its own. Each task gets a ticket:
//! tickets are counted up from zero, so the order of the tickets is the
//! order of submission. The owner learns of finished tasks only when it
//! polls: a poll hands out the tickets of all tasks that finished since the
//! poll before, lowest first, and the owner then calls the handler that it
//! keeps for each ticket.
//!
//! The thread itself and the channels between the two sides belong to the
//! program around this library. This module decides what either side does
//! next and keeps count of it.

use vstd::prelude::*;

verus! {

/// How long the thread waits when nothing is queued, in milliseconds.
pub const IDLE_SLEEP_MS: u64 = 5;

/// How long the owner waits between two polls, in milliseconds.
pub const POLL_INTERVAL_MS: u64 = 10;

/// What the worker thread does next.
#[derive(Clone, Copy, Debug, PartialEq, Eq, Structural)]
pub enum WorkerAction {
    /// Run the task at the head of the queue.
    Run,
    /// Nothing is queued and no stop was asked for: wait a moment, then look
    /// again.
    Sleep,
    /// Nothing is queued and a stop was asked for: leave the loop.
    Exit,
}

/// What one poll hands to the owner.
#[derive(Clone, Copy, Debug, PartialEq, Eq, Structural)]
pub struct Delivery {
    /// The ticket of the first task whose result is delivered by this poll.
    pub first: u64,
    /// How many results are delivered; their tickets follow `first` one by one.
    pub count: u64,
    /// Whether a submitted task is still waiting for its delivery.
    pub pending: bool,
}

/// The counters of a worker.
#[derive(Debug)]
pub struct ThreadWorker {
    submitted: u64,
    completed: u64,
    delivered: u64,
    stop: bool,
    exited: bool,
}

/// The mathematical value of a [`ThreadWorker`]: how many tasks were
/// submitted, how many of them the thread has run, how many results the
/// owner has received, and the two flags of the shutdown.
pub struct WorkerState {
    pub submitted: nat,
    pub completed: nat,
    pub delivered: nat,
    pub stop: bool,
    pub exited: bool,
}

impl WorkerState {
    /// Results are delivered only of tasks that were run, tasks are run only
    /// if they were submitted, and the thread has left only after a stop was
    /// asked for and every task was run.
    pub open spec fn wf(self) -> bool {
        &&& self.delivered <= self.completed <= self.submitted
        &&& self.submitted <= u64::MAX
        &&& self.exited ==> self.stop && self.completed == self.submitted
    }

    /// What the thread does next in this state.
    pub open spec fn action(self) -> WorkerAction {
        next_action_of(self.completed < self.submitted, self.stop)
    }

    /// The state after the thread has done what it does next.
    pub open spec fn after_step(self) -> WorkerState {
        match self.action() {
            WorkerAction::Run => WorkerState { completed: self.completed + 1, ..self },
            WorkerAction::Sleep => self,
            WorkerAction::Exit => WorkerState { exited: true, ..self },
        }
    }

    /// The state after `n` steps of the thread.
    pub open spec fn after_steps(self, n: nat) -> WorkerState
        decreases n,
    {
        if n == 0 {
            self
        } else {
            self.after_step().after_steps((n - 1) as nat)
        }
    }

    /// The state after a poll.
    pub open spec fn after_tick(self) -> WorkerState {
        WorkerState { delivered: self.completed, ..self }
    }

    /// Whether a submitted task still waits for its delivery.
    pub open spec fn pending(self) -> bool {
        self.delivered < self.submitted
    }

    /// The result of the task with `ticket` has been delivered.
    pub open spec fn has_delivered(self, ticket: nat) -> bool {
        ticket < self.delivered
    }
}

/// What the thread does next, given whether a task is queued and whether a
/// stop was asked for: queued tasks are run first, also after a stop.
pub open spec fn next_action_of(task_queued: bool, stop_requested: bool) -> WorkerAction {
    if task_queued {
        WorkerAction::Run
    } else if stop_requested {
        WorkerAction::Exit
    } else {
        WorkerAction::Sleep
    }
}

/// What the thread does next.
pub fn next_action(task_queued: bool, stop_requested: bool) -> (a: WorkerAction)
    ensures
        a == next_action_of(task_queued, stop_requested),
{
    if task_queued {
        WorkerAction::Run
    } else if stop_requested {
        WorkerAction::Exit
    } else {
        WorkerAction::Sleep
    }
}

impl View for ThreadWorker {
    type V = WorkerState;

    closed spec fn view(&self) -> WorkerState {
        WorkerState {
            submitted: self.submitted as nat,
            completed: self.completed as nat,
            delivered: self.delivered as nat,
            stop: self.stop,
            exited: self.exited,
        }
    }
}

impl ThreadWorker {
    /// The counters of a worker are well formed at all times.
    #[verifier::type_invariant]
    spec fn well_formed(self) -> bool {
        self@.wf()
    }

    /// A worker to which nothing was submitted yet.
    pub fn new() -> (w: ThreadWorker)
        ensures
            w@.wf(),
            w@ == (WorkerState { submitted: 0, completed: 0, delivered: 0, stop: false, exited: false }),
    {
        ThreadWorker { submitted: 0, completed: 0, delivered: 0, stop: false, exited: false }
    }

    /// Whether another task can be submitted: no stop was asked for, and a
    /// ticket is left.
    pub fn accepts(&self) -> (b: bool)
        ensures
            b == (!self@.stop && self@.submitted < u64::MAX),
            self@.wf(),
    {
        proof {
            use_type_invariant(self);
        }
        !self.stop && self.submitted < u64::MAX
    }

    /// Submits a task and returns its ticket. The owner queues the task for
    /// the thread and keeps the handler for its result under the ticket.
    pub fn run_async(&mut self) -> (ticket: u64)
        requires
            !old(self)@.stop,
            old(self)@.submitted < u64::MAX,
        ensures
            ticket == old(self)@.submitted,
            final(self)@ == (WorkerState { submitted: old(self)@.submitted + 1, ..old(self)@ }),
            final(self)@.wf(),
    {
        proof {
            use_type_invariant(&*self);
        }
        let ticket: u64 = self.submitted;
        self.submitted = self.submitted + 1;
        ticket
    }

    /// What the thread does next.
    pub fn action(&self) -> (a: WorkerAction)
        ensures
            a == self@.action(),
            self@.wf(),
    {
        proof {
            use_type_invariant(self);
        }
        next_action(self.completed < self.submitted, self.stop)
    }

    /// Takes note that the thread has done what it was to do next: run the
    /// task at the head of the queue, waited, or left its loop.
    pub fn step(&mut self) -> (a: WorkerAction)
        ensures
            a == old(self)@.action(),
            final(self)@ == old(self)@.after_step(),
            final(self)@.wf(),
    {
        proof {
            use_type_invariant(&*self);
        }
        let a = next_action(self.completed < self.submitted, self.stop);
        match a {
            WorkerAction::Run => {
                self.completed = self.completed + 1;
            },
            WorkerAction::Sleep => {},
            WorkerAction::Exit => {
                self.exited = true;
            },
        }
        a
    }

    /// Polls: hands out the tickets of all tasks that were run since the
    /// last poll, in the order of their submission, and says whether any
    /// submitted task still waits.
    pub fn tick(&mut self) -> (d: Delivery)
        ensures
            final(self)@ == old(self)@.after_tick(),
            final(self)@.wf(),
            d.first == old(self)@.delivered,
            d.count == old(self)@.completed - old(self)@.delivered,
            d.pending == final(self)@.pending(),
    {
        proof {
            use_type_invariant(&*self);
        }
        let d = Delivery {
            first: self.delivered,
            count: self.completed - self.delivered,
            pending: self.completed < self.submitted,
        };
        self.delivered = self.completed;
        d
    }

    /// Whether the thread has left its loop.
    pub fn is_finished(&self) -> (b: bool)
        ensures
            b == self@.exited,
            self@.wf(),
    {
        proof {
            use_type_invariant(self);
        }
        self.exited
    }

    /// Asks the thread to leave once its queue is empty. Tasks that are
    /// queued are still run.
    pub fn stop(&mut self)
        ensures
            final(self)@ == (WorkerState { stop: true, ..old(self)@ }),
            final(self)@.wf(),
    {
        proof {
            use_type_invariant(&*self);
        }
        self.stop = true;
    }
}

/// Results are delivered in the order of submission: whenever the result
/// of a task has been delivered, so has that of every task submitted before
/// it, and a poll hands out the earlier ticket first.
pub proof fn lemma_delivery_is_fifo(w: WorkerState, t1: nat, t2: nat)
    requires
        w.wf(),
        t1 < t2,
        t2 < w.submitted,
    ensures
        w.has_delivered(t2) ==> w.has_delivered(t1),
        w.after_tick().has_delivered(t2) ==> w.after_tick().has_delivered(t1),
        !w.has_delivered(t1) && w.after_tick().has_delivered(t2) ==> w.delivered <= t1 < t2
            < w.completed,
{
}

/// The steps of the thread keep the state well formed, and after `n` steps
/// the thread has run `n` more tasks, or all of them.
pub proof fn lemma_steps_run_tasks(w: WorkerState, n: nat)
    requires
        w.wf(),
    ensures
        w.after_steps(n).wf(),
        w.after_steps(n).submitted == w.submitted,
        w.after_steps(n).delivered == w.delivered,
        w.after_steps(n).stop == w.stop,
        w.after_steps(n).completed == if w.completed + n <= w.submitted {
            w.completed + n
        } else {
            w.submitted
        },
        w.completed + n < w.submitted ==> !w.after_steps(n).exited,
        w.completed + n < w.submitted || !w.stop ==> w.after_steps(n).exited == w.exited,
    decreases n,
{
    if n > 0 {
        lemma_steps_run_tasks(w.after_step(), (n - 1) as nat);
    }
}

/// A worker that was asked to stop drains: once the thread has taken one
/// step for each task that was still queued, a poll delivers every result
/// that was outstanding and reports that nothing is pending, and with its
/// next step the thread leaves.
pub proof fn lemma_stop_drains(w: WorkerState)
    requires
        w.wf(),
        w.stop,
    ensures
        ({
            let drained = w.after_steps((w.submitted - w.completed) as nat);
            &&& drained.completed == w.submitted
            &&& !drained.after_tick().pending()
            &&& drained.after_tick().delivered == w.submitted
            &&& drained.after_step().exited
        }),
{
    lemma_steps_run_tasks(w, (w.submitted - w.completed) as nat);
}

} // verus!

//! The bounded worker pool, modelled by the events that change its state.
//!
//! A pool owns a fixed number of workers sharing one job channel and one
//! outcome channel, plus a counter of idle workers. The threads themselves
//! and the child processes they spawn live outside this crate; what is
//! verified here is the accounting every such deployment must keep:
//! submitting queues a job, a worker picking a job up decrements the idle
//! counter and a finished attempt increments it again, one outcome is
//! reported per attempt, and shutdown leaves no submitted job unaccounted.

use vstd::multiset::Multiset;
use vstd::prelude::*;

use crate::keys::encode_key;
use crate::keys::key_of;

verus! {

broadcast use vstd::multiset::group_multiset_axioms, vstd::multiset::group_multiset_properties;

/// One worker's report on one claimed job, carrying the job's queue key:
/// the child process could not be spawned, the payload could not be written
/// to its standard input, or the attempt ran to completion.
#[derive(Debug)]
pub enum WorkerMessage {
    ProgramNotFound(String),
    StdinFailed(String),
    DoneTask(String),
}

/// The queue key an outcome reports on.
pub open spec fn message_key(m: WorkerMessage) -> Seq<char> {
    match m {
        WorkerMessage::ProgramNotFound(k) => k@,
        WorkerMessage::StdinFailed(k) => k@,
        WorkerMessage::DoneTask(k) => k@,
    }
}

/// The three ways an attempt can end, without the key.
#[derive(Clone, Copy, Debug, PartialEq, Eq, Structural)]
pub enum OutcomeKind {
    ProgramNotFound,
    StdinFailed,
    DoneTask,
}

/// The kind of outcome a worker must report for an attempt: a spawn failure
/// is `ProgramNotFound`, a failure to deliver the payload is `StdinFailed`,
/// and a child that ran to exit — with any exit status, zero or not — is a
/// completed attempt, `DoneTask`.
pub open spec fn classify_kind(spawn_ok: bool, stdin_ok: bool) -> OutcomeKind {
    if !spawn_ok {
        OutcomeKind::ProgramNotFound
    } else if !stdin_ok {
        OutcomeKind::StdinFailed
    } else {
        OutcomeKind::DoneTask
    }
}

/// The kind of an outcome message.
pub open spec fn message_kind(m: WorkerMessage) -> OutcomeKind {
    match m {
        WorkerMessage::ProgramNotFound(_) => OutcomeKind::ProgramNotFound,
        WorkerMessage::StdinFailed(_) => OutcomeKind::StdinFailed,
        WorkerMessage::DoneTask(_) => OutcomeKind::DoneTask,
    }
}

/// Builds the outcome message a worker reports for an attempt on the job
/// with queue key `key`. A child-process failure is reported as data, never
/// raised; a non-zero exit changes nothing here, since a failed command is
/// still a completed attempt.
pub fn classify_attempt(key: String, spawn_ok: bool, stdin_ok: bool) -> (m: WorkerMessage)
    ensures
        message_key(m) == key@,
        message_kind(m) == classify_kind(spawn_ok, stdin_ok),
{
    if !spawn_ok {
        WorkerMessage::ProgramNotFound(key)
    } else if !stdin_ok {
        WorkerMessage::StdinFailed(key)
    } else {
        WorkerMessage::DoneTask(key)
    }
}

/// The worker pool's observable state. Workers and their channels live
/// outside the crate; this type carries what they are obliged to maintain.
pub struct ThreadPool {
    command: Vec<String>,
    size: usize,
    idle: usize,
    jobs: Vec<String>,
    outcomes: Vec<WorkerMessage>,
    running: Ghost<Multiset<Seq<char>>>,
    submitted: Ghost<nat>,
    drained: Ghost<nat>,
}

impl ThreadPool {
    /// The fixed number of workers.
    pub closed spec fn pool_size(&self) -> nat {
        self.size as nat
    }

    /// The idle-worker counter.
    pub closed spec fn idle_spec(&self) -> nat {
        self.idle as nat
    }

    /// Jobs submitted and not yet picked up by a worker.
    pub closed spec fn jobs_spec(&self) -> Seq<String> {
        self.jobs@
    }

    /// Outcomes reported and not yet drained by the consumer.
    pub closed spec fn outcomes_spec(&self) -> Seq<WorkerMessage> {
        self.outcomes@
    }

    /// The payloads of the jobs currently mid-execution.
    pub closed spec fn running_spec(&self) -> Multiset<Seq<char>> {
        self.running@
    }

    /// How many jobs were ever submitted.
    pub closed spec fn submitted_spec(&self) -> nat {
        self.submitted@
    }

    /// How many outcomes the consumer has drained.
    pub closed spec fn drained_spec(&self) -> nat {
        self.drained@
    }

    /// The command vector: the program and its static arguments.
    pub closed spec fn command_spec(&self) -> Seq<String> {
        self.command@
    }

    /// The pool's invariant: the idle counter stays within `0 ..= pool_size`,
    /// the workers not idle are exactly the jobs mid-execution, and every
    /// submitted job is in exactly one place — queued, mid-execution, an
    /// outcome awaiting the consumer, or an outcome already drained.
    pub closed spec fn wf(&self) -> bool {
        &&& self.size >= 1
        &&& self.command@.len() >= 1
        &&& self.idle <= self.size
        &&& self.size - self.idle == self.running@.len()
        &&& self.submitted@ == self.jobs@.len() + self.running@.len() + self.outcomes@.len()
            + self.drained@
    }

    /// A pool of `size` idle workers around the given command vector.
    pub fn new(size: usize, command_vector: Vec<String>) -> (p: ThreadPool)
        requires
            size >= 1,
            command_vector@.len() >= 1,
        ensures
            p.wf(),
            p.pool_size() == size,
            p.idle_spec() == size,
            p.jobs_spec() == Seq::<String>::empty(),
            p.outcomes_spec() == Seq::<WorkerMessage>::empty(),
            p.running_spec() == Multiset::<Seq<char>>::empty(),
            p.submitted_spec() == 0,
            p.drained_spec() == 0,
            p.command_spec() == command_vector@,
    {
        let p = ThreadPool {
            command: command_vector,
            size,
            idle: size,
            jobs: Vec::new(),
            outcomes: Vec::new(),
            running: Ghost(Multiset::empty()),
            submitted: Ghost(0),
            drained: Ghost(0),
        };
        proof {
            vstd::multiset::lemma_multiset_empty_len(p.running@);
        }
        p
    }

    /// Reads the idle-worker counter: a snapshot, not a reservation, read by
    /// the consumer to bound how many claims it issues in one cycle.
    pub fn idle_workers(&self) -> (n: usize)
        ensures
            n == self.idle_spec(),
    {
        self.idle
    }

    /// Submits one payload to the job channel. Never runs anything itself;
    /// an idle worker picks the job up.
    pub fn execute(&mut self, payload: String)
        requires
            old(self).wf(),
        ensures
            final(self).wf(),
            final(self).jobs_spec() == old(self).jobs_spec().push(payload),
            final(self).submitted_spec() == old(self).submitted_spec() + 1,
            final(self).idle_spec() == old(self).idle_spec(),
            final(self).pool_size() == old(self).pool_size(),
            final(self).outcomes_spec() == old(self).outcomes_spec(),
            final(self).running_spec() == old(self).running_spec(),
            final(self).drained_spec() == old(self).drained_spec(),
            final(self).command_spec() == old(self).command_spec(),
    {
        self.jobs.push(payload);
        proof {
            self.submitted@ = self.submitted@ + 1;
        }
    }

    /// An idle worker picks up the oldest queued job: the idle counter drops
    /// by one immediately, before any command execution starts.
    pub fn begin_job(&mut self) -> (payload: String)
        requires
            old(self).wf(),
            old(self).jobs_spec().len() > 0,
            old(self).idle_spec() > 0,
        ensures
            final(self).wf(),
            payload == old(self).jobs_spec()[0],
            final(self).jobs_spec() == old(self).jobs_spec().drop_first(),
            final(self).idle_spec() == old(self).idle_spec() - 1,
            final(self).running_spec() == old(self).running_spec().insert(payload@),
            final(self).pool_size() == old(self).pool_size(),
            final(self).outcomes_spec() == old(self).outcomes_spec(),
            final(self).submitted_spec() == old(self).submitted_spec(),
            final(self).drained_spec() == old(self).drained_spec(),
            final(self).command_spec() == old(self).command_spec(),
    {
        let payload = self.jobs.remove(0);
        self.idle = self.idle - 1;
        proof {
            self.running@ = self.running@.insert(payload@);
            assert(self.jobs@ =~= old(self).jobs@.drop_first());
        }
        payload
    }

    /// The worker reports the attempt on `payload`: one outcome message,
    /// keyed by the payload's queue key, classified from what happened to the
    /// child process; the idle counter rises by one, whatever the outcome.
    pub fn finish_job(&mut self, payload: &String, spawn_ok: bool, stdin_ok: bool)
        requires
            old(self).wf(),
            old(self).running_spec().count(payload@) > 0,
        ensures
            final(self).wf(),
            final(self).idle_spec() == old(self).idle_spec() + 1,
            final(self).running_spec() == old(self).running_spec().remove(payload@),
            final(self).outcomes_spec().len() == old(self).outcomes_spec().len() + 1,
            final(self).outcomes_spec().drop_last() == old(self).outcomes_spec(),
            message_key(final(self).outcomes_spec().last()) == key_of(payload@),
            message_kind(final(self).outcomes_spec().last()) == classify_kind(spawn_ok, stdin_ok),
            final(self).jobs_spec() == old(self).jobs_spec(),
            final(self).pool_size() == old(self).pool_size(),
            final(self).submitted_spec() == old(self).submitted_spec(),
            final(self).drained_spec() == old(self).drained_spec(),
            final(self).command_spec() == old(self).command_spec(),
    {
        proof {
            lemma_remove_one_len(self.running@, payload@);
        }
        let key = encode_key(payload);
        let message = classify_attempt(key, spawn_ok, stdin_ok);
        self.outcomes.push(message);
        self.idle = self.idle + 1;
        proof {
            self.running@ = self.running@.remove(payload@);
            assert(self.outcomes@.drop_last() =~= old(self).outcomes@);
        }
    }

    /// Drains at most one outcome, non-blocking: `None` when the channel is
    /// empty, else the oldest outcome.
    pub fn take_outcome(&mut self) -> (r: Option<WorkerMessage>)
        requires
            old(self).wf(),
        ensures
            final(self).wf(),
            old(self).outcomes_spec().len() == 0 ==> r is None && *final(self) == *old(self),
            old(self).outcomes_spec().len() > 0 ==> {
                &&& r == Some(old(self).outcomes_spec()[0])
                &&& final(self).outcomes_spec() == old(self).outcomes_spec().drop_first()
                &&& final(self).drained_spec() == old(self).drained_spec() + 1
            },
            final(self).jobs_spec() == old(self).jobs_spec(),
            final(self).idle_spec() == old(self).idle_spec(),
            final(self).pool_size() == old(self).pool_size(),
            final(self).running_spec() == old(self).running_spec(),
            final(self).submitted_spec() == old(self).submitted_spec(),
            final(self).command_spec() == old(self).command_spec(),
    {
        if self.outcomes.len() == 0 {
            None
        } else {
            let m = self.outcomes.remove(0);
            proof {
                self.drained@ = self.drained@ + 1;
                assert(self.outcomes@ =~= old(self).outcomes@.drop_first());
            }
            Some(m)
        }
    }

    /// Graceful shutdown, at the point where joining the workers has
    /// returned: every worker has observed its terminate message, which a
    /// worker only does between jobs, so the job channel is empty and every
    /// worker is idle again. Consuming the pool leaves no worker able to take
    /// another step, and the returned outcomes, together with those already
    /// drained, account for every job ever submitted: none was silently
    /// dropped.
    pub fn shutdown(self) -> (rest: Vec<WorkerMessage>)
        requires
            self.wf(),
            self.jobs_spec().len() == 0,
            self.idle_spec() == self.pool_size(),
        ensures
            rest@ == self.outcomes_spec(),
            rest@.len() + self.drained_spec() == self.submitted_spec(),
    {
        self.outcomes
    }
}

/// Removing a present element shrinks a multiset by exactly one.
proof fn lemma_remove_one_len<V>(m: Multiset<V>, v: V)
    requires
        m.count(v) > 0,
    ensures
        m.remove(v).len() + 1 == m.len(),
{
    assert(m.remove(v).insert(v) =~= m);
}

/// Idle-counter bound: in every reachable pool state the idle counter lies
/// between zero and the pool size, and the difference is exactly the number
/// of workers mid-execution.
pub proof fn lemma_idle_counter_bound(p: &ThreadPool)
    requires
        p.wf(),
    ensures
        0 <= p.idle_spec() <= p.pool_size(),
        p.pool_size() - p.idle_spec() == p.running_spec().len(),
{
}

/// Job conservation: every submitted job is in exactly one place — queued,
/// mid-execution, an outcome awaiting the consumer, or an outcome already
/// drained.
pub proof fn lemma_job_conservation(p: &ThreadPool)
    requires
        p.wf(),
    ensures
        p.submitted_spec() == p.jobs_spec().len() + p.running_spec().len()
            + p.outcomes_spec().len() + p.drained_spec(),
{
}

} // verus!

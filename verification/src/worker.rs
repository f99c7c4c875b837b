//! The per-database worker: a bounded mailbox in front of one persistence
//! façade, served one job at a time, with cooperative cancellation through
//! a monotonically increasing generation counter.
//!
//! The mailbox keeps two ghost histories — everything ever accepted and
//! everything ever taken out — so that first-in-first-out service is an
//! invariant of the type, not a property of one caller.

use vstd::prelude::*;
use crate::errors::PersistenceError;
use crate::persistence::Persistence;
use crate::policy::Policy;
use crate::rows::table_wf;
use crate::values::SqlValue;
use crate::values::WireValue;

verus! {

/// A request against the data in one database. Named operations carry the
/// wire-level parameters to bind.
#[derive(Debug)]
pub enum DataMessage {
    QueryNamed(String, Vec<(String, WireValue)>),
    MutateNamed(String, Vec<(String, WireValue)>),
    QueryRaw(String),
    MutateRaw(String),
    FetchPolicy,
    SetPolicy(Policy),
}

/// A request about the worker itself rather than the data it guards.
#[derive(Debug)]
pub enum LogisticsMessage {
    Interrupt,
}

/// Everything a worker can be asked.
#[derive(Debug)]
pub enum EzdbMessage {
    Data(DataMessage),
    Logistics(LogisticsMessage),
}

/// What a completed data request yields: rows for the queries, the catalog
/// for a policy fetch, and nothing for the mutations.
#[derive(Debug)]
pub enum DataOutput {
    Rows(Vec<Vec<(String, SqlValue)>>),
    Policy(Policy),
    Done,
}

/// The output shape each request is owed on success.
pub open spec fn spec_output_shape(msg: DataMessage, o: DataOutput) -> bool {
    match msg {
        DataMessage::QueryNamed(_, _) => o is Rows,
        DataMessage::QueryRaw(_) => o is Rows,
        DataMessage::FetchPolicy => o is Policy,
        _ => o is Done,
    }
}

/// The name a request resolves through the policy, where it has one: only
/// such a request may fail with `NoSuchQuery`.
pub open spec fn spec_named_target(msg: DataMessage) -> Option<Seq<char>> {
    match msg {
        DataMessage::QueryNamed(n, _) => Some(n@),
        DataMessage::MutateNamed(n, _) => Some(n@),
        _ => None,
    }
}

/// Runs one data request against the backend and shapes the output.
pub fn handle_data_request<P: Persistence>(persistence: &P, msg: DataMessage) -> (r: Result<
    DataOutput,
    PersistenceError,
>)
    ensures
        !(r matches Err(PersistenceError::Busy)),
        r matches Err(PersistenceError::NoSuchQuery(n)) ==> (spec_named_target(msg) matches Some(
            t,
        ) && n@ == t),
        r matches Ok(o) ==> spec_output_shape(msg, o),
        r matches Ok(DataOutput::Rows(t)) ==> table_wf(t@),
{
    match msg {
        DataMessage::QueryNamed(name, params) => {
            match persistence.query_named(name, params) {
                Ok(t) => Ok(DataOutput::Rows(t)),
                Err(e) => Err(e),
            }
        },
        DataMessage::MutateNamed(name, params) => {
            match persistence.mutate_named(name, params) {
                Ok(()) => Ok(DataOutput::Done),
                Err(e) => Err(e),
            }
        },
        DataMessage::QueryRaw(query) => {
            match persistence.query_raw(query) {
                Ok(t) => Ok(DataOutput::Rows(t)),
                Err(e) => Err(e),
            }
        },
        DataMessage::MutateRaw(stmt) => {
            match persistence.mutate_raw(stmt) {
                Ok(()) => Ok(DataOutput::Done),
                Err(e) => Err(e),
            }
        },
        DataMessage::FetchPolicy => {
            match persistence.fetch_policy() {
                Ok(p) => Ok(DataOutput::Policy(p)),
                Err(e) => Err(e),
            }
        },
        DataMessage::SetPolicy(policy) => {
            match persistence.set_policy(policy) {
                Ok(()) => Ok(DataOutput::Done),
                Err(e) => Err(e),
            }
        },
    }
}

/// The mailbox capacity of every worker; one more concurrent outstanding
/// request is refused as `Busy`.
pub const MAILBOX_SIZE: usize = 16;

/// One queued job: the request it carries and the generation the worker
/// had when the job was accepted.
pub struct Job<R> {
    pub request: R,
    pub generation: u64,
}

/// The serialisation state of one worker: the jobs waiting for the
/// execution thread, the cancellation generation, and the ghost record of
/// everything accepted and everything taken out so far.
pub struct Mailbox<R> {
    jobs: Vec<Job<R>>,
    generation: u64,
    hist_accepted: Ghost<Seq<R>>,
    hist_served: Ghost<Seq<R>>,
}

impl<R> Mailbox<R> {
    /// The jobs waiting, oldest first.
    pub closed spec fn pending(self) -> Seq<Job<R>> {
        self.jobs@
    }

    /// The cancellation generation.
    pub closed spec fn gen_count(self) -> u64 {
        self.generation
    }

    /// Every request ever accepted, oldest first.
    pub closed spec fn accepted(self) -> Seq<R> {
        self.hist_accepted@
    }

    /// Every request ever taken out, oldest first.
    pub closed spec fn served(self) -> Seq<R> {
        self.hist_served@
    }

    /// Well-formedness: what was taken out, followed by what still waits,
    /// is exactly what was accepted, in order; no pending job is from a
    /// future generation; and the mailbox never exceeds its capacity. This
    /// is a type invariant: every reachable mailbox satisfies it.
    #[verifier::type_invariant]
    pub open spec fn wf(self) -> bool {
        &&& self.served() + self.pending().map_values(|j: Job<R>| j.request) == self.accepted()
        &&& forall|i: int|
            0 <= i < self.pending().len() ==> (#[trigger] self.pending()[i]).generation
                <= self.gen_count()
        &&& self.pending().len() <= MAILBOX_SIZE
    }

    /// A fresh worker state: nothing queued, generation zero.
    pub fn new() -> (m: Mailbox<R>)
        ensures
            m.wf(),
            m.pending() == Seq::<Job<R>>::empty(),
            m.gen_count() == 0,
            m.accepted() == Seq::<R>::empty(),
            m.served() == Seq::<R>::empty(),
    {
        let jobs: Vec<Job<R>> = Vec::new();
        proof {
            assert(Seq::<R>::empty() + jobs@.map_values(|j: Job<R>| j.request) =~= Seq::<
                R,
            >::empty());
        }
        Mailbox {
            jobs,
            generation: 0u64,
            hist_accepted: Ghost(Seq::empty()),
            hist_served: Ghost(Seq::empty()),
        }
    }

    /// Offers one request. A full mailbox refuses it, and the refusal
    /// changes nothing of the worker state; otherwise the request is
    /// appended with a snapshot of the current generation.
    pub fn enqueue(&mut self, request: R) -> (accepted: bool)
        ensures
            accepted <==> old(self).pending().len() < MAILBOX_SIZE,
            accepted ==> final(self).pending() == old(self).pending().push(
                (Job { request, generation: old(self).gen_count() }),
            ),
            accepted ==> final(self).accepted() == old(self).accepted().push(request),
            accepted ==> final(self).served() == old(self).served(),
            accepted ==> final(self).gen_count() == old(self).gen_count(),
            !accepted ==> *final(self) == *old(self),
    {
        proof {
            use_type_invariant(&*self);
        }
        if self.jobs.len() >= MAILBOX_SIZE {
            return false;
        }
        let ghost req = request;
        let mut taken = Mailbox::<R>::new();
        core::mem::swap(self, &mut taken);
        let Mailbox { mut jobs, generation, hist_accepted, hist_served } = taken;
        jobs.push(Job { request, generation });
        proof {
            assert(hist_served@ + jobs@.map_values(|j: Job<R>| j.request)
                =~= hist_accepted@.push(req)) by {
                assert(jobs@.map_values(|j: Job<R>| j.request) =~= old(self).pending().map_values(
                    |j: Job<R>| j.request,
                ).push(req));
            }
        }
        *self = Mailbox { jobs, generation, hist_accepted: Ghost(hist_accepted@.push(req)), hist_served };
        true
    }

    /// The current cancellation generation, for the runtime around the
    /// core to test before it asks for an interrupt.
    pub fn generation_count(&self) -> (g: u64)
        ensures
            g == self.gen_count(),
    {
        self.generation
    }

    /// Bumps the cancellation generation: every job accepted before this
    /// call is stale from now on. The caller must fire the engine-level
    /// interrupt directly after, in this order, so that a statement already
    /// past its staleness check is aborted too.
    pub fn interrupt(&mut self)
        requires
            old(self).gen_count() < u64::MAX,
        ensures
            final(self).gen_count() == old(self).gen_count() + 1,
            final(self).pending() == old(self).pending(),
            final(self).accepted() == old(self).accepted(),
            final(self).served() == old(self).served(),
    {
        proof {
            use_type_invariant(&*self);
        }
        self.generation = self.generation + 1;
    }

    /// Takes out the oldest waiting job, if any, telling the caller whether
    /// its generation snapshot is stale.
    pub fn dequeue(&mut self) -> (r: Option<(R, bool)>)
        ensures
            old(self).pending().len() == 0 ==> r is None && *final(self) == *old(self),
            old(self).pending().len() > 0 ==> (r matches Some((req, stale))
                && req == old(self).pending()[0].request
                && stale == (old(self).pending()[0].generation < old(self).gen_count())
                && final(self).pending() == old(self).pending().drop_first()
                && final(self).served() == old(self).served().push(req)
                && final(self).accepted() == old(self).accepted()
                && final(self).gen_count() == old(self).gen_count()),
    {
        proof {
            use_type_invariant(&*self);
        }
        if self.jobs.len() == 0 {
            return None;
        }
        let mut taken = Mailbox::<R>::new();
        core::mem::swap(self, &mut taken);
        let Mailbox { mut jobs, generation, hist_accepted, hist_served } = taken;
        let job = jobs.remove(0);
        let stale = job.generation < generation;
        let ghost req = job.request;
        proof {
            assert(old(self).pending().remove(0) =~= old(self).pending().drop_first());
            assert(hist_served@.push(req) + jobs@.map_values(|j: Job<R>| j.request)
                =~= hist_accepted@) by {
                assert(old(self).pending().map_values(|j: Job<R>| j.request) =~= Seq::empty().push(
                    req,
                ) + jobs@.map_values(|j: Job<R>| j.request));
            }
        }
        *self = Mailbox { jobs, generation, hist_accepted, hist_served: Ghost(hist_served@.push(req)) };
        Some((job.request, stale))
    }
}

/// First-in-first-out service: in every well-formed worker state, the
/// requests taken out so far are exactly the earliest accepted ones, in
/// acceptance order — so the engine observes data requests in the order the
/// mailbox accepted them.
pub proof fn lemma_mailbox_fifo<R>(m: Mailbox<R>)
    requires
        m.wf(),
    ensures
        m.served().len() <= m.accepted().len(),
        m.served() == m.accepted().take(m.served().len() as int),
        m.pending().len() > 0 ==> m.pending()[0].request == m.accepted()[m.served().len() as int],
{
    assert(m.accepted().take(m.served().len() as int) =~= m.served());
    if m.pending().len() > 0 {
        assert(m.accepted()[m.served().len() as int] == m.pending().map_values(
            |j: Job<R>| j.request,
        )[0]);
    }
}

/// Interrupt idempotence over the pending jobs: after one interrupt every
/// job now pending is stale, and a second interrupt changes no job's
/// staleness — two consecutive interrupts and one are indistinguishable to
/// every request already in the mailbox. Each call still bumps the
/// generation and is followed by an engine signal.
pub proof fn lemma_interrupt_idempotent<R>(m: Mailbox<R>)
    requires
        m.wf(),
        m.gen_count() + 2 <= u64::MAX,
    ensures
        forall|i: int|
            0 <= i < m.pending().len() ==> ((#[trigger] m.pending()[i]).generation < m.gen_count()
                + 1),
        forall|i: int|
            0 <= i < m.pending().len() ==> ((#[trigger] m.pending()[i]).generation < m.gen_count()
                + 2),
{
}

/// The immediate reply a logistics interrupt is owed: the worker
/// acknowledges with this text at once, ahead of every queued job.
pub fn interrupt_acknowledgement() -> (r: String)
    ensures
        r@ == "ok"@,
{
    "ok".to_owned()
}

/// What the caller of [`handle_message`] must do next.
#[derive(Debug)]
pub enum HandleAction {
    /// The data request was accepted; the reply comes through the worker
    /// thread once the job is executed.
    Queued,
    /// The mailbox was full; reply `Busy` at once, nothing changed.
    RejectBusy,
    /// The generation was bumped; fire the engine interrupt now, then
    /// reply `"ok"` at once, ahead of every queued job.
    SignalEngine,
}

/// The worker's synchronous decision on one inbound message: an interrupt
/// crosses the queue and directs the caller to signal the engine; a data
/// request is accepted into the mailbox or refused as `Busy` with the
/// worker state untouched.
pub fn handle_message(mb: &mut Mailbox<DataMessage>, msg: EzdbMessage) -> (r: HandleAction)
    requires
        msg matches EzdbMessage::Logistics(LogisticsMessage::Interrupt) ==> old(mb).gen_count()
            < u64::MAX,
    ensures
        msg matches EzdbMessage::Logistics(LogisticsMessage::Interrupt) ==> (r is SignalEngine
            && final(mb).gen_count() == old(mb).gen_count() + 1
            && final(mb).pending() == old(mb).pending()
            && final(mb).accepted() == old(mb).accepted()
            && final(mb).served() == old(mb).served()),
        msg matches EzdbMessage::Data(d) ==> ((r is Queued || r is RejectBusy)
            && ((r is Queued) <==> old(mb).pending().len() < MAILBOX_SIZE)
            && (r is Queued ==> final(mb).pending() == old(mb).pending().push(
            (Job { request: d, generation: old(mb).gen_count() }),
        )
            && final(mb).gen_count() == old(mb).gen_count()
            && final(mb).accepted() == old(mb).accepted().push(d)
            && final(mb).served() == old(mb).served())
            && (r is RejectBusy ==> *final(mb) == *old(mb))),
{
    match msg {
        EzdbMessage::Logistics(LogisticsMessage::Interrupt) => {
            mb.interrupt();
            HandleAction::SignalEngine
        },
        EzdbMessage::Data(d) => {
            if mb.enqueue(d) {
                HandleAction::Queued
            } else {
                HandleAction::RejectBusy
            }
        },
    }
}

/// One turn of the worker's execution thread: take the oldest job; a stale
/// one is answered `Interrupted` without touching the connection, a fresh
/// one runs against the façade.
pub fn worker_step<P: Persistence>(mb: &mut Mailbox<DataMessage>, persistence: &P) -> (r: Option<
    Result<DataOutput, PersistenceError>,
>)
    ensures
        (r is None) <==> old(mb).pending().len() == 0,
        r is None ==> *final(mb) == *old(mb),
        old(mb).pending().len() > 0 ==> final(mb).pending() == old(mb).pending().drop_first()
            && final(mb).gen_count() == old(mb).gen_count()
            && final(mb).accepted() == old(mb).accepted()
            && final(mb).served() == old(mb).served().push(old(mb).pending()[0].request),
        (old(mb).pending().len() > 0 && old(mb).pending()[0].generation < old(mb).gen_count())
            ==> r == Some(Err::<DataOutput, PersistenceError>(PersistenceError::Interrupted)),
        r matches Some(res) ==> !(res matches Err(PersistenceError::Busy)),
        r matches Some(Ok(o)) ==> old(mb).pending().len() > 0 && spec_output_shape(
            old(mb).pending()[0].request,
            o,
        ),
        r matches Some(Err(PersistenceError::NoSuchQuery(n))) ==> (spec_named_target(
            old(mb).pending()[0].request,
        ) matches Some(t) && n@ == t),
{
    match mb.dequeue() {
        None => None,
        Some((req, stale)) => {
            if stale {
                Some(Err(PersistenceError::Interrupted))
            } else {
                Some(handle_data_request(persistence, req))
            }
        },
    }
}

} // verus!

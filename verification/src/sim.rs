//! A simulated coordinator: any number of client machines driven against one
//! scheduler state, one step at a time.
//!
//! An interleaving is a sequence of scheduling choices — which client sends
//! its request, which pending request the scheduler answers, which holder
//! releases.  The model here shows that under every interleaving at most one
//! client holds the resource at any point, and that a lone requesting client
//! can always be granted at once.  The executable `Simulation` mirrors the
//! model step for step, so tests can drive concrete interleavings.

use vstd::prelude::*;

use crate::messages::Message;
use crate::messages::MessageType;
use crate::process::ClientEvent;
use crate::process::ClientPhase;
use crate::process::ProcessState;
use crate::process::client_step;
use crate::scheduler::SchedulerState;

verus! {

/// One scheduling choice of an interleaving, naming the client it concerns.
#[derive(Clone, Copy, PartialEq, Eq, Structural, Debug)]
pub enum SimStep {
    /// The client sends its request and the scheduler queues it.
    Request(usize),
    /// The scheduler takes the free resource and grants it to the client.
    Grant(usize),
    /// The client finishes its critical section and releases.
    Release(usize),
}

/// A snapshot of the whole simulated system: the scheduler's queue and busy
/// flag, and every client's session state.
pub struct SimModel {
    pub queue: Seq<u8>,
    pub held: bool,
    pub clients: Seq<ProcessState>,
}

/// The grant frame the scheduler answers requests with.
pub open spec fn grant_frame() -> Message {
    Message { message_type: MessageType::Grant, sender: 0u8 }
}

/// 1 when the client holds the resource, else 0.
pub open spec fn holding(c: ProcessState) -> int {
    if c.phase is InCriticalSection {
        1
    } else {
        0
    }
}

/// 1 when the client occupies a queue slot: it has requested and not yet
/// released.
pub open spec fn active(c: ProcessState) -> int {
    if c.phase is AwaitingGrant || c.phase is InCriticalSection {
        1
    } else {
        0
    }
}

/// How many clients hold the resource.
pub open spec fn count_holding(clients: Seq<ProcessState>) -> int
    decreases clients.len(),
{
    if clients.len() == 0 {
        0
    } else {
        count_holding(clients.drop_last()) + holding(clients.last())
    }
}

/// How many clients occupy a queue slot.
pub open spec fn count_active(clients: Seq<ProcessState>) -> int
    decreases clients.len(),
{
    if clients.len() == 0 {
        0
    } else {
        count_active(clients.drop_last()) + active(clients.last())
    }
}

/// The system's invariant: the busy flag counts the holders — the resource
/// is held exactly when one client is in its critical section — and the
/// queue holds one slot per client that has requested and not yet released.
pub open spec fn inv(m: SimModel) -> bool {
    &&& count_holding(m.clients) == (if m.held {
        1int
    } else {
        0int
    })
    &&& m.queue.len() == count_active(m.clients)
    &&& forall|i: int| 0 <= i < m.clients.len() ==> (#[trigger] m.clients[i]).wf()
    &&& forall|i: int| 0 <= i < m.clients.len() ==> !((#[trigger] m.clients[i]).phase is Releasing)
}

/// A starting configuration: nothing queued, nothing held, every client at
/// the start (or, with zero configured cycles, already finished).
pub open spec fn is_initial(m: SimModel) -> bool {
    &&& m.queue.len() == 0
    &&& !m.held
    &&& forall|i: int|
        0 <= i < m.clients.len() ==> ((#[trigger] m.clients[i]).phase is Idle
            || m.clients[i].phase is Done) && m.clients[i].wf()
}

/// Whether a scheduling choice can fire in the given snapshot.
pub open spec fn step_enabled(m: SimModel, step: SimStep) -> bool {
    match step {
        SimStep::Request(i) => i < m.clients.len() && m.clients[i as int].phase is Idle,
        SimStep::Grant(i) => i < m.clients.len() && m.clients[i as int].phase is AwaitingGrant
            && !m.held,
        SimStep::Release(i) => i < m.clients.len()
            && m.clients[i as int].phase is InCriticalSection,
    }
}

/// The snapshot after one scheduling choice; a choice that cannot fire
/// changes nothing.
pub open spec fn apply_step(m: SimModel, step: SimStep) -> SimModel {
    if !step_enabled(m, step) {
        m
    } else {
        match step {
            SimStep::Request(i) => SimModel {
                queue: m.queue.push(m.clients[i as int].id),
                clients: m.clients.update(
                    i as int,
                    client_step(m.clients[i as int], ClientEvent::RequestSent),
                ),
                ..m
            },
            SimStep::Grant(i) => SimModel {
                held: true,
                clients: m.clients.update(
                    i as int,
                    client_step(m.clients[i as int], ClientEvent::FrameReceived(grant_frame())),
                ),
                ..m
            },
            SimStep::Release(i) => SimModel {
                held: false,
                queue: m.queue.drop_first(),
                clients: m.clients.update(
                    i as int,
                    client_step(
                        client_step(m.clients[i as int], ClientEvent::CriticalSectionDone),
                        ClientEvent::ReleaseSent,
                    ),
                ),
                ..m
            },
        }
    }
}

/// The snapshot after a whole interleaving.
pub open spec fn apply_trace(m: SimModel, steps: Seq<SimStep>) -> SimModel
    decreases steps.len(),
{
    if steps.len() == 0 {
        m
    } else {
        apply_trace(apply_step(m, steps[0]), steps.drop_first())
    }
}

/// No two distinct clients are in their critical sections at once.
pub open spec fn mutual_exclusion(clients: Seq<ProcessState>) -> bool {
    forall|i: int, j: int|
        0 <= i < clients.len() && 0 <= j < clients.len()
            && (#[trigger] clients[i]).phase is InCriticalSection
            && (#[trigger] clients[j]).phase is InCriticalSection ==> i == j
}

proof fn lemma_count_holding_update(clients: Seq<ProcessState>, i: int, c: ProcessState)
    requires
        0 <= i < clients.len(),
    ensures
        count_holding(clients.update(i, c)) == count_holding(clients) - holding(clients[i])
            + holding(c),
    decreases clients.len(),
{
    if i == clients.len() - 1 {
        assert(clients.update(i, c).drop_last() =~= clients.drop_last());
    } else {
        assert(clients.update(i, c).drop_last() =~= clients.drop_last().update(i, c));
        lemma_count_holding_update(clients.drop_last(), i, c);
    }
}

proof fn lemma_count_active_update(clients: Seq<ProcessState>, i: int, c: ProcessState)
    requires
        0 <= i < clients.len(),
    ensures
        count_active(clients.update(i, c)) == count_active(clients) - active(clients[i])
            + active(c),
    decreases clients.len(),
{
    if i == clients.len() - 1 {
        assert(clients.update(i, c).drop_last() =~= clients.drop_last());
    } else {
        assert(clients.update(i, c).drop_last() =~= clients.drop_last().update(i, c));
        lemma_count_active_update(clients.drop_last(), i, c);
    }
}

proof fn lemma_count_holding_nonneg(clients: Seq<ProcessState>)
    ensures
        count_holding(clients) >= 0,
    decreases clients.len(),
{
    if clients.len() > 0 {
        lemma_count_holding_nonneg(clients.drop_last());
    }
}

proof fn lemma_count_active_nonneg(clients: Seq<ProcessState>)
    ensures
        count_active(clients) >= 0,
    decreases clients.len(),
{
    if clients.len() > 0 {
        lemma_count_active_nonneg(clients.drop_last());
    }
}

proof fn lemma_holder_counts(clients: Seq<ProcessState>, i: int)
    requires
        0 <= i < clients.len(),
        clients[i].phase is InCriticalSection,
    ensures
        count_holding(clients) >= 1,
        count_active(clients) >= 1,
    decreases clients.len(),
{
    lemma_count_holding_nonneg(clients.drop_last());
    lemma_count_active_nonneg(clients.drop_last());
    if i < clients.len() - 1 {
        lemma_holder_counts(clients.drop_last(), i);
    }
}

proof fn lemma_two_holders(clients: Seq<ProcessState>, i: int, j: int)
    requires
        0 <= i < j < clients.len(),
        clients[i].phase is InCriticalSection,
        clients[j].phase is InCriticalSection,
    ensures
        count_holding(clients) >= 2,
    decreases clients.len(),
{
    if j == clients.len() - 1 {
        lemma_holder_counts(clients.drop_last(), i);
    } else {
        lemma_two_holders(clients.drop_last(), i, j);
    }
}

/// Under the invariant, the busy flag's bound of one holder is exactly
/// mutual exclusion.
pub proof fn lemma_inv_mutual_exclusion(m: SimModel)
    requires
        inv(m),
    ensures
        mutual_exclusion(m.clients),
{
    assert forall|i: int, j: int|
        0 <= i < m.clients.len() && 0 <= j < m.clients.len()
            && (#[trigger] m.clients[i]).phase is InCriticalSection
            && (#[trigger] m.clients[j]).phase is InCriticalSection implies i == j by {
        if i < j {
            lemma_two_holders(m.clients, i, j);
        } else if j < i {
            lemma_two_holders(m.clients, j, i);
        }
    }
}

proof fn lemma_counts_of_settled(clients: Seq<ProcessState>)
    requires
        forall|i: int|
            0 <= i < clients.len() ==> ((#[trigger] clients[i]).phase is Idle
                || clients[i].phase is Done),
    ensures
        count_holding(clients) == 0,
        count_active(clients) == 0,
    decreases clients.len(),
{
    if clients.len() > 0 {
        lemma_counts_of_settled(clients.drop_last());
    }
}

/// A starting configuration satisfies the invariant.
pub proof fn lemma_initial_inv(m: SimModel)
    requires
        is_initial(m),
    ensures
        inv(m),
{
    lemma_counts_of_settled(m.clients);
}

/// Every scheduling choice preserves the invariant.
pub proof fn lemma_step_preserves_inv(m: SimModel, step: SimStep)
    requires
        inv(m),
    ensures
        inv(apply_step(m, step)),
{
    if step_enabled(m, step) {
        match step {
            SimStep::Request(i) => {
                let c = m.clients[i as int];
                let c2 = client_step(c, ClientEvent::RequestSent);
                lemma_count_holding_update(m.clients, i as int, c2);
                lemma_count_active_update(m.clients, i as int, c2);
            },
            SimStep::Grant(i) => {
                let c = m.clients[i as int];
                let c2 = client_step(c, ClientEvent::FrameReceived(grant_frame()));
                lemma_count_holding_update(m.clients, i as int, c2);
                lemma_count_active_update(m.clients, i as int, c2);
            },
            SimStep::Release(i) => {
                let c = m.clients[i as int];
                let c2 = client_step(
                    client_step(c, ClientEvent::CriticalSectionDone),
                    ClientEvent::ReleaseSent,
                );
                lemma_count_holding_update(m.clients, i as int, c2);
                lemma_count_active_update(m.clients, i as int, c2);
                lemma_holder_counts(m.clients, i as int);
            },
        }
    }
}

proof fn lemma_trace_preserves_inv(m: SimModel, steps: Seq<SimStep>)
    requires
        inv(m),
    ensures
        inv(apply_trace(m, steps)),
    decreases steps.len(),
{
    if steps.len() > 0 {
        lemma_step_preserves_inv(m, steps[0]);
        lemma_trace_preserves_inv(apply_step(m, steps[0]), steps.drop_first());
    }
}

/// Mutual exclusion under every interleaving: however many clients there
/// are, and whatever order their requests, grants and releases interleave
/// in, no two clients ever hold the resource at once.
pub proof fn lemma_interleaving_mutual_exclusion(m: SimModel, steps: Seq<SimStep>)
    requires
        is_initial(m),
    ensures
        mutual_exclusion(apply_trace(m, steps).clients),
{
    lemma_initial_inv(m);
    lemma_trace_preserves_inv(m, steps);
    lemma_inv_mutual_exclusion(apply_trace(m, steps));
}

/// Liveness with a single client: whenever a lone client awaits a grant,
/// the grant can fire at once — the resource cannot be stuck held, so every
/// request of a sole contender is answered.
pub proof fn lemma_single_client_liveness(m: SimModel)
    requires
        inv(m),
        m.clients.len() == 1,
        m.clients[0].phase is AwaitingGrant,
    ensures
        step_enabled(m, SimStep::Grant(0)),
{
    assert(m.clients.drop_last() =~= Seq::<ProcessState>::empty());
    assert(count_holding(m.clients) == count_holding(Seq::<ProcessState>::empty()) + holding(
        m.clients[0],
    ));
}

/// The executable simulated coordinator that tests drive.
pub struct Simulation {
    pub scheduler: SchedulerState,
    pub clients: Vec<ProcessState>,
}

impl View for Simulation {
    type V = SimModel;

    open spec fn view(&self) -> SimModel {
        SimModel { queue: self.scheduler.queue@, held: self.scheduler.held, clients: self.clients@ }
    }
}

impl Simulation {
    /// A simulation with no clients yet.
    pub fn new() -> (s: Simulation)
        ensures
            s@.clients.len() == 0,
            is_initial(s@),
            inv(s@),
    {
        let s = Simulation { scheduler: SchedulerState::new(), clients: Vec::new() };
        proof {
            lemma_initial_inv(s@);
        }
        s
    }

    /// Adds one client, before any stepping starts.
    pub fn add_client(&mut self, id: u8, repeat: u32)
        requires
            is_initial(old(self)@),
        ensures
            final(self)@.clients == old(self)@.clients.push(
                ProcessState {
                    id,
                    repeat,
                    counter: 0,
                    phase: if repeat == 0 {
                        ClientPhase::Done
                    } else {
                        ClientPhase::Idle
                    },
                    failed: false,
                },
            ),
            final(self)@.queue == old(self)@.queue,
            final(self)@.held == old(self)@.held,
            is_initial(final(self)@),
            inv(final(self)@),
    {
        let p = ProcessState::new(id, repeat);
        self.clients.push(p);
        proof {
            lemma_initial_inv(self@);
        }
    }

    /// Fires one scheduling choice, exactly as `apply_step` says: when the
    /// choice is not enabled nothing changes and `false` comes back.
    pub fn step(&mut self, step: SimStep) -> (ok: bool)
        requires
            inv(old(self)@),
        ensures
            final(self)@ == apply_step(old(self)@, step),
            ok == step_enabled(old(self)@, step),
            inv(final(self)@),
    {
        proof {
            lemma_step_preserves_inv(old(self)@, step);
        }
        let ok = match step {
            SimStep::Request(i) => {
                if i >= self.clients.len() {
                    false
                } else {
                    let mut c = self.clients[i];
                    if !matches!(c.phase, ClientPhase::Idle) {
                        false
                    } else {
                        self.scheduler.enqueue_request(c.id);
                        c.step(ClientEvent::RequestSent);
                        self.replace_client(i, c);
                        true
                    }
                }
            },
            SimStep::Grant(i) => {
                if i >= self.clients.len() {
                    false
                } else {
                    let mut c = self.clients[i];
                    if !matches!(c.phase, ClientPhase::AwaitingGrant) {
                        false
                    } else if self.scheduler.held {
                        false
                    } else {
                        let _granted = self.scheduler.try_acquire();
                        c.step(ClientEvent::FrameReceived(SchedulerState::grant_message()));
                        self.replace_client(i, c);
                        true
                    }
                }
            },
            SimStep::Release(i) => {
                if i >= self.clients.len() {
                    false
                } else {
                    let mut c = self.clients[i];
                    if !matches!(c.phase, ClientPhase::InCriticalSection) {
                        false
                    } else {
                        proof {
                            lemma_holder_counts(self.clients@, i as int);
                        }
                        self.scheduler.release();
                        c.step(ClientEvent::CriticalSectionDone);
                        c.step(ClientEvent::ReleaseSent);
                        self.replace_client(i, c);
                        true
                    }
                }
            },
        };
        ok
    }

    /// Overwrites one client's state.
    fn replace_client(&mut self, i: usize, c: ProcessState)
        requires
            i < old(self).clients@.len(),
        ensures
            final(self).clients@ == old(self).clients@.update(i as int, c),
            final(self).scheduler == old(self).scheduler,
    {
        let _ = self.clients.remove(i);
        self.clients.insert(i, c);
        proof {
            assert(self.clients@ =~= old(self).clients@.update(i as int, c));
        }
    }
}

} // verus!

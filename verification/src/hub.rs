//! The hub: the one owner of the registry of connected sessions.
//!
//! The hub handles one event at a time. It keeps the registry, notices the
//! connect that completes the quorum, and decides what is delivered to
//! whom. It never writes to a socket: each operation returns the deliveries
//! for the caller to attempt, one independent of the other.

use vstd::prelude::*;
use crate::event::{Delivery, DeliveryView, Event, EventView, Outcome, OutcomeView, SessionId, fan_out};
use crate::message::{
    connected_line, format_connected, format_quorum, format_ready, format_relay, format_start,
    quorum_line, ready_text, relay_text, start_line,
};

verus! {

/// The state of a hub as contracts see it.
pub struct HubView {
    /// The quorum: the number of sessions that starts the run.
    pub threshold: nat,
    /// The connected sessions, oldest first.
    pub registry: Seq<SessionId>,
    /// Whether the start has been announced.
    pub announced: bool,
}

impl HubView {
    /// The hub before any event.
    pub open spec fn fresh(threshold: nat) -> HubView {
        HubView { threshold: threshold, registry: Seq::empty(), announced: false }
    }

    /// What holds of every hub: the quorum is positive, no session is
    /// registered twice, and as long as the start has not been announced the
    /// registry is below the quorum.
    pub open spec fn valid(self) -> bool {
        &&& self.threshold >= 1
        &&& self.registry.no_duplicates()
        &&& !self.announced ==> self.registry.len() < self.threshold
    }

    /// Where the hub is on its way to the start.
    pub open spec fn stage(self) -> Stage {
        if self.announced {
            Stage::Ready
        } else if self.registry.len() == 0 {
            Stage::Empty
        } else {
            Stage::Filling
        }
    }

    /// The places left until the quorum; none once the registry is at or
    /// above it.
    pub open spec fn remaining(self) -> nat {
        if self.registry.len() <= self.threshold {
            (self.threshold - self.registry.len()) as nat
        } else {
            0
        }
    }

    /// Whether a connect of `id` is the one that completes the quorum: the
    /// start has not been announced, `id` is new, and with it the registry
    /// holds exactly `threshold` sessions.
    pub open spec fn completes_quorum(self, id: SessionId) -> bool {
        &&& !self.announced
        &&& !self.registry.contains(id)
        &&& self.registry.len() + 1 == self.threshold
    }

    /// The hub after a connect of `id`: `id` is appended unless it is
    /// registered already.
    pub open spec fn connect(self, id: SessionId) -> HubView {
        if self.registry.contains(id) {
            self
        } else {
            HubView {
                threshold: self.threshold,
                registry: self.registry.push(id),
                announced: self.announced || self.completes_quorum(id),
            }
        }
    }

    /// The hub after a disconnect of `id`: every entry for `id` is gone,
    /// the others stay in their order.
    pub open spec fn disconnect(self, id: SessionId) -> HubView {
        HubView {
            threshold: self.threshold,
            registry: self.registry.filter(all_but(id)),
            announced: self.announced,
        }
    }

    /// What a connect of `id` under `name` asks of the caller: nothing if
    /// `id` is registered already; else the line that reports the connect
    /// with the places left after it, and, if it completes the quorum, the
    /// two lines that announce the start and `ready` for every session,
    /// the new one included.
    pub open spec fn connect_outcome(self, name: Seq<char>, id: SessionId) -> OutcomeView {
        if self.registry.contains(id) {
            OutcomeView::silent()
        } else if self.completes_quorum(id) {
            OutcomeView {
                log: seq![
                    connected_line(name, self.connect(id).remaining()),
                    quorum_line(),
                    start_line(),
                ],
                deliveries: fan_out(self.connect(id).registry, ready_text()),
            }
        } else {
            OutcomeView {
                log: seq![connected_line(name, self.connect(id).remaining())],
                deliveries: Seq::empty(),
            }
        }
    }

    /// The hub after `event`.
    pub open spec fn step(self, event: EventView) -> HubView {
        match event {
            EventView::Connect { name, id } => self.connect(id),
            EventView::Disconnect { id } => self.disconnect(id),
            EventView::Broadcast { text } => self,
            EventView::Relay { name, text } => self,
        }
    }

    /// What `event` asks of the caller.
    pub open spec fn react(self, event: EventView) -> OutcomeView {
        match event {
            EventView::Connect { name, id } => self.connect_outcome(name, id),
            EventView::Disconnect { id } => OutcomeView::silent(),
            EventView::Broadcast { text } => OutcomeView {
                log: Seq::empty(),
                deliveries: fan_out(self.registry, text),
            },
            EventView::Relay { name, text } => OutcomeView {
                log: Seq::empty(),
                deliveries: fan_out(self.registry, relay_text(name, text)),
            },
        }
    }
}

/// Where a hub is on its way to the start.
#[derive(Debug, Clone, Copy, PartialEq, Eq, Structural)]
pub enum Stage {
    /// No session is connected, and the start has not been announced.
    Empty,
    /// Sessions are connected, fewer than the quorum, and the start has not
    /// been announced.
    Filling,
    /// The start has been announced. A hub never leaves this stage,
    /// however its registry shrinks and grows.
    Ready,
}

/// The test that every session but `id` passes.
pub open spec fn all_but(id: SessionId) -> spec_fn(SessionId) -> bool {
    |other: SessionId| other != id
}

/// The coordinator of one server: the registry of connected sessions, the
/// quorum, and whether the start has been announced.
pub struct Hub {
    threshold: usize,
    clients: Vec<SessionId>,
    announced: bool,
}

impl View for Hub {
    type V = HubView;

    closed spec fn view(&self) -> HubView {
        HubView {
            threshold: self.threshold as nat,
            registry: self.clients@,
            announced: self.announced,
        }
    }
}

impl Hub {
    #[verifier::type_invariant]
    spec fn well_formed(self) -> bool {
        self@.valid()
    }

    /// A hub without sessions that announces the start when `threshold`
    /// sessions are connected.
    pub fn new(threshold: usize) -> (hub: Hub)
        requires
            threshold >= 1,
        ensures
            hub@ == HubView::fresh(threshold as nat),
            hub@.valid(),
    {
        Hub { threshold: threshold, clients: Vec::new(), announced: false }
    }

    /// The quorum.
    pub fn threshold(&self) -> (n: usize)
        ensures
            n == self@.threshold,
            self@.valid(),
    {
        proof {
            use_type_invariant(self);
        }
        self.threshold
    }

    /// The number of connected sessions.
    pub fn num_clients(&self) -> (n: usize)
        ensures
            n == self@.registry.len(),
    {
        self.clients.len()
    }

    /// The places left until the quorum.
    pub fn remaining(&self) -> (n: usize)
        ensures
            n == self@.remaining(),
    {
        if self.clients.len() <= self.threshold {
            self.threshold - self.clients.len()
        } else {
            0
        }
    }

    /// Where the hub is on its way to the start.
    pub fn stage(&self) -> (stage: Stage)
        ensures
            stage == self@.stage(),
    {
        if self.announced {
            Stage::Ready
        } else if self.clients.len() == 0 {
            Stage::Empty
        } else {
            Stage::Filling
        }
    }

    /// Whether the start has been announced.
    pub fn is_ready(&self) -> (b: bool)
        ensures
            b == self@.announced,
    {
        self.announced
    }

    /// Whether the session `id` is connected.
    pub fn is_connected(&self, id: SessionId) -> (b: bool)
        ensures
            b == self@.registry.contains(id),
    {
        let mut i: usize = 0;
        while i < self.clients.len()
            invariant
                i <= self.clients.len(),
                forall|j: int| 0 <= j < i ==> self.clients@[j] != id,
            decreases self.clients.len() - i,
        {
            if self.clients[i] == id {
                return true;
            }
            i += 1;
        }
        false
    }

    /// The connected sessions, oldest first.
    pub fn clients(&self) -> (ids: Vec<SessionId>)
        ensures
            ids@ == self@.registry,
            self@.valid(),
    {
        proof {
            use_type_invariant(self);
        }
        self.clients.clone()
    }

    /// Registers the session `id` of the client called `name`.
    ///
    /// A session that is registered already stays as it is, and nothing is
    /// asked of the caller. Else `id` joins the registry as its newest
    /// entry, and the outcome holds the line that reports the connect; if
    /// this connect completes the quorum, it also holds the two lines that
    /// announce the start, and `ready` for every session, the new one
    /// included. The start is announced once in the life of a hub.
    pub fn connect(&mut self, name: &str, id: SessionId) -> (out: Outcome)
        ensures
            final(self)@ == old(self)@.connect(id),
            final(self)@.valid(),
            out@ == old(self)@.connect_outcome(name@, id),
    {
        proof {
            use_type_invariant(&*self);
        }
        let mut log: Vec<String> = Vec::new();
        if self.is_connected(id) {
            let out = Outcome { log: log, deliveries: Vec::new() };
            assert(out@.log =~= Seq::empty());
            assert(out@.deliveries =~= Seq::empty());
            return out;
        }
        let quorum: bool = !self.announced && self.clients.len() == self.threshold - 1;
        if quorum {
            self.announced = true;
        }
        // The registry grows outside the hub, which has to be valid at
        // every step.
        let mut clients: Vec<SessionId> = Vec::new();
        std::mem::swap(&mut clients, &mut self.clients);
        clients.push(id);
        self.clients = clients;
        log.push(format_connected(name, self.remaining()));
        let mut deliveries: Vec<Delivery> = Vec::new();
        if quorum {
            log.push(format_quorum());
            log.push(format_start());
            deliveries = self.ready();
        }
        let out = Outcome { log: log, deliveries: deliveries };
        assert(out@.log =~= old(self)@.connect_outcome(name@, id).log);
        assert(out@.deliveries =~= old(self)@.connect_outcome(name@, id).deliveries);
        out
    }

    /// Removes the session `id` from the registry. The other sessions stay,
    /// in their order; for a session that is not registered nothing
    /// changes. Nothing is delivered or logged.
    pub fn disconnect(&mut self, id: SessionId)
        ensures
            final(self)@ == old(self)@.disconnect(id),
            final(self)@.valid(),
    {
        proof {
            use_type_invariant(&*self);
        }
        let mut kept: Vec<SessionId> = Vec::new();
        let mut i: usize = 0;
        proof {
            reveal(Seq::filter);
        }
        while i < self.clients.len()
            invariant
                i <= self.clients.len(),
                *self == *old(self),
                kept@ == self.clients@.take(i as int).filter(all_but(id)),
            decreases self.clients.len() - i,
        {
            proof {
                reveal(Seq::filter);
                assert(self.clients@.take(i + 1).drop_last() =~= self.clients@.take(i as int));
            }
            if self.clients[i] != id {
                kept.push(self.clients[i]);
            }
            i += 1;
        }
        proof {
            assert(self.clients@.take(i as int) =~= self.clients@);
            lemma_disconnect_keeps_validity(old(self)@, id);
        }
        self.clients = kept;
    }

    /// The deliveries that bring `text`, as it is, to every connected
    /// session: one for each, in the order of the registry. An empty `text`
    /// is delivered like any other.
    pub fn broadcast(&self, text: &str) -> (deliveries: Vec<Delivery>)
        ensures
            deliveries.deep_view() == fan_out(self@.registry, text@),
            self@.valid(),
    {
        proof {
            use_type_invariant(self);
        }
        let mut deliveries: Vec<Delivery> = Vec::new();
        let mut i: usize = 0;
        while i < self.clients.len()
            invariant
                i <= self.clients.len(),
                deliveries.len() == i,
                forall|j: int|
                    0 <= j < i ==> (#[trigger] deliveries@[j])@ == (DeliveryView {
                        to: self.clients@[j],
                        text: text@,
                    }),
            decreases self.clients.len() - i,
        {
            deliveries.push(Delivery { to: self.clients[i], text: String::from_str(text) });
            i += 1;
        }
        deliveries
    }

    /// The deliveries that bring `ready` to every connected session.
    pub fn ready(&self) -> (deliveries: Vec<Delivery>)
        ensures
            deliveries.deep_view() == fan_out(self@.registry, ready_text()),
            self@.valid(),
    {
        let text: String = format_ready();
        self.broadcast(text.as_str())
    }

    /// The deliveries that bring `<name>: <text>` to every connected
    /// session, the sender included if it is connected.
    pub fn relay(&self, name: &str, text: &str) -> (deliveries: Vec<Delivery>)
        ensures
            deliveries.deep_view() == fan_out(self@.registry, relay_text(name@, text@)),
            self@.valid(),
    {
        let line: String = format_relay(name, text);
        self.broadcast(line.as_str())
    }

    /// Handles one event: the registry changes as the event says, and the
    /// outcome lists what the caller is to log and to deliver.
    pub fn handle(&mut self, event: Event) -> (out: Outcome)
        ensures
            final(self)@ == old(self)@.step(event@),
            final(self)@.valid(),
            out@ == old(self)@.react(event@),
    {
        match event {
            Event::Connect { name, id } => self.connect(name.as_str(), id),
            Event::Disconnect { id } => {
                self.disconnect(id);
                let out = Outcome { log: Vec::new(), deliveries: Vec::new() };
                assert(out@.log =~= Seq::empty());
                assert(out@.deliveries =~= Seq::empty());
                out
            },
            Event::Broadcast { text } => {
                let out = Outcome { log: Vec::new(), deliveries: self.broadcast(text.as_str()) };
                assert(out@.log =~= Seq::empty());
                out
            },
            Event::Relay { name, text } => {
                let out = Outcome {
                    log: Vec::new(),
                    deliveries: self.relay(name.as_str(), text.as_str()),
                };
                assert(out@.log =~= Seq::empty());
                out
            },
        }
    }
}

/// A valid hub stays valid when a session is disconnected.
pub proof fn lemma_disconnect_keeps_validity(hub: HubView, id: SessionId)
    requires
        hub.valid(),
    ensures
        hub.disconnect(id).valid(),
{
    hub.registry.lemma_filter_len(all_but(id));
    lemma_filter_no_duplicates(hub.registry, all_but(id));
}

/// Filtering a sequence without duplicates leaves no duplicates.
pub proof fn lemma_filter_no_duplicates<A>(s: Seq<A>, keep: spec_fn(A) -> bool)
    requires
        s.no_duplicates(),
    ensures
        s.filter(keep).no_duplicates(),
    decreases s.len(),
{
    reveal(Seq::filter);
    if s.len() > 0 {
        let front = s.drop_last();
        lemma_filter_no_duplicates(front, keep);
        if keep(s.last()) {
            let kept = front.filter(keep);
            assert forall|i: int| 0 <= i < kept.len() implies kept[i] != s.last() by {
                front.lemma_filter_contains_rev(keep, kept[i]);
                let k = choose|k: int| 0 <= k < front.len() && front[k] == kept[i];
                assert(s[k] == kept[i]);
            }
        }
    }
}

} // verus!

//! What goes into the hub and what comes out of it.

use vstd::prelude::*;

verus! {

/// Identity of one connection. The registry holds sessions by it, and
/// two sessions are the same one exactly when their identities are equal.
pub type SessionId = u64;

/// One input of the hub.
#[derive(Debug, PartialEq, Eq)]
pub enum Event {
    /// The session `id`, whose client calls itself `name`, is established.
    Connect { name: String, id: SessionId },
    /// The session `id` has ended.
    Disconnect { id: SessionId },
    /// `text` is to reach every connected session as it is.
    Broadcast { text: String },
    /// The client called `name` has sent `text`.
    Relay { name: String, text: String },
}

/// An [`Event`] as contracts see it.
pub enum EventView {
    Connect { name: Seq<char>, id: SessionId },
    Disconnect { id: SessionId },
    Broadcast { text: Seq<char> },
    Relay { name: Seq<char>, text: Seq<char> },
}

impl View for Event {
    type V = EventView;

    open spec fn view(&self) -> EventView {
        match *self {
            Event::Connect { name, id } => EventView::Connect { name: name@, id },
            Event::Disconnect { id } => EventView::Disconnect { id },
            Event::Broadcast { text } => EventView::Broadcast { text: text@ },
            Event::Relay { name, text } => EventView::Relay { name: name@, text: text@ },
        }
    }
}

impl Clone for Event {
    fn clone(&self) -> (copy: Event)
        ensures
            copy@ == self@,
    {
        match self {
            Event::Connect { name, id } => Event::Connect { name: name.clone(), id: *id },
            Event::Disconnect { id } => Event::Disconnect { id: *id },
            Event::Broadcast { text } => Event::Broadcast { text: text.clone() },
            Event::Relay { name, text } => Event::Relay { name: name.clone(), text: text.clone() },
        }
    }
}

impl DeepView for Event {
    type V = EventView;

    open spec fn deep_view(&self) -> EventView {
        self@
    }
}

/// One text frame for one session: the caller hands `text` to the outbound
/// channel of `to`, and goes on to the next delivery whatever becomes of it.
#[derive(Debug, PartialEq, Eq)]
pub struct Delivery {
    pub to: SessionId,
    pub text: String,
}

/// A [`Delivery`] as contracts see it.
pub struct DeliveryView {
    pub to: SessionId,
    pub text: Seq<char>,
}

impl View for Delivery {
    type V = DeliveryView;

    open spec fn view(&self) -> DeliveryView {
        DeliveryView { to: self.to, text: self.text@ }
    }
}

impl Clone for Delivery {
    fn clone(&self) -> (copy: Delivery)
        ensures
            copy@ == self@,
    {
        Delivery { to: self.to, text: self.text.clone() }
    }
}

impl DeepView for Delivery {
    type V = DeliveryView;

    open spec fn deep_view(&self) -> DeliveryView {
        self@
    }
}

/// What the hub asks of its caller after one event: first the console
/// lines, in order, then the deliveries, in order.
#[derive(Debug, PartialEq, Eq)]
pub struct Outcome {
    pub log: Vec<String>,
    pub deliveries: Vec<Delivery>,
}

/// An [`Outcome`] as contracts see it.
pub struct OutcomeView {
    pub log: Seq<Seq<char>>,
    pub deliveries: Seq<DeliveryView>,
}

impl OutcomeView {
    /// Nothing to log and nothing to deliver.
    pub open spec fn silent() -> OutcomeView {
        OutcomeView { log: Seq::empty(), deliveries: Seq::empty() }
    }
}

impl View for Outcome {
    type V = OutcomeView;

    open spec fn view(&self) -> OutcomeView {
        OutcomeView { log: self.log.deep_view(), deliveries: self.deliveries.deep_view() }
    }
}

impl Clone for Outcome {
    fn clone(&self) -> (copy: Outcome)
        ensures
            copy@ == self@,
    {
        let copy = Outcome { log: self.log.clone(), deliveries: self.deliveries.clone() };
        assert(copy@.log =~= self@.log);
        assert(copy@.deliveries =~= self@.deliveries);
        copy
    }
}

/// One delivery of `text` for each session of `registry`, in its order.
pub open spec fn fan_out(registry: Seq<SessionId>, text: Seq<char>) -> Seq<DeliveryView> {
    Seq::new(registry.len(), |i: int| DeliveryView { to: registry[i], text: text })
}

/// The test that the deliveries for the session `id` pass.
pub open spec fn addressed_to(id: SessionId) -> spec_fn(DeliveryView) -> bool {
    |d: DeliveryView| d.to == id
}

/// The texts that `deliveries` hold for the session `id`, in order.
pub open spec fn inbox(deliveries: Seq<DeliveryView>, id: SessionId) -> Seq<Seq<char>> {
    deliveries.filter(addressed_to(id)).map_values(|d: DeliveryView| d.text)
}

} // verus!

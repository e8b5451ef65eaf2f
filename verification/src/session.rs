//! The session: what one connection makes of its frames.
//!
//! A session owns no shared state. It turns the frames of its peer into
//! events for the hub and replies for the peer, and the texts that the hub
//! delivers into frames for the peer. It is started once and stopped once,
//! whichever way its connection ends.

use vstd::prelude::*;
use crate::event::{Event, EventView, SessionId};

verus! {

/// One frame of the wire protocol, as far as a session tells frames apart.
#[derive(Debug, PartialEq, Eq)]
pub enum Frame {
    /// A text message.
    Text(String),
    /// A binary message.
    Binary(Vec<u8>),
    /// A keep-alive request with its payload.
    Ping(Vec<u8>),
    /// A keep-alive reply with its payload.
    Pong(Vec<u8>),
    /// The peer closes the connection.
    Close,
    /// What arrived breaks the protocol.
    Malformed,
    /// A frame of any other kind.
    Other,
}

/// A [`Frame`] as contracts see it.
pub enum FrameView {
    Text(Seq<char>),
    Binary(Seq<u8>),
    Ping(Seq<u8>),
    Pong(Seq<u8>),
    Close,
    Malformed,
    Other,
}

impl View for Frame {
    type V = FrameView;

    open spec fn view(&self) -> FrameView {
        match *self {
            Frame::Text(text) => FrameView::Text(text@),
            Frame::Binary(payload) => FrameView::Binary(payload@),
            Frame::Ping(payload) => FrameView::Ping(payload@),
            Frame::Pong(payload) => FrameView::Pong(payload@),
            Frame::Close => FrameView::Close,
            Frame::Malformed => FrameView::Malformed,
            Frame::Other => FrameView::Other,
        }
    }
}

impl Clone for Frame {
    fn clone(&self) -> (copy: Frame)
        ensures
            copy@ == self@,
    {
        match self {
            Frame::Text(text) => Frame::Text(text.clone()),
            Frame::Binary(payload) => Frame::Binary(payload.clone()),
            Frame::Ping(payload) => Frame::Ping(payload.clone()),
            Frame::Pong(payload) => Frame::Pong(payload.clone()),
            Frame::Close => Frame::Close,
            Frame::Malformed => Frame::Malformed,
            Frame::Other => Frame::Other,
        }
    }
}

impl DeepView for Frame {
    type V = FrameView;

    open spec fn deep_view(&self) -> FrameView {
        self@
    }
}

/// What a session does about one inbound frame.
#[derive(Debug, PartialEq, Eq)]
pub enum Reaction {
    /// Nothing.
    Ignore,
    /// Write the frame on the session's own connection.
    Reply(Frame),
    /// Hand the event to the hub.
    Forward(Event),
    /// Hand the event to the hub and close the connection: the session has
    /// ended.
    Terminate(Event),
}

/// A [`Reaction`] as contracts see it.
pub enum ReactionView {
    Ignore,
    Reply(FrameView),
    Forward(EventView),
    Terminate(EventView),
}

impl View for Reaction {
    type V = ReactionView;

    open spec fn view(&self) -> ReactionView {
        match *self {
            Reaction::Ignore => ReactionView::Ignore,
            Reaction::Reply(frame) => ReactionView::Reply(frame@),
            Reaction::Forward(event) => ReactionView::Forward(event@),
            Reaction::Terminate(event) => ReactionView::Terminate(event@),
        }
    }
}

impl Clone for Reaction {
    fn clone(&self) -> (copy: Reaction)
        ensures
            copy@ == self@,
    {
        match self {
            Reaction::Ignore => Reaction::Ignore,
            Reaction::Reply(frame) => Reaction::Reply(frame.clone()),
            Reaction::Forward(event) => Reaction::Forward(event.clone()),
            Reaction::Terminate(event) => Reaction::Terminate(event.clone()),
        }
    }
}

/// Where a session is in its life.
#[derive(Debug, Clone, Copy, PartialEq, Eq, Structural)]
pub enum Phase {
    /// Created, not started: the hub does not know of it.
    Pending,
    /// Started, not stopped.
    Open,
    /// Stopped, for good.
    Closed,
}

/// The state of a session as contracts see it.
pub struct SessionView {
    pub id: SessionId,
    pub name: Seq<char>,
    pub phase: Phase,
}

impl SessionView {
    /// The same session in another phase.
    pub open spec fn at(self, phase: Phase) -> SessionView {
        SessionView { id: self.id, name: self.name, phase: phase }
    }

    /// The event of the start: the connect of this session, for one that is
    /// pending; none for any other.
    pub open spec fn start_event(self) -> Option<EventView> {
        if self.phase == Phase::Pending {
            Some(EventView::Connect { name: self.name, id: self.id })
        } else {
            None
        }
    }

    /// The session after its start: open if it was pending, else as it was.
    pub open spec fn started(self) -> SessionView {
        if self.phase == Phase::Pending {
            self.at(Phase::Open)
        } else {
            self
        }
    }

    /// The event of the stop: the disconnect of this session, for one that
    /// is open; none for any other.
    pub open spec fn stop_event(self) -> Option<EventView> {
        if self.phase == Phase::Open {
            Some(EventView::Disconnect { id: self.id })
        } else {
            None
        }
    }

    /// The session after its stop.
    pub open spec fn stopped(self) -> SessionView {
        self.at(Phase::Closed)
    }

    /// What the session does about `frame`. A session that is not open
    /// ignores every frame. An open one answers a ping with a pong of the
    /// same payload, forwards a text to the hub as a relay under its name,
    /// ends on a close and on a malformed frame, and ignores the rest.
    pub open spec fn reaction(self, frame: FrameView) -> ReactionView {
        if self.phase != Phase::Open {
            ReactionView::Ignore
        } else {
            match frame {
                FrameView::Ping(payload) => ReactionView::Reply(FrameView::Pong(payload)),
                FrameView::Text(text) => ReactionView::Forward(
                    EventView::Relay { name: self.name, text: text },
                ),
                FrameView::Close => ReactionView::Terminate(EventView::Disconnect { id: self.id }),
                FrameView::Malformed => ReactionView::Terminate(
                    EventView::Disconnect { id: self.id },
                ),
                FrameView::Binary(payload) => ReactionView::Ignore,
                FrameView::Pong(payload) => ReactionView::Ignore,
                FrameView::Other => ReactionView::Ignore,
            }
        }
    }

    /// The session after `frame`: closed if the frame ends it, else as it
    /// was.
    pub open spec fn after(self, frame: FrameView) -> SessionView {
        if self.reaction(frame) is Terminate {
            self.at(Phase::Closed)
        } else {
            self
        }
    }

    /// The frame that carries `text` to the peer: a text frame, for an open
    /// session; none for any other.
    pub open spec fn outbound(self, text: Seq<char>) -> Option<FrameView> {
        if self.phase == Phase::Open {
            Some(FrameView::Text(text))
        } else {
            None
        }
    }
}

/// A closed session stays closed and asks for nothing: whatever is
/// called on it, it emits no event, writes no frame and does not change.
pub proof fn lemma_closed_is_final(session: SessionView, frame: FrameView, text: Seq<char>)
    requires
        session.phase == Phase::Closed,
    ensures
        session.started() == session,
        session.stopped() == session,
        session.after(frame) == session,
        session.start_event() is None,
        session.stop_event() is None,
        session.reaction(frame) == ReactionView::Ignore,
        session.outbound(text) is None,
{
}

/// An open session hands the hub its disconnect once: with the call or the
/// frame that closes it, and never after.
pub proof fn lemma_disconnect_is_emitted_once(session: SessionView, frame: FrameView)
    requires
        session.phase == Phase::Open,
    ensures
        session.stop_event() == Some(EventView::Disconnect { id: session.id }),
        session.stopped().stop_event() is None,
        session.reaction(frame) is Terminate ==> session.after(frame).stop_event() is None,
        !(session.reaction(frame) is Terminate) ==> session.after(frame) == session,
{
}

/// The adapter of one connection.
pub struct Session {
    id: SessionId,
    name: String,
    phase: Phase,
}

impl View for Session {
    type V = SessionView;

    closed spec fn view(&self) -> SessionView {
        SessionView { id: self.id, name: self.name@, phase: self.phase }
    }
}

impl Session {
    /// A pending session with the identity `id` for the client that calls
    /// itself `name`.
    pub fn new(id: SessionId, name: String) -> (session: Session)
        ensures
            session@ == (SessionView { id: id, name: name@, phase: Phase::Pending }),
    {
        Session { id: id, name: name, phase: Phase::Pending }
    }

    /// The identity of the session.
    pub fn id(&self) -> (id: SessionId)
        ensures
            id == self@.id,
    {
        self.id
    }

    /// The name of the client.
    pub fn name(&self) -> (name: &str)
        ensures
            name@ == self@.name,
    {
        self.name.as_str()
    }

    /// Where the session is in its life.
    pub fn phase(&self) -> (phase: Phase)
        ensures
            phase == self@.phase,
    {
        self.phase
    }

    /// Starts the session. The first call on a pending session opens it and
    /// returns its connect for the hub; any other call changes nothing and
    /// returns none.
    pub fn on_start(&mut self) -> (event: Option<Event>)
        ensures
            final(self)@ == old(self)@.started(),
            event.deep_view() == old(self)@.start_event(),
    {
        match self.phase {
            Phase::Pending => {
                self.phase = Phase::Open;
                Some(Event::Connect { name: self.name.clone(), id: self.id })
            },
            _ => None,
        }
    }

    /// Takes one inbound frame and says what is to be done about it.
    pub fn on_frame(&mut self, frame: Frame) -> (reaction: Reaction)
        ensures
            final(self)@ == old(self)@.after(frame@),
            reaction@ == old(self)@.reaction(frame@),
    {
        match self.phase {
            Phase::Open => match frame {
                Frame::Ping(payload) => Reaction::Reply(Frame::Pong(payload)),
                Frame::Text(text) => Reaction::Forward(
                    Event::Relay { name: self.name.clone(), text: text },
                ),
                Frame::Close => {
                    self.phase = Phase::Closed;
                    Reaction::Terminate(Event::Disconnect { id: self.id })
                },
                Frame::Malformed => {
                    self.phase = Phase::Closed;
                    Reaction::Terminate(Event::Disconnect { id: self.id })
                },
                _ => Reaction::Ignore,
            },
            _ => Reaction::Ignore,
        }
    }

    /// Turns a text that the hub delivers into the frame to write: one text
    /// frame with `text` as it is, as long as the session is open.
    pub fn on_outbound(&self, text: String) -> (frame: Option<Frame>)
        ensures
            frame.deep_view() == self@.outbound(text@),
    {
        match self.phase {
            Phase::Open => Some(Frame::Text(text)),
            _ => None,
        }
    }

    /// Stops the session, whichever way its connection ended. The call
    /// that closes an open session returns its disconnect for the hub; any
    /// other call returns none. After it the session is closed.
    pub fn on_stop(&mut self) -> (event: Option<Event>)
        ensures
            final(self)@ == old(self)@.stopped(),
            event.deep_view() == old(self)@.stop_event(),
    {
        let was: Phase = self.phase;
        self.phase = Phase::Closed;
        match was {
            Phase::Open => Some(Event::Disconnect { id: self.id }),
            _ => None,
        }
    }
}

} // verus!

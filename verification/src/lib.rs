//! Coordination core of a WebSocket fan-out hub.
//!
//! Clients connect, the hub waits until a configured quorum of them is
//! present and announces the start once; before and after that it relays
//! every text message of any client to all connected clients.
//!
//! The crate holds the decisions only. A [`hub::Hub`] turns one
//! [`event::Event`] at a time into its next state and an
//! [`event::Outcome`]: the lines to log and the texts to deliver, each to
//! one session. A [`session::Session`] turns the frames of one connection
//! into events for the hub and frames for the peer, and
//! [`acceptor::client_name`] finds the client's name in a request. Sockets,
//! tasks and queues belong to the caller, which performs what an outcome
//! lists. What holds of a hub over any sequence of events is proved in
//! [`trace`].

pub mod acceptor;
pub mod event;
pub mod hub;
pub mod message;
pub mod session;
pub mod trace;

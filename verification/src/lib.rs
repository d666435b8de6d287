//! An HTTP-to-message-bus gateway, as a library of verified decisions.
//!
//! The crate holds the part of a gateway that decides: how a method and a path
//! become a bus subject, what the request envelope holds, how a reply becomes
//! an HTTP response, and in which order a request subscribes, publishes, waits
//! and cleans up. Sockets, subscriptions and timers stay with the caller, who
//! performs each [`gateway::Action`] and reports what happened as an
//! [`gateway::Event`].

pub mod dedup;
pub mod envelope;
pub mod gateway;
pub mod json;
pub mod pairs;
pub mod protocol;
pub mod response;
pub mod subject;
pub mod text;
pub mod trace;

//! Verified core of a family of adapters that bridge HTTP, processes and the
//! console to a publish/subscribe event bus.
//!
//! The adapters themselves (sockets, the bus connection, signal handling)
//! live outside this crate; what is here is every decision they take, stated
//! as functions from plain values to plain values and proved against their
//! contracts.
//!
//! - [`signature`]: the keyed hash that authenticates a webhook.
//! - [`event`] and [`request`]: the request translator, inbound and outbound.
//! - [`receiver`]: the webhook receiver, from request to answer.
//! - [`dispatcher`]: the outbound dispatcher and its retry policy.
//! - [`shutdown`]: what an adapter does when it is told to stop.
//! - [`command`] and [`console`]: the command executor and the console sink.
//! - [`json`], [`headers`], [`hexcode`], [`text`]: the values they work on.

pub mod command;
pub mod console;
pub mod dispatcher;
pub mod event;
pub mod headers;
pub mod hexcode;
pub mod json;
pub mod receiver;
pub mod request;
pub mod shutdown;
pub mod signature;
pub mod text;

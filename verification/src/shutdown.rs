//! The shutdown coordinator: one loop that waits for whichever comes first,
//! the signal to terminate or the adapter's own work, and reacts.
//!
//! The receiver races the signal against its server, the dispatcher against
//! the next event of its subscription. Nothing is kept across a shutdown: an
//! event whose dispatch was under way is lost with its retry state.

use vstd::prelude::*;

verus! {

/// What ended the wait.
#[derive(Clone, Copy, Debug, PartialEq, Eq, Structural)]
pub enum Wake {
    /// The signal to terminate arrived.
    Terminate,
    /// The receiver's server returned.
    ServerStopped,
    /// The subscription gave an event.
    EventArrived,
    /// The subscription ended: the bus is shutting down.
    StreamEnded,
}

/// What the adapter does next.
#[derive(Clone, Copy, Debug, PartialEq, Eq, Structural)]
pub enum Reaction {
    /// Disconnect from the bus, then leave the loop.
    DisconnectAndStop,
    /// Leave the loop.
    Stop,
    /// Dispatch the event to its end, then wait again.
    DispatchAndContinue,
}

/// The reaction to each way of waking.
pub open spec fn reaction_to(wake: Wake) -> Reaction {
    match wake {
        Wake::Terminate => Reaction::DisconnectAndStop,
        Wake::ServerStopped => Reaction::Stop,
        Wake::EventArrived => Reaction::DispatchAndContinue,
        Wake::StreamEnded => Reaction::Stop,
    }
}

/// Decides what follows a wait. On the signal the adapter disconnects from
/// the bus and stops; it stops too when its server or its subscription ends;
/// an event is dispatched, and only then is the loop entered again.
pub fn react(wake: Wake) -> (reaction: Reaction)
    ensures
        reaction == reaction_to(wake),
        reaction is DispatchAndContinue <==> wake is EventArrived,
        reaction is DisconnectAndStop <==> wake is Terminate,
{
    match wake {
        Wake::Terminate => Reaction::DisconnectAndStop,
        Wake::ServerStopped => Reaction::Stop,
        Wake::EventArrived => Reaction::DispatchAndContinue,
        Wake::StreamEnded => Reaction::Stop,
    }
}

} // verus!

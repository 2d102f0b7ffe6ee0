use primitives::shutdown::{react, Reaction, Wake};

#[test]
fn shutdown_reactions() {
    assert_eq!(react(Wake::Terminate), Reaction::DisconnectAndStop);
    assert_eq!(react(Wake::ServerStopped), Reaction::Stop);
    assert_eq!(react(Wake::StreamEnded), Reaction::Stop);
    assert_eq!(react(Wake::EventArrived), Reaction::DispatchAndContinue);
}

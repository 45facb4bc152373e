use echo_backend::conn::{acceptor_continues, next_phase, ConnEvent, ConnPhase};

#[test]
fn connection_moves_through_its_phases() {
    let p = ConnPhase::Accepted;
    let p = next_phase(p, ConnEvent::OptionsApplied);
    assert_eq!(p, ConnPhase::Configured);
    let p = next_phase(p, ConnEvent::ProtocolBound);
    assert_eq!(p, ConnPhase::Serving);
    assert_eq!(next_phase(p, ConnEvent::PeerClosed), ConnPhase::Closed);
    assert_eq!(next_phase(p, ConnEvent::ProtocolError), ConnPhase::Closed);
    assert_eq!(next_phase(p, ConnEvent::ShutdownDrained), ConnPhase::Closed);
}

#[test]
fn failed_configuration_closes_before_serving() {
    let p = next_phase(ConnPhase::Accepted, ConnEvent::OptionsFailed);
    assert_eq!(p, ConnPhase::Closed);
}

#[test]
fn closed_connection_stays_closed() {
    let events = [
        ConnEvent::OptionsApplied,
        ConnEvent::OptionsFailed,
        ConnEvent::ProtocolBound,
        ConnEvent::PeerClosed,
        ConnEvent::ProtocolError,
        ConnEvent::ShutdownDrained,
    ];
    for e in events {
        assert_eq!(next_phase(ConnPhase::Closed, e), ConnPhase::Closed);
    }
}

#[test]
fn connection_failures_do_not_stop_the_acceptor() {
    assert!(acceptor_continues(ConnEvent::OptionsFailed));
    assert!(acceptor_continues(ConnEvent::ProtocolError));
    assert!(acceptor_continues(ConnEvent::PeerClosed));
    assert!(!acceptor_continues(ConnEvent::ShutdownDrained));
}

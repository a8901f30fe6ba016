use delphos::bridge::{BridgeEvent, BridgeState};

#[test]
fn bridge_events_carry_their_payloads() {
    let e = BridgeEvent::Stdout { line: "ready".to_string() };
    assert_eq!(e.clone(), BridgeEvent::Stdout { line: "ready".to_string() });
    assert_ne!(e, BridgeEvent::Stderr { line: "ready".to_string() });
    assert_eq!(BridgeEvent::ProcessExited { exit_code: -1 }, BridgeEvent::ProcessExited { exit_code: -1 });
}

#[test]
fn bridge_states_are_distinct() {
    assert_eq!(BridgeState::Idle, BridgeState::Idle);
    assert_ne!(BridgeState::Running, BridgeState::Stopped);
    assert_ne!(BridgeState::Failed, BridgeState::Idle);
}

use xiu::channels::{SessionHandle, StreamKey};
use xiu::relay::{retry_delay, RelayAction, RelayClient, RelayEvent, RelayState};
use xiu::session::{Role, SessionState};

fn enabled(role: Role) -> RelayClient {
    let mut relay = match role {
        Role::Push => RelayClient::push_client("10.0.0.9:1935"),
        _ => RelayClient::pull_client("10.0.0.9:1935"),
    };
    relay.set_enabled(true);
    relay
}

#[test]
fn delay_doubles_up_to_the_cap() {
    let expected = [1000u64, 2000, 4000, 8000, 16000, 30000, 30000];
    for (failures, ms) in expected.iter().enumerate() {
        assert_eq!(retry_delay(failures as u32), *ms);
    }
    assert_eq!(retry_delay(u32::MAX), 30000);
}

#[test]
fn a_disabled_relay_never_connects() {
    let mut relay = RelayClient::push_client("10.0.0.9:1935");
    assert_eq!(relay.state(), RelayState::Disabled);
    for event in [
        RelayEvent::Start,
        RelayEvent::TimerFired,
        RelayEvent::ConnectFailed,
        RelayEvent::Connected,
        RelayEvent::SessionClosed,
        RelayEvent::Shutdown,
    ] {
        assert_eq!(relay.handle(event), RelayAction::Nothing);
        assert_eq!(relay.state(), RelayState::Disabled);
    }
    relay.set_enabled(true);
    assert_eq!(relay.state(), RelayState::Idle);
    relay.set_enabled(false);
    assert_eq!(relay.state(), RelayState::Disabled);
}

#[test]
fn a_refused_connection_is_retried_again_and_again() {
    let mut relay = enabled(Role::Pull);
    assert_eq!(relay.handle(RelayEvent::Start), RelayAction::Connect);
    let mut connects = 1;
    let mut waited = 0u64;
    for round in 0..50u32 {
        assert_eq!(relay.state(), RelayState::Connecting);
        match relay.handle(RelayEvent::ConnectFailed) {
            RelayAction::Wait(ms) => {
                assert_eq!(ms, retry_delay(round));
                waited += ms;
            }
            other => panic!("unexpected {:?}", other),
        }
        assert_eq!(relay.state(), RelayState::Waiting);
        assert_eq!(relay.handle(RelayEvent::TimerFired), RelayAction::Connect);
        connects += 1;
    }
    assert_eq!(connects, 51);
    assert_eq!(waited, 1000 + 2000 + 4000 + 8000 + 16000 + 45 * 30000);
    assert_eq!(relay.state(), RelayState::Connecting);
}

#[test]
fn a_connection_that_was_established_starts_the_count_anew() {
    let mut relay = enabled(Role::Push);
    relay.handle(RelayEvent::Start);
    assert_eq!(relay.handle(RelayEvent::ConnectFailed), RelayAction::Wait(1000));
    relay.handle(RelayEvent::TimerFired);
    assert_eq!(relay.handle(RelayEvent::ConnectFailed), RelayAction::Wait(2000));
    relay.handle(RelayEvent::TimerFired);
    assert_eq!(relay.handle(RelayEvent::Connected), RelayAction::Nothing);
    assert_eq!(relay.state(), RelayState::Running);
    assert_eq!(relay.handle(RelayEvent::SessionClosed), RelayAction::Wait(1000));
    assert_eq!(relay.handle(RelayEvent::TimerFired), RelayAction::Connect);
    assert_eq!(relay.handle(RelayEvent::ConnectFailed), RelayAction::Wait(2000));
}

#[test]
fn only_shutdown_stops_a_relay() {
    let mut relay = enabled(Role::Push);
    relay.handle(RelayEvent::Start);
    relay.handle(RelayEvent::ConnectFailed);
    assert_eq!(relay.handle(RelayEvent::Shutdown), RelayAction::Nothing);
    assert_eq!(relay.state(), RelayState::Stopped);
    assert_eq!(relay.handle(RelayEvent::TimerFired), RelayAction::Nothing);
    assert_eq!(relay.handle(RelayEvent::Start), RelayAction::Nothing);
    assert_eq!(relay.state(), RelayState::Stopped);
}

#[test]
fn reports_out_of_turn_change_nothing() {
    let mut relay = enabled(Role::Push);
    assert_eq!(relay.handle(RelayEvent::TimerFired), RelayAction::Nothing);
    assert_eq!(relay.handle(RelayEvent::Connected), RelayAction::Nothing);
    assert_eq!(relay.state(), RelayState::Idle);
    relay.handle(RelayEvent::Start);
    assert_eq!(relay.handle(RelayEvent::Start), RelayAction::Nothing);
    assert_eq!(relay.handle(RelayEvent::SessionClosed), RelayAction::Nothing);
    assert_eq!(relay.state(), RelayState::Connecting);
    relay.set_enabled(false);
    assert_eq!(relay.state(), RelayState::Connecting);
}

#[test]
fn a_relay_makes_sessions_in_its_role() {
    let key = StreamKey::new(b"live".to_vec(), b"cam".to_vec());
    let push = enabled(Role::Push).session(SessionHandle { id: 4 }, &key, 8).unwrap();
    assert_eq!(push.role(), Role::Push);
    assert_eq!(push.state(), SessionState::Handshaking);
    assert_eq!(push.key(), key);
    let pull = enabled(Role::Pull).session(SessionHandle { id: 4 }, &key, 8).unwrap();
    assert_eq!(pull.role(), Role::Pull);
    let long = StreamKey::new(vec![b'a'; 65536], b"cam".to_vec());
    assert!(enabled(Role::Push).session(SessionHandle { id: 4 }, &long, 8).is_none());
    let url_too_long = StreamKey::new(vec![b'a'; 65520], b"cam".to_vec());
    assert!(enabled(Role::Push).session(SessionHandle { id: 4 }, &url_too_long, 8).is_none());
}

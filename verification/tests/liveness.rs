use engine::directory::{IpAddress, Server};
use engine::liveness::{
    LivenessAction, LivenessClient, LivenessConfig, LivenessEvent, LivenessState, DEFAULT_BACKOFF_BASE,
};

const SECOND: u64 = 1_000_000_000;

fn config() -> LivenessConfig {
    LivenessConfig::new(30 * SECOND, 15 * SECOND, SECOND, 20 * SECOND).unwrap()
}

fn advert(id: u128, last_ping: i128) -> Server {
    Server::with_id(id, IpAddress::V4(1), 2525, String::from("Arena-1"), last_ping)
}

#[test]
fn the_interval_must_be_positive_and_shorter_than_the_window() {
    assert!(LivenessConfig::new(30, 15, 1, 1).is_some());
    assert!(LivenessConfig::new(30, 29, 1, 1).is_some());
    assert!(LivenessConfig::new(30, 30, 1, 1).is_none());
    assert!(LivenessConfig::new(30, 31, 1, 1).is_none());
    assert!(LivenessConfig::new(30, 0, 1, 1).is_none());
    assert!(LivenessConfig::new(0, 0, 1, 1).is_none());
    assert!(LivenessConfig::new(1, 1, 1, 1).is_none());
    assert!(LivenessConfig::new(u64::MAX, u64::MAX - 1, 0, 0).is_some());
}

#[test]
fn a_configuration_keeps_what_it_was_made_with() {
    let c = config();
    assert_eq!(c.window(), 30 * SECOND);
    assert_eq!(c.interval(), 15 * SECOND);
    assert!(c.interval() < c.window());
}

#[test]
fn for_window_halves_the_window() {
    let c = LivenessConfig::for_window(30 * SECOND).unwrap();
    assert_eq!(c.window(), 30 * SECOND);
    assert_eq!(c.interval(), 15 * SECOND);
    assert_eq!(c.backoff(1), DEFAULT_BACKOFF_BASE);
    assert_eq!(c.backoff(60), 30 * SECOND);
    assert_eq!(LivenessConfig::for_window(3).unwrap().interval(), 1);
    assert_eq!(LivenessConfig::for_window(2).unwrap().interval(), 1);
    assert!(LivenessConfig::for_window(1).is_none());
    assert!(LivenessConfig::for_window(0).is_none());
}

#[test]
fn backoff_doubles_from_the_base_up_to_the_cap() {
    let c = config();
    assert_eq!(c.backoff(0), 0);
    assert_eq!(c.backoff(1), SECOND);
    assert_eq!(c.backoff(2), 2 * SECOND);
    assert_eq!(c.backoff(3), 4 * SECOND);
    assert_eq!(c.backoff(4), 8 * SECOND);
    assert_eq!(c.backoff(5), 16 * SECOND);
    assert_eq!(c.backoff(6), 20 * SECOND);
    assert_eq!(c.backoff(7), 20 * SECOND);
    assert_eq!(c.backoff(u32::MAX), 20 * SECOND);
}

#[test]
fn backoff_at_the_edges() {
    let zero_base = LivenessConfig::new(30, 15, 0, 20).unwrap();
    assert_eq!(zero_base.backoff(1), 0);
    assert_eq!(zero_base.backoff(u32::MAX), 0);
    let zero_cap = LivenessConfig::new(30, 15, 5, 0).unwrap();
    assert_eq!(zero_cap.backoff(1), 0);
    assert_eq!(zero_cap.backoff(9), 0);
    let base_over_cap = LivenessConfig::new(30, 15, 50, 20).unwrap();
    assert_eq!(base_over_cap.backoff(1), 20);
    let huge = LivenessConfig::new(30, 15, u64::MAX / 2 + 1, u64::MAX).unwrap();
    assert_eq!(huge.backoff(1), u64::MAX / 2 + 1);
    assert_eq!(huge.backoff(2), u64::MAX);
    let exact = LivenessConfig::new(30, 15, 5, 20).unwrap();
    assert_eq!(exact.backoff(3), 20);
    assert_eq!(exact.backoff(2), 10);
}

#[test]
fn the_client_starts_by_registering_at_once() {
    let (client, action) = LivenessClient::start(config());
    assert_eq!(action, LivenessAction::Register { delay: 0 });
    assert_eq!(client.state, LivenessState::Unregistered { failures: 0 });
    assert_eq!(client.server(), None);
}

#[test]
fn a_registration_is_followed_by_heartbeats_one_interval_apart() {
    let (mut client, _) = LivenessClient::start(config());
    let action = client.handle(LivenessEvent::RegisterSucceeded { server: advert(7, 100) });
    assert_eq!(action, LivenessAction::Heartbeat { id: 7, delay: 15 * SECOND });
    assert_eq!(client.server(), Some(advert(7, 100)));
    let action = client.handle(LivenessEvent::HeartbeatSucceeded { server: advert(7, 200) });
    assert_eq!(action, LivenessAction::Heartbeat { id: 7, delay: 15 * SECOND });
    assert_eq!(client.server(), Some(advert(7, 200)));
}

#[test]
fn a_failed_heartbeat_falls_back_to_registering_anew() {
    let (mut client, _) = LivenessClient::start(config());
    client.handle(LivenessEvent::RegisterSucceeded { server: advert(7, 100) });
    let action = client.handle(LivenessEvent::HeartbeatFailed);
    assert_eq!(action, LivenessAction::Register { delay: 0 });
    assert_eq!(client.state, LivenessState::Unregistered { failures: 0 });
    assert_eq!(client.server(), None);
    let action = client.handle(LivenessEvent::RegisterSucceeded { server: advert(8, 300) });
    assert_eq!(action, LivenessAction::Heartbeat { id: 8, delay: 15 * SECOND });
}

#[test]
fn failed_registrations_are_retried_with_growing_delay() {
    let (mut client, _) = LivenessClient::start(config());
    let delays: Vec<LivenessAction> =
        (0..7).map(|_| client.handle(LivenessEvent::RegisterFailed)).collect();
    let expected: Vec<LivenessAction> = [1u64, 2, 4, 8, 16, 20, 20]
        .iter()
        .map(|s| LivenessAction::Register { delay: s * SECOND })
        .collect();
    assert_eq!(delays, expected);
    assert_eq!(client.state, LivenessState::Unregistered { failures: 7 });
    let action = client.handle(LivenessEvent::RegisterSucceeded { server: advert(1, 0) });
    assert_eq!(action, LivenessAction::Heartbeat { id: 1, delay: 15 * SECOND });
    client.handle(LivenessEvent::HeartbeatFailed);
    assert_eq!(client.handle(LivenessEvent::RegisterFailed), LivenessAction::Register { delay: SECOND });
}

#[test]
fn the_count_of_failures_does_not_wrap() {
    let mut client = LivenessClient { config: config(), state: LivenessState::Unregistered { failures: u32::MAX } };
    assert_eq!(client.handle(LivenessEvent::RegisterFailed), LivenessAction::Register { delay: 20 * SECOND });
    assert_eq!(client.state, LivenessState::Unregistered { failures: u32::MAX });
}

#[test]
fn answers_that_fit_nothing_asked_for_are_ignored() {
    let (mut client, _) = LivenessClient::start(config());
    let register = LivenessAction::Register { delay: 0 };
    assert_eq!(client.handle(LivenessEvent::HeartbeatFailed), register);
    assert_eq!(client.handle(LivenessEvent::HeartbeatSucceeded { server: advert(1, 0) }), register);
    assert_eq!(client.state, LivenessState::Unregistered { failures: 0 });
    client.handle(LivenessEvent::RegisterSucceeded { server: advert(7, 100) });
    let heartbeat = LivenessAction::Heartbeat { id: 7, delay: 15 * SECOND };
    assert_eq!(client.handle(LivenessEvent::RegisterFailed), heartbeat);
    assert_eq!(client.handle(LivenessEvent::RegisterSucceeded { server: advert(9, 100) }), heartbeat);
    assert_eq!(client.handle(LivenessEvent::HeartbeatSucceeded { server: advert(9, 500) }), heartbeat);
    assert_eq!(client.server(), Some(advert(7, 100)));
}

use doorbell::channel::{
    plan_push, ChannelAction, NotificationChannel, Push, IDLE_INTERVAL_MS, SUPPRESS_INTERVAL_MS,
};
use doorbell::protocol::Notification;

#[test]
fn triggered_push_waits_the_suppress_interval() {
    assert_eq!(
        plan_push(true),
        Push { message: Notification::Triggered, pause_ms: 2500 }
    );
    assert_eq!(SUPPRESS_INTERVAL_MS, 2500);
}

#[test]
fn idle_push_is_keepalive_at_idle_interval() {
    assert_eq!(
        plan_push(false),
        Push { message: Notification::Keepalive, pause_ms: 1000 }
    );
    assert_eq!(IDLE_INTERVAL_MS, 1000);
}

#[test]
fn held_trigger_gives_one_push_per_suppress_interval() {
    let mut c = NotificationChannel::new();
    let mut elapsed = 0u64;
    for _ in 0..4 {
        assert_eq!(c.next_push(true).message, Notification::Triggered);
        match c.record(true, true) {
            ChannelAction::Pause(ms) => elapsed += ms,
            ChannelAction::Close => panic!("closed"),
        }
    }
    assert_eq!(elapsed, 4 * 2500);
}

#[test]
fn failed_send_closes_for_good() {
    let mut c = NotificationChannel::new();
    assert_eq!(c.record(false, true), ChannelAction::Pause(1000));
    assert_eq!(c.record(true, false), ChannelAction::Close);
    assert!(!c.is_open());
    assert_eq!(c.record(true, true), ChannelAction::Close);
    assert!(!c.is_open());
}

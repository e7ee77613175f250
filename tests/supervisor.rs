use doorbell::supervisor::{
    ConnectionSupervisor, RetryState, SupervisorAction, SupervisorEvent, SupervisorPhase,
    RETRY_DELAY_MS,
};

#[test]
fn fails_twice_then_succeeds_resets_counter() {
    let mut s = ConnectionSupervisor::new(3, RETRY_DELAY_MS);
    assert_eq!(s.handle(SupervisorEvent::Begin), SupervisorAction::Connect);
    assert_eq!(s.handle(SupervisorEvent::HandshakeFailed), SupervisorAction::Wait(1000));
    assert_eq!(s.retry().attempts, 1);
    assert_eq!(s.handle(SupervisorEvent::Begin), SupervisorAction::Connect);
    assert_eq!(s.handle(SupervisorEvent::HandshakeFailed), SupervisorAction::Wait(1000));
    assert_eq!(s.retry().attempts, 2);
    assert_eq!(s.handle(SupervisorEvent::Begin), SupervisorAction::Connect);
    assert_eq!(s.handle(SupervisorEvent::HandshakeSucceeded), SupervisorAction::Dispatch);
    assert_eq!(s.retry().attempts, 0);
    assert_eq!(s.phase(), SupervisorPhase::Connected);
}

#[test]
fn gives_up_at_the_bound_and_attempts_nothing_after() {
    let mut s = ConnectionSupervisor::new(3, 250);
    let mut connects = 0;
    let mut ev = SupervisorEvent::Begin;
    for _ in 0..20 {
        match s.handle(ev) {
            SupervisorAction::Connect => {
                connects += 1;
                ev = SupervisorEvent::HandshakeFailed;
            }
            SupervisorAction::Wait(ms) => {
                assert_eq!(ms, 250);
                ev = SupervisorEvent::Begin;
            }
            SupervisorAction::Stop => ev = SupervisorEvent::Begin,
            other => panic!("unexpected {:?}", other),
        }
    }
    assert_eq!(connects, 3);
    assert_eq!(s.phase(), SupervisorPhase::GivenUp);
    assert_eq!(s.retry(), RetryState { attempts: 3, max_attempts: 3, delay_ms: 250 });
}

#[test]
fn zero_attempts_gives_up_at_once() {
    let mut s = ConnectionSupervisor::new(0, 1000);
    assert_eq!(s.handle(SupervisorEvent::Begin), SupervisorAction::Stop);
    assert_eq!(s.phase(), SupervisorPhase::GivenUp);
}

#[test]
fn session_end_reconnects_without_delay_and_keeps_counter() {
    let mut s = ConnectionSupervisor::new(2, 1000);
    s.handle(SupervisorEvent::Begin);
    assert_eq!(s.handle(SupervisorEvent::HandshakeFailed), SupervisorAction::Wait(1000));
    s.handle(SupervisorEvent::Begin);
    s.handle(SupervisorEvent::HandshakeSucceeded);
    assert_eq!(s.handle(SupervisorEvent::SessionEnded), SupervisorAction::Connect);
    assert_eq!(s.phase(), SupervisorPhase::Connecting);
    assert_eq!(s.retry().attempts, 0);
}

#[test]
fn events_out_of_phase_are_ignored() {
    let mut s = ConnectionSupervisor::new(2, 1000);
    assert_eq!(s.handle(SupervisorEvent::HandshakeSucceeded), SupervisorAction::Ignore);
    assert_eq!(s.handle(SupervisorEvent::SessionEnded), SupervisorAction::Ignore);
    assert_eq!(s.phase(), SupervisorPhase::Disconnected);
}

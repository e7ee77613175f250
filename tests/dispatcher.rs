use doorbell::dispatcher::{DispatchAction, DispatchInput, DispatchPhase, EventDispatcher};
use doorbell::protocol::{encode, Frame, Notification};

#[test]
fn triggered_frame_starts_playback() {
    let mut d = EventDispatcher::new();
    assert_eq!(d.on_frame(&encode(Notification::Triggered)), DispatchAction::Play);
    assert_eq!(d.phase(), DispatchPhase::Playing);
}

#[test]
fn no_second_playback_while_one_is_in_flight() {
    let mut d = EventDispatcher::new();
    assert_eq!(d.on_frame(&Frame::Binary(vec![0])), DispatchAction::Play);
    assert_eq!(d.on_frame(&Frame::Binary(vec![0])), DispatchAction::Hold);
    assert_eq!(d.on_frame(&Frame::Binary(vec![0])), DispatchAction::Hold);
    assert_eq!(d.on_playback_finished(), DispatchAction::Continue);
    assert_eq!(d.phase(), DispatchPhase::Receiving);
    assert_eq!(d.on_frame(&Frame::Binary(vec![0])), DispatchAction::Play);
}

#[test]
fn keepalive_continues() {
    let mut d = EventDispatcher::new();
    assert_eq!(d.on_frame(&Frame::Ping(vec![])), DispatchAction::Continue);
    assert_eq!(d.phase(), DispatchPhase::Receiving);
}

#[test]
fn close_ends_session_cleanly() {
    let mut d = EventDispatcher::new();
    assert_eq!(d.on_frame(&Frame::Close), DispatchAction::EndSession);
    assert_eq!(d.phase(), DispatchPhase::Ended);
    assert_eq!(d.on_frame(&Frame::Binary(vec![0])), DispatchAction::Ignore);
}

#[test]
fn error_opcode_is_a_violation() {
    let mut d = EventDispatcher::new();
    assert_eq!(d.on_frame(&Frame::Binary(vec![1])), DispatchAction::Violation);
    assert_eq!(d.phase(), DispatchPhase::Ended);
}

#[test]
fn unknown_payload_is_a_violation_and_never_plays() {
    for f in [
        Frame::Binary(vec![7]),
        Frame::Binary(vec![0, 1]),
        Frame::Text("hello".to_string()),
        Frame::Pong(vec![]),
    ] {
        let mut d = EventDispatcher::new();
        assert_eq!(d.on_frame(&f), DispatchAction::Violation);
    }
}

#[test]
fn stray_playback_finished_is_harmless() {
    let mut d = EventDispatcher::new();
    assert_eq!(d.handle(DispatchInput::PlaybackFinished), DispatchAction::Continue);
    assert_eq!(d.handle(DispatchInput::Message(None)), DispatchAction::Violation);
}

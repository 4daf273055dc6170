use chat_relay::message::Frame;
use chat_relay::registry::Registry;
use chat_relay::session::step;
use chat_relay::session::SessionAction;
use chat_relay::session::SessionEvent;
use chat_relay::session::SessionState;

#[test]
fn handshake_then_text_frame_registers_under_that_name() {
    let (st, act) = step(SessionState::Connecting, SessionEvent::HandshakeComplete);
    assert_eq!(st, SessionState::AwaitingName);
    assert!(matches!(act, SessionAction::Proceed));
    let (st, act) = step(st, SessionEvent::FrameReceived(Frame::Text(b"alice".to_vec())));
    assert_eq!(st, SessionState::Active);
    assert!(matches!(act, SessionAction::Register(name) if name == b"alice".to_vec()));
}

#[test]
fn binary_first_frame_defaults_the_name_to_anonymous() {
    let (st, act) = step(
        SessionState::AwaitingName,
        SessionEvent::FrameReceived(Frame::Binary(vec![1, 2])),
    );
    assert_eq!(st, SessionState::Active);
    assert!(matches!(act, SessionAction::Register(name) if name == b"Anonymous".to_vec()));
}

#[test]
fn disconnect_before_naming_leaves_no_entry() {
    let mut reg = Registry::new();
    for ev in [
        SessionEvent::StreamEnded,
        SessionEvent::ReadError,
        SessionEvent::FrameReceived(Frame::Close),
    ] {
        let mut st = SessionState::Connecting;
        let (next, _) = step(st, SessionEvent::HandshakeComplete);
        st = next;
        assert_eq!(st, SessionState::AwaitingName);
        let (next, act) = step(st, ev);
        assert_eq!(next, SessionState::Closed);
        // The only action is teardown; no Register was ever produced, so the
        // driver below never touches the registry except to remove nothing.
        match act {
            SessionAction::Register(_) => panic!("must not register"),
            SessionAction::Teardown => reg.remove(0),
            _ => panic!("unexpected action"),
        }
    }
    assert_eq!(reg.len(), 0);
}

#[test]
fn active_text_frames_are_classified() {
    let active = SessionState::Active;
    let (st, act) = step(
        active,
        SessionEvent::FrameReceived(Frame::Text(b"/whisper bob hello there".to_vec())),
    );
    assert_eq!(st, SessionState::Active);
    match act {
        SessionAction::Whisper { recipient, body } => {
            assert_eq!(recipient, b"bob".to_vec());
            assert_eq!(body, b"hello there".to_vec());
        }
        _ => panic!("expected a whisper"),
    }

    let (st, act) =
        step(active, SessionEvent::FrameReceived(Frame::Text(b"/whisper bob".to_vec())));
    assert_eq!(st, SessionState::Active);
    assert!(matches!(act, SessionAction::ReportInvalidWhisper));

    let (st, act) = step(active, SessionEvent::FrameReceived(Frame::Text(b"hello".to_vec())));
    assert_eq!(st, SessionState::Active);
    assert!(matches!(act, SessionAction::Broadcast(Frame::Text(p)) if p == b"hello".to_vec()));
}

#[test]
fn whisper_recipient_may_be_empty_body_splits_at_first_space() {
    let (_, act) =
        step(SessionState::Active, SessionEvent::FrameReceived(Frame::Text(b"/whisper  x".to_vec())));
    match act {
        SessionAction::Whisper { recipient, body } => {
            assert_eq!(recipient, Vec::<u8>::new());
            assert_eq!(body, b"x".to_vec());
        }
        _ => panic!("expected a whisper"),
    }
}

#[test]
fn close_token_is_trimmed_and_case_sensitive() {
    let (st, act) =
        step(SessionState::Active, SessionEvent::FrameReceived(Frame::Text(b"  close \n".to_vec())));
    assert_eq!(st, SessionState::Closed);
    assert!(matches!(act, SessionAction::CloseSelf));

    let (st, act) =
        step(SessionState::Active, SessionEvent::FrameReceived(Frame::Text(b"Close".to_vec())));
    assert_eq!(st, SessionState::Active);
    assert!(matches!(act, SessionAction::Broadcast(_)));

    let (st, act) =
        step(SessionState::Active, SessionEvent::FrameReceived(Frame::Text(b"closex".to_vec())));
    assert_eq!(st, SessionState::Active);
    assert!(matches!(act, SessionAction::Broadcast(_)));
}

#[test]
fn active_binary_frames_are_broadcast_unchanged() {
    let (st, act) =
        step(SessionState::Active, SessionEvent::FrameReceived(Frame::Binary(vec![7, 8, 9])));
    assert_eq!(st, SessionState::Active);
    assert!(matches!(act, SessionAction::Broadcast(Frame::Binary(p)) if p == vec![7, 8, 9]));
}

#[test]
fn read_loop_exits_are_terminal() {
    for ev in [
        SessionEvent::StreamEnded,
        SessionEvent::ReadError,
        SessionEvent::FrameReceived(Frame::Close),
    ] {
        let (st, act) = step(SessionState::Active, ev);
        assert_eq!(st, SessionState::Closed);
        assert!(matches!(act, SessionAction::Teardown));
    }
    let (st, act) = step(SessionState::Closed, SessionEvent::FrameReceived(Frame::Text(b"x".to_vec())));
    assert_eq!(st, SessionState::Closed);
    assert!(matches!(act, SessionAction::Ignore));
}

use chat_relay::message::Frame;
use chat_relay::registry::Registry;
use chat_relay::router::broadcast;
use chat_relay::router::whisper;
use chat_relay::router::RouteError;
use chat_relay::session::step;
use chat_relay::session::SessionAction;
use chat_relay::session::SessionEvent;
use chat_relay::session::SessionState;

fn queued_texts(reg: &Registry, id: u64) -> Vec<Vec<u8>> {
    let entry = reg.lookup_by_id(id).expect("entry must exist");
    let h = entry.handle();
    let mut out = Vec::new();
    for i in 0..h.queued_len() {
        match h.queued_at(i) {
            Frame::Text(p) => out.push(p.clone()),
            Frame::Binary(p) => out.push(p.clone()),
            Frame::Close => out.push(b"<close>".to_vec()),
        }
    }
    out
}

#[test]
fn broadcast_delivers_one_copy_to_everyone_but_the_sender() {
    let mut reg = Registry::new();
    let s = reg.register(b"sender".to_vec());
    let a = reg.register(b"a".to_vec());
    let b = reg.register(b"b".to_vec());
    let c = reg.register(b"c".to_vec());
    let failed = broadcast(&mut reg, s, &Frame::Text(b"hello".to_vec()));
    assert!(failed.is_empty());
    for id in [a, b, c] {
        assert_eq!(queued_texts(&reg, id), vec![b"hello".to_vec()]);
    }
    assert_eq!(queued_texts(&reg, s), Vec::<Vec<u8>>::new());
}

#[test]
fn broadcast_isolates_a_failed_target() {
    let mut reg = Registry::new();
    let s = reg.register(b"sender".to_vec());
    let a = reg.register(b"a".to_vec());
    let b = reg.register(b"b".to_vec());
    let c = reg.register(b"c".to_vec());
    reg.mark_unreachable(b);
    let failed = broadcast(&mut reg, s, &Frame::Text(b"news".to_vec()));
    assert_eq!(failed, vec![b]);
    assert_eq!(queued_texts(&reg, a), vec![b"news".to_vec()]);
    assert_eq!(queued_texts(&reg, c), vec![b"news".to_vec()]);
    assert_eq!(queued_texts(&reg, b), Vec::<Vec<u8>>::new());
    assert_eq!(queued_texts(&reg, s), Vec::<Vec<u8>>::new());
}

#[test]
fn broadcast_forwards_binary_frames_unchanged() {
    let mut reg = Registry::new();
    let s = reg.register(b"sender".to_vec());
    let a = reg.register(b"a".to_vec());
    let failed = broadcast(&mut reg, s, &Frame::Binary(vec![0, 159, 146, 150]));
    assert!(failed.is_empty());
    let entry = reg.lookup_by_id(a).unwrap();
    assert_eq!(entry.handle().queued_len(), 1);
    assert!(matches!(entry.handle().queued_at(0), Frame::Binary(p) if *p == vec![0, 159, 146, 150]));
}

#[test]
fn whisper_delivers_one_private_tagged_message_to_the_recipient_only() {
    let mut reg = Registry::new();
    let s = reg.register(b"s".to_vec());
    let bob = reg.register(b"bob".to_vec());
    let other = reg.register(b"other".to_vec());
    let r = whisper(&mut reg, &b"s".to_vec(), &b"bob".to_vec(), &b"psst".to_vec());
    assert!(r.is_ok());
    assert_eq!(queued_texts(&reg, bob), vec![b"(Private) s -> bob: psst".to_vec()]);
    assert_eq!(queued_texts(&reg, s), Vec::<Vec<u8>>::new());
    assert_eq!(queued_texts(&reg, other), Vec::<Vec<u8>>::new());
}

#[test]
fn whisper_to_unknown_name_reports_not_found_and_changes_nothing() {
    let mut reg = Registry::new();
    let s = reg.register(b"s".to_vec());
    let a = reg.register(b"a".to_vec());
    let r = whisper(&mut reg, &b"s".to_vec(), &b"ghost".to_vec(), &b"hi".to_vec());
    assert_eq!(r, Err(RouteError::RecipientNotFound));
    assert_eq!(reg.len(), 2);
    assert_eq!(queued_texts(&reg, s), Vec::<Vec<u8>>::new());
    assert_eq!(queued_texts(&reg, a), Vec::<Vec<u8>>::new());
    let failed = broadcast(&mut reg, s, &Frame::Text(b"still works".to_vec()));
    assert!(failed.is_empty());
    assert_eq!(queued_texts(&reg, a), vec![b"still works".to_vec()]);
}

#[test]
fn whisper_to_unreachable_recipient_reports_send_failure() {
    let mut reg = Registry::new();
    let _s = reg.register(b"s".to_vec());
    let bob = reg.register(b"bob".to_vec());
    reg.mark_unreachable(bob);
    let r = whisper(&mut reg, &b"s".to_vec(), &b"bob".to_vec(), &b"hi".to_vec());
    assert_eq!(r, Err(RouteError::SendFailure));
    assert_eq!(queued_texts(&reg, bob), Vec::<Vec<u8>>::new());
}

#[test]
fn whisper_with_duplicate_names_reaches_the_first_registered() {
    let mut reg = Registry::new();
    let _s = reg.register(b"s".to_vec());
    let first = reg.register(b"dup".to_vec());
    let second = reg.register(b"dup".to_vec());
    let r = whisper(&mut reg, &b"s".to_vec(), &b"dup".to_vec(), &b"hi".to_vec());
    assert!(r.is_ok());
    assert_eq!(queued_texts(&reg, first), vec![b"(Private) s -> dup: hi".to_vec()]);
    assert_eq!(queued_texts(&reg, second), Vec::<Vec<u8>>::new());
}

#[test]
fn three_clients_whisper_then_disconnect() {
    let mut reg = Registry::new();
    let alice = reg.register(b"alice".to_vec());
    let bob = reg.register(b"bob".to_vec());
    let carol = reg.register(b"carol".to_vec());

    let (st, act) = step(
        SessionState::Active,
        SessionEvent::FrameReceived(Frame::Text(b"/whisper carol hello".to_vec())),
    );
    assert_eq!(st, SessionState::Active);
    let (recipient, body) = match act {
        SessionAction::Whisper { recipient, body } => (recipient, body),
        _ => panic!("expected a whisper"),
    };
    let r = whisper(&mut reg, &b"alice".to_vec(), &recipient, &body);
    assert!(r.is_ok());
    assert_eq!(queued_texts(&reg, carol), vec![b"(Private) alice -> carol: hello".to_vec()]);
    assert_eq!(queued_texts(&reg, bob), Vec::<Vec<u8>>::new());
    assert_eq!(queued_texts(&reg, alice), Vec::<Vec<u8>>::new());

    reg.remove(bob);
    let failed = broadcast(&mut reg, alice, &Frame::Text(b"anyone there?".to_vec()));
    assert!(failed.is_empty());
    assert_eq!(reg.len(), 2);
    assert_eq!(
        queued_texts(&reg, carol),
        vec![b"(Private) alice -> carol: hello".to_vec(), b"anyone there?".to_vec()]
    );
    assert_eq!(queued_texts(&reg, alice), Vec::<Vec<u8>>::new());
    assert!(reg.lookup_by_id(bob).is_none());
}

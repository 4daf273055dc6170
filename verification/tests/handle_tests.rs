use chat_relay::handle::ConnectionHandle;
use chat_relay::handle::HandleStatus;
use chat_relay::handle::SendError;
use chat_relay::message::Frame;

fn text_payloads(h: &ConnectionHandle) -> Vec<Vec<u8>> {
    let mut out = Vec::new();
    for i in 0..h.queued_len() {
        match h.queued_at(i) {
            Frame::Text(p) => out.push(p.clone()),
            Frame::Binary(p) => out.push(p.clone()),
            Frame::Close => out.push(b"<close>".to_vec()),
        }
    }
    out
}

#[test]
fn new_handle_is_open_and_empty() {
    let h = ConnectionHandle::new();
    assert_eq!(h.status(), HandleStatus::Open);
    assert_eq!(h.queued_len(), 0);
}

#[test]
fn send_queues_frames_in_order() {
    let mut h = ConnectionHandle::new();
    assert!(h.send(Frame::Text(b"one".to_vec())).is_ok());
    assert!(h.send(Frame::Text(b"two".to_vec())).is_ok());
    assert_eq!(text_payloads(&h), vec![b"one".to_vec(), b"two".to_vec()]);
}

#[test]
fn close_queues_close_frame_and_is_terminal() {
    let mut h = ConnectionHandle::new();
    assert!(h.close().is_ok());
    assert_eq!(h.status(), HandleStatus::Closed);
    assert_eq!(h.queued_len(), 1);
    assert!(matches!(h.queued_at(0), Frame::Close));
    assert_eq!(h.send(Frame::Text(b"late".to_vec())), Err(SendError::Closed));
    assert_eq!(h.queued_len(), 1);
    assert_eq!(h.close(), Err(SendError::Closed));
}

#[test]
fn broken_handle_refuses_sends_but_keeps_queue() {
    let mut h = ConnectionHandle::new();
    assert!(h.send(Frame::Text(b"kept".to_vec())).is_ok());
    h.mark_broken();
    assert_eq!(h.status(), HandleStatus::Broken);
    assert_eq!(h.send(Frame::Text(b"lost".to_vec())), Err(SendError::Unreachable));
    assert_eq!(h.close(), Err(SendError::Unreachable));
    assert_eq!(text_payloads(&h), vec![b"kept".to_vec()]);
}

#[test]
fn take_outbox_drains_without_changing_status() {
    let mut h = ConnectionHandle::new();
    h.send(Frame::Text(b"a".to_vec())).unwrap();
    h.send(Frame::Binary(vec![1, 2, 3])).unwrap();
    let drained = h.take_outbox();
    assert_eq!(drained.len(), 2);
    assert!(matches!(&drained[0], Frame::Text(p) if p == b"a"));
    assert!(matches!(&drained[1], Frame::Binary(p) if *p == vec![1, 2, 3]));
    assert_eq!(h.queued_len(), 0);
    assert_eq!(h.status(), HandleStatus::Open);
    assert!(h.send(Frame::Text(b"after".to_vec())).is_ok());
}

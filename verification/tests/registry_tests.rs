use chat_relay::handle::HandleStatus;
use chat_relay::registry::Registry;
use chat_relay::session::SessionState;

#[test]
fn fresh_entries_are_active_with_open_empty_handles() {
    let mut reg = Registry::new();
    let a = reg.register(b"alice".to_vec());
    let entry = reg.lookup_by_id(a).expect("just registered");
    assert_eq!(entry.state(), SessionState::Active);
    assert_eq!(entry.handle().status(), HandleStatus::Open);
    assert_eq!(entry.handle().queued_len(), 0);
    assert_eq!(entry.name(), &b"alice".to_vec());
}

#[test]
fn register_issues_fresh_distinct_ids() {
    let mut reg = Registry::new();
    let a = reg.register(b"alice".to_vec());
    let b = reg.register(b"bob".to_vec());
    let c = reg.register(b"carol".to_vec());
    assert_ne!(a, b);
    assert_ne!(b, c);
    assert_ne!(a, c);
    assert_eq!(reg.len(), 3);
}

#[test]
fn lookup_by_id_sees_live_entries_only() {
    let mut reg = Registry::new();
    let a = reg.register(b"alice".to_vec());
    let b = reg.register(b"bob".to_vec());
    reg.remove(a);
    assert!(reg.lookup_by_id(a).is_none());
    let entry = reg.lookup_by_id(b).expect("bob must survive alice's removal");
    assert_eq!(entry.id(), b);
    assert_eq!(entry.name(), &b"bob".to_vec());
}

#[test]
fn remove_is_idempotent() {
    let mut reg = Registry::new();
    let a = reg.register(b"alice".to_vec());
    reg.remove(a);
    reg.remove(a);
    reg.remove(12345);
    assert_eq!(reg.len(), 0);
}

#[test]
fn id_of_removed_entry_is_never_reissued() {
    let mut reg = Registry::new();
    let a = reg.register(b"alice".to_vec());
    reg.remove(a);
    let b = reg.register(b"bob".to_vec());
    assert_ne!(a, b);
    assert!(reg.lookup_by_id(a).is_none());
}

#[test]
fn lookup_by_name_resolves_first_match_in_registration_order() {
    let mut reg = Registry::new();
    let first = reg.register(b"dup".to_vec());
    let _second = reg.register(b"dup".to_vec());
    let entry = reg.lookup_by_name(&b"dup".to_vec()).expect("name is registered");
    assert_eq!(entry.id(), first);
    assert!(reg.lookup_by_name(&b"nobody".to_vec()).is_none());
}

#[test]
fn all_except_snapshots_everyone_but_the_excluded_id() {
    let mut reg = Registry::new();
    let a = reg.register(b"alice".to_vec());
    let b = reg.register(b"bob".to_vec());
    let c = reg.register(b"carol".to_vec());
    let others = reg.all_except(b);
    let ids: Vec<u64> = others.iter().map(|e| e.id()).collect();
    assert_eq!(ids, vec![a, c]);
    let everyone = reg.all_except(999_999);
    assert_eq!(everyone.len(), 3);
}

#[test]
fn drain_at_returns_queued_frames_and_empties_outbox() {
    let mut reg = Registry::new();
    let a = reg.register(b"alice".to_vec());
    let _b = reg.register(b"bob".to_vec());
    chat_relay::router::broadcast(&mut reg, a, &chat_relay::message::Frame::Text(b"hi".to_vec()));
    let (id, frames) = reg.drain_at(1);
    assert_ne!(id, a);
    assert_eq!(frames.len(), 1);
    let (_, again) = reg.drain_at(1);
    assert!(again.is_empty());
}

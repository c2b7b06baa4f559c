use substrate::cache::{
    AssignmentId, CacheInner, DbEntryStatus, DropOutcome, EntryKey, GetReplyStatus, GetStep,
    HandleId, LocalEntryStatus, RemoteEntryStatus,
};

fn key(ns: &str, k: &[u8]) -> EntryKey {
    EntryKey { namespace: ns.to_string(), key: k.to_vec() }
}

#[test]
fn ids_increment() {
    let mut a = AssignmentId(4);
    a.increment();
    assert_eq!(a, AssignmentId(5));
    let mut h = HandleId::default();
    h.increment();
    assert_eq!(h, HandleId(1));
}

#[test]
fn db_status_codes_roundtrip() {
    for s in [DbEntryStatus::Loading, DbEntryStatus::Ready, DbEntryStatus::Evicting] {
        assert_eq!(DbEntryStatus::from_int(s.to_int()), Some(s));
    }
    assert_eq!(DbEntryStatus::Ready.to_int(), 1);
    assert_eq!(DbEntryStatus::from_int(3), None);
}

#[test]
fn absent_entry_is_assigned_after_persisting() {
    let mut c = CacheInner::new();
    let k = key("ns", b"k");
    match c.get_begin(&k, false, false, 0, 4) {
        GetStep::Reply(GetReplyStatus::Unassigned) => {}
        _ => panic!("expected unassigned"),
    }
    let id = match c.get_begin(&k, true, false, 0, 4) {
        GetStep::PersistAssign(id) => id,
        _ => panic!("expected an assignment to persist"),
    };
    assert_eq!(id, AssignmentId(1));
    match c.commit_assign(k.clone(), id, 10) {
        GetReplyStatus::Assign(a) => assert_eq!(a, id),
        _ => panic!("expected assign"),
    }
    // While the generator keeps sending heartbeats, others see it loading.
    match c.get_begin(&k, true, false, 12, 4) {
        GetStep::Reply(GetReplyStatus::Loading) => {}
        _ => panic!("expected loading"),
    }
    assert!(c.heartbeat(id, 20));
    assert!(!c.heartbeat(AssignmentId(9), 20));
    match c.get_begin(&k, true, false, 23, 4) {
        GetStep::Reply(GetReplyStatus::Loading) => {}
        _ => panic!("expected loading"),
    }
    // After the timeout, a requester that asks is reassigned.
    match c.get_begin(&k, true, false, 25, 4) {
        GetStep::Reply(GetReplyStatus::Assign(a)) => assert_eq!(a, AssignmentId(2)),
        _ => panic!("expected a reassignment"),
    }
    // The old assignment is forgotten.
    assert!(c.set_begin(id).is_none());
    let k2 = c.set_begin(AssignmentId(2)).unwrap();
    assert_eq!(k2, k);
    assert!(c.set_commit(&k2));
    // Ready entries give handles to local requesters and values to remote ones.
    match c.get_begin(&k, false, true, 30, 4) {
        GetStep::Reply(GetReplyStatus::ReadyLocal(h)) => assert_eq!(h, HandleId(1)),
        _ => panic!("expected a handle"),
    }
    match c.get_begin(&k, false, false, 30, 4) {
        GetStep::ReadValue => {}
        _ => panic!("expected a read"),
    }
    assert_eq!(c.drop_handle(HandleId(1)), DropOutcome::Released);
    assert_eq!(c.drop_handle(HandleId(1)), DropOutcome::InvalidHandle);
}

#[test]
fn stale_entry_without_assign_is_dropped() {
    let mut c = CacheInner::new();
    let k = key("ns", b"x");
    let id = match c.get_begin(&k, true, false, 0, 4) {
        GetStep::PersistAssign(id) => id,
        _ => panic!("expected an assignment to persist"),
    };
    c.commit_assign(k.clone(), id, 0);
    match c.get_begin(&k, false, false, 100, 4) {
        GetStep::PersistUnassign => {}
        _ => panic!("expected an unassignment to persist"),
    }
    match c.commit_unassign(&k) {
        GetReplyStatus::Unassigned => {}
        _ => panic!("expected unassigned"),
    }
    match c.get_begin(&k, false, false, 100, 4) {
        GetStep::Reply(GetReplyStatus::Unassigned) => {}
        _ => panic!("expected unassigned"),
    }
    assert!(!c.set_commit(&key("ns", b"y")));
}

#[test]
fn counters_guard() {
    let c = CacheInner::new();
    assert!(c.get_fits(&key("a", b""), true, true, 0, 1));
}

#[test]
fn reply_conversions() {
    match GetReplyStatus::Assign(AssignmentId(3)).into_remote() {
        RemoteEntryStatus::Assign(3) => {}
        _ => panic!(),
    }
    match GetReplyStatus::Ready(vec![1, 2]).into_remote() {
        RemoteEntryStatus::Ready(v) => assert_eq!(v, vec![1, 2]),
        _ => panic!(),
    }
    match GetReplyStatus::ReadyLocal(HandleId(4)).into_local("p".to_string()) {
        LocalEntryStatus::Ready(x) => {
            assert_eq!(x.id, 4);
            assert_eq!(x.path, "p");
        }
        _ => panic!(),
    }
    match GetReplyStatus::Loading.into_local("p".to_string()) {
        LocalEntryStatus::Loading => {}
        _ => panic!(),
    }
}

#[test]
fn loaded_statuses_drop_loading_rows() {
    let mut c = CacheInner::new();
    let a = key("ns", b"a");
    let b = key("ns", b"b");
    let l = key("ns", b"l");
    c.load_entries(vec![
        (a.clone(), DbEntryStatus::Ready),
        (l.clone(), DbEntryStatus::Loading),
        (b.clone(), DbEntryStatus::Ready),
        (b.clone(), DbEntryStatus::Evicting),
    ]);
    // A ready entry gives a local requester a handle.
    match c.get_begin(&a, false, true, 0, 4) {
        GetStep::Reply(GetReplyStatus::ReadyLocal(h)) => assert_eq!(h, HandleId(1)),
        _ => panic!("expected a handle"),
    }
    // The later row for a key wins.
    match c.get_begin(&b, true, true, 0, 4) {
        GetStep::Reply(GetReplyStatus::Unassigned) => {}
        _ => panic!("expected an evicting entry"),
    }
    // A loading row is forgotten, so the key can be assigned again.
    match c.get_begin(&l, true, false, 0, 4) {
        GetStep::PersistAssign(id) => assert_eq!(id, AssignmentId(1)),
        _ => panic!("expected an assignment to persist"),
    }
}

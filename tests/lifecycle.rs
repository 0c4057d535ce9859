use client_lifecycle::lifecycle::{
    begin_request, finish_request, rejection_status, Outcome, REJECTED_STATUS,
};
use client_lifecycle::registry::{RegisterError, SessionRegistry};
use client_lifecycle::session::{IpAddress, PeerAddress, Protocol};
use client_lifecycle::shard::Shard;

fn addr(last: u32, port: u16) -> PeerAddress {
    PeerAddress::new(IpAddress::V4(0x7f00_0000 | last), port)
}

#[test]
fn two_requests_success_and_failure_leave_no_sessions() {
    let mut shard = Shard::new(0, 16);
    let a = begin_request(&mut shard, addr(1, 4000), Protocol::Http, 10).unwrap();
    let b = begin_request(&mut shard, addr(2, 4001), Protocol::Http, 11).unwrap();
    assert_eq!(a.client_id(), 1);
    assert_eq!(b.client_id(), 2);
    assert_eq!(shard.client_count(), 2);
    assert!(shard.has_client(1));
    assert!(shard.has_client(2));

    let done_a = finish_request(&mut shard, a, Outcome::Responded("ok"));
    let done_b = finish_request(&mut shard, b, Outcome::<&str>::Failed(500));
    assert_eq!(done_a.outcome, Outcome::Responded("ok"));
    assert_eq!(done_b.outcome, Outcome::Failed(500));
    assert!(!done_a.anomaly);
    assert!(!done_b.anomaly);
    assert!(!shard.has_client(1));
    assert!(!shard.has_client(2));
    assert_eq!(shard.client_count(), 0);
}

#[test]
fn n_registrations_give_n_distinct_ids() {
    let mut shard = Shard::new(3, 100);
    let mut ids = Vec::new();
    for i in 0..10u32 {
        let s = shard.add_client(addr(i, 5000 + i as u16), Protocol::Tcp, i as u64).unwrap();
        ids.push(s.client_id);
    }
    assert_eq!(shard.client_count(), 10);
    for i in 0..ids.len() {
        for j in 0..ids.len() {
            if i != j {
                assert_ne!(ids[i], ids[j]);
            }
        }
    }
    assert_eq!(ids, (1..=10).collect::<Vec<u32>>());
}

#[test]
fn balanced_lifecycle_for_every_outcome() {
    let mut shard = Shard::new(1, 8);
    shard.add_client(addr(9, 9000), Protocol::Quic, 0).unwrap();
    let before = shard.client_count();
    let outcomes: Vec<Outcome<u32>> = vec![Outcome::Responded(7), Outcome::Failed(404), Outcome::Cancelled];
    for outcome in outcomes {
        let adm = begin_request(&mut shard, addr(5, 6000), Protocol::Http, 1).unwrap();
        assert_eq!(shard.client_count(), before + 1);
        let done = finish_request(&mut shard, adm, outcome);
        assert!(!done.anomaly);
        assert_eq!(shard.client_count(), before);
    }
    assert!(shard.has_client(1));
}

#[test]
fn registration_precedes_and_deregistration_follows() {
    let mut shard = Shard::new(0, 4);
    let adm = begin_request(&mut shard, addr(1, 1), Protocol::WebSocket, 42).unwrap();
    let id = adm.client_id();
    assert!(shard.has_client(id));
    let s = shard.registry().get(id).unwrap();
    assert_eq!(s.address, addr(1, 1));
    assert_eq!(s.protocol, Protocol::WebSocket);
    assert_eq!(s.created_at, 42);
    finish_request(&mut shard, adm, Outcome::<()>::Cancelled);
    assert!(!shard.has_client(id));
    assert_eq!(shard.registry().get(id), None);
}

#[test]
fn removing_absent_id_changes_nothing() {
    let mut shard = Shard::new(0, 4);
    shard.add_client(addr(1, 1), Protocol::Tcp, 0).unwrap();
    shard.add_client(addr(2, 2), Protocol::Tcp, 0).unwrap();
    assert!(!shard.delete_client(77));
    assert_eq!(shard.client_count(), 2);
    assert!(shard.delete_client(1));
    assert!(!shard.delete_client(1));
    assert_eq!(shard.client_count(), 1);
    assert!(shard.has_client(2));
}

#[test]
fn finishing_after_external_removal_reports_anomaly() {
    let mut shard = Shard::new(0, 4);
    let adm = begin_request(&mut shard, addr(1, 1), Protocol::Http, 0).unwrap();
    assert!(shard.delete_client(adm.client_id()));
    let done = finish_request(&mut shard, adm, Outcome::Responded(1u8));
    assert!(done.anomaly);
    assert_eq!(done.outcome, Outcome::Responded(1u8));
    assert_eq!(shard.client_count(), 0);
}

#[test]
fn full_registry_rejects_registration() {
    let mut shard = Shard::new(0, 1);
    begin_request(&mut shard, addr(1, 1), Protocol::Http, 0).unwrap();
    let r = begin_request(&mut shard, addr(2, 2), Protocol::Http, 0);
    assert!(matches!(r, Err(RegisterError::CapacityReached)));
    assert_eq!(shard.client_count(), 1);
    assert_eq!(rejection_status(RegisterError::CapacityReached), 503);
    assert_eq!(REJECTED_STATUS, 503);
}

#[test]
fn zero_capacity_registry_admits_nothing() {
    let mut reg = SessionRegistry::new(0);
    assert!(reg.is_empty());
    assert_eq!(reg.capacity(), 0);
    assert_eq!(reg.register(addr(1, 1), Protocol::Tcp, 0), Err(RegisterError::CapacityReached));
    assert_eq!(reg.len(), 0);
}

#[test]
fn ids_are_not_reused_after_removal() {
    let mut reg = SessionRegistry::new(4);
    let first = reg.register(addr(1, 1), Protocol::Tcp, 0).unwrap();
    assert!(reg.remove(first.client_id));
    let second = reg.register(addr(1, 1), Protocol::Tcp, 0).unwrap();
    assert_eq!(first.client_id, 1);
    assert_eq!(second.client_id, 2);
    assert!(reg.contains(2));
    assert!(!reg.contains(1));
}

#[test]
fn shard_keeps_its_id() {
    let mut shard = Shard::new(12, 2);
    shard.add_client(addr(1, 1), Protocol::Tcp, 0).unwrap();
    shard.delete_client(1);
    assert_eq!(shard.id(), 12);
    assert_eq!(shard.registry().len(), 0);
}

#[test]
fn ipv6_peer_is_stored() {
    let mut reg = SessionRegistry::new(2);
    let a = PeerAddress::new(IpAddress::V6(1), 443);
    let s = reg.register(a, Protocol::Quic, 5).unwrap();
    assert_eq!(reg.get(s.client_id).unwrap().address, a);
}

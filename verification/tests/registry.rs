use lan_chat::model::Peer;
use lan_chat::registry::PeerRegistry;

fn peer(id: &str, name: &str, ip: &str, port: u16, last_seen: i64) -> Peer {
    Peer {
        id: id.to_string(),
        name: name.to_string(),
        ip: ip.to_string(),
        port,
        last_seen,
    }
}

fn ids_of(peers: &[Peer]) -> Vec<String> {
    let mut v: Vec<String> = peers.iter().map(|p| p.id.clone()).collect();
    v.sort();
    v
}

#[test]
fn upsert_two_distinct_ids_both_visible() {
    let mut r = PeerRegistry::new();
    r.upsert(peer("a", "alice", "10.0.0.1", 4000, 100));
    r.upsert(peer("b", "bob", "10.0.0.2", 4001, 100));
    let snap = r.snapshot(30, 110);
    assert_eq!(ids_of(&snap), vec!["a".to_string(), "b".to_string()]);

    // The other call order gives the same pair.
    let mut r2 = PeerRegistry::new();
    r2.upsert(peer("b", "bob", "10.0.0.2", 4001, 100));
    r2.upsert(peer("a", "alice", "10.0.0.1", 4000, 100));
    let snap2 = r2.snapshot(30, 110);
    assert_eq!(ids_of(&snap2), vec!["a".to_string(), "b".to_string()]);
}

#[test]
fn upsert_same_id_last_write_wins() {
    let mut r = PeerRegistry::new();
    r.upsert(peer("a", "alice", "10.0.0.1", 4000, 100));
    r.upsert(peer("a", "al", "10.0.0.9", 5000, 105));
    let snap = r.snapshot(30, 110);
    assert_eq!(snap.len(), 1);
    assert_eq!(snap[0].id, "a");
    assert_eq!(snap[0].name, "al");
    assert_eq!(snap[0].ip, "10.0.0.9");
    assert_eq!(snap[0].port, 5000);
    assert_eq!(snap[0].last_seen, 105);
}

#[test]
fn snapshot_freshness_boundaries() {
    let mut r = PeerRegistry::new();
    let now: i64 = 1000;
    r.upsert(peer("old", "o", "10.0.0.1", 1, now - 31));
    r.upsert(peer("edge", "e", "10.0.0.2", 2, now - 30));
    r.upsert(peer("fresh", "f", "10.0.0.3", 3, now - 29));
    let snap = r.snapshot(30, now);
    let ids = ids_of(&snap);
    // The window is strict: an entry exactly 30 s old is already stale.
    assert_eq!(ids, vec!["fresh".to_string()]);
}

#[test]
fn snapshot_does_not_delete_stale_entries() {
    let mut r = PeerRegistry::new();
    r.upsert(peer("a", "alice", "10.0.0.1", 4000, 100));
    let empty = r.snapshot(30, 1000);
    assert!(empty.is_empty());
    // A later announcement brings the same id back.
    r.upsert(peer("a", "alice", "10.0.0.1", 4000, 995));
    let back = r.snapshot(30, 1000);
    assert_eq!(back.len(), 1);
    assert_eq!(back[0].last_seen, 995);
}

#[test]
fn get_returns_stored_record() {
    let mut r = PeerRegistry::new();
    r.upsert(peer("a", "alice", "10.0.0.1", 4000, 100));
    let got = r.get(&"a".to_string()).expect("stored peer");
    assert_eq!(got.name, "alice");
    assert!(r.get(&"missing".to_string()).is_none());
}

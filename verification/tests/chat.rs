use lan_chat::chat::{AppState, SendError};
use lan_chat::codec::{encode_announcement, encode_envelope};
use lan_chat::model::{Announcement, Envelope, EnvelopeKind, Message};

fn node_a() -> AppState {
    AppState::new("A".to_string(), "alice".to_string(), 45678)
}

fn announce(state: &mut AppState, id: &str, name: &str, ip: &str, port: u16, now: i64) {
    let a = Announcement { id: id.to_string(), name: name.to_string(), port };
    let bytes = encode_announcement(&a);
    state.handle_announcement(&bytes, ip.to_string(), now);
}

fn inbound_text(from_id: &str, from_name: &str, to_id: &str, content: &str) -> Vec<u8> {
    let m = Message {
        id: "m-in".to_string(),
        from_id: from_id.to_string(),
        from_name: from_name.to_string(),
        to_id: to_id.to_string(),
        content: content.to_string(),
        timestamp: 1,
        is_file: false,
        file_name: None,
        file_data: None,
    };
    encode_envelope(&Envelope { kind: EnvelopeKind::Text, payload: m })
}

#[test]
fn send_message_to_known_peer_is_logged() {
    let mut s = node_a();
    announce(&mut s, "B", "bob", "127.0.0.1", 9001, 100);
    let (peer, msg) = s
        .prepare_text_message(&"B".to_string(), "hi".to_string())
        .expect("B is known");
    assert_eq!(peer.ip, "127.0.0.1");
    assert_eq!(peer.port, 9001);
    assert_eq!(msg.from_id, "A");
    assert_eq!(msg.to_id, "B");
    assert_eq!(msg.content, "hi");
    assert!(!msg.is_file);
    assert!(msg.file_name.is_none());
    assert!(msg.file_data.is_none());
    s.record_sent(msg.clone());
    let conv = s.get_messages(&"B".to_string());
    assert_eq!(conv.len(), 1);
    assert_eq!(conv[0].id, msg.id);
    assert_eq!(conv[0].content, "hi");
}

#[test]
fn send_message_to_unknown_peer_fails_without_logging() {
    let mut s = node_a();
    announce(&mut s, "B", "bob", "127.0.0.1", 9001, 100);
    let r = s.prepare_text_message(&"C".to_string(), "hi".to_string());
    assert_eq!(r.unwrap_err(), SendError::UnknownPeer);
    assert!(s.get_messages(&"C".to_string()).is_empty());
    assert!(s.messages.is_empty());
}

#[test]
fn reannouncement_with_new_port_replaces_record() {
    let mut s = node_a();
    announce(&mut s, "B", "bob", "127.0.0.1", 9001, 100);
    announce(&mut s, "B", "bob", "127.0.0.1", 9002, 101);
    let peers = s.get_peers_at(110);
    assert_eq!(peers.len(), 1);
    assert_eq!(peers[0].port, 9002);
    assert_eq!(peers[0].last_seen, 101);
}

#[test]
fn own_announcement_is_ignored() {
    let mut s = node_a();
    announce(&mut s, "A", "alice", "127.0.0.1", 9001, 100);
    assert!(s.get_peers_at(100).is_empty());
}

#[test]
fn malformed_announcement_is_discarded() {
    let mut s = node_a();
    s.handle_announcement(&vec![1, 2, 3], "127.0.0.1".to_string(), 100);
    assert!(s.get_peers_at(100).is_empty());
}

#[test]
fn peers_outside_the_window_are_hidden() {
    let mut s = node_a();
    announce(&mut s, "B", "bob", "127.0.0.1", 9001, 69);
    announce(&mut s, "C", "carol", "127.0.0.2", 9002, 71);
    let peers = s.get_peers_at(100);
    assert_eq!(peers.len(), 1);
    assert_eq!(peers[0].id, "C");
}

#[test]
fn inbound_message_is_logged_and_notified() {
    let mut s = node_a();
    let bytes = inbound_text("B", "bob", "A", "hello alice");
    let (msg, notif) = s.handle_inbound(&bytes).expect("a valid envelope for us");
    assert_eq!(msg.from_id, "B");
    assert_eq!(msg.content, "hello alice");
    assert_eq!(notif.title, "Message from bob");
    assert_eq!(notif.body, "hello alice");
    let conv = s.get_messages(&"B".to_string());
    assert_eq!(conv.len(), 1);
    assert_eq!(conv[0].id, "m-in");
}

#[test]
fn inbound_decode_failure_changes_nothing() {
    let mut s = node_a();
    let garbage: Vec<u8> = vec![0xde, 0xad, 0xbe, 0xef, 0x42, 0x42, 0x42];
    assert!(s.handle_inbound(&garbage).is_none());
    assert!(s.messages.is_empty());
}

#[test]
fn inbound_for_other_parties_is_not_stored() {
    let mut s = node_a();
    let bytes = inbound_text("B", "bob", "Z", "not ours");
    assert!(s.handle_inbound(&bytes).is_none());
    assert!(s.messages.is_empty());
}

#[test]
fn long_content_notification_is_truncated() {
    let mut s = node_a();
    let long = "x".repeat(80);
    let bytes = inbound_text("B", "bob", "A", &long);
    let (_, notif) = s.handle_inbound(&bytes).expect("a valid envelope for us");
    assert_eq!(notif.body, "x".repeat(50));
}

#[test]
fn file_notification_names_the_file() {
    let mut s = node_a();
    let m = Message {
        id: "m-f".to_string(),
        from_id: "B".to_string(),
        from_name: "bob".to_string(),
        to_id: "A".to_string(),
        content: "Sent file: notes.txt".to_string(),
        timestamp: 2,
        is_file: true,
        file_name: Some("notes.txt".to_string()),
        file_data: Some("aGVsbG8=".to_string()),
    };
    let bytes = encode_envelope(&Envelope { kind: EnvelopeKind::File, payload: m });
    let (msg, notif) = s.handle_inbound(&bytes).expect("a valid envelope for us");
    assert!(msg.is_file);
    assert_eq!(notif.title, "Message from bob");
    assert_eq!(notif.body, "Sent a file: notes.txt");
}

#[test]
fn get_messages_filters_out_other_conversations() {
    let mut s = node_a();
    let to_b = Message {
        id: "1".to_string(),
        from_id: "A".to_string(),
        from_name: "alice".to_string(),
        to_id: "B".to_string(),
        content: "for b".to_string(),
        timestamp: 1,
        is_file: false,
        file_name: None,
        file_data: None,
    };
    let from_c = Message {
        id: "2".to_string(),
        from_id: "C".to_string(),
        from_name: "carol".to_string(),
        to_id: "A".to_string(),
        content: "from c".to_string(),
        timestamp: 2,
        is_file: false,
        file_name: None,
        file_data: None,
    };
    s.record_sent(to_b);
    s.record_sent(from_c);
    let conv_b = s.get_messages(&"B".to_string());
    assert_eq!(conv_b.len(), 1);
    assert_eq!(conv_b[0].id, "1");
    let conv_c = s.get_messages(&"C".to_string());
    assert_eq!(conv_c.len(), 1);
    assert_eq!(conv_c[0].id, "2");
    for m in s.get_messages(&"B".to_string()) {
        assert!(m.from_id == "A" || m.to_id == "A");
        assert!(m.from_id == "B" || m.to_id == "B");
    }
}

#[test]
fn send_file_encodes_payload_and_caption() {
    let mut s = node_a();
    announce(&mut s, "B", "bob", "127.0.0.1", 9001, 100);
    let data: Vec<u8> = b"hello".to_vec();
    let (_, msg) = s
        .prepare_file_message(&"B".to_string(), "notes.txt".to_string(), &data)
        .expect("B is known");
    assert!(msg.is_file);
    assert_eq!(msg.content, "Sent file: notes.txt");
    assert_eq!(msg.file_name.as_deref(), Some("notes.txt"));
    // The standard base64 form of the bytes, with padding.
    assert_eq!(msg.file_data.as_deref(), Some("aGVsbG8="));
}

#[test]
fn send_file_to_unknown_peer_fails() {
    let s = node_a();
    let r = s.prepare_file_message(&"B".to_string(), "notes.txt".to_string(), &vec![1, 2]);
    assert_eq!(r.unwrap_err(), SendError::UnknownPeer);
}

#[test]
fn set_my_name_changes_future_announcements() {
    let mut s = node_a();
    let (id, name) = s.get_my_info();
    assert_eq!(id, "A");
    assert_eq!(name, "alice");
    s.set_my_name("alicia".to_string());
    let (_, name2) = s.get_my_info();
    assert_eq!(name2, "alicia");
    let ann = s.make_announcement();
    assert_eq!(ann.id, "A");
    assert_eq!(ann.name, "alicia");
    assert_eq!(ann.port, 45678);
}

#[test]
fn fresh_message_ids_are_distinct() {
    let mut s = node_a();
    announce(&mut s, "B", "bob", "127.0.0.1", 9001, 100);
    let (_, m1) = s.prepare_text_message(&"B".to_string(), "one".to_string()).unwrap();
    let (_, m2) = s.prepare_text_message(&"B".to_string(), "two".to_string()).unwrap();
    assert_eq!(m1.id.len(), 36);
    assert_ne!(m1.id, m2.id);
}

#[test]
fn inbound_with_broken_file_fields_is_not_stored() {
    let mut s = node_a();
    let m = Message {
        id: "m-bad".to_string(),
        from_id: "B".to_string(),
        from_name: "bob".to_string(),
        to_id: "A".to_string(),
        content: "claims to be a file".to_string(),
        timestamp: 3,
        is_file: true,
        file_name: None,
        file_data: None,
    };
    let bytes = encode_envelope(&Envelope { kind: EnvelopeKind::File, payload: m });
    assert!(s.handle_inbound(&bytes).is_none());
    assert!(s.messages.is_empty());
}

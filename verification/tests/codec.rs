use lan_chat::codec::{decode_announcement, decode_envelope, encode_announcement, encode_envelope};
use lan_chat::model::{Announcement, Envelope, EnvelopeKind, Message};

fn text_message() -> Message {
    Message {
        id: "m-1".to_string(),
        from_id: "a".to_string(),
        from_name: "alice".to_string(),
        to_id: "b".to_string(),
        content: "hello over the wire".to_string(),
        timestamp: 1700000000123,
        is_file: false,
        file_name: None,
        file_data: None,
    }
}

fn file_message() -> Message {
    Message {
        id: "m-2".to_string(),
        from_id: "a".to_string(),
        from_name: "alice".to_string(),
        to_id: "b".to_string(),
        content: "Sent file: notes.txt".to_string(),
        timestamp: -5,
        is_file: true,
        file_name: Some("notes.txt".to_string()),
        file_data: Some("aGVsbG8=".to_string()),
    }
}

fn assert_same_message(a: &Message, b: &Message) {
    assert_eq!(a.id, b.id);
    assert_eq!(a.from_id, b.from_id);
    assert_eq!(a.from_name, b.from_name);
    assert_eq!(a.to_id, b.to_id);
    assert_eq!(a.content, b.content);
    assert_eq!(a.timestamp, b.timestamp);
    assert_eq!(a.is_file, b.is_file);
    assert_eq!(a.file_name, b.file_name);
    assert_eq!(a.file_data, b.file_data);
}

#[test]
fn text_envelope_round_trip() {
    let env = Envelope { kind: EnvelopeKind::Text, payload: text_message() };
    let bytes = encode_envelope(&env);
    let back = decode_envelope(&bytes).expect("an encoding decodes");
    assert!(matches!(back.kind, EnvelopeKind::Text));
    assert_same_message(&back.payload, &text_message());
}

#[test]
fn file_envelope_round_trip() {
    let env = Envelope { kind: EnvelopeKind::File, payload: file_message() };
    let bytes = encode_envelope(&env);
    let back = decode_envelope(&bytes).expect("an encoding decodes");
    assert!(matches!(back.kind, EnvelopeKind::File));
    assert_same_message(&back.payload, &file_message());
}

#[test]
fn unicode_content_round_trip() {
    let mut m = text_message();
    m.content = "héllo ✓ ∀x".to_string();
    m.from_name = "ålice".to_string();
    let env = Envelope { kind: EnvelopeKind::Text, payload: m.clone() };
    let bytes = encode_envelope(&env);
    let back = decode_envelope(&bytes).expect("an encoding decodes");
    assert_same_message(&back.payload, &m);
}

#[test]
fn random_bytes_do_not_decode() {
    let garbage: Vec<u8> = vec![0x9f, 0x03, 0xff, 0x21, 0x7c, 0x00, 0x41, 0x41, 0x99];
    assert!(decode_envelope(&garbage).is_none());
    assert!(decode_announcement(&garbage).is_none());
    assert!(decode_envelope(&Vec::new()).is_none());
}

#[test]
fn truncated_envelope_does_not_decode() {
    let env = Envelope { kind: EnvelopeKind::Text, payload: text_message() };
    let mut bytes = encode_envelope(&env);
    bytes.pop();
    assert!(decode_envelope(&bytes).is_none());
}

#[test]
fn trailing_bytes_do_not_decode() {
    let env = Envelope { kind: EnvelopeKind::Text, payload: text_message() };
    let mut bytes = encode_envelope(&env);
    bytes.push(0);
    assert!(decode_envelope(&bytes).is_none());
}

#[test]
fn announcement_round_trip() {
    let a = Announcement { id: "node-7".to_string(), name: "carol".to_string(), port: 45678 };
    let bytes = encode_announcement(&a);
    let back = decode_announcement(&bytes).expect("an encoding decodes");
    assert_eq!(back.id, "node-7");
    assert_eq!(back.name, "carol");
    assert_eq!(back.port, 45678);
}

#[test]
fn announcement_port_bytes_are_little_endian() {
    let a = Announcement { id: "x".to_string(), name: "".to_string(), port: 0x1234 };
    let bytes = encode_announcement(&a);
    // 8-byte length + "x", 8-byte length + empty name, then the port bytes.
    assert_eq!(bytes.len(), 8 + 1 + 8 + 0 + 2);
    assert_eq!(bytes[bytes.len() - 2], 0x34);
    assert_eq!(bytes[bytes.len() - 1], 0x12);
    assert_eq!(bytes[0], 1);
    assert_eq!(&bytes[1..8], &[0, 0, 0, 0, 0, 0, 0]);
    assert_eq!(bytes[8], b'x');
}

#[test]
fn invalid_utf8_in_string_field_does_not_decode() {
    let a = Announcement { id: "x".to_string(), name: "y".to_string(), port: 1 };
    let mut bytes = encode_announcement(&a);
    // Overwrite the id's single byte with a lone continuation byte.
    bytes[8] = 0xff;
    assert!(decode_announcement(&bytes).is_none());
}

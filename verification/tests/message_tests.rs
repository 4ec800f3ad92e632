use yabts::message::{Message, MessageHeader};
use yabts::MAGIC;

#[test]
fn header_new_sets_length_and_code() {
    let h = MessageHeader::new(5, 4);
    assert_eq!(h.get(), (5, 4));
    assert_eq!(h.magic(), MAGIC);
    assert!(h.is_valid());
}

#[test]
fn header_default_is_valid_and_zero() {
    let h = MessageHeader::default();
    assert_eq!(h.get(), (0, 0));
    assert!(h.is_valid());
}

#[test]
fn header_set_keeps_magic() {
    let mut h = MessageHeader::from_parts(7, 1, 1);
    h.set(9, 3);
    assert_eq!(h.get(), (9, 3));
    assert_eq!(h.magic(), 7);
    assert!(!h.is_valid());
}

#[test]
fn header_without_magic_is_invalid() {
    assert!(!MessageHeader::from_parts(0, 0, 0).is_valid());
    assert!(MessageHeader::from_parts(0xDEADBEEF, 3, 4).is_valid());
}

#[test]
fn message_default_is_empty() {
    let m = Message::default();
    assert_eq!(m.get_header().get(), (0, 0));
    assert_eq!(m.get_payload(), None);
    assert_eq!(m.payload_len(), 0);
}

#[test]
fn message_new_without_payload() {
    let m = Message::new(0, 1, None);
    assert_eq!(m.get_header().get(), (0, 1));
    assert_eq!(m.get_payload(), None);
}

#[test]
fn message_new_with_payload() {
    let m = Message::new(3, 4, Some(b"abc".to_vec()));
    assert_eq!(m.get_header().get(), (3, 4));
    assert!(m.get_header().is_valid());
    assert_eq!(m.get_payload(), Some(b"abc".to_vec()));
    assert_eq!(m.payload_len(), 3);
}

#[test]
fn message_length_is_not_checked_against_payload() {
    let m = Message::new(10, 4, Some(b"ab".to_vec()));
    assert_eq!(m.get_header().get(), (10, 4));
    assert_eq!(m.payload_len(), 2);
}

#[test]
fn empty_payload_reads_as_none() {
    let m = Message::new(0, 4, Some(Vec::new()));
    assert_eq!(m.get_payload(), None);
}

#[test]
fn message_from_parts_keeps_everything() {
    let m = Message::from_parts(MessageHeader::from_parts(1, 2, 3), vec![9]);
    assert_eq!(m.get_header().magic(), 1);
    assert_eq!(m.get_header().get(), (2, 3));
    assert_eq!(m.get_payload(), Some(vec![9]));
}

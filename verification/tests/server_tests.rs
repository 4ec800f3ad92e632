use yabts::b64::B64;
use yabts::message::{Message, MessageHeader};
use yabts::server::{BodyEvent, Server};
use yabts::simple::Simple;
use yabts::transform::TransformPayload;
use yabts::{EINVAL, ENOSUP, INTERNAL_ERROR, MAX_PAYLOAD_LEN, OK, OTHER_ERROR};

fn percent(rcv: u64, sent: u64) -> u8 {
    ((rcv as f64 / sent as f64) * 100 as f64) as u8
}

fn simple_methods() -> TransformPayload {
    TransformPayload {
        to_method_e: None,
        from_method_ed: None,
        to_method_c: Some(Box::new(Simple {})),
        from_method_cd: Some(Box::new(Simple {})),
    }
}

fn b64_methods() -> TransformPayload {
    TransformPayload {
        to_method_e: Some(Box::new(B64 {})),
        from_method_ed: Some(Box::new(B64 {})),
        to_method_c: None,
        from_method_cd: None,
    }
}

fn simple_server() -> Server<TransformPayload> {
    Server::new(simple_methods(), Some([127, 0, 0, 1]), "4000".to_string()).ok().unwrap()
}

fn compress(server: &mut Server<TransformPayload>, text: &str) -> Message {
    let msg = Message::new(text.len() as u16, 4, Some(text.as_bytes().to_vec()));
    server.process(msg, percent)
}

#[test]
fn new_server_keeps_address_and_port() {
    let s = simple_server();
    assert_eq!(s.addr(), [127, 0, 0, 1]);
    assert_eq!(s.port(), 4000);
    assert_eq!(s.stats().get_stats(), (0, 0, 0, 0, 0, 0));
    assert!(s.error_response().is_none());
}

#[test]
fn new_server_refuses_bad_address_or_port() {
    let bad_addr = Server::new(simple_methods(), None, "4000".to_string());
    assert_eq!(bad_addr.err(), Some(EINVAL));
    let bad_port = Server::new(simple_methods(), Some([127, 0, 0, 1]), "40a0".to_string());
    assert_eq!(bad_port.err(), Some(EINVAL));
    let too_big = Server::new(simple_methods(), Some([127, 0, 0, 1]), "65536".to_string());
    assert_eq!(too_big.err(), Some(EINVAL));
    let empty = Server::new(simple_methods(), Some([127, 0, 0, 1]), "".to_string());
    assert_eq!(empty.err(), Some(EINVAL));
}

#[test]
fn port_accepts_plus_sign_and_leading_zeros() {
    let s = Server::new(simple_methods(), Some([0, 0, 0, 0]), "+0080".to_string()).ok().unwrap();
    assert_eq!(s.port(), 80);
    let s = Server::new(simple_methods(), Some([0, 0, 0, 0]), "65535".to_string()).ok().unwrap();
    assert_eq!(s.port(), 65535);
}

#[test]
fn compresses_runs() {
    let mut s = simple_server();
    let r = compress(&mut s, "aaabbbcccddd");
    assert_eq!(r.get_header().get(), (8, OK));
    assert_eq!(r.get_payload().unwrap(), b"3a3b3c3d".to_vec());
}

#[test]
fn leaves_text_without_runs() {
    let mut s = simple_server();
    let r = compress(&mut s, "abcdefghijklmnop");
    assert_eq!(r.get_payload().unwrap(), b"abcdefghijklmnop".to_vec());
}

#[test]
fn compresses_one_long_run() {
    let mut s = simple_server();
    let r = compress(&mut s, "xxxxxxxxxxxxxxxxxxxxxxxxxx");
    assert_eq!(r.get_header().get(), (3, OK));
    assert_eq!(r.get_payload().unwrap(), b"26x".to_vec());
}

#[test]
fn refuses_text_that_does_not_compress() {
    let mut s = simple_server();
    for bad in ["ABCDEFG", "0xdeadbeef", "jjjjaaazzz!"] {
        let r = compress(&mut s, bad);
        assert_eq!(r.get_header().get(), (0, EINVAL));
        assert_eq!(r.get_payload(), None);
    }
    assert_eq!(s.stats().get_stats().2, 0);
}

#[test]
fn compression_counts_bytes_and_ratio() {
    let mut s = simple_server();
    let long = "z".repeat(MAX_PAYLOAD_LEN);
    let r = compress(&mut s, &long);
    assert_eq!(r.get_payload().unwrap(), b"3992z".to_vec());
    let _ = compress(&mut s, "aaabbbcccddd");
    assert_eq!(s.stats().get_stats().2, percent(13, 4004));
}

#[test]
fn ping_is_answered_ok() {
    let mut s = simple_server();
    let r = s.process(Message::new(0, 1, None), percent);
    assert_eq!(r.get_header().get(), (0, OK));
    assert_eq!(r.get_payload(), None);
}

#[test]
fn get_reports_the_counts() {
    let mut s = simple_server();
    s.count_response(30);
    let _ = s.get_request(3, 4, BodyEvent::Decoded(Message::new(3, 4, Some(b"abc".to_vec()))));
    let _ = compress(&mut s, "aaaa");
    let r = s.process(Message::new(0, 2, None), percent);
    assert_eq!(r.get_header().get(), (17, OK));
    let p = r.get_payload().unwrap();
    let mut sent = [0u8; 8];
    sent.copy_from_slice(&p[0..8]);
    let mut rcv = [0u8; 8];
    rcv.copy_from_slice(&p[8..16]);
    assert_eq!(u64::from_ne_bytes(sent), 22);
    assert_eq!(u64::from_ne_bytes(rcv), 11);
    assert_eq!(p[16], 50);
}

#[test]
fn reset_clears_the_counts() {
    let mut s = simple_server();
    s.count_response(30);
    let _ = compress(&mut s, "aaaa");
    let r = s.process(Message::new(0, 3, None), percent);
    assert_eq!(r.get_header().get(), (0, OK));
    assert_eq!(s.stats().get_stats(), (0, 0, 0, 0, 0, 0));
    let g = s.process(Message::new(0, 2, None), percent);
    assert_eq!(g.get_payload().unwrap(), vec![0u8; 17]);
}

#[test]
fn unknown_request_with_payload_is_unsupported() {
    let mut s = simple_server();
    let r = s.process(Message::new(1, 99, Some(vec![1])), percent);
    assert_eq!(r.get_header().get(), (0, ENOSUP));
}

#[test]
fn request_without_payload_is_unsupported() {
    let mut s = simple_server();
    let r = s.process(Message::new(0, 99, None), percent);
    assert_eq!(r.get_header().get(), (0, ENOSUP));
    let r = s.process(Message::new(0, 5, None), percent);
    assert_eq!(r.get_header().get(), (0, ENOSUP));
    let r = s.process(Message::new(0, 6, Some(Vec::new())), percent);
    assert_eq!(r.get_header().get(), (0, ENOSUP));
}

#[test]
fn compression_or_code_zero_without_payload_echoes_the_code() {
    let mut s = simple_server();
    let r = s.process(Message::new(0, 4, Some(Vec::new())), percent);
    assert_eq!(r.get_header().get(), (0, 4));
    assert_eq!(r.get_payload(), None);
    let r = s.process(Message::new(0, 0, None), percent);
    assert_eq!(r.get_header().get(), (0, 0));
    assert_eq!(s.stats().get_stats(), (0, 0, 0, 0, 0, 0));
}

#[test]
fn compression_or_code_zero_without_payload_is_refused() {
    let mut s = simple_server();
    assert_eq!(serve(&mut s, Message::new(0, 4, None)).get_header().get(), (0, EINVAL));
    assert_eq!(serve(&mut s, Message::new(0, 0, None)).get_header().get(), (0, EINVAL));
    assert_eq!(s.stats().get_stats().1, 0);
}

#[test]
fn failed_decompression_is_answered_with_other_error() {
    let mut s = Server::new(b64_methods(), Some([127, 0, 0, 1]), "4000".to_string()).ok().unwrap();
    let d = s.process(Message::new(3, 5, Some(b"a*b".to_vec())), percent);
    assert_eq!(d.get_header().get(), (0, OTHER_ERROR));
    assert_eq!(d.get_payload(), None);
}

fn serve(s: &mut Server<TransformPayload>, request: Message) -> Message {
    let (len, code) = match s.check_header(Some(request.get_header())) {
        Ok(lc) => lc,
        Err(m) => return m,
    };
    match s.get_request(len, code, BodyEvent::Decoded(request)) {
        Ok(m) => s.process(m, percent),
        Err(m) => m,
    }
}

#[test]
fn ping_get_and_reset_get_through() {
    let mut s = simple_server();
    let ping = serve(&mut s, Message::new(0, 1, None));
    assert_eq!(ping.get_header().get(), (0, OK));
    assert_eq!(s.stats().get_stats().1, 8);
    let get = serve(&mut s, Message::new(0, 2, None));
    assert_eq!(get.get_header().get(), (17, OK));
    assert_eq!(yabts::client::serialize_to_stats(get.get_payload().unwrap()), Ok((0, 16, 0)));
    let reset = serve(&mut s, Message::new(0, 3, None));
    assert_eq!(reset.get_header().get(), (0, OK));
    assert_eq!(s.stats().get_stats(), (0, 0, 0, 0, 0, 0));
}

#[test]
fn unknown_and_empty_requests_get_enosup() {
    let mut s = simple_server();
    assert_eq!(serve(&mut s, Message::new(0, 99, None)).get_header().get(), (0, ENOSUP));
    assert_eq!(serve(&mut s, Message::new(0, 5, None)).get_header().get(), (0, ENOSUP));
    assert_eq!(s.stats().get_stats().1, 16);
}

#[test]
fn stats_read_back() {
    let mut s = simple_server();
    s.count_response(1000);
    let _ = compress(&mut s, "aaaaaaaaaa");
    let _ = s.get_request(2, 4, BodyEvent::Decoded(Message::new(2, 4, Some(vec![97, 98]))));
    let get = s.process(Message::new(0, 2, None), percent);
    assert_eq!(
        yabts::client::serialize_to_stats(get.get_payload().unwrap()),
        Ok((992, 10, 30))
    );
}

#[test]
fn decompress_with_simple_leaves_payload() {
    let mut s = simple_server();
    let r = s.process(Message::new(2, 5, Some(b"3a".to_vec())), percent);
    assert_eq!(r.get_header().get(), (2, OK));
    assert_eq!(r.get_payload().unwrap(), b"3a".to_vec());
}

#[test]
fn encode_request_uses_compression_when_there_is_no_encoder() {
    let mut s = simple_server();
    let r = s.process(Message::new(4, 6, Some(b"aaab".to_vec())), percent);
    assert_eq!(r.get_payload().unwrap(), b"3ab".to_vec());
    assert_eq!(s.stats().get_stats().2, 0);
}

#[test]
fn encode_and_decode_with_base64() {
    let mut s = Server::new(b64_methods(), Some([127, 0, 0, 1]), "4000".to_string()).ok().unwrap();
    let r = s.process(Message::new(5, 6, Some(b"hello".to_vec())), percent);
    assert_eq!(r.get_header().get(), (9, OK));
    let encoded = r.get_payload().unwrap();
    assert_eq!(encoded, b"aGVsbG8=\0".to_vec());
    let d = s.process(Message::new(9, 7, Some(encoded)), percent);
    assert_eq!(d.get_header().get(), (5, OK));
    assert_eq!(d.get_payload().unwrap(), b"hello".to_vec());
}

#[test]
fn failed_decode_is_answered_with_einval() {
    let mut s = Server::new(b64_methods(), Some([127, 0, 0, 1]), "4000".to_string()).ok().unwrap();
    let d = s.process(Message::new(3, 7, Some(b"a*b".to_vec())), percent);
    assert_eq!(d.get_header().get(), (0, EINVAL));
}

#[test]
fn missing_transform_is_answered_with_einval() {
    let t = TransformPayload { to_method_e: None, from_method_ed: None, to_method_c: None, from_method_cd: None };
    let mut s = Server::new(t, Some([127, 0, 0, 1]), "1".to_string()).ok().unwrap();
    let r = s.process(Message::new(1, 4, Some(vec![97])), percent);
    assert_eq!(r.get_header().get(), (0, EINVAL));
}

#[test]
fn header_checks() {
    let s = simple_server();
    assert_eq!(s.check_header(Some(MessageHeader::new(12, 4))).ok(), Some((12, 4)));
    assert_eq!(
        s.check_header(Some(MessageHeader::new(MAX_PAYLOAD_LEN as u16, 4))).ok(),
        Some((MAX_PAYLOAD_LEN as u16, 4))
    );
    let too_long = s.check_header(Some(MessageHeader::new(MAX_PAYLOAD_LEN as u16 + 1, 4)));
    assert_eq!(too_long.err().unwrap().get_header().get(), (0, EINVAL));
    let bad_magic = s.check_header(Some(MessageHeader::from_parts(1, 3, 4)));
    assert_eq!(bad_magic.err().unwrap().get_header().get(), (0, EINVAL));
    let unreadable = s.check_header(None);
    assert_eq!(unreadable.err().unwrap().get_header().get(), (0, EINVAL));
}

#[test]
fn body_checks() {
    let mut s = simple_server();
    let failed = s.get_request(3, 4, BodyEvent::ReadFailed);
    assert_eq!(failed.err().unwrap().get_header().get(), (0, INTERNAL_ERROR));
    let undecodable = s.get_request(3, 4, BodyEvent::Undecodable);
    assert_eq!(undecodable.err().unwrap().get_header().get(), (0, EINVAL));
    let missing = s.get_request(3, 4, BodyEvent::Decoded(Message::new(3, 4, None)));
    assert_eq!(missing.err().unwrap().get_header().get(), (0, EINVAL));
    assert_eq!(s.stats().get_stats(), (0, 0, 0, 0, 0, 0));
    let empty = s.get_request(0, 1, BodyEvent::Decoded(Message::new(0, 1, None))).ok().unwrap();
    assert_eq!(empty.get_header().get(), (0, 1));
    assert_eq!(empty.get_payload(), None);
    assert_eq!(s.stats().get_stats().1, 8);
    s.process(Message::new(0, 3, None), percent);
    let wrong = s.get_request(5, 4, BodyEvent::Decoded(Message::new(5, 4, Some(vec![1, 2]))));
    assert_eq!(wrong.err().unwrap().get_header().get(), (0, EINVAL));
    assert_eq!(s.stats().get_stats().1, 10);
    let ok = s.get_request(2, 4, BodyEvent::Decoded(Message::new(9, 1, Some(vec![1, 2])))).ok().unwrap();
    assert_eq!(ok.get_header().get(), (2, 4));
    assert_eq!(ok.get_payload(), Some(vec![1, 2]));
    assert_eq!(s.stats().get_stats().1, 20);
}

#[test]
fn responses_count_all_but_the_header() {
    let mut s = simple_server();
    s.count_response(8);
    s.count_response(25);
    assert_eq!(s.stats().get_stats().0, 17);
}

#[test]
fn port_refuses_lone_sign_and_minus() {
    assert_eq!(Server::new(simple_methods(), Some([1, 2, 3, 4]), "+".to_string()).err(), Some(EINVAL));
    assert_eq!(Server::new(simple_methods(), Some([1, 2, 3, 4]), "-0".to_string()).err(), Some(EINVAL));
    assert_eq!(Server::new(simple_methods(), Some([1, 2, 3, 4]), " 80".to_string()).err(), Some(EINVAL));
}

#[test]
fn ping_and_get_change_nothing() {
    let mut s = simple_server();
    s.count_response(100);
    let _ = compress(&mut s, "aaaaaa");
    let before = s.stats().get_stats();
    let _ = s.process(Message::new(1, 1, Some(vec![5])), percent);
    let _ = s.process(Message::new(0, 2, None), percent);
    assert_eq!(s.stats().get_stats(), before);
}

#[test]
fn client_request_passes_server_checks() {
    let mut s = simple_server();
    let payload = b"aaabbb".to_vec();
    let request = yabts::client::base_request(4, Some(payload.clone()));
    let (len, code) = s.check_header(Some(request.get_header())).ok().unwrap();
    assert_eq!((len, code), (6, 4));
    let accepted = s.get_request(len, code, BodyEvent::Decoded(request)).ok().unwrap();
    assert_eq!(accepted.get_payload(), Some(payload));
    let r = s.process(accepted, percent);
    assert_eq!(r.get_payload(), Some(b"3a3b".to_vec()));
    assert_eq!(s.stats().get_stats().1, 14);
}

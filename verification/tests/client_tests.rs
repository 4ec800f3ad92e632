use yabts::client::{base_request, payload_required, response_status, serialize_to_stats};
use yabts::helpers::{run_client_mode, runmode_from_args};
use yabts::message::Message;
use yabts::{EINVAL, OK, REQUEST, RUNMODE, UNKNOWN};

#[test]
fn transform_requests_need_a_payload() {
    for code in 4..=7u16 {
        assert_eq!(payload_required(code), Ok(true));
    }
    for code in 1..=3u16 {
        assert_eq!(payload_required(code), Ok(false));
    }
    assert_eq!(payload_required(0), Err(EINVAL));
    assert_eq!(payload_required(8), Err(EINVAL));
}

#[test]
fn plain_requests_carry_no_payload() {
    let m = base_request(2, Some(vec![1, 2, 3]));
    assert_eq!(m.get_header().get(), (0, 2));
    assert_eq!(m.get_payload(), None);
}

#[test]
fn transform_request_carries_its_payload() {
    let m = base_request(4, Some(b"aaabbb".to_vec()));
    assert_eq!(m.get_header().get(), (6, 4));
    assert!(m.get_header().is_valid());
    assert_eq!(m.get_payload(), Some(b"aaabbb".to_vec()));
}

#[test]
fn transform_request_without_payload_is_default() {
    let m = base_request(6, None);
    assert_eq!(m.get_header().get(), (0, 0));
    assert_eq!(m.get_payload(), None);
}

#[test]
fn unknown_request_is_default() {
    let m = base_request(42, Some(vec![1]));
    assert_eq!(m.get_header().get(), (0, 0));
    assert_eq!(m.get_payload(), None);
}

#[test]
fn stats_payload_reads_back() {
    let mut p = 1234u64.to_ne_bytes().to_vec();
    p.extend_from_slice(&u64::MAX.to_ne_bytes());
    p.push(77);
    assert_eq!(serialize_to_stats(p), Ok((1234, u64::MAX, 77)));
}

#[test]
fn stats_payload_of_wrong_length_is_refused() {
    assert_eq!(serialize_to_stats(vec![0; 16]), Err(()));
    assert_eq!(serialize_to_stats(vec![0; 18]), Err(()));
    assert_eq!(serialize_to_stats(Vec::new()), Err(()));
}

#[test]
fn error_status_is_passed_on() {
    let r = Message::new(0, EINVAL, None);
    assert_eq!(response_status(4, Some(&r)), EINVAL);
    assert_eq!(response_status(1, Some(&Message::new(0, 3, None))), 3);
}

#[test]
fn ok_responses() {
    assert_eq!(response_status(1, Some(&Message::new(0, OK, None))), OK);
    assert_eq!(response_status(3, Some(&Message::new(0, OK, None))), OK);
    assert_eq!(response_status(2, Some(&Message::new(17, OK, Some(vec![0; 17])))), OK);
    assert_eq!(response_status(4, Some(&Message::new(2, OK, Some(b"3a".to_vec())))), OK);
}

#[test]
fn unreadable_responses_are_unknown() {
    assert_eq!(response_status(2, Some(&Message::new(3, OK, Some(vec![0; 3])))), UNKNOWN);
    assert_eq!(response_status(7, Some(&Message::new(2, OK, Some(vec![0xff, 0xfe])))), UNKNOWN);
}

#[test]
fn undecodable_reply_ends_with_ok() {
    assert_eq!(response_status(1, None), OK);
    assert_eq!(response_status(4, None), OK);
}

#[test]
fn unknown_request_gives_einval() {
    assert_eq!(response_status(9, Some(&Message::new(0, OK, None))), EINVAL);
}

#[test]
fn client_mode_without_request_is_einval() {
    let status = run_client_mode("a".to_string(), "1".to_string(), None, None, |_, _, _, _| 0);
    assert_eq!(status, EINVAL);
}

#[test]
fn client_mode_runs_with_the_request_code() {
    let status = run_client_mode(
        "127.0.0.1".to_string(),
        "4000".to_string(),
        Some(REQUEST::DECODE),
        Some("f".to_string()),
        |addr, port, code, file| {
            assert_eq!(addr, "127.0.0.1");
            assert_eq!(port, "4000");
            assert_eq!(file, Some("f".to_string()));
            code + 100
        },
    );
    assert_eq!(status, 107);
}

#[test]
fn client_mode_is_chosen_by_name() {
    let r = runmode_from_args(
        Some("client".to_string()),
        "127.0.0.1".to_string(),
        "4000".to_string(),
        Some(REQUEST::PING),
        None,
    );
    match r {
        RUNMODE::CLIENT(a, p, q, f) => {
            assert_eq!((a.as_str(), p.as_str()), ("127.0.0.1", "4000"));
            assert_eq!(q, Some(REQUEST::PING));
            assert_eq!(f, None);
        },
        RUNMODE::SERVER(..) => panic!("expected client mode"),
    }
}

#[test]
fn server_mode_is_the_default() {
    for mode in [None, Some("server".to_string()), Some("Client".to_string())] {
        match runmode_from_args(mode, "0.0.0.0".to_string(), "1".to_string(), None, None) {
            RUNMODE::SERVER(a, p) => assert_eq!((a.as_str(), p.as_str()), ("0.0.0.0", "1")),
            RUNMODE::CLIENT(..) => panic!("expected server mode"),
        }
    }
}

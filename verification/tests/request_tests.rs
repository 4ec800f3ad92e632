use std::convert::TryFrom;
use std::str::FromStr;
use yabts::{
    EINVAL, ENOSUP, INTERNAL_ERROR, MAGIC, MAX_MSG_LEN, MAX_PAYLOAD_LEN, OK, OTHER_ERROR, REQUEST,
    UNKNOWN,
};

#[test]
fn constants_have_their_documented_values() {
    assert_eq!(MAX_MSG_LEN, 4000);
    assert_eq!(MAX_PAYLOAD_LEN, MAX_MSG_LEN - 8);
    assert_eq!(MAGIC, 0xDEADBEEF);
    assert_eq!((OK, UNKNOWN, EINVAL, ENOSUP), (0, 1, 2, 3));
    assert_eq!((INTERNAL_ERROR, OTHER_ERROR), (33, 34));
}

#[test]
fn request_codes_count_up_from_zero() {
    let all = [
        REQUEST::NONE,
        REQUEST::PING,
        REQUEST::GET,
        REQUEST::RESET,
        REQUEST::COMPRESS,
        REQUEST::DECOMPRESS,
        REQUEST::ENCODE,
        REQUEST::DECODE,
    ];
    for (i, r) in all.iter().enumerate() {
        assert_eq!(r.code(), i as u16);
        assert_eq!(REQUEST::from_code(i as u16), Some(*r));
        assert_eq!(REQUEST::try_from(i as u16), Ok(*r));
    }
}

#[test]
fn unknown_codes_are_refused() {
    assert_eq!(REQUEST::from_code(8), None);
    assert_eq!(REQUEST::from_code(99), None);
    assert_eq!(REQUEST::try_from(99u16), Err(()));
    assert_eq!(REQUEST::try_from(u16::MAX), Err(()));
}

#[test]
fn request_names_parse() {
    assert_eq!(REQUEST::from_name("ping"), Some(REQUEST::PING));
    assert_eq!(REQUEST::from_name("get"), Some(REQUEST::GET));
    assert_eq!(REQUEST::from_name("reset"), Some(REQUEST::RESET));
    assert_eq!(REQUEST::from_name("compress"), Some(REQUEST::COMPRESS));
    assert_eq!(REQUEST::from_name("decompress"), Some(REQUEST::DECOMPRESS));
    assert_eq!(REQUEST::from_name("encode"), Some(REQUEST::ENCODE));
    assert_eq!(REQUEST::from_name("decode"), Some(REQUEST::DECODE));
}

#[test]
fn other_request_names_are_refused() {
    assert_eq!(REQUEST::from_name("none"), None);
    assert_eq!(REQUEST::from_name("PING"), None);
    assert_eq!(REQUEST::from_name(""), None);
    assert_eq!(REQUEST::from_name("ping "), None);
}

#[test]
fn from_str_follows_the_names() {
    assert_eq!(REQUEST::from_str("compress").unwrap(), REQUEST::COMPRESS);
    let err = REQUEST::from_str("shrink").unwrap_err();
    assert_eq!(err.kind(), std::io::ErrorKind::Other);
    assert_eq!(err.to_string(), "Invalid request provided");
}

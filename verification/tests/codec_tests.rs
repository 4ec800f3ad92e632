use yabts::b64::{base64decode, base64encode, B64};
use yabts::cobs::{stuffdata, unstuffdata, COBS};
use yabts::simple::{compress, Simple};
use yabts::transform::{
    EncodePayload, Payload, TransformPayload, TransformStep, _Compress, _Decode, _Decompress, _Encode,
    _Payload,
};

fn encode(input: &[u8]) -> Vec<u8> {
    let mut out = Vec::new();
    base64encode(&input.to_vec(), &mut out).unwrap();
    out
}

fn decode(input: &[u8]) -> (Vec<u8>, bool) {
    let mut out = Vec::new();
    let ok = base64decode(&input.to_vec(), &mut out).is_ok();
    (out, ok)
}

#[test]
fn b64_encodes_with_padding_and_nul() {
    assert_eq!(encode(b"hello"), b"aGVsbG8=\0".to_vec());
    assert_eq!(encode(b"hell"), b"aGVsbA==\0".to_vec());
    assert_eq!(encode(b"hel"), b"aGVs\0".to_vec());
    assert_eq!(encode(b""), b"\0".to_vec());
    assert_eq!(encode(&[0xff, 0xfe, 0xfd]), b"//79\0".to_vec());
}

#[test]
fn b64_appends_to_output() {
    let mut out = b"x".to_vec();
    base64encode(&b"M".to_vec(), &mut out).unwrap();
    assert_eq!(out, b"xTQ==\0".to_vec());
}

#[test]
fn b64_decodes() {
    assert_eq!(decode(b"aGVsbG8="), (b"hello".to_vec(), true));
    assert_eq!(decode(b"aGVsbA=="), (b"hell".to_vec(), true));
    assert_eq!(decode(b"aGVs"), (b"hel".to_vec(), true));
    assert_eq!(decode(b"aGVs\nbG8="), (b"hello".to_vec(), true));
    assert_eq!(decode(b""), (Vec::new(), true));
}

#[test]
fn b64_decode_stops_at_padding() {
    assert_eq!(decode(b"aGVsbA==!!!"), (b"hell".to_vec(), true));
}

#[test]
fn b64_decode_error_keeps_bytes_before_it() {
    assert_eq!(decode(b"aGVs*bG8="), (b"hel".to_vec(), false));
    assert_eq!(decode(b"aGVs\0"), (b"hel".to_vec(), false));
}

#[test]
fn b64_roundtrip() {
    for len in 0..10usize {
        let x: Vec<u8> = (0..len).map(|i| (i * 37 + 11) as u8).collect();
        let (back, ok) = decode(&encode(&x));
        assert_eq!(back, x);
        assert_eq!(ok, len % 3 != 0);
    }
}

#[test]
fn b64_transform_methods() {
    let mut p = b"hi".to_vec();
    assert!(B64 {}._encode(&mut p).is_ok());
    assert_eq!(p, b"aGk=\0".to_vec());
    assert!(B64 {}._decode(&mut p).is_ok());
    assert_eq!(p, b"hi".to_vec());
    let mut q = b"#".to_vec();
    assert!(B64 {}._decode(&mut q).is_err());
    assert_eq!(q, Vec::<u8>::new());
}

#[test]
fn cobs_stuffs_zeros_away() {
    let mut out = Vec::new();
    stuffdata(&vec![0x11, 0x00, 0x22, 0x33, 0x00], &mut out).unwrap();
    assert_eq!(out, vec![0x11, 0x02, 0x22, 0x33, 0x03, 0x01]);
    let mut empty = Vec::new();
    stuffdata(&Vec::new(), &mut empty).unwrap();
    assert_eq!(empty, vec![0x01]);
}

#[test]
fn cobs_long_run_gets_an_extra_count() {
    let input = vec![7u8; 300];
    let mut out = Vec::new();
    stuffdata(&input, &mut out).unwrap();
    assert_eq!(out.len(), 302);
    assert_eq!(out[254], 0xff);
    assert_eq!(*out.last().unwrap(), 47);
    assert!(out.iter().all(|&b| b != 0));
}

#[test]
fn cobs_unstuffing_yields_nothing() {
    let mut out = vec![5];
    unstuffdata(&vec![1, 2, 3], &mut out).unwrap();
    assert_eq!(out, vec![5]);
    let mut p = vec![1, 2, 3];
    assert!(COBS {}._decode(&mut p).is_ok());
    assert!(p.is_empty());
    let mut q = vec![0, 0];
    assert!(COBS {}._encode(&mut q).is_ok());
    assert_eq!(q, vec![1, 1, 1]);
}

#[test]
fn simple_compression_cases() {
    assert_eq!(compress(&b"aaabbbcccddd".to_vec()), Some(b"3a3b3c3d".to_vec()));
    assert_eq!(compress(&b"aabccc\n".to_vec()), Some(b"aab3c".to_vec()));
    assert_eq!(compress(&b"".to_vec()), Some(Vec::new()));
    assert_eq!(compress(&b"\n".to_vec()), Some(Vec::new()));
    assert_eq!(compress(&"q".repeat(123).into_bytes()), Some(b"123q".to_vec()));
    assert_eq!(compress(&"q".repeat(3999).into_bytes()), Some(b"3999q".to_vec()));
}

#[test]
fn simple_compression_refusals() {
    assert_eq!(compress(&b"ABCDEFG".to_vec()), None);
    assert_eq!(compress(&b"0xdeadbeef".to_vec()), None);
    assert_eq!(compress(&b"jjjjaaazzz!".to_vec()), None);
    assert_eq!(compress(&b"ab\ncd".to_vec()), None);
    assert_eq!(compress(&b"ab\n\n".to_vec()), None);
    assert_eq!(compress(&"q".repeat(4000).into_bytes()), None);
}

#[test]
fn simple_transform_methods() {
    let mut p = b"zzzz".to_vec();
    assert!(Simple {}._compress(&mut p).is_ok());
    assert_eq!(p, b"4z".to_vec());
    let mut bad = b"Zz".to_vec();
    assert!(Simple {}._compress(&mut bad).is_err());
    assert_eq!(bad, b"Zz".to_vec());
    assert!(Simple {}._decompress(&mut p).is_ok());
    assert_eq!(p, b"4z".to_vec());
}

#[test]
fn payload_runners_apply_their_methods() {
    let runner = Payload { method: Box::new(B64 {}) };
    let mut p = b"a".to_vec();
    runner.run(&mut p);
    assert_eq!(p, b"YQ==\0".to_vec());
    let both = EncodePayload { to_method: Box::new(B64 {}), from_method: Box::new(B64 {}) };
    let mut q = b"ab".to_vec();
    both.run_to(&mut q);
    both.run_from(&mut q);
    assert_eq!(q, b"ab".to_vec());
    let typed = _Payload::new(Vec::new(), COBS {}, COBS {});
    let mut r = vec![0];
    typed.run_to_encode(&mut r);
    assert_eq!(r, vec![1, 1]);
    typed.run_from_encode(&mut r);
    assert!(r.is_empty());
    let comp = _Payload::new(vec![1], Simple {}, Simple {});
    assert_eq!(comp.bytes, vec![1]);
    let mut s = b"bbb".to_vec();
    comp.run_to_compress(&mut s);
    assert_eq!(s, b"3b".to_vec());
    comp.run_from_compress(&mut s);
    assert_eq!(s, b"3b".to_vec());
}

#[test]
fn default_transform_is_identity() {
    let d = yabts::transform::Default {};
    let mut p = vec![1, 2, 3];
    assert!(d._encode(&mut p).is_ok());
    assert!(d._decode(&mut p).is_ok());
    assert!(d._compress(&mut p).is_ok());
    assert!(d._decompress(&mut p).is_ok());
    assert_eq!(p, vec![1, 2, 3]);
}

#[test]
fn compression_never_grows() {
    for text in ["a", "ab", "aab", "aaab", "abcabc", "zzzzzzzzzzzzzzzzzzzzzzzzzzzzzzzzzzzzzz\n"] {
        let out = compress(&text.as_bytes().to_vec()).unwrap();
        assert!(out.len() <= text.len());
    }
}

#[test]
fn transform_payload_choice() {
    let t = TransformPayload {
        to_method_e: None,
        from_method_ed: Some(Box::new(B64 {})),
        to_method_c: Some(Box::new(Simple {})),
        from_method_cd: Some(Box::new(Simple {})),
    };
    assert_eq!(t.chosen_step(true), Some(TransformStep::Compress));
    assert_eq!(t.chosen_step(false), Some(TransformStep::Decode));
    let none = TransformPayload { to_method_e: None, from_method_ed: None, to_method_c: None, from_method_cd: None };
    assert_eq!(none.chosen_step(true), None);
    assert_eq!(none.chosen_step(false), None);
    let enc = TransformPayload {
        to_method_e: Some(Box::new(COBS {})),
        from_method_ed: None,
        to_method_c: Some(Box::new(Simple {})),
        from_method_cd: None,
    };
    assert_eq!(enc.chosen_step(true), Some(TransformStep::Encode));
}

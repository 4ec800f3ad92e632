//! Base 64, one of the transforms the service offers.
//!
//! Encoding writes four characters per three input bytes, pads the last
//! group with `=` and ends the text with a NUL byte.  Decoding skips
//! newlines, stops at the first `=`, fails on any byte that is not part of
//! the alphabet (the NUL byte included), and decodes a trailing group of two
//! or three characters into one or two bytes.
use vstd::prelude::*;

verus! {

/// The alphabet character (as an ASCII byte) of a 6-bit value.
pub open spec fn b64_char(v: u32) -> u8 {
    if v < 26 {
        (v + 65) as u8
    } else if v < 52 {
        (v - 26 + 97) as u8
    } else if v < 62 {
        (v - 52 + 48) as u8
    } else if v == 62 {
        43u8
    } else {
        47u8
    }
}

/// What the decoder makes of a byte: its 6-bit value for an alphabet
/// character, 64 for a newline (skipped), 65 for `=` (end of text) and 66
/// for anything else (an error).
pub open spec fn b64_class(b: u8) -> u8 {
    if 65 <= b <= 90 {
        (b - 65) as u8
    } else if 97 <= b <= 122 {
        (b - 97 + 26) as u8
    } else if 48 <= b <= 57 {
        (b - 48 + 52) as u8
    } else if b == 43 {
        62
    } else if b == 47 {
        63
    } else if b == 10 {
        64
    } else if b == 61 {
        65
    } else {
        66
    }
}

/// The 24-bit number made of up to three bytes, first byte highest.
pub open spec fn group_value(s: Seq<u8>) -> u32 {
    ((s[0] as u32) << 16u32) | (if s.len() > 1 {
        (s[1] as u32) << 8u32
    } else {
        0u32
    }) | (if s.len() > 2 {
        s[2] as u32
    } else {
        0u32
    })
}

/// The characters for the first group (up to three bytes) of `s`: two, and
/// one more for each byte past the first.
pub open spec fn group_chars(s: Seq<u8>) -> Seq<u8> {
    let n = group_value(s);
    seq![b64_char((n >> 18u32) & 63), b64_char((n >> 12u32) & 63)] + (if s.len() > 1 {
        seq![b64_char((n >> 6u32) & 63)]
    } else {
        Seq::empty()
    }) + (if s.len() > 2 {
        seq![b64_char(n & 63)]
    } else {
        Seq::empty()
    })
}

/// The characters for all groups of `s`, without padding.
pub open spec fn encode_groups(s: Seq<u8>) -> Seq<u8>
    decreases s.len(),
{
    if s.len() == 0 {
        Seq::empty()
    } else if s.len() <= 3 {
        group_chars(s)
    } else {
        group_chars(s) + encode_groups(s.skip(3))
    }
}

/// The padding for an input of `len` bytes: `=` for each byte the last
/// group is short of three.
pub open spec fn padding(len: nat) -> Seq<u8> {
    if len % 3 == 1 {
        seq![61u8, 61u8]
    } else if len % 3 == 2 {
        seq![61u8]
    } else {
        Seq::empty()
    }
}

/// The encoding of `s`: the groups, the padding and a closing NUL byte.
pub open spec fn b64_encode(s: Seq<u8>) -> Seq<u8> {
    encode_groups(s) + padding(s.len()) + seq![0u8]
}

/// The three bytes held in a 24-bit number.
pub open spec fn three_bytes(buf: u32) -> Seq<u8> {
    seq![((buf >> 16u32) & 255) as u8, ((buf >> 8u32) & 255) as u8, (buf & 255) as u8]
}

/// The bytes held in an unfinished group of `count` characters.
pub open spec fn tail_bytes(count: u8, buf: u32) -> Seq<u8> {
    if count == 3 {
        seq![((buf >> 10u32) & 255) as u8, ((buf >> 2u32) & 255) as u8]
    } else if count == 2 {
        seq![((buf >> 4u32) & 255) as u8]
    } else {
        Seq::empty()
    }
}

/// Decoding of `s` from a state where `count` characters of the current
/// group have gone into `buf`: the bytes it writes, and whether it ends
/// without error.  On an error the bytes written before it stay.
pub open spec fn decode_from(s: Seq<u8>, count: u8, buf: u32) -> (Seq<u8>, bool)
    decreases s.len(),
{
    if s.len() == 0 {
        (tail_bytes(count, buf), true)
    } else {
        let c = b64_class(s[0]);
        if c == 64 {
            decode_from(s.drop_first(), count, buf)
        } else if c == 65 {
            (tail_bytes(count, buf), true)
        } else if c == 66 {
            (Seq::empty(), false)
        } else {
            let nb = (buf << 6u32) | (c as u32);
            if count + 1 == 4 {
                let r = decode_from(s.drop_first(), 0, 0);
                (three_bytes(nb) + r.0, r.1)
            } else {
                decode_from(s.drop_first(), (count + 1) as u8, nb)
            }
        }
    }
}

/// The bytes that decoding `s` writes.
pub open spec fn b64_decoded(s: Seq<u8>) -> Seq<u8> {
    decode_from(s, 0, 0).0
}

/// Whether decoding `s` ends without error.
pub open spec fn b64_decode_ok(s: Seq<u8>) -> bool {
    decode_from(s, 0, 0).1
}

/// `buf` holds the bits of `count` characters: 6 bits each.
pub open spec fn group_bound(count: u8, buf: u32) -> bool {
    &&& count == 0 ==> buf == 0
    &&& count == 1 ==> buf < 0x40
    &&& count == 2 ==> buf < 0x1000
    &&& count == 3 ==> buf < 0x40000
}

proof fn lemma_group_bound_step(count: u8, buf: u32, c: u8, nb: u32)
    requires
        count < 4,
        group_bound(count, buf),
        c < 64,
        nb == (buf << 6u32) | (c as u32),
    ensures
        count + 1 < 4 ==> group_bound((count + 1) as u8, nb),
        nb < 0x1000000,
{
    let cc = c as u32;
    assert(cc < 64);
    if count == 0 {
        assert(buf == 0 && cc < 64 ==> (buf << 6u32) | cc < 0x40) by (bit_vector);
    } else if count == 1 {
        assert(buf < 0x40 && cc < 64 ==> (buf << 6u32) | cc < 0x1000) by (bit_vector);
    } else if count == 2 {
        assert(buf < 0x1000 && cc < 64 ==> (buf << 6u32) | cc < 0x40000) by (bit_vector);
    } else {
        assert(buf < 0x40000 && cc < 64 ==> (buf << 6u32) | cc < 0x1000000) by (bit_vector);
    }
}

fn b64_char_exec(v: u32) -> (c: u8)
    requires
        v < 64,
    ensures
        c == b64_char(v),
{
    if v < 26 {
        (v + 65) as u8
    } else if v < 52 {
        (v - 26 + 97) as u8
    } else if v < 62 {
        (v - 52 + 48) as u8
    } else if v == 62 {
        43
    } else {
        47
    }
}

fn b64_class_exec(b: u8) -> (c: u8)
    ensures
        c == b64_class(b),
{
    if 65 <= b && b <= 90 {
        b - 65
    } else if 97 <= b && b <= 122 {
        b - 97 + 26
    } else if 48 <= b && b <= 57 {
        b - 48 + 52
    } else if b == 43 {
        62
    } else if b == 47 {
        63
    } else if b == 10 {
        64
    } else if b == 61 {
        65
    } else {
        66
    }
}

/// Appends the encoding of `input` (see `b64_encode`) to `output`.
pub fn base64encode(input: &Vec<u8>, output: &mut Vec<u8>) -> (r: Result<(), std::io::Error>)
    ensures
        final(output)@ == old(output)@ + b64_encode(input@),
        r is Ok,
{
    let in_len: usize = input.len();
    let pad: usize = in_len % 3;
    let mut i: usize = 0;
    let ghost start = output@;
    assert(input@.skip(0) == input@);
    while i < in_len
        invariant
            i <= in_len,
            in_len == input@.len(),
            start + encode_groups(input@) == output@ + encode_groups(input@.skip(i as int)),
        decreases in_len - i,
    {
        let ghost rest = input@.skip(i as int);
        assert(rest.len() == in_len - i && rest[0] == input@[i as int]);
        let b1: u32 = if in_len - i > 1 {
            assert(rest[1] == input@[i + 1]);
            (input[i + 1] as u32) << 8u32
        } else {
            0
        };
        let b2: u32 = if in_len - i > 2 {
            assert(rest[2] == input@[i + 2]);
            input[i + 2] as u32
        } else {
            0
        };
        let n: u32 = ((input[i] as u32) << 16u32) | b1 | b2;
        assert(n == group_value(rest));
        let n0 = (n >> 18u32) & 63;
        let n1 = (n >> 12u32) & 63;
        let n2 = (n >> 6u32) & 63;
        let n3 = n & 63;
        assert(n0 < 64 && n1 < 64 && n2 < 64 && n3 < 64) by (bit_vector)
            requires
                n0 == (n >> 18u32) & 63,
                n1 == (n >> 12u32) & 63,
                n2 == (n >> 6u32) & 63,
                n3 == n & 63,
        ;
        let ghost before = output@;
        output.push(b64_char_exec(n0));
        output.push(b64_char_exec(n1));
        if in_len - i > 1 {
            output.push(b64_char_exec(n2));
        }
        if in_len - i > 2 {
            output.push(b64_char_exec(n3));
        }
        assert(output@ == before + group_chars(rest));
        if in_len - i <= 3 {
            assert(encode_groups(rest) == group_chars(rest));
            i = in_len;
        } else {
            assert(rest.skip(3) == input@.skip(i + 3));
            i = i + 3;
        }
    }
    assert(input@.skip(in_len as int).len() == 0);
    if pad > 0 {
        output.push(61);
        if pad == 1 {
            output.push(61);
        }
    }
    output.push(0);
    assert(output@ == start + b64_encode(input@));
    Ok(())
}

/// Appends the bytes that decoding `input` writes (see `decode_from`) to
/// `output`; the result is an error exactly when decoding meets a byte
/// outside the alphabet before the end of the text.
pub fn base64decode(input: &Vec<u8>, output: &mut Vec<u8>) -> (r: Result<(), std::io::Error>)
    ensures
        final(output)@ == old(output)@ + b64_decoded(input@),
        r is Ok == b64_decode_ok(input@),
{
    let in_len: usize = input.len();
    let mut i: usize = 0;
    let mut iter: u8 = 0;
    let mut buf: u32 = 0;
    let ghost start = output@;
    assert(input@.skip(0) == input@);
    while i < in_len
        invariant
            i <= in_len,
            in_len == input@.len(),
            iter < 4,
            group_bound(iter, buf),
            start == old(output)@,
            start + b64_decoded(input@) == output@ + decode_from(input@.skip(i as int), iter, buf).0,
            b64_decode_ok(input@) == decode_from(input@.skip(i as int), iter, buf).1,
        decreases in_len - i,
    {
        let ghost rest = input@.skip(i as int);
        assert(rest.len() == in_len - i && rest[0] == input@[i as int]);
        assert(rest.drop_first() == input@.skip(i + 1));
        let c = b64_class_exec(input[i]);
        if c == 64 {
            i = i + 1;
        } else if c == 65 {
            assert(input@.skip(in_len as int).len() == 0);
            i = in_len;
        } else if c == 66 {
            assert(b64_class(rest[0]) == 66);
            assert(decode_from(rest, iter, buf) == (Seq::<u8>::empty(), false));
            assert(output@ + Seq::<u8>::empty() == output@);
            return Err(crate::primitives::other_io_error("Invalid bytes for b64 decoding"));
        } else {
            let nb = (buf << 6u32) | (c as u32);
            proof {
                lemma_group_bound_step(iter, buf, c, nb);
            }
            buf = nb;
            iter = iter + 1;
            if iter == 4 {
                let ghost before = output@;
                output.push(((buf >> 16u32) & 255) as u8);
                output.push(((buf >> 8u32) & 255) as u8);
                output.push((buf & 255) as u8);
                assert(output@ == before + three_bytes(buf));
                buf = 0;
                iter = 0;
            }
            i = i + 1;
        }
    }
    assert(input@.skip(in_len as int).len() == 0);
    let ghost before = output@;
    if iter == 3 {
        output.push(((buf >> 10u32) & 255) as u8);
        output.push(((buf >> 2u32) & 255) as u8);
    } else if iter == 2 {
        output.push(((buf >> 4u32) & 255) as u8);
    }
    assert(output@ == before + tail_bytes(iter, buf));
    Ok(())
}

/// The base 64 transform: encodes and decodes.
#[derive(Copy, Clone)]
pub struct B64 {}

impl crate::transform::_Encode for B64 {
    /// The payload is replaced with its encoding; it never fails.
    open spec fn encode_rel(&self, before: Seq<u8>, after: Seq<u8>, ok: bool) -> bool {
        after == b64_encode(before) && ok
    }

    fn _encode(&self, payload: &mut Vec<u8>) -> (r: Result<(), std::io::Error>) {
        let mut new_vec: Vec<u8> = Vec::new();
        let res = base64encode(payload, &mut new_vec);
        payload.clear();
        *payload = new_vec;
        res
    }
}

impl crate::transform::_Decode for B64 {
    /// The payload is replaced with the bytes its decoding writes (all of
    /// them, or those before an error); it fails when decoding does.
    open spec fn decode_rel(&self, before: Seq<u8>, after: Seq<u8>, ok: bool) -> bool {
        after == b64_decoded(before) && ok == b64_decode_ok(before)
    }

    fn _decode(&self, payload: &mut Vec<u8>) -> (r: Result<(), std::io::Error>) {
        let mut new_vec: Vec<u8> = Vec::new();
        let res = base64decode(payload, &mut new_vec);
        payload.clear();
        *payload = new_vec;
        res
    }
}

} // verus!

verus! {

proof fn lemma_class_of_char(v: u32)
    requires
        v < 64,
    ensures
        b64_class(b64_char(v)) == v,
{
}

/// Decoding four alphabet characters from a fresh group.
proof fn lemma_decode_four(c0: u8, c1: u8, c2: u8, c3: u8, w: Seq<u8>)
    requires
        b64_class(c0) < 64,
        b64_class(c1) < 64,
        b64_class(c2) < 64,
        b64_class(c3) < 64,
    ensures
        ({
            let b0 = (0u32 << 6u32) | (b64_class(c0) as u32);
            let b1 = (b0 << 6u32) | (b64_class(c1) as u32);
            let b2 = (b1 << 6u32) | (b64_class(c2) as u32);
            let b3 = (b2 << 6u32) | (b64_class(c3) as u32);
            let r = decode_from(w, 0, 0);
            decode_from(seq![c0, c1, c2, c3] + w, 0, 0) == (three_bytes(b3) + r.0, r.1)
        }),
{
    let s0 = seq![c0, c1, c2, c3] + w;
    let s1 = seq![c1, c2, c3] + w;
    let s2 = seq![c2, c3] + w;
    let s3 = seq![c3] + w;
    assert(s0.drop_first() == s1);
    assert(s1.drop_first() == s2);
    assert(s2.drop_first() == s3);
    assert(s3.drop_first() == w);
    assert(s0[0] == c0 && s1[0] == c1 && s2[0] == c2 && s3[0] == c3);
    let b0 = (0u32 << 6u32) | (b64_class(c0) as u32);
    let b1 = (b0 << 6u32) | (b64_class(c1) as u32);
    let b2 = (b1 << 6u32) | (b64_class(c2) as u32);
    let b3 = (b2 << 6u32) | (b64_class(c3) as u32);
    assert(decode_from(s0, 0, 0) == decode_from(s1, 1, b0));
    assert(decode_from(s1, 1, b0) == decode_from(s2, 2, b1));
    assert(decode_from(s2, 2, b1) == decode_from(s3, 3, b2));
    let r = decode_from(w, 0, 0);
    assert(decode_from(s3, 3, b2) == (three_bytes(b3) + r.0, r.1));
}

/// The bits of a full group come back out of its four characters.
proof fn lemma_full_group_bits(a: u8, b: u8, c: u8)
    ensures
        ({
            let n = ((a as u32) << 16u32) | ((b as u32) << 8u32) | (c as u32);
            let v0 = (n >> 18u32) & 63;
            let v1 = (n >> 12u32) & 63;
            let v2 = (n >> 6u32) & 63;
            let v3 = n & 63;
            let b0 = (0u32 << 6u32) | v0;
            let b1 = (b0 << 6u32) | v1;
            let b2 = (b1 << 6u32) | v2;
            let b3 = (b2 << 6u32) | v3;
            &&& v0 < 64 && v1 < 64 && v2 < 64 && v3 < 64
            &&& ((b3 >> 16u32) & 255) as u8 == a
            &&& ((b3 >> 8u32) & 255) as u8 == b
            &&& (b3 & 255) as u8 == c
        }),
{
    let aa = a as u32;
    let bb = b as u32;
    let cc = c as u32;
    assert(aa < 256 && bb < 256 && cc < 256);
    assert(aa < 256 && bb < 256 && cc < 256 ==> {
        let n = (aa << 16u32) | (bb << 8u32) | cc;
        let v0 = (n >> 18u32) & 63;
        let v1 = (n >> 12u32) & 63;
        let v2 = (n >> 6u32) & 63;
        let v3 = n & 63;
        let b0 = (0u32 << 6u32) | v0;
        let b1 = (b0 << 6u32) | v1;
        let b2 = (b1 << 6u32) | v2;
        let b3 = (b2 << 6u32) | v3;
        &&& v0 < 64 && v1 < 64 && v2 < 64 && v3 < 64
        &&& (b3 >> 16u32) & 255 == aa
        &&& (b3 >> 8u32) & 255 == bb
        &&& b3 & 255 == cc
    }) by (bit_vector);
}

/// The bits of a one-byte last group come back out of its two characters.
proof fn lemma_one_byte_bits(a: u8)
    ensures
        ({
            let n = (a as u32) << 16u32;
            let v0 = (n >> 18u32) & 63;
            let v1 = (n >> 12u32) & 63;
            let b0 = (0u32 << 6u32) | v0;
            let b1 = (b0 << 6u32) | v1;
            &&& v0 < 64 && v1 < 64
            &&& ((b1 >> 4u32) & 255) as u8 == a
        }),
{
    let aa = a as u32;
    assert(aa < 256);
    assert(aa < 256 ==> {
        let n = aa << 16u32;
        let v0 = (n >> 18u32) & 63;
        let v1 = (n >> 12u32) & 63;
        let b0 = (0u32 << 6u32) | v0;
        let b1 = (b0 << 6u32) | v1;
        &&& v0 < 64 && v1 < 64
        &&& (b1 >> 4u32) & 255 == aa
    }) by (bit_vector);
}

/// The bits of a two-byte last group come back out of its three characters.
proof fn lemma_two_byte_bits(a: u8, b: u8)
    ensures
        ({
            let n = ((a as u32) << 16u32) | ((b as u32) << 8u32);
            let v0 = (n >> 18u32) & 63;
            let v1 = (n >> 12u32) & 63;
            let v2 = (n >> 6u32) & 63;
            let b0 = (0u32 << 6u32) | v0;
            let b1 = (b0 << 6u32) | v1;
            let b2 = (b1 << 6u32) | v2;
            &&& v0 < 64 && v1 < 64 && v2 < 64
            &&& ((b2 >> 10u32) & 255) as u8 == a
            &&& ((b2 >> 2u32) & 255) as u8 == b
        }),
{
    let aa = a as u32;
    let bb = b as u32;
    assert(aa < 256 && bb < 256);
    assert(aa < 256 && bb < 256 ==> {
        let n = (aa << 16u32) | (bb << 8u32);
        let v0 = (n >> 18u32) & 63;
        let v1 = (n >> 12u32) & 63;
        let v2 = (n >> 6u32) & 63;
        let b0 = (0u32 << 6u32) | v0;
        let b1 = (b0 << 6u32) | v1;
        let b2 = (b1 << 6u32) | v2;
        &&& v0 < 64 && v1 < 64 && v2 < 64
        &&& (b2 >> 10u32) & 255 == aa
        &&& (b2 >> 2u32) & 255 == bb
    }) by (bit_vector);
}

/// Decoding the characters of whole groups gives their bytes back, and
/// carries on with what follows.
proof fn lemma_decode_full_groups(x: Seq<u8>, t: Seq<u8>)
    requires
        x.len() % 3 == 0,
    ensures
        decode_from(encode_groups(x) + t, 0, 0) == (x + decode_from(t, 0, 0).0, decode_from(
            t,
            0,
            0,
        ).1),
    decreases x.len(),
{
    if x.len() == 0 {
        assert(encode_groups(x) + t == t);
        assert(x + decode_from(t, 0, 0).0 == decode_from(t, 0, 0).0);
    } else {
        let a = x[0];
        let b = x[1];
        let c = x[2];
        let n = group_value(x);
        assert(n == ((a as u32) << 16u32) | ((b as u32) << 8u32) | (c as u32));
        lemma_full_group_bits(a, b, c);
        let v0 = (n >> 18u32) & 63;
        let v1 = (n >> 12u32) & 63;
        let v2 = (n >> 6u32) & 63;
        let v3 = n & 63;
        lemma_class_of_char(v0);
        lemma_class_of_char(v1);
        lemma_class_of_char(v2);
        lemma_class_of_char(v3);
        let g = group_chars(x);
        assert(g == seq![b64_char(v0), b64_char(v1), b64_char(v2), b64_char(v3)]);
        let rest = x.skip(3);
        let w = encode_groups(rest) + t;
        if x.len() > 3 {
            assert(encode_groups(x) == g + encode_groups(rest));
        } else {
            assert(encode_groups(x) == g);
            assert(encode_groups(rest) == Seq::<u8>::empty());
        }
        assert(encode_groups(x) + t == seq![b64_char(v0), b64_char(v1), b64_char(v2), b64_char(v3)] + w);
        lemma_decode_four(b64_char(v0), b64_char(v1), b64_char(v2), b64_char(v3), w);
        lemma_decode_full_groups(rest, t);
        assert(three_bytes((((((0u32 << 6u32) | v0) << 6u32 | v1) << 6u32) | v2) << 6u32 | v3) == seq![a, b, c]);
        assert(x == seq![a, b, c] + rest);
    }
}

/// The characters of `x` are those of its whole groups followed by those of
/// its last, short group.
proof fn lemma_encode_groups_split(x: Seq<u8>, k: int)
    requires
        0 <= k <= x.len(),
        k % 3 == 0,
    ensures
        encode_groups(x) == encode_groups(x.take(k)) + encode_groups(x.skip(k)),
    decreases k,
{
    if k == 0 {
        assert(x.take(0) == Seq::<u8>::empty());
        assert(x.skip(0) == x);
        assert(encode_groups(x.take(0)) == Seq::<u8>::empty());
        assert(encode_groups(x) == Seq::<u8>::empty() + encode_groups(x));
    } else {
        let full = x.take(k);
        assert(group_chars(full) == group_chars(x));
        if x.len() == 3 {
            assert(full == x);
            assert(x.skip(k).len() == 0);
            assert(encode_groups(x) == encode_groups(x) + Seq::<u8>::empty());
        } else {
            lemma_encode_groups_split(x.skip(3), k - 3);
            assert(x.skip(3).take(k - 3) == full.skip(3));
            assert(x.skip(3).skip(k - 3) == x.skip(k));
            if k == 3 {
                assert(encode_groups(full) == group_chars(full));
                assert(full.skip(3).len() == 0);
                assert(encode_groups(full.skip(3)) == Seq::<u8>::empty());
                assert(encode_groups(x.skip(3)) == Seq::<u8>::empty() + encode_groups(x.skip(k)));
            } else {
                assert(encode_groups(full) == group_chars(full) + encode_groups(full.skip(3)));
            }
        }
    }
}

/// Decoding the characters of the last, short group, its padding and the
/// closing NUL byte.
proof fn lemma_decode_last_group(rem: Seq<u8>)
    requires
        rem.len() < 3,
    ensures
        decode_from(encode_groups(rem) + padding(rem.len()) + seq![0u8], 0, 0) == (
            rem,
            rem.len() != 0,
        ),
{
    if rem.len() == 0 {
        let s = encode_groups(rem) + padding(rem.len()) + seq![0u8];
        assert(s == seq![0u8]);
        assert(s[0] == 0u8);
        assert(b64_class(0u8) == 66);
        assert(decode_from(s, 0, 0) == (Seq::<u8>::empty(), false));
        assert(rem == Seq::<u8>::empty());
    } else if rem.len() == 1 {
        let a = rem[0];
        lemma_one_byte_bits(a);
        let n = group_value(rem);
        assert(n == (a as u32) << 16u32) by (bit_vector)
            requires
                n == ((a as u32) << 16u32) | 0u32 | 0u32,
        ;
        let v0 = (n >> 18u32) & 63;
        let v1 = (n >> 12u32) & 63;
        lemma_class_of_char(v0);
        lemma_class_of_char(v1);
        let c0 = b64_char(v0);
        let c1 = b64_char(v1);
        let s = encode_groups(rem) + padding(rem.len()) + seq![0u8];
        assert(s == seq![c0, c1, 61u8, 61u8, 0u8]);
        let s1 = s.drop_first();
        let s2 = s1.drop_first();
        assert(s1 == seq![c1, 61u8, 61u8, 0u8]);
        assert(s2 == seq![61u8, 61u8, 0u8]);
        let b0 = (0u32 << 6u32) | (b64_class(c0) as u32);
        let b1 = (b0 << 6u32) | (b64_class(c1) as u32);
        assert(decode_from(s, 0, 0) == decode_from(s1, 1, b0));
        assert(decode_from(s1, 1, b0) == decode_from(s2, 2, b1));
        assert(decode_from(s2, 2, b1) == (tail_bytes(2, b1), true));
        assert(tail_bytes(2, b1) == seq![a]);
        assert(rem == seq![a]);
    } else {
        let a = rem[0];
        let b = rem[1];
        lemma_two_byte_bits(a, b);
        let n = group_value(rem);
        assert(n == ((a as u32) << 16u32) | ((b as u32) << 8u32)) by (bit_vector)
            requires
                n == ((a as u32) << 16u32) | ((b as u32) << 8u32) | 0u32,
        ;
        let v0 = (n >> 18u32) & 63;
        let v1 = (n >> 12u32) & 63;
        let v2 = (n >> 6u32) & 63;
        lemma_class_of_char(v0);
        lemma_class_of_char(v1);
        lemma_class_of_char(v2);
        let c0 = b64_char(v0);
        let c1 = b64_char(v1);
        let c2 = b64_char(v2);
        let s = encode_groups(rem) + padding(rem.len()) + seq![0u8];
        assert(s == seq![c0, c1, c2, 61u8, 0u8]);
        let s1 = s.drop_first();
        let s2 = s1.drop_first();
        let s3 = s2.drop_first();
        assert(s1 == seq![c1, c2, 61u8, 0u8]);
        assert(s2 == seq![c2, 61u8, 0u8]);
        assert(s3 == seq![61u8, 0u8]);
        let b0 = (0u32 << 6u32) | (b64_class(c0) as u32);
        let b1 = (b0 << 6u32) | (b64_class(c1) as u32);
        let b2 = (b1 << 6u32) | (b64_class(c2) as u32);
        assert(decode_from(s, 0, 0) == decode_from(s1, 1, b0));
        assert(decode_from(s1, 1, b0) == decode_from(s2, 2, b1));
        assert(decode_from(s2, 2, b1) == decode_from(s3, 3, b2));
        assert(decode_from(s3, 3, b2) == (tail_bytes(3, b2), true));
        assert(tail_bytes(3, b2) == seq![a, b]);
        assert(rem == seq![a, b]);
    }
}

/// Decoding what encoding writes gives the input back.  Decoding reports an
/// error exactly when the input's length is a multiple of three: the text
/// then ends in the NUL byte with no `=` before it, and the NUL byte is not
/// part of the alphabet (the bytes written before it are still the input).
pub proof fn lemma_b64_roundtrip(x: Seq<u8>)
    ensures
        b64_decoded(b64_encode(x)) == x,
        b64_decode_ok(b64_encode(x)) == (x.len() % 3 != 0),
{
    let k = x.len() - x.len() % 3;
    let full = x.take(k);
    let rem = x.skip(k);
    lemma_encode_groups_split(x, k);
    let t = encode_groups(rem) + padding(rem.len()) + seq![0u8];
    assert(padding(rem.len()) == padding(x.len()));
    assert(b64_encode(x) == encode_groups(full) + t);
    lemma_decode_full_groups(full, t);
    lemma_decode_last_group(rem);
    assert(full + rem == x);
}

/// The alphabet is the standard one: the values 0 to 25 are the capital
/// letters `A` to `Z` in order, 26 to 51 the small letters `a` to `z`, 52 to
/// 61 the digits `0` to `9`, 62 is `+` and 63 is `/`.
pub proof fn lemma_b64_alphabet(v: u32)
    requires
        v < 64,
    ensures
        v < 26 ==> b64_char(v) as int == 'A' as int + v,
        26 <= v < 52 ==> b64_char(v) as int == 'a' as int + (v - 26),
        52 <= v < 62 ==> b64_char(v) as int == '0' as int + (v - 52),
        v == 62 ==> b64_char(v) as int == '+' as int,
        v == 63 ==> b64_char(v) as int == '/' as int,
{
}

/// The decoder reads each alphabet character as the value it stands for,
/// skips a newline, stops at `=`, and refuses every other byte.
pub proof fn lemma_b64_class_reads_alphabet(b: u8)
    ensures
        b64_class(b) < 64 ==> b64_char(b64_class(b) as u32) == b,
        forall|v: u32| v < 64 && #[trigger] b64_char(v) == b ==> b64_class(b) == v,
        b == '\n' as u8 ==> b64_class(b) == 64,
        b == '=' as u8 ==> b64_class(b) == 65,
        b64_class(b) <= 66,
        b64_class(b) == 66 <==> (b != '\n' as u8 && b != '=' as u8 && forall|v: u32|
            v < 64 ==> #[trigger] b64_char(v) != b),
{
    assert forall|v: u32| v < 64 && #[trigger] b64_char(v) == b implies b64_class(b) == v by {
        lemma_class_of_char(v);
    }
    if b64_class(b) < 64 {
        lemma_class_of_char(b64_class(b) as u32);
    }
}

/// The end of the text ends decoding as `=` does: the bytes of an
/// unfinished group are written in both cases, so decoding a text gives what
/// decoding it followed by `=` gives.
proof fn lemma_decode_end_as_pad(s: Seq<u8>, count: u8, buf: u32)
    ensures
        decode_from(s + seq![61u8], count, buf) == decode_from(s, count, buf),
    decreases s.len(),
{
    let t = s + seq![61u8];
    if s.len() == 0 {
        assert(t == seq![61u8]);
        assert(t.drop_first().len() == 0);
    } else {
        assert(t[0] == s[0]);
        assert(t.drop_first() == s.drop_first() + seq![61u8]);
        let c = b64_class(s[0]);
        if c == 64 {
            lemma_decode_end_as_pad(s.drop_first(), count, buf);
        } else if c < 64 {
            let nb = (buf << 6u32) | (c as u32);
            if count + 1 == 4 {
                lemma_decode_end_as_pad(s.drop_first(), 0, 0);
            } else {
                lemma_decode_end_as_pad(s.drop_first(), (count + 1) as u8, nb);
            }
        }
    }
}

/// A text decodes as it does with `=` after it: at the end of the input the
/// bytes of an unfinished group of two or three characters are written just
/// as at `=`.
pub proof fn lemma_b64_end_of_input_is_pad(s: Seq<u8>)
    ensures
        b64_decoded(s + seq!['=' as u8]) == b64_decoded(s),
        b64_decode_ok(s + seq!['=' as u8]) == b64_decode_ok(s),
{
    lemma_decode_end_as_pad(s, 0, 0);
}

proof fn lemma_decode_stops_at_pad(a: Seq<u8>, b: Seq<u8>, count: u8, buf: u32)
    ensures
        decode_from(a + seq![61u8] + b, count, buf) == decode_from(a, count, buf),
    decreases a.len(),
{
    let t = a + seq![61u8] + b;
    if a.len() == 0 {
        assert(t[0] == 61u8);
    } else {
        assert(t[0] == a[0]);
        assert(t.drop_first() == a.drop_first() + seq![61u8] + b);
        let c = b64_class(a[0]);
        if c == 64 {
            lemma_decode_stops_at_pad(a.drop_first(), b, count, buf);
        } else if c < 64 {
            let nb = (buf << 6u32) | (c as u32);
            if count + 1 == 4 {
                lemma_decode_stops_at_pad(a.drop_first(), b, 0, 0);
            } else {
                lemma_decode_stops_at_pad(a.drop_first(), b, (count + 1) as u8, nb);
            }
        }
    }
}

/// Decoding stops at the first `=`: what follows it is not read, so a text
/// with `=` and anything after it decodes as the text before the `=` does.
pub proof fn lemma_b64_stops_at_pad(a: Seq<u8>, b: Seq<u8>)
    ensures
        b64_decoded(a + seq!['=' as u8] + b) == b64_decoded(a),
        b64_decode_ok(a + seq!['=' as u8] + b) == b64_decode_ok(a),
{
    lemma_decode_stops_at_pad(a, b, 0, 0);
}

proof fn lemma_decode_skips_newline(a: Seq<u8>, b: Seq<u8>, count: u8, buf: u32)
    ensures
        decode_from(a + seq![10u8] + b, count, buf) == decode_from(a + b, count, buf),
    decreases a.len(),
{
    let t = a + seq![10u8] + b;
    let u = a + b;
    if a.len() == 0 {
        assert(t[0] == 10u8);
        assert(t.drop_first() == u);
    } else {
        assert(t[0] == a[0] && u[0] == a[0]);
        assert(t.drop_first() == a.drop_first() + seq![10u8] + b);
        assert(u.drop_first() == a.drop_first() + b);
        let c = b64_class(a[0]);
        if c == 64 {
            lemma_decode_skips_newline(a.drop_first(), b, count, buf);
        } else if c < 64 {
            let nb = (buf << 6u32) | (c as u32);
            if count + 1 == 4 {
                lemma_decode_skips_newline(a.drop_first(), b, 0, 0);
            } else {
                lemma_decode_skips_newline(a.drop_first(), b, (count + 1) as u8, nb);
            }
        }
    }
}

/// Newlines are skipped: taking a newline out of a text, wherever it
/// stands, does not change what decoding it gives.
pub proof fn lemma_b64_skips_newlines(a: Seq<u8>, b: Seq<u8>)
    ensures
        b64_decoded(a + seq!['\n' as u8] + b) == b64_decoded(a + b),
        b64_decode_ok(a + seq!['\n' as u8] + b) == b64_decode_ok(a + b),
{
    lemma_decode_skips_newline(a, b, 0, 0);
}

proof fn lemma_decode_fails_at_invalid(a: Seq<u8>, x: u8, b: Seq<u8>, count: u8, buf: u32)
    requires
        b64_class(x) == 66,
        forall|i: int| 0 <= i < a.len() ==> #[trigger] b64_class(a[i]) != 65,
    ensures
        !decode_from(a + seq![x] + b, count, buf).1,
    decreases a.len(),
{
    let t = a + seq![x] + b;
    if a.len() == 0 {
        assert(t[0] == x);
    } else {
        assert(t[0] == a[0]);
        assert(t.drop_first() == a.drop_first() + seq![x] + b);
        assert(b64_class(a[0]) != 65);
        let ad = a.drop_first();
        assert forall|i: int| 0 <= i < ad.len() implies #[trigger] b64_class(ad[i]) != 65 by {
            assert(ad[i] == a[i + 1]);
        }
        let c = b64_class(a[0]);
        if c == 64 {
            lemma_decode_fails_at_invalid(ad, x, b, count, buf);
        } else if c < 64 {
            let nb = (buf << 6u32) | (c as u32);
            if count + 1 == 4 {
                lemma_decode_fails_at_invalid(ad, x, b, 0, 0);
            } else {
                lemma_decode_fails_at_invalid(ad, x, b, (count + 1) as u8, nb);
            }
        }
    }
}

/// A byte that is neither an alphabet character, a newline nor `=` makes
/// decoding fail when no `=` comes before it.
pub proof fn lemma_b64_fails_on_foreign_byte(a: Seq<u8>, x: u8, b: Seq<u8>)
    requires
        x != '\n' as u8,
        x != '=' as u8,
        forall|v: u32| v < 64 ==> #[trigger] b64_char(v) != x,
        forall|i: int| 0 <= i < a.len() ==> #[trigger] a[i] != '=' as u8,
    ensures
        !b64_decode_ok(a + seq![x] + b),
{
    lemma_b64_class_reads_alphabet(x);
    assert forall|i: int| 0 <= i < a.len() implies #[trigger] b64_class(a[i]) != 65 by {
        assert(a[i] != 61u8);
    }
    lemma_decode_fails_at_invalid(a, x, b, 0, 0);
}

/// The four characters of a whole group of bytes `a`, `b`, `c`: the top six
/// bits of `a`; the low two bits of `a` with the top four of `b`; the low
/// four bits of `b` with the top two of `c`; the low six bits of `c`.
pub open spec fn quad_chars(a: u8, b: u8, c: u8) -> Seq<u8> {
    seq![
        b64_char((a as u32) >> 2u32),
        b64_char((((a as u32) & 3) << 4u32) | ((b as u32) >> 4u32)),
        b64_char((((b as u32) & 15) << 2u32) | ((c as u32) >> 6u32)),
        b64_char((c as u32) & 63),
    ]
}

proof fn lemma_group_bits(a: u8, b: u8, c: u8)
    ensures
        ({
            let n3 = ((a as u32) << 16u32) | ((b as u32) << 8u32) | (c as u32);
            let n2 = ((a as u32) << 16u32) | ((b as u32) << 8u32);
            let n1 = (a as u32) << 16u32;
            &&& (n3 >> 18u32) & 63 == (a as u32) >> 2u32
            &&& (n3 >> 12u32) & 63 == (((a as u32) & 3) << 4u32) | ((b as u32) >> 4u32)
            &&& (n3 >> 6u32) & 63 == (((b as u32) & 15) << 2u32) | ((c as u32) >> 6u32)
            &&& n3 & 63 == (c as u32) & 63
            &&& (n2 >> 18u32) & 63 == (a as u32) >> 2u32
            &&& (n2 >> 12u32) & 63 == (((a as u32) & 3) << 4u32) | ((b as u32) >> 4u32)
            &&& (n2 >> 6u32) & 63 == ((b as u32) & 15) << 2u32
            &&& (n1 >> 18u32) & 63 == (a as u32) >> 2u32
            &&& (n1 >> 12u32) & 63 == ((a as u32) & 3) << 4u32
        }),
{
    let aa = a as u32;
    let bb = b as u32;
    let cc = c as u32;
    assert(aa < 256 && bb < 256 && cc < 256);
    assert(aa < 256 && bb < 256 && cc < 256 ==> {
        let n3 = (aa << 16u32) | (bb << 8u32) | cc;
        let n2 = (aa << 16u32) | (bb << 8u32);
        let n1 = aa << 16u32;
        &&& (n3 >> 18u32) & 63 == aa >> 2u32
        &&& (n3 >> 12u32) & 63 == ((aa & 3) << 4u32) | (bb >> 4u32)
        &&& (n3 >> 6u32) & 63 == ((bb & 15) << 2u32) | (cc >> 6u32)
        &&& n3 & 63 == cc & 63
        &&& (n2 >> 18u32) & 63 == aa >> 2u32
        &&& (n2 >> 12u32) & 63 == ((aa & 3) << 4u32) | (bb >> 4u32)
        &&& (n2 >> 6u32) & 63 == (bb & 15) << 2u32
        &&& (n1 >> 18u32) & 63 == aa >> 2u32
        &&& (n1 >> 12u32) & 63 == (aa & 3) << 4u32
    }) by (bit_vector);
}

proof fn lemma_encode_groups_len(y: Seq<u8>)
    ensures
        encode_groups(y).len() == (y.len() / 3) * 4 + (if y.len() % 3 == 0 {
            0
        } else {
            y.len() % 3 + 1
        }),
    decreases y.len(),
{
    if y.len() > 3 {
        lemma_encode_groups_len(y.skip(3));
    }
}

/// Encoding writes each whole group of three bytes of the input as the four
/// characters of its bits, six at a time (see `quad_chars`): group `k` of
/// the input is characters `4k` to `4k + 3` of the text.
pub proof fn lemma_b64_encode_groups(x: Seq<u8>, k: int)
    requires
        0 <= k,
        3 * k + 3 <= x.len(),
    ensures
        b64_encode(x).subrange(4 * k, 4 * k + 4) == quad_chars(x[3 * k], x[3 * k + 1], x[3 * k + 2]),
{
    let j = 3 * k;
    assert(j % 3 == 0 && j / 3 == k) by (nonlinear_arith)
        requires
            j == 3 * k,
            k >= 0,
    ;
    lemma_encode_groups_split(x, j);
    let head = x.take(j);
    let rest = x.skip(j);
    lemma_encode_groups_len(head);
    assert(encode_groups(head).len() == 4 * k);
    let a = rest[0];
    let b = rest[1];
    let c = rest[2];
    assert(a == x[j] && b == x[j + 1] && c == x[j + 2]);
    lemma_group_bits(a, b, c);
    let g = group_chars(rest);
    assert(group_value(rest) == ((a as u32) << 16u32) | ((b as u32) << 8u32) | (c as u32));
    assert(g == quad_chars(a, b, c));
    if rest.len() > 3 {
        assert(encode_groups(rest) == g + encode_groups(rest.skip(3)));
    } else {
        assert(encode_groups(rest) == g);
    }
    let e = b64_encode(x);
    assert(e == encode_groups(head) + encode_groups(rest) + padding(x.len()) + seq![0u8]);
    assert forall|i: int| 0 <= i < 4 implies #[trigger] e.subrange(4 * k, 4 * k + 4)[i] == g[i] by {
        assert(e[4 * k + i] == encode_groups(rest)[i]);
    }
    assert(e.subrange(4 * k, 4 * k + 4) =~= g);
}

/// The text ends with the characters of the last, short group of the input
/// (if there is one), its `=` padding and a NUL byte: for one byte `a` left
/// over, the top six bits of `a`, its low two bits, `==`; for two bytes `a`,
/// `b`, the top six bits of `a`, its low two bits with the top four of `b`,
/// the low four bits of `b`, `=`.  Its length is four characters for each
/// group begun, and one for the NUL byte.
pub proof fn lemma_b64_encode_end(x: Seq<u8>)
    ensures
        ({
            let e = b64_encode(x);
            let m = ((x.len() / 3) * 4) as int;
            let l = x.len() as int;
            &&& e.len() == (if x.len() % 3 == 0 {
                m + 1
            } else {
                m + 5
            })
            &&& e.last() == 0u8
            &&& x.len() % 3 == 1 ==> e.subrange(m, m + 4) == seq![
                b64_char((x[l - 1] as u32) >> 2u32),
                b64_char(((x[l - 1] as u32) & 3) << 4u32),
                '=' as u8,
                '=' as u8,
            ]
            &&& x.len() % 3 == 2 ==> e.subrange(m, m + 4) == seq![
                b64_char((x[l - 2] as u32) >> 2u32),
                b64_char((((x[l - 2] as u32) & 3) << 4u32) | ((x[l - 1] as u32) >> 4u32)),
                b64_char(((x[l - 1] as u32) & 15) << 2u32),
                '=' as u8,
            ]
        }),
{
    lemma_encode_groups_len(x);
    let e = b64_encode(x);
    let m = ((x.len() / 3) * 4) as int;
    let l = x.len() as int;
    let r = x.len() % 3;
    if r != 0 {
        let j = l - r;
        assert(j % 3 == 0 && j == (x.len() / 3) * 3);
        lemma_encode_groups_split(x, j);
        let head = x.take(j);
        let rest = x.skip(j);
        lemma_encode_groups_len(head);
        assert(head.len() / 3 == x.len() / 3);
        assert(encode_groups(head).len() == m);
        assert(encode_groups(rest) == group_chars(rest));
        assert(e == encode_groups(head) + group_chars(rest) + padding(x.len()) + seq![0u8]);
        if r == 1 {
            let a = rest[0];
            assert(a == x[l - 1]);
            lemma_group_bits(a, 0, 0);
            assert(group_value(rest) == ((a as u32) << 16u32) | 0u32 | 0u32);
            assert(((a as u32) << 16u32) | 0u32 | 0u32 == (a as u32) << 16u32) by (bit_vector);
            let t = seq![
                b64_char((a as u32) >> 2u32),
                b64_char(((a as u32) & 3) << 4u32),
                '=' as u8,
                '=' as u8,
            ];
            assert(group_chars(rest) + padding(x.len()) =~= t);
            assert forall|i: int| 0 <= i < 4 implies #[trigger] e.subrange(m, m + 4)[i] == t[i] by {
                assert(e[m + i] == (group_chars(rest) + padding(x.len()))[i]);
            }
            assert(e.subrange(m, m + 4) =~= t);
        } else {
            let a = rest[0];
            let b = rest[1];
            assert(a == x[l - 2] && b == x[l - 1]);
            lemma_group_bits(a, b, 0);
            assert(group_value(rest) == ((a as u32) << 16u32) | ((b as u32) << 8u32) | 0u32);
            assert(((a as u32) << 16u32) | ((b as u32) << 8u32) | 0u32 == ((a as u32) << 16u32) | ((b as u32) << 8u32)) by (bit_vector);
            let t = seq![
                b64_char((a as u32) >> 2u32),
                b64_char((((a as u32) & 3) << 4u32) | ((b as u32) >> 4u32)),
                b64_char(((b as u32) & 15) << 2u32),
                '=' as u8,
            ];
            assert(group_chars(rest) + padding(x.len()) =~= t);
            assert forall|i: int| 0 <= i < 4 implies #[trigger] e.subrange(m, m + 4)[i] == t[i] by {
                assert(e[m + i] == (group_chars(rest) + padding(x.len()))[i]);
            }
            assert(e.subrange(m, m + 4) =~= t);
        }
    }
}

} // verus!

//! Byte stuffing in the manner of COBS (consistent overhead byte stuffing), one
//! of the transforms the service offers.
//!
//! Each zero byte is replaced by a count: one more than the number of
//! non-zero bytes since the previous count.  After 254 non-zero bytes in a
//! row a count of 255 is written as well, and a final count closes the text.
//! The output therefore holds no zero byte.  Unstuffing is not implemented:
//! it yields nothing.
use vstd::prelude::*;

verus! {

/// Stuffing of `s` when the bytes since the last count number `code - 1`.
pub open spec fn stuff_from(s: Seq<u8>, code: u8) -> Seq<u8>
    decreases s.len(),
{
    if s.len() == 0 {
        seq![code]
    } else if s[0] == 0 {
        seq![code] + stuff_from(s.drop_first(), 1)
    } else if code + 1 == 255 {
        seq![s[0], 255u8] + stuff_from(s.drop_first(), 1)
    } else {
        seq![s[0]] + stuff_from(s.drop_first(), (code + 1) as u8)
    }
}

/// The stuffing of `s`.
pub open spec fn cobs_stuff(s: Seq<u8>) -> Seq<u8> {
    stuff_from(s, 1)
}

/// Appends the stuffing of `src` to `dst`; never fails.
pub fn stuffdata(src: &Vec<u8>, dst: &mut Vec<u8>) -> (r: Result<(), ()>)
    ensures
        final(dst)@ == old(dst)@ + cobs_stuff(src@),
        r is Ok,
{
    let src_len = src.len();
    let mut search_len: u8 = 1;
    let ghost start = dst@;
    let mut i: usize = 0;
    assert(src@.skip(0) == src@);
    while i < src_len
        invariant
            i <= src_len,
            src_len == src@.len(),
            1 <= search_len < 255,
            start + cobs_stuff(src@) == dst@ + stuff_from(src@.skip(i as int), search_len),
        decreases src_len - i,
    {
        let ghost rest = src@.skip(i as int);
        assert(rest[0] == src@[i as int]);
        assert(rest.drop_first() == src@.skip(i + 1));
        let ghost before = dst@;
        if src[i] == 0 {
            dst.push(search_len);
            search_len = 1;
        } else {
            search_len = search_len + 1;
            dst.push(src[i]);
            if search_len == 0xFF {
                dst.push(search_len);
                search_len = 1;
            }
        }
        i = i + 1;
    }
    assert(src@.skip(src_len as int).len() == 0);
    dst.push(search_len);
    Ok(())
}

/// Unstuffing is not implemented: nothing is appended, and it succeeds.
pub fn unstuffdata(src: &Vec<u8>, dst: &mut Vec<u8>) -> (r: Result<(), ()>)
    ensures
        final(dst)@ == old(dst)@,
        r is Ok,
{
    Ok(())
}

/// No stuffing holds a zero byte.
pub proof fn lemma_stuffing_has_no_zero(s: Seq<u8>, code: u8)
    requires
        1 <= code < 255,
    ensures
        forall|j: int| 0 <= j < stuff_from(s, code).len() ==> #[trigger] stuff_from(s, code)[j] != 0,
    decreases s.len(),
{
    if s.len() > 0 {
        let rest = s.drop_first();
        let (head, next): (Seq<u8>, u8) = if s[0] == 0 {
            (seq![code], 1u8)
        } else if code + 1 == 255 {
            (seq![s[0], 255u8], 1u8)
        } else {
            (seq![s[0]], (code + 1) as u8)
        };
        lemma_stuffing_has_no_zero(rest, next);
        let tail = stuff_from(rest, next);
        assert(stuff_from(s, code) == head + tail);
        assert forall|j: int| 0 <= j < stuff_from(s, code).len() implies #[trigger] stuff_from(
            s,
            code,
        )[j] != 0 by {
            if j >= head.len() {
                assert(stuff_from(s, code)[j] == tail[j - head.len()]);
            }
        }
    }
}

/// Stuffing adds at least one byte: the closing count.
pub proof fn lemma_stuffing_length(s: Seq<u8>, code: u8)
    ensures
        stuff_from(s, code).len() >= s.len() + 1,
    decreases s.len(),
{
    if s.len() > 0 {
        let rest = s.drop_first();
        if s[0] == 0 || code + 1 == 255 {
            lemma_stuffing_length(rest, 1);
        } else {
            lemma_stuffing_length(rest, (code + 1) as u8);
        }
    }
}

/// The stuffing transform.
#[derive(Copy, Clone)]
pub struct COBS {}

impl crate::transform::_Encode for COBS {
    /// The payload is replaced with its stuffing; it never fails.
    open spec fn encode_rel(&self, before: Seq<u8>, after: Seq<u8>, ok: bool) -> bool {
        after == cobs_stuff(before) && ok
    }

    fn _encode(&self, payload: &mut Vec<u8>) -> (r: Result<(), std::io::Error>) {
        let mut new_vec: Vec<u8> = Vec::new();
        let _ = stuffdata(payload, &mut new_vec);
        payload.clear();
        *payload = new_vec;
        Ok(())
    }
}

impl crate::transform::_Decode for COBS {
    /// Unstuffing yields nothing: the payload is left empty; it never fails.
    open spec fn decode_rel(&self, before: Seq<u8>, after: Seq<u8>, ok: bool) -> bool {
        after == Seq::<u8>::empty() && ok
    }

    fn _decode(&self, payload: &mut Vec<u8>) -> (r: Result<(), std::io::Error>) {
        let mut new_vec: Vec<u8> = Vec::new();
        let _ = unstuffdata(payload, &mut new_vec);
        payload.clear();
        *payload = new_vec;
        Ok(())
    }
}

/// Whether `s` holds no zero byte.
pub open spec fn no_zero(s: Seq<u8>) -> bool {
    forall|i: int| 0 <= i < s.len() ==> #[trigger] s[i] != 0
}

proof fn lemma_stuff_segment(a: Seq<u8>, t: Seq<u8>, code: u8)
    requires
        no_zero(a),
        1 <= code,
        code + a.len() < 255,
    ensures
        stuff_from(a + t, code) == a + stuff_from(t, (code + a.len()) as u8),
    decreases a.len(),
{
    let u = a + t;
    if a.len() == 0 {
        assert(u == t);
        assert(a + stuff_from(t, code) == stuff_from(t, code));
    } else {
        assert(u[0] == a[0] && a[0] != 0);
        assert(u.drop_first() == a.drop_first() + t);
        let ad = a.drop_first();
        assert(no_zero(ad)) by {
            assert forall|i: int| 0 <= i < ad.len() implies #[trigger] ad[i] != 0 by {
                assert(ad[i] == a[i + 1]);
            }
        }
        lemma_stuff_segment(ad, t, (code + 1) as u8);
        assert(a == seq![a[0]] + ad);
    }
}

/// A run of fewer than 254 non-zero bytes is copied as it is and closed by
/// a count of one more than its length: in place of the zero byte that ends
/// it, or at the end of the input.
pub proof fn lemma_cobs_short_segment(a: Seq<u8>, b: Seq<u8>)
    requires
        no_zero(a),
        a.len() < 254,
    ensures
        cobs_stuff(a + seq![0u8] + b) == a + seq![(a.len() + 1) as u8] + cobs_stuff(b),
        cobs_stuff(a) == a + seq![(a.len() + 1) as u8],
{
    let z = seq![0u8] + b;
    assert(a + seq![0u8] + b == a + z);
    lemma_stuff_segment(a, z, 1);
    assert(z[0] == 0 && z.drop_first() == b);
    lemma_stuff_segment(a, Seq::empty(), 1);
    assert(a + Seq::<u8>::empty() == a);
}

/// A run of 254 non-zero bytes is copied as it is and followed by a count of
/// 255; stuffing then starts afresh on what follows (a zero byte there
/// counts as a run of none).
pub proof fn lemma_cobs_long_segment(a: Seq<u8>, b: Seq<u8>)
    requires
        no_zero(a),
        a.len() == 254,
    ensures
        cobs_stuff(a + b) == a + seq![255u8] + cobs_stuff(b),
{
    let a0 = a.take(253);
    let x = a[253];
    assert(no_zero(a0)) by {
        assert forall|i: int| 0 <= i < a0.len() implies #[trigger] a0[i] != 0 by {
            assert(a0[i] == a[i]);
        }
    }
    let t = seq![x] + b;
    assert(a + b == a0 + t);
    lemma_stuff_segment(a0, t, 1);
    assert(t[0] == x && x != 0);
    assert(t.drop_first() == b);
    assert(stuff_from(t, 254) == seq![x, 255u8] + stuff_from(b, 1));
    assert(a0 + (seq![x, 255u8] + cobs_stuff(b)) == a + seq![255u8] + cobs_stuff(b));
}

} // verus!

//! The "simple" run-length compression, one of the transforms the service offers.
//!
//! It takes lowercase ASCII text (a newline at the very end is allowed and
//! dropped) and writes each run of a repeated letter as the letter itself
//! when the run is one or two long, and as the run's length in decimal
//! followed by the letter otherwise: `aaabbbccc` becomes `3a3b3c`.  Any other
//! byte, or a run of `MAX_MSG_LEN` letters or more, makes compression fail.
//! Decompression is not implemented: it leaves the payload as it is.
use vstd::prelude::*;

verus! {

/// The length of the run of equal bytes that `s` starts with.
pub open spec fn lead_run(s: Seq<u8>) -> nat
    decreases s.len(),
{
    if s.len() == 0 {
        0
    } else if s.len() >= 2 && s[1] == s[0] {
        1 + lead_run(s.drop_first())
    } else {
        1
    }
}

/// The ASCII decimal digits of `n`, most significant first.
pub open spec fn decimal(n: nat) -> Seq<u8>
    decreases n,
{
    if n < 10 {
        seq![(n + 48) as u8]
    } else {
        decimal(n / 10) + seq![(n % 10 + 48) as u8]
    }
}

/// How a run of `n` bytes `c` is written.
pub open spec fn run_code(n: nat, c: u8) -> Seq<u8> {
    if n == 1 {
        seq![c]
    } else if n == 2 {
        seq![c, c]
    } else {
        decimal(n) + seq![c]
    }
}

pub proof fn lemma_lead_run_bounds(s: Seq<u8>)
    ensures
        s.len() > 0 ==> 1 <= lead_run(s) <= s.len(),
    decreases s.len(),
{
    if s.len() >= 2 && s[1] == s[0] {
        lemma_lead_run_bounds(s.drop_first());
    }
}

/// The runs of `s` written one after the other, or `None` when a run is
/// `MAX_MSG_LEN` bytes long or longer.
pub open spec fn rle(s: Seq<u8>) -> Option<Seq<u8>>
    decreases s.len(),
{
    if s.len() == 0 {
        Some(Seq::empty())
    } else {
        let n = lead_run(s);
        proof {
            lemma_lead_run_bounds(s);
        }
        if n >= crate::MAX_MSG_LEN {
            None
        } else {
            match rle(s.skip(n as int)) {
                Some(r) => Some(run_code(n, s[0]) + r),
                None => None,
            }
        }
    }
}

/// The text that gets compressed: the payload without a newline at its end.
pub open spec fn text_of(s: Seq<u8>) -> Seq<u8> {
    if s.len() > 0 && s.last() == 10 {
        s.drop_last()
    } else {
        s
    }
}

/// Whether every byte is a lowercase ASCII letter.
pub open spec fn all_lowercase(s: Seq<u8>) -> bool {
    forall|i: int| 0 <= i < s.len() ==> 97 <= #[trigger] s[i] <= 122
}

/// The compression of a payload: `None` when it fails.
pub open spec fn simple_compress(s: Seq<u8>) -> Option<Seq<u8>> {
    if all_lowercase(text_of(s)) {
        rle(text_of(s))
    } else {
        None
    }
}

/// A run that starts `t`, is `m` long and ends at the end of `t` or before
/// a different byte, is the lead run.
proof fn lemma_lead_run_is(t: Seq<u8>, m: nat)
    requires
        1 <= m <= t.len(),
        forall|k: int| 0 <= k < m ==> #[trigger] t[k] == t[0],
        m == t.len() || t[m as int] != t[0],
    ensures
        lead_run(t) == m,
    decreases m,
{
    if m > 1 {
        let r = t.drop_first();
        assert(t[1] == t[0]);
        assert forall|k: int| 0 <= k < m - 1 implies #[trigger] r[k] == r[0] by {
            assert(t[k + 1] == t[0]);
        }
        lemma_lead_run_is(r, (m - 1) as nat);
    }
}

/// The code of a run shorter than `MAX_MSG_LEN`.
fn push_run(out: &mut Vec<u8>, n: usize, c: u8)
    requires
        1 <= n < crate::MAX_MSG_LEN,
    ensures
        final(out)@ == old(out)@ + run_code(n as nat, c),
{
    if n == 1 {
        out.push(c);
    } else if n == 2 {
        out.push(c);
        out.push(c);
    } else {
        let ghost before = out@;
        let d0 = (n % 10) as u8 + 48;
        let n1 = n / 10;
        if n1 == 0 {
            out.push(d0);
            assert(decimal(n as nat) == seq![d0]);
        } else {
            let d1 = (n1 % 10) as u8 + 48;
            let n2 = n1 / 10;
            if n2 == 0 {
                out.push(d1);
                out.push(d0);
                assert(decimal(n1 as nat) == seq![d1]);
                assert(decimal(n as nat) == seq![d1, d0]);
            } else {
                let d2 = (n2 % 10) as u8 + 48;
                let n3 = n2 / 10;
                if n3 == 0 {
                    out.push(d2);
                    out.push(d1);
                    out.push(d0);
                    assert(decimal(n2 as nat) == seq![d2]);
                    assert(decimal(n1 as nat) == seq![d2, d1]);
                    assert(decimal(n as nat) == seq![d2, d1, d0]);
                } else {
                    let d3 = (n3 % 10) as u8 + 48;
                    assert(n3 < 10);
                    out.push(d3);
                    out.push(d2);
                    out.push(d1);
                    out.push(d0);
                    assert(decimal(n3 as nat) == seq![d3]);
                    assert(decimal(n2 as nat) == seq![d3, d2]);
                    assert(decimal(n1 as nat) == seq![d3, d2, d1]);
                    assert(decimal(n as nat) == seq![d3, d2, d1, d0]);
                }
            }
        }
        out.push(c);
        assert(out@ == before + run_code(n as nat, c));
    }
}

/// Compresses a payload (see `simple_compress`); `None` when it fails.
pub fn compress(payload: &Vec<u8>) -> (r: Option<Vec<u8>>)
    ensures
        match r {
            Some(v) => simple_compress(payload@) == Some(v@),
            None => simple_compress(payload@) is None,
        },
{
    let length = payload.len();
    let body_len: usize = if length > 0 && payload[length - 1] == 10 {
        length - 1
    } else {
        length
    };
    let ghost text = text_of(payload@);
    assert(text == payload@.take(body_len as int));
    let mut k: usize = 0;
    while k < body_len
        invariant
            k <= body_len <= length,
            length == payload@.len(),
            text == payload@.take(body_len as int),
            text == text_of(payload@),
            forall|i: int| 0 <= i < k ==> 97 <= #[trigger] text[i] <= 122,
        decreases body_len - k,
    {
        if payload[k] < 97 || payload[k] > 122 {
            assert(text[k as int] == payload@[k as int]);
            assert(!all_lowercase(text));
            return None;
        }
        k = k + 1;
    }
    assert(all_lowercase(text));
    let mut out: Vec<u8> = Vec::new();
    let mut i: usize = 0;
    assert(text.skip(0) == text);
    while i < body_len
        invariant
            i <= body_len <= length,
            length == payload@.len(),
            text == payload@.take(body_len as int),
            text == text_of(payload@),
            all_lowercase(text),
            rle(text) == match rle(text.skip(i as int)) {
                Some(r) => Some(out@ + r),
                None => None::<Seq<u8>>,
            },
        decreases body_len - i,
    {
        let c = payload[i];
        let mut j: usize = i + 1;
        while j < body_len && payload[j] == c
            invariant
                i < j <= body_len <= length,
                length == payload@.len(),
                c == payload@[i as int],
                forall|q: int| i <= q < j ==> #[trigger] payload@[q] == c,
            decreases body_len - j,
        {
            j = j + 1;
        }
        let ghost rest = text.skip(i as int);
        proof {
            assert(rest[0] == c);
            assert forall|q: int| 0 <= q < j - i implies #[trigger] rest[q] == rest[0] by {
                assert(rest[q] == payload@[i + q]);
            }
            if j < body_len {
                assert(rest[j - i] == payload@[j as int]);
            }
            lemma_lead_run_is(rest, (j - i) as nat);
            assert(rest.skip(j - i) == text.skip(j as int));
        }
        let n = j - i;
        if n >= crate::MAX_MSG_LEN {
            assert(rle(rest) is None);
            return None;
        }
        let ghost before = out@;
        push_run(&mut out, n, c);
        proof {
            match rle(text.skip(j as int)) {
                Some(r) => {
                    assert(out@ + r == before + (run_code(n as nat, c) + r));
                },
                None => {},
            }
        }
        i = j;
    }
    assert(text.skip(body_len as int).len() == 0);
    assert(out@ + Seq::<u8>::empty() == out@);
    Some(out)
}

/// The simple compression transform.
#[derive(Copy, Clone)]
pub struct Simple {}

impl crate::transform::_Compress for Simple {
    /// The payload is replaced with its compression; when compression
    /// fails the payload is left as it is and the result is an error.
    open spec fn compress_rel(&self, before: Seq<u8>, after: Seq<u8>, ok: bool) -> bool {
        match simple_compress(before) {
            Some(c) => after == c && ok,
            None => after == before && !ok,
        }
    }

    fn _compress(&self, payload: &mut Vec<u8>) -> (r: Result<(), std::io::Error>) {
        match compress(payload) {
            Some(new_string_vec) => {
                payload.clear();
                *payload = new_string_vec;
                Ok(())
            },
            None => Err(crate::primitives::other_io_error("Invalid string")),
        }
    }
}

impl crate::transform::_Decompress for Simple {
    /// Decompression is not implemented: the payload is left as it is, and
    /// it succeeds.
    open spec fn decompress_rel(&self, before: Seq<u8>, after: Seq<u8>, ok: bool) -> bool {
        after == before && ok
    }

    fn _decompress(&self, _payload: &mut Vec<u8>) -> (r: Result<(), std::io::Error>) {
        Ok(())
    }
}

} // verus!

verus! {

proof fn lemma_run_code_len(n: nat, c: u8)
    requires
        1 <= n < 10000,
    ensures
        run_code(n, c).len() <= n,
{
    if n >= 3 {
        if n < 10 {
            assert(decimal(n).len() == 1);
        } else if n < 100 {
            assert(decimal(n / 10).len() == 1);
            assert(decimal(n).len() == 2);
        } else if n < 1000 {
            assert(decimal(n / 10 / 10).len() == 1);
            assert(decimal(n / 10).len() == 2);
            assert(decimal(n).len() == 3);
        } else {
            assert(decimal(n / 10 / 10 / 10).len() == 1);
            assert(decimal(n / 10 / 10).len() == 2);
            assert(decimal(n / 10).len() == 3);
            assert(decimal(n).len() == 4);
        }
    }
}

proof fn lemma_rle_len(s: Seq<u8>)
    ensures
        rle(s) matches Some(r) ==> r.len() <= s.len(),
    decreases s.len(),
{
    if s.len() > 0 {
        let n = lead_run(s);
        lemma_lead_run_bounds(s);
        if n < crate::MAX_MSG_LEN {
            lemma_rle_len(s.skip(n as int));
            lemma_run_code_len(n, s[0]);
        }
    }
}

/// Compression never makes a payload longer.
pub proof fn lemma_compression_never_grows(s: Seq<u8>)
    ensures
        simple_compress(s) matches Some(c) ==> c.len() <= s.len(),
{
    lemma_rle_len(text_of(s));
}

/// The number that a sequence of ASCII decimal digits spells, most
/// significant digit first.
pub open spec fn ascii_number(s: Seq<u8>) -> int
    decreases s.len(),
{
    if s.len() == 0 {
        0
    } else {
        ascii_number(s.drop_last()) * 10 + (s.last() - '0' as u8)
    }
}

/// Whether every byte is an ASCII decimal digit.
pub open spec fn all_ascii_digits(s: Seq<u8>) -> bool {
    forall|i: int| 0 <= i < s.len() ==> '0' as u8 <= #[trigger] s[i] <= '9' as u8
}

proof fn lemma_decimal_spells(n: nat)
    ensures
        decimal(n).len() >= 1,
        all_ascii_digits(decimal(n)),
        ascii_number(decimal(n)) == n,
        n > 0 ==> decimal(n)[0] != '0' as u8,
    decreases n,
{
    if n < 10 {
        assert(decimal(n).drop_last().len() == 0);
        assert(ascii_number(decimal(n)) == ascii_number(decimal(n).drop_last()) * 10 + (decimal(n).last() - '0' as u8));
    } else {
        lemma_decimal_spells(n / 10);
        let d = decimal(n);
        assert(d.drop_last() == decimal(n / 10));
        assert(d.last() == (n % 10 + 48) as u8);
        assert(ascii_number(d) == ascii_number(d.drop_last()) * 10 + (d.last() - '0' as u8));
        assert((n / 10) * 10 + n % 10 == n);
        assert(d[0] == decimal(n / 10)[0]);
        assert forall|i: int| 0 <= i < d.len() implies '0' as u8 <= #[trigger] d[i] <= '9' as u8 by {
            if i < d.len() - 1 {
                assert(d[i] == decimal(n / 10)[i]);
            }
        }
    }
}

/// A run of three or more equal bytes is written as its length in decimal
/// (ASCII digits, with no leading zero) followed by the byte: the digits
/// read back as the length of the run.
pub proof fn lemma_run_code_spells_length(n: nat, c: u8)
    requires
        n >= 3,
    ensures
        run_code(n, c).len() >= 2,
        run_code(n, c).last() == c,
        all_ascii_digits(run_code(n, c).drop_last()),
        run_code(n, c)[0] != '0' as u8,
        ascii_number(run_code(n, c).drop_last()) == n,
{
    lemma_decimal_spells(n);
    let r = run_code(n, c);
    assert(r.drop_last() == decimal(n));
    assert(r[0] == decimal(n)[0]);
}

/// A run of one or two bytes is written as the bytes themselves.
pub proof fn lemma_short_run_code(n: nat, c: u8)
    requires
        1 <= n <= 2,
    ensures
        run_code(n, c) == Seq::new(n, |i: int| c),
{
    assert(run_code(n, c) =~= Seq::new(n, |i: int| c));
}

/// Whether a byte is an ASCII decimal digit.
pub open spec fn is_ascii_digit(b: u8) -> bool {
    '0' as u8 <= b <= '9' as u8
}

/// The number of ASCII digits that `t` starts with.
pub open spec fn lead_digits(t: Seq<u8>) -> nat
    decreases t.len(),
{
    if t.len() > 0 && is_ascii_digit(t[0]) {
        1 + lead_digits(t.drop_first())
    } else {
        0
    }
}

pub proof fn lemma_lead_digits_bound(t: Seq<u8>)
    ensures
        lead_digits(t) <= t.len(),
    decreases t.len(),
{
    if t.len() > 0 && is_ascii_digit(t[0]) {
        lemma_lead_digits_bound(t.drop_first());
    }
}

/// A compressed text read back: each byte that is not a digit is written as
/// many times as the decimal count just before it says, once when there is
/// no count.  Digits with nothing after them are dropped.
pub open spec fn expand(t: Seq<u8>) -> Seq<u8>
    decreases t.len(),
{
    if t.len() == 0 {
        Seq::empty()
    } else {
        let d = lead_digits(t);
        proof {
            lemma_lead_digits_bound(t);
        }
        if d >= t.len() {
            Seq::empty()
        } else {
            let n: nat = if d == 0 {
                1
            } else {
                ascii_number(t.take(d as int)) as nat
            };
            Seq::new(n, |i: int| t[d as int]) + expand(t.skip(d + 1 as int))
        }
    }
}

proof fn lemma_lead_digits_of(p: Seq<u8>, c: u8, r: Seq<u8>)
    requires
        all_ascii_digits(p),
        !is_ascii_digit(c),
    ensures
        lead_digits(p + seq![c] + r) == p.len(),
    decreases p.len(),
{
    let t = p + seq![c] + r;
    if p.len() == 0 {
        assert(t[0] == c);
    } else {
        assert(t[0] == p[0]);
        assert(t.drop_first() == p.drop_first() + seq![c] + r);
        assert(all_ascii_digits(p.drop_first())) by {
            assert forall|i: int| 0 <= i < p.drop_first().len() implies '0' as u8
                <= #[trigger] p.drop_first()[i] <= '9' as u8 by {
                assert(p.drop_first()[i] == p[i + 1]);
            }
        }
        lemma_lead_digits_of(p.drop_first(), c, r);
    }
}

proof fn lemma_expand_run(n: nat, c: u8, r: Seq<u8>)
    requires
        1 <= n,
        !is_ascii_digit(c),
    ensures
        expand(run_code(n, c) + r) == Seq::new(n, |i: int| c) + expand(r),
{
    let t = run_code(n, c) + r;
    if n == 1 {
        assert(t[0] == c);
        assert(lead_digits(t) == 0);
        assert(t.skip(1) == r);
        assert(Seq::new(1, |i: int| t[0]) == Seq::new(n, |i: int| c));
    } else if n == 2 {
        let t1 = seq![c] + r;
        assert(t[0] == c && t1[0] == c);
        assert(lead_digits(t) == 0 && lead_digits(t1) == 0);
        assert(t.skip(1) == t1);
        assert(t1.skip(1) == r);
        assert(expand(t1) == Seq::new(1, |i: int| c) + expand(r));
        assert(expand(t) == Seq::new(1, |i: int| c) + expand(t1));
        assert(Seq::new(1, |i: int| c) + (Seq::new(1, |i: int| c) + expand(r)) =~= Seq::new(
            n,
            |i: int| c,
        ) + expand(r));
    } else {
        lemma_decimal_spells(n);
        let p = decimal(n);
        assert(t == p + seq![c] + r);
        lemma_lead_digits_of(p, c, r);
        let d = p.len();
        assert(t.take(d as int) == p);
        assert(t[d as int] == c);
        assert(t.skip(d + 1 as int) == r);
        assert(Seq::new(ascii_number(p) as nat, |i: int| t[d as int]) == Seq::new(n, |i: int| c));
    }
}

proof fn lemma_lead_run_elems(t: Seq<u8>)
    ensures
        forall|k: int| 0 <= k < lead_run(t) ==> #[trigger] t[k] == t[0],
    decreases t.len(),
{
    if t.len() >= 2 && t[1] == t[0] {
        let r = t.drop_first();
        lemma_lead_run_elems(r);
        lemma_lead_run_bounds(t);
        lemma_lead_run_bounds(r);
        assert forall|k: int| 0 <= k < lead_run(t) implies #[trigger] t[k] == t[0] by {
            if k > 0 {
                assert(t[k] == r[k - 1]);
            }
        }
    }
}

proof fn lemma_expand_rle(t: Seq<u8>)
    requires
        all_lowercase(t),
    ensures
        rle(t) matches Some(c) ==> expand(c) == t,
    decreases t.len(),
{
    if t.len() > 0 {
        let n = lead_run(t);
        lemma_lead_run_bounds(t);
        if n < crate::MAX_MSG_LEN {
            let rest = t.skip(n as int);
            assert(all_lowercase(rest)) by {
                assert forall|i: int| 0 <= i < rest.len() implies 97 <= #[trigger] rest[i] <= 122 by {
                    assert(rest[i] == t[i + n]);
                }
            }
            lemma_expand_rle(rest);
            match rle(rest) {
                Some(r) => {
                    assert(97 <= t[0] <= 122);
                    lemma_expand_run(n, t[0], r);
                    lemma_lead_run_elems(t);
                    assert(Seq::new(n, |i: int| t[0]) + rest =~= t);
                },
                None => {},
            }
        }
    }
}

/// Reading a compression back gives the text that was compressed: every
/// letter, written as many times as the count before it says (once with no
/// count), gives back the payload without its closing newline.
pub proof fn lemma_compression_reads_back(s: Seq<u8>)
    ensures
        simple_compress(s) matches Some(c) ==> expand(c) == text_of(s),
{
    if all_lowercase(text_of(s)) {
        lemma_expand_rle(text_of(s));
    }
}

} // verus!

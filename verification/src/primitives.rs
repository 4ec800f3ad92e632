//! Contracts for the few standard-library operations that the verified code
//! relies on and that vstd does not specify: string equality, decimal
//! parsing of a port number, native-endian byte conversion of a `u64`, and
//! building an I/O error.
use vstd::prelude::*;

verus! {

#[verifier::external_type_specification]
#[verifier::external_body]
pub struct ExIoError(std::io::Error);

/// The eight bytes of `x`, least significant first.
pub open spec fn le_bytes(x: u64) -> Seq<u8> {
    seq![
        (x & 0xff) as u8,
        ((x >> 8u64) & 0xff) as u8,
        ((x >> 16u64) & 0xff) as u8,
        ((x >> 24u64) & 0xff) as u8,
        ((x >> 32u64) & 0xff) as u8,
        ((x >> 40u64) & 0xff) as u8,
        ((x >> 48u64) & 0xff) as u8,
        ((x >> 56u64) & 0xff) as u8,
    ]
}

/// The eight bytes of `x`, most significant first.
pub open spec fn be_bytes(x: u64) -> Seq<u8> {
    le_bytes(x).reverse()
}

/// The eight bytes of `x` in the byte order of the machine that runs the
/// code (vstd's `endianness()`).
pub open spec fn native_bytes(x: u64) -> Seq<u8> {
    match vstd::endian::endianness() {
        vstd::endian::Endian::Little => le_bytes(x),
        vstd::endian::Endian::Big => be_bytes(x),
    }
}

/// `b` is the representation of `x` in the machine's byte order.
pub open spec fn ne_bytes_of(b: Seq<u8>, x: u64) -> bool {
    b == native_bytes(x)
}

/// Different numbers have different bytes, in either byte order.
pub proof fn lemma_native_bytes_injective(a: u64, b: u64)
    ensures
        native_bytes(a) == native_bytes(b) ==> a == b,
{
    if native_bytes(a) == native_bytes(b) {
        let la = le_bytes(a);
        let lb = le_bytes(b);
        match vstd::endian::endianness() {
            vstd::endian::Endian::Little => {},
            vstd::endian::Endian::Big => {
                assert(la == la.reverse().reverse());
                assert(lb == lb.reverse().reverse());
            },
        }
        assert(la == lb);
        assert(la[0] == lb[0] && la[1] == lb[1] && la[2] == lb[2] && la[3] == lb[3]);
        assert(la[4] == lb[4] && la[5] == lb[5] && la[6] == lb[6] && la[7] == lb[7]);
        assert(
            (a & 0xff) == (b & 0xff)
            && ((a >> 8u64) & 0xff) == ((b >> 8u64) & 0xff)
            && ((a >> 16u64) & 0xff) == ((b >> 16u64) & 0xff)
            && ((a >> 24u64) & 0xff) == ((b >> 24u64) & 0xff)
            && ((a >> 32u64) & 0xff) == ((b >> 32u64) & 0xff)
            && ((a >> 40u64) & 0xff) == ((b >> 40u64) & 0xff)
            && ((a >> 48u64) & 0xff) == ((b >> 48u64) & 0xff)
            && ((a >> 56u64) & 0xff) == ((b >> 56u64) & 0xff)
        ) by (bit_vector)
            requires
                ((a & 0xff) as u8) == ((b & 0xff) as u8),
                (((a >> 8u64) & 0xff) as u8) == (((b >> 8u64) & 0xff) as u8),
                (((a >> 16u64) & 0xff) as u8) == (((b >> 16u64) & 0xff) as u8),
                (((a >> 24u64) & 0xff) as u8) == (((b >> 24u64) & 0xff) as u8),
                (((a >> 32u64) & 0xff) as u8) == (((b >> 32u64) & 0xff) as u8),
                (((a >> 40u64) & 0xff) as u8) == (((b >> 40u64) & 0xff) as u8),
                (((a >> 48u64) & 0xff) as u8) == (((b >> 48u64) & 0xff) as u8),
                (((a >> 56u64) & 0xff) as u8) == (((b >> 56u64) & 0xff) as u8),
        ;
        assert(a == b) by (bit_vector)
            requires
                (a & 0xff) == (b & 0xff),
                ((a >> 8u64) & 0xff) == ((b >> 8u64) & 0xff),
                ((a >> 16u64) & 0xff) == ((b >> 16u64) & 0xff),
                ((a >> 24u64) & 0xff) == ((b >> 24u64) & 0xff),
                ((a >> 32u64) & 0xff) == ((b >> 32u64) & 0xff),
                ((a >> 40u64) & 0xff) == ((b >> 40u64) & 0xff),
                ((a >> 48u64) & 0xff) == ((b >> 48u64) & 0xff),
                ((a >> 56u64) & 0xff) == ((b >> 56u64) & 0xff),
        ;
    }
}

/// An ASCII decimal digit.
pub open spec fn is_decimal_digit(c: char) -> bool {
    '0' <= c && c <= '9'
}

/// The value of a sequence of decimal digits, most significant first.
pub open spec fn digits_value(s: Seq<char>) -> int
    decreases s.len(),
{
    if s.len() == 0 {
        0
    } else {
        digits_value(s.drop_last()) * 10 + (s.last() as int - '0' as int)
    }
}

/// The `u16` that `s` spells in decimal: an optional `+` followed by one or
/// more decimal digits whose value fits in 16 bits.
pub open spec fn decimal_u16(s: Seq<char>) -> Option<u16> {
    let d = if s.len() > 0 && s[0] == '+' {
        s.drop_first()
    } else {
        s
    };
    if d.len() > 0 && (forall|i: int| 0 <= i < d.len() ==> is_decimal_digit(#[trigger] d[i]))
        && digits_value(d) <= 0xffff {
        Some(digits_value(d) as u16)
    } else {
        None
    }
}

/// `==` on `str`: two strings are equal exactly when they hold the same
/// characters.
#[verifier::external_body]
pub fn str_equal(a: &str, b: &str) -> (r: bool)
    ensures
        r == (a@ == b@),
{
    a == b
}

/// `u16::from_str_radix(s, 10)`, with the error dropped: it accepts an
/// optional `+` followed by decimal digits whose value fits in a `u16`, and
/// nothing else.
#[verifier::external_body]
pub fn parse_u16_decimal(s: &str) -> (r: Option<u16>)
    ensures
        r == decimal_u16(s@),
{
    u16::from_str_radix(s, 10).ok()
}

/// `u64::to_ne_bytes`: the bytes of `x` in the byte order of the machine
/// that runs the code.
#[verifier::external_body]
pub fn u64_to_ne_bytes(x: u64) -> (r: Vec<u8>)
    ensures
        ne_bytes_of(r@, x),
{
    x.to_ne_bytes().to_vec()
}

/// `u64::from_ne_bytes`: the `u64` whose bytes in the byte order of the
/// machine that runs the code are `b`.
#[verifier::external_body]
pub fn u64_from_ne_bytes(b: [u8; 8]) -> (r: u64)
    ensures
        ne_bytes_of(b@, r),
{
    u64::from_ne_bytes(b)
}

/// `std::str::from_utf8(bytes).is_ok()`: whether the bytes are valid UTF-8.
#[verifier::external_body]
pub fn is_utf8(bytes: &[u8]) -> (r: bool)
    ensures
        r == vstd::utf8::valid_utf8(bytes@),
{
    std::str::from_utf8(bytes).is_ok()
}

/// `std::io::Error::new(ErrorKind::Other, msg)`.  The error is opaque here:
/// nothing is stated of it.
#[verifier::external_body]
pub fn other_io_error(msg: &str) -> std::io::Error {
    std::io::Error::new(std::io::ErrorKind::Other, msg)
}

} // verus!

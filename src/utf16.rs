//! UTF-16 little-endian coding of text, as the call-history store holds it.
use vstd::prelude::*;

verus! {

pub open spec fn is_high(u: u16) -> bool {
    0xD800 <= u <= 0xDBFF
}

pub open spec fn is_low(u: u16) -> bool {
    0xDC00 <= u <= 0xDFFF
}

pub open spec fn is_surrogate(u: u16) -> bool {
    0xD800 <= u <= 0xDFFF
}

/// The scalar value that a surrogate pair stands for.
pub open spec fn pair_value(a: u16, b: u16) -> int {
    0x10000 + (a - 0xD800) * 0x400 + (b - 0xDC00)
}

/// Decoding of code units; a surrogate without its partner becomes U+FFFD.
pub open spec fn decode_utf16(u: Seq<u16>) -> Seq<char>
    decreases u.len(),
{
    if u.len() == 0 {
        Seq::empty()
    } else if u.len() >= 2 && is_high(u[0]) && is_low(u[1]) {
        seq![pair_value(u[0], u[1]) as char] + decode_utf16(u.skip(2))
    } else if is_surrogate(u[0]) {
        seq!['\u{FFFD}'] + decode_utf16(u.skip(1))
    } else {
        seq![u[0] as char] + decode_utf16(u.skip(1))
    }
}

/// The code units of one character.
pub open spec fn units_of_char(c: char) -> Seq<u16> {
    let v = c as u32;
    if v < 0x10000 {
        seq![v as u16]
    } else {
        seq![(0xD800 + (v - 0x10000) / 0x400) as u16, (0xDC00 + (v - 0x10000) % 0x400) as u16]
    }
}

/// Encoding of text into code units.
pub open spec fn encode_utf16(s: Seq<char>) -> Seq<u16>
    decreases s.len(),
{
    if s.len() == 0 {
        Seq::empty()
    } else {
        units_of_char(s[0]) + encode_utf16(s.skip(1))
    }
}

/// Code units in which every surrogate stands in a high-low pair.
pub open spec fn well_formed(u: Seq<u16>) -> bool
    decreases u.len(),
{
    if u.len() == 0 {
        true
    } else if is_high(u[0]) {
        u.len() >= 2 && is_low(u[1]) && well_formed(u.skip(2))
    } else if is_low(u[0]) {
        false
    } else {
        well_formed(u.skip(1))
    }
}

/// Little-endian code units of a byte buffer; a trailing odd byte is ignored.
pub open spec fn units_of_bytes(b: Seq<u8>) -> Seq<u16> {
    Seq::new((b.len() / 2) as nat, |i: int| (b[2 * i] as int + 256 * b[2 * i + 1] as int) as u16)
}

/// The little-endian bytes of code units.
pub open spec fn bytes_of_units(u: Seq<u16>) -> Seq<u8> {
    Seq::new(
        2 * u.len(),
        |i: int|
            if i % 2 == 0 {
                (u[i / 2] % 256) as u8
            } else {
                (u[i / 2] / 256) as u8
            },
    )
}

/// Relies on `char::from_u32`: a character whose scalar value is `v`, for
/// every scalar value.
#[verifier::external_body]
fn char_from_u32(v: u32) -> (r: Option<char>)
    ensures
        r matches Some(c) ==> c as u32 == v,
        (v < 0xD800 || (0xE000 <= v && v <= 0x10FFFF)) ==> r is Some,
{
    char::from_u32(v)
}

proof fn lemma_char_scalar(c: char)
    ensures
        c == (c as u32) as char,
{
}

/// The character with scalar value `v`.
fn scalar_char(v: u32) -> (c: char)
    requires
        v < 0xD800 || (0xE000 <= v && v <= 0x10FFFF),
    ensures
        c == v as char,
{
    match char_from_u32(v) {
        Some(c) => {
            proof {
                lemma_char_scalar(c);
            }
            c
        },
        None => '\u{FFFD}',
    }
}

/// The little-endian code units of `b`.
pub fn units_from_bytes(b: &Vec<u8>) -> (r: Vec<u16>)
    ensures
        r@ == units_of_bytes(b@),
{
    let mut r: Vec<u16> = Vec::new();
    let n = b.len() / 2;
    let mut i: usize = 0;
    while i < n
        invariant
            n == b.len() / 2,
            i <= n,
            r@ =~= units_of_bytes(b@).take(i as int),
        decreases n - i,
    {
        let lo = b[2 * i] as u16;
        let hi = b[2 * i + 1] as u16;
        r.push(lo + 256 * hi);
        i = i + 1;
    }
    r
}

/// The little-endian bytes of `u`.
pub fn bytes_from_units(u: &Vec<u16>) -> (r: Vec<u8>)
    ensures
        r@ == bytes_of_units(u@),
{
    let mut r: Vec<u8> = Vec::new();
    let mut i: usize = 0;
    while i < u.len()
        invariant
            i <= u.len(),
            r@ =~= bytes_of_units(u@).take(2 * i),
        decreases u.len() - i,
    {
        let x = u[i];
        r.push((x % 256) as u8);
        r.push((x / 256) as u8);
        i = i + 1;
    }
    r
}

/// The text that the code units `u` encode.
pub fn decode(u: &Vec<u16>) -> (r: Vec<char>)
    ensures
        r@ == decode_utf16(u@),
{
    let mut r: Vec<char> = Vec::new();
    let mut i: usize = 0;
    assert(u@.skip(0) =~= u@);
    while i < u.len()
        invariant
            i <= u.len(),
            r@ + decode_utf16(u@.skip(i as int)) == decode_utf16(u@),
        decreases u.len() - i,
    {
        let ghost rest = u@.skip(i as int);
        let ghost prev = r@;
        let a = u[i];
        if i + 1 < u.len() && 0xD800 <= a && a <= 0xDBFF && 0xDC00 <= u[i + 1] && u[i + 1]
            <= 0xDFFF {
            let b = u[i + 1];
            let v: u32 = 0x10000 + (a as u32 - 0xD800) * 0x400 + (b as u32 - 0xDC00);
            r.push(scalar_char(v));
            assert(rest.skip(2) =~= u@.skip(i + 2));
            i = i + 2;
        } else if 0xD800 <= a && a <= 0xDFFF {
            r.push('\u{FFFD}');
            assert(rest.skip(1) =~= u@.skip(i + 1));
            i = i + 1;
        } else {
            r.push(scalar_char(a as u32));
            assert(rest.skip(1) =~= u@.skip(i + 1));
            i = i + 1;
        }
        assert(r@ + decode_utf16(u@.skip(i as int)) =~= prev + decode_utf16(rest));
    }
    assert(u@.skip(i as int) =~= Seq::<u16>::empty());
    assert(r@ + Seq::<char>::empty() =~= r@);
    r
}

/// The code units that encode `s`.
pub fn encode(s: &Vec<char>) -> (r: Vec<u16>)
    ensures
        r@ == encode_utf16(s@),
{
    let mut r: Vec<u16> = Vec::new();
    let mut i: usize = 0;
    assert(s@.skip(0) =~= s@);
    while i < s.len()
        invariant
            i <= s.len(),
            r@ + encode_utf16(s@.skip(i as int)) == encode_utf16(s@),
        decreases s.len() - i,
    {
        let ghost prev = r@;
        let ghost rest = s@.skip(i as int);
        let v = s[i] as u32;
        if v < 0x10000 {
            r.push(v as u16);
        } else {
            r.push((0xD800 + (v - 0x10000) / 0x400) as u16);
            r.push((0xDC00 + (v - 0x10000) % 0x400) as u16);
        }
        assert(rest.skip(1) =~= s@.skip(i + 1));
        i = i + 1;
        assert(r@ + encode_utf16(s@.skip(i as int)) =~= prev + encode_utf16(rest));
    }
    assert(s@.skip(i as int) =~= Seq::<char>::empty());
    assert(r@ + Seq::<u16>::empty() =~= r@);
    r
}

proof fn lemma_pair_split(a: u16, b: u16)
    requires
        is_high(a),
        is_low(b),
    ensures
        0x10000 <= pair_value(a, b) <= 0x10FFFF,
        (pair_value(a, b) - 0x10000) / 0x400 == a - 0xD800,
        (pair_value(a, b) - 0x10000) % 0x400 == b - 0xDC00,
{
    let x = a - 0xD800;
    let y = b - 0xDC00;
    assert(pair_value(a, b) - 0x10000 == x * 0x400 + y);
    assert(0 <= x < 0x400 && 0 <= y < 0x400);
    assert(x * 0x400 + y <= 0xFFFFF) by (nonlinear_arith)
        requires
            0 <= x < 0x400,
            0 <= y < 0x400,
    ;
    assert((x * 0x400 + y) / 0x400 == x && (x * 0x400 + y) % 0x400 == y) by (nonlinear_arith)
        requires
            0 <= x < 0x400,
            0 <= y < 0x400,
    ;
}

/// Encoding the decoding of well-formed code units gives them back.
pub proof fn lemma_encode_decode(u: Seq<u16>)
    requires
        well_formed(u),
    ensures
        encode_utf16(decode_utf16(u)) == u,
    decreases u.len(),
{
    if u.len() > 0 {
        let d = decode_utf16(u);
        if is_high(u[0]) {
            lemma_pair_split(u[0], u[1]);
            let c = pair_value(u[0], u[1]) as char;
            assert(c as u32 == pair_value(u[0], u[1]));
            lemma_encode_decode(u.skip(2));
            assert(d == seq![c] + decode_utf16(u.skip(2)));
            assert(d.skip(1) =~= decode_utf16(u.skip(2)));
            assert(units_of_char(c) =~= u.take(2));
            assert(u.take(2) + u.skip(2) =~= u);
        } else {
            let c = u[0] as char;
            assert(c as u32 == u[0]);
            lemma_encode_decode(u.skip(1));
            assert(d.skip(1) =~= decode_utf16(u.skip(1)));
            assert(units_of_char(c) =~= u.take(1));
            assert(u.take(1) + u.skip(1) =~= u);
        }
    }
}

/// The bytes of the code units read from an even-length buffer are that buffer.
pub proof fn lemma_bytes_units(b: Seq<u8>)
    requires
        b.len() % 2 == 0,
    ensures
        bytes_of_units(units_of_bytes(b)) == b,
{
    let u = units_of_bytes(b);
    let r = bytes_of_units(u);
    assert forall|i: int| 0 <= i < b.len() implies r[i] == b[i] by {
        let k = i / 2;
        let lo = b[2 * k] as int;
        let hi = b[2 * k + 1] as int;
        assert(0 <= lo < 256 && 0 <= hi < 256);
        assert(u[k] == lo + 256 * hi);
        assert((lo + 256 * hi) % 256 == lo && (lo + 256 * hi) / 256 == hi) by (nonlinear_arith)
            requires
                0 <= lo < 256,
                0 <= hi < 256,
        ;
    }
    assert(r =~= b);
}

/// Saving unchanged text read from a store gives back the store's bytes,
/// byte-order mark included, when the store holds well-formed UTF-16.
pub proof fn lemma_store_round_trip(b: Seq<u8>)
    requires
        b.len() % 2 == 0,
        well_formed(units_of_bytes(b)),
    ensures
        bytes_of_units(encode_utf16(decode_utf16(units_of_bytes(b)))) == b,
{
    lemma_encode_decode(units_of_bytes(b));
    lemma_bytes_units(b);
}

} // verus!

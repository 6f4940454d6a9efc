//! Primitives of the textual wire format: hex digits, fixed-width numbers,
//! length-prefixed fields and literal labels, each read from a position of
//! a byte buffer.
use crate::bytes::{push_bytes, push_u64_be, u64_be};
use vstd::prelude::*;
use vstd::utf8::*;

verus! {

/// The lower-case hex digit for a value below sixteen.
pub open spec fn hex_digit(v: u8) -> u8 {
    if v < 10 {
        (48 + v) as u8
    } else {
        (87 + v) as u8
    }
}

/// Is `c` one of `0-9` or `a-f`?
pub open spec fn is_hex_digit(c: u8) -> bool {
    (48 <= c <= 57) || (97 <= c <= 102)
}

/// The value of a hex digit.
pub open spec fn hex_val(c: u8) -> u8 {
    if 48 <= c <= 57 {
        (c - 48) as u8
    } else {
        (c - 87) as u8
    }
}

/// Two lower-case hex digits per byte, high nibble first.
#[verifier::opaque]
pub open spec fn hex_encode(b: Seq<u8>) -> Seq<u8> {
    Seq::new(
        2 * b.len(),
        |i: int|
            if i % 2 == 0 {
                hex_digit(b[i / 2] / 16)
            } else {
                hex_digit(b[i / 2] % 16)
            },
    )
}

/// The bytes that the hex digit pairs of `h` stand for.
pub open spec fn hex_decode(h: Seq<u8>) -> Seq<u8> {
    Seq::new(h.len() / 2, |i: int| (hex_val(h[2 * i]) * 16 + hex_val(h[2 * i + 1])) as u8)
}

/// Every byte of `h` is a hex digit.
pub open spec fn is_hex_text(h: Seq<u8>) -> bool {
    forall|i: int| 0 <= i < h.len() ==> is_hex_digit(#[trigger] h[i])
}

/// The number whose big-endian bytes are the first eight of `b`.
pub open spec fn be_to_u64(b: Seq<u8>) -> u64 {
    (b[0] as u64) << 56u64 | (b[1] as u64) << 48u64 | (b[2] as u64) << 40u64 | (b[3] as u64)
        << 32u64 | (b[4] as u64) << 24u64 | (b[5] as u64) << 16u64 | (b[6] as u64) << 8u64 | (
    b[7] as u64)
}

/// A number on the wire: sixteen hex digits, big-endian.
#[verifier::opaque]
pub open spec fn u64_text(n: u64) -> Seq<u8> {
    hex_encode(u64_be(n))
}

/// A field on the wire: its byte length as a number, then the bytes.
#[verifier::opaque]
pub open spec fn field_text(f: Seq<u8>) -> Seq<u8> {
    u64_text(f.len() as u64) + f
}

/// Reads `lit` at `pos`; the position after it.
#[verifier::opaque]
pub open spec fn take_lit(b: Seq<u8>, pos: int, lit: Seq<u8>) -> Option<int> {
    if 0 <= pos && pos + lit.len() <= b.len() && b.subrange(pos, pos + lit.len()) == lit {
        Some(pos + lit.len())
    } else {
        None
    }
}

/// Reads `n` bytes written as hex digits at `pos`.
#[verifier::opaque]
pub open spec fn take_hex(b: Seq<u8>, pos: int, n: nat) -> Option<(Seq<u8>, int)> {
    if 0 <= pos && pos + 2 * n <= b.len() && is_hex_text(b.subrange(pos, pos + 2 * n)) {
        Some((hex_decode(b.subrange(pos, pos + 2 * n)), pos + 2 * n))
    } else {
        None
    }
}

/// Reads a number at `pos`.
#[verifier::opaque]
pub open spec fn take_u64(b: Seq<u8>, pos: int) -> Option<(u64, int)> {
    match take_hex(b, pos, 8) {
        Some((x, p)) => Some((be_to_u64(x), p)),
        None => None,
    }
}

/// Reads a length-prefixed field at `pos`.
#[verifier::opaque]
pub open spec fn take_field(b: Seq<u8>, pos: int) -> Option<(Seq<u8>, int)> {
    match take_u64(b, pos) {
        Some((n, p)) => if p + n <= b.len() {
            Some((b.subrange(p, p + n), p + n))
        } else {
            None
        },
        None => None,
    }
}

/// Reads a length-prefixed UTF-8 text at `pos`.
#[verifier::opaque]
pub open spec fn take_text(b: Seq<u8>, pos: int) -> Option<(Seq<char>, int)> {
    match take_field(b, pos) {
        Some((f, p)) => if valid_utf8(f) {
            Some((decode_utf8(f), p))
        } else {
            None
        },
        None => None,
    }
}

fn hex_digit_of(v: u8) -> (r: u8)
    requires
        v < 16,
    ensures
        r == hex_digit(v),
{
    proof {
        reveal(hex_encode);
        reveal(u64_text);
        reveal(field_text);
        reveal(take_lit);
        reveal(take_hex);
        reveal(take_u64);
        reveal(take_field);
        reveal(take_text);
    }
    if v < 10 {
        48 + v
    } else {
        87 + v
    }
}

/// Appends the hex digits of `src` to `dst`.
pub fn push_hex(dst: &mut Vec<u8>, src: &[u8])
    ensures
        final(dst)@ == old(dst)@ + hex_encode(src@),
{
    proof {
        reveal(hex_encode);
        reveal(u64_text);
        reveal(field_text);
        reveal(take_lit);
        reveal(take_hex);
        reveal(take_u64);
        reveal(take_field);
        reveal(take_text);
    }
    let ghost start = dst@;
    let mut i: usize = 0;
    while i < src.len()
        invariant
            i <= src@.len(),
            dst@.len() == start.len() + 2 * i,
            forall|k: int| 0 <= k < start.len() ==> dst@[k] == start[k],
            forall|k: int|
                0 <= k < 2 * i ==> #[trigger] dst@[start.len() + k] == hex_encode(src@)[k],
        decreases src@.len() - i,
    {
        proof {
            reveal(hex_encode);
        }
        let b = src[i];
        dst.push(hex_digit_of(b / 16));
        dst.push(hex_digit_of(b % 16));
        proof {
            assert forall|k: int| 0 <= k < 2 * (i + 1) implies #[trigger] dst@[start.len() + k]
                == hex_encode(src@)[k] by {
                if k == 2 * i {
                    assert(k / 2 == i && k % 2 == 0);
                } else if k == 2 * i + 1 {
                    assert(k / 2 == i && k % 2 == 1);
                }
            }
        }
        i = i + 1;
    }
    assert(dst@ =~= start + hex_encode(src@)) by {
        assert forall|k: int| start.len() <= k < dst@.len() implies dst@[k] == (start + hex_encode(
            src@,
        ))[k] by {
            assert(dst@[start.len() + (k - start.len())] == hex_encode(src@)[k - start.len()]);
        }
    }
}

/// Appends a number as sixteen hex digits.
pub fn push_u64_text(dst: &mut Vec<u8>, n: u64)
    ensures
        final(dst)@ == old(dst)@ + u64_text(n),
{
    proof {
        reveal(hex_encode);
        reveal(u64_text);
        reveal(field_text);
        reveal(take_lit);
        reveal(take_hex);
        reveal(take_u64);
        reveal(take_field);
        reveal(take_text);
    }
    let mut be: Vec<u8> = Vec::new();
    push_u64_be(&mut be, n);
    assert(be@ =~= u64_be(n));
    push_hex(dst, be.as_slice());
}

/// Appends a length-prefixed field.
pub fn push_field(dst: &mut Vec<u8>, f: &[u8])
    ensures
        final(dst)@ == old(dst)@ + field_text(f@),
{
    proof {
        reveal(hex_encode);
        reveal(u64_text);
        reveal(field_text);
        reveal(take_lit);
        reveal(take_hex);
        reveal(take_u64);
        reveal(take_field);
        reveal(take_text);
    }
    push_u64_text(dst, f.len() as u64);
    push_bytes(dst, f);
    assert(dst@ =~= old(dst)@ + field_text(f@));
}

/// Reads `lit` at `pos`.
pub fn read_lit(b: &[u8], pos: usize, lit: &[u8]) -> (r: Option<usize>)
    ensures
        r matches Some(p) ==> take_lit(b@, pos as int, lit@) == Some(p as int),
        r is None ==> take_lit(b@, pos as int, lit@) is None,
{
    proof {
        reveal(hex_encode);
        reveal(u64_text);
        reveal(field_text);
        reveal(take_lit);
        reveal(take_hex);
        reveal(take_u64);
        reveal(take_field);
        reveal(take_text);
    }
    if pos > b.len() || lit.len() > b.len() - pos {
        return None;
    }
    let mut i: usize = 0;
    while i < lit.len()
        invariant
            pos + lit@.len() <= b@.len(),
            b@.len() <= usize::MAX,
            i <= lit@.len(),
            forall|k: int| 0 <= k < i ==> b@[pos + k] == lit@[k],
        decreases lit@.len() - i,
    {
        proof {
            reveal(take_lit);
        }
        if b[pos + i] != lit[i] {
            assert(b@.subrange(pos as int, pos + lit@.len())[i as int] != lit@[i as int]);
            return None;
        }
        i = i + 1;
    }
    assert(b@.subrange(pos as int, pos + lit@.len()) =~= lit@);
    Some(pos + lit.len())
}

fn hex_val_of(c: u8) -> (r: Option<u8>)
    ensures
        r matches Some(v) ==> is_hex_digit(c) && v == hex_val(c),
        r is None ==> !is_hex_digit(c),
{
    proof {
        reveal(hex_encode);
        reveal(u64_text);
        reveal(field_text);
        reveal(take_lit);
        reveal(take_hex);
        reveal(take_u64);
        reveal(take_field);
        reveal(take_text);
    }
    if 48 <= c && c <= 57 {
        Some(c - 48)
    } else if 97 <= c && c <= 102 {
        Some(c - 87)
    } else {
        None
    }
}

/// Reads `n` hex-encoded bytes at `pos`.
pub fn read_hex(b: &[u8], pos: usize, n: usize) -> (r: Option<(Vec<u8>, usize)>)
    ensures
        r matches Some((v, p)) ==> take_hex(b@, pos as int, n as nat) == Some((v@, p as int)),
        r is None ==> take_hex(b@, pos as int, n as nat) is None,
{
    proof {
        reveal(hex_encode);
        reveal(u64_text);
        reveal(field_text);
        reveal(take_lit);
        reveal(take_hex);
        reveal(take_u64);
        reveal(take_field);
        reveal(take_text);
    }
    if pos > b.len() || n > (b.len() - pos) / 2 {
        return None;
    }
    let ghost h = b@.subrange(pos as int, pos + 2 * n);
    let mut out: Vec<u8> = Vec::new();
    let mut i: usize = 0;
    while i < n
        invariant
            pos + 2 * n <= b@.len(),
            b@.len() <= usize::MAX,
            h == b@.subrange(pos as int, pos + 2 * n),
            i <= n,
            out@.len() == i,
            forall|k: int| 0 <= k < 2 * i ==> is_hex_digit(#[trigger] h[k]),
            forall|k: int| 0 <= k < i ==> #[trigger] out@[k] == hex_decode(h)[k],
        decreases n - i,
    {
        proof {
            reveal(take_hex);
        }
        let hi = hex_val_of(b[pos + 2 * i]);
        let lo = hex_val_of(b[pos + 2 * i + 1]);
        assert(h[2 * i] == b@[pos + 2 * i]);
        assert(h[2 * i + 1] == b@[pos + 2 * i + 1]);
        match (hi, lo) {
            (Some(x), Some(y)) => {
                out.push(x * 16 + y);
            },
            _ => {
                assert(!is_hex_text(h));
                return None;
            },
        }
        i = i + 1;
    }
    assert(out@ =~= hex_decode(h));
    Some((out, pos + 2 * n))
}

/// Reads a number at `pos`.
pub fn read_u64(b: &[u8], pos: usize) -> (r: Option<(u64, usize)>)
    ensures
        r matches Some((v, p)) ==> take_u64(b@, pos as int) == Some((v, p as int)),
        r is None ==> take_u64(b@, pos as int) is None,
{
    proof {
        reveal(hex_encode);
        reveal(u64_text);
        reveal(field_text);
        reveal(take_lit);
        reveal(take_hex);
        reveal(take_u64);
        reveal(take_field);
        reveal(take_text);
    }
    match read_hex(b, pos, 8) {
        Some((x, p)) => {
            let v: u64 = (x[0] as u64) << 56u64 | (x[1] as u64) << 48u64 | (x[2] as u64) << 40u64
                | (x[3] as u64) << 32u64 | (x[4] as u64) << 24u64 | (x[5] as u64) << 16u64 | (
            x[6] as u64) << 8u64 | (x[7] as u64);
            Some((v, p))
        },
        None => None,
    }
}

/// Reads a length-prefixed field at `pos`.
pub fn read_field(b: &[u8], pos: usize) -> (r: Option<(Vec<u8>, usize)>)
    ensures
        r matches Some((v, p)) ==> take_field(b@, pos as int) == Some((v@, p as int)),
        r is None ==> take_field(b@, pos as int) is None,
{
    proof {
        reveal(hex_encode);
        reveal(u64_text);
        reveal(field_text);
        reveal(take_lit);
        reveal(take_hex);
        reveal(take_u64);
        reveal(take_field);
        reveal(take_text);
    }
    match read_u64(b, pos) {
        Some((n, p)) => {
            if n > (b.len() - p) as u64 {
                return None;
            }
            let end: usize = p + n as usize;
            let mut out: Vec<u8> = Vec::new();
            let mut i: usize = p;
            while i < end
                invariant
                    p <= i <= end,
                    end <= b@.len(),
                    out@ == b@.subrange(p as int, i as int),
                decreases end - i,
            {
                out.push(b[i]);
                i = i + 1;
                assert(out@ =~= b@.subrange(p as int, i as int));
            }
            Some((out, end))
        },
        None => None,
    }
}

/// A literal written between `p` and `q` is read back at its position.
pub proof fn lemma_take_lit(p: Seq<u8>, lit: Seq<u8>, q: Seq<u8>)
    ensures
        take_lit(p + lit + q, p.len() as int, lit) == Some((p.len() + lit.len()) as int),
{
    reveal(hex_encode);
    reveal(u64_text);
    reveal(field_text);
    reveal(take_lit);
    reveal(take_hex);
    reveal(take_u64);
    reveal(take_field);
    reveal(take_text);
    assert((p + lit + q).subrange(p.len() as int, (p.len() + lit.len()) as int) =~= lit);
}

/// Hex text decodes back to the bytes it was made from.
pub proof fn lemma_hex_round_trip(x: Seq<u8>)
    ensures
        is_hex_text(hex_encode(x)),
        hex_decode(hex_encode(x)) == x,
{
    reveal(hex_encode);
    reveal(u64_text);
    reveal(field_text);
    reveal(take_lit);
    reveal(take_hex);
    reveal(take_u64);
    reveal(take_field);
    reveal(take_text);
    let h = hex_encode(x);
    assert forall|i: int| 0 <= i < h.len() implies is_hex_digit(#[trigger] h[i]) by {
        let v = x[i / 2];
        assert(v / 16 < 16 && v % 16 < 16);
    }
    assert forall|i: int| 0 <= i < x.len() implies #[trigger] hex_decode(h)[i] == x[i] by {
        assert((2 * i) / 2 == i && (2 * i) % 2 == 0);
        assert((2 * i + 1) / 2 == i && (2 * i + 1) % 2 == 1);
        let v = x[i];
        assert(hex_val(hex_digit(v / 16)) == v / 16);
        assert(hex_val(hex_digit(v % 16)) == v % 16);
        assert((v / 16) * 16 + v % 16 == v);
    }
    assert(hex_decode(h) =~= x);
}

/// Hex text written between `p` and `q` is read back at its position.
pub proof fn lemma_take_hex(p: Seq<u8>, x: Seq<u8>, q: Seq<u8>)
    ensures
        take_hex(p + hex_encode(x) + q, p.len() as int, x.len()) == Some(
            (x, (p.len() + 2 * x.len()) as int),
        ),
        hex_encode(x).len() == 2 * x.len(),
{
    reveal(hex_encode);
    reveal(u64_text);
    reveal(field_text);
    reveal(take_lit);
    reveal(take_hex);
    reveal(take_u64);
    reveal(take_field);
    reveal(take_text);
    lemma_hex_round_trip(x);
    assert((p + hex_encode(x) + q).subrange(p.len() as int, (p.len() + 2 * x.len()) as int) =~= hex_encode(
        x,
    ));
}

/// Big-endian bytes read back to the number they were made from.
pub proof fn lemma_be_round_trip(n: u64)
    ensures
        be_to_u64(u64_be(n)) == n,
{
    reveal(hex_encode);
    reveal(u64_text);
    reveal(field_text);
    reveal(take_lit);
    reveal(take_hex);
    reveal(take_u64);
    reveal(take_field);
    reveal(take_text);
    let b = u64_be(n);
    assert(b[0] == ((n >> 56u64) & 0xffu64) as u8);
    assert(b[1] == ((n >> 48u64) & 0xffu64) as u8);
    assert(b[2] == ((n >> 40u64) & 0xffu64) as u8);
    assert(b[3] == ((n >> 32u64) & 0xffu64) as u8);
    assert(b[4] == ((n >> 24u64) & 0xffu64) as u8);
    assert(b[5] == ((n >> 16u64) & 0xffu64) as u8);
    assert(b[6] == ((n >> 8u64) & 0xffu64) as u8);
    assert(b[7] == ((n >> 0u64) & 0xffu64) as u8);
    let (b0, b1, b2, b3, b4, b5, b6, b7) = (b[0], b[1], b[2], b[3], b[4], b[5], b[6], b[7]);
    assert((b0 as u64) << 56u64 | (b1 as u64) << 48u64 | (b2 as u64) << 40u64 | (b3 as u64)
        << 32u64 | (b4 as u64) << 24u64 | (b5 as u64) << 16u64 | (b6 as u64) << 8u64 | (
    b7 as u64) == n) by (bit_vector)
        requires
            b0 == ((n >> 56u64) & 0xffu64) as u8,
            b1 == ((n >> 48u64) & 0xffu64) as u8,
            b2 == ((n >> 40u64) & 0xffu64) as u8,
            b3 == ((n >> 32u64) & 0xffu64) as u8,
            b4 == ((n >> 24u64) & 0xffu64) as u8,
            b5 == ((n >> 16u64) & 0xffu64) as u8,
            b6 == ((n >> 8u64) & 0xffu64) as u8,
            b7 == ((n >> 0u64) & 0xffu64) as u8,
    ;
}

/// A number written between `p` and `q` is read back at its position.
pub proof fn lemma_take_u64(p: Seq<u8>, n: u64, q: Seq<u8>)
    ensures
        take_u64(p + u64_text(n) + q, p.len() as int) == Some((n, p.len() + 16int)),
        u64_text(n).len() == 16,
{
    reveal(hex_encode);
    reveal(u64_text);
    reveal(field_text);
    reveal(take_lit);
    reveal(take_hex);
    reveal(take_u64);
    reveal(take_field);
    reveal(take_text);
    lemma_take_hex(p, u64_be(n), q);
    lemma_be_round_trip(n);
}

/// A field written between `p` and `q` is read back at its position.
pub proof fn lemma_take_field(p: Seq<u8>, f: Seq<u8>, q: Seq<u8>)
    requires
        f.len() <= u64::MAX,
    ensures
        take_field(p + field_text(f) + q, p.len() as int) == Some(
            (f, (p.len() + field_text(f).len()) as int),
        ),
{
    reveal(hex_encode);
    reveal(u64_text);
    reveal(field_text);
    reveal(take_lit);
    reveal(take_hex);
    reveal(take_u64);
    reveal(take_field);
    reveal(take_text);
    let b = p + field_text(f) + q;
    assert(b =~= p + u64_text(f.len() as u64) + (f + q));
    lemma_take_u64(p, f.len() as u64, f + q);
    assert(b.subrange(p.len() + 16int, p.len() + 16int + f.len()) =~= f);
}

/// A text written between `p` and `q` is read back at its position.
pub proof fn lemma_take_text(p: Seq<u8>, s: Seq<char>, q: Seq<u8>)
    requires
        encode_utf8(s).len() <= u64::MAX,
    ensures
        take_text(p + field_text(encode_utf8(s)) + q, p.len() as int) == Some(
            (s, (p.len() + field_text(encode_utf8(s)).len()) as int),
        ),
{
    reveal(hex_encode);
    reveal(u64_text);
    reveal(field_text);
    reveal(take_lit);
    reveal(take_hex);
    reveal(take_u64);
    reveal(take_field);
    reveal(take_text);
    lemma_take_field(p, encode_utf8(s), q);
    encode_utf8_valid_utf8(s);
    encode_utf8_decode_utf8(s);
}

/// Hex text is valid UTF-8.
pub proof fn lemma_hex_valid_utf8(x: Seq<u8>)
    ensures
        valid_utf8(hex_encode(x)),
{
    reveal(hex_encode);
    let h = hex_encode(x);
    assert forall|i: int| 0 <= i < h.len() implies #[trigger] h[i] < 128 by {
        let v = x[i / 2];
        assert(v / 16 < 16 && v % 16 < 16);
    }
    crate::bytes::lemma_ascii_valid_utf8(h);
}

/// A field holding valid UTF-8 is valid UTF-8.
pub proof fn lemma_field_valid_utf8(f: Seq<u8>)
    requires
        valid_utf8(f),
    ensures
        valid_utf8(field_text(f)),
{
    reveal(field_text);
    reveal(u64_text);
    lemma_hex_valid_utf8(u64_be(f.len() as u64));
    crate::bytes::lemma_valid_utf8_concat(u64_text(f.len() as u64), f);
}

} // verus!

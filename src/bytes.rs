//! Byte-level building blocks shared by block hashing and the wire format.
use vstd::prelude::*;
use vstd::utf8::*;

verus! {

/// The eight big-endian bytes of `n`.
pub open spec fn u64_be(n: u64) -> Seq<u8> {
    Seq::new(8, |i: int| ((n >> ((56 - 8 * i) as u64)) & 0xffu64) as u8)
}

/// Appends `src` to `dst`.
pub fn push_bytes(dst: &mut Vec<u8>, src: &[u8])
    ensures
        final(dst)@ == old(dst)@ + src@,
{
    let ghost start = dst@;
    let mut i: usize = 0;
    while i < src.len()
        invariant
            i <= src@.len(),
            dst@ == start + src@.subrange(0, i as int),
        decreases src@.len() - i,
    {
        dst.push(src[i]);
        i = i + 1;
        assert(dst@ =~= start + src@.subrange(0, i as int));
    }
    assert(src@.subrange(0, i as int) =~= src@);
}

/// Appends the UTF-8 bytes of `s` to `dst`.
pub fn push_str(dst: &mut Vec<u8>, s: &str)
    ensures
        final(dst)@ == old(dst)@ + encode_utf8(s@),
{
    push_bytes(dst, s.as_bytes());
}

/// Appends the eight big-endian bytes of `n` to `dst`.
pub fn push_u64_be(dst: &mut Vec<u8>, n: u64)
    ensures
        final(dst)@ == old(dst)@ + u64_be(n),
{
    let ghost start = dst@;
    let mut i: u64 = 0;
    while i < 8
        invariant
            i <= 8,
            dst@ == start + u64_be(n).subrange(0, i as int),
        decreases 8 - i,
    {
        let shift: u64 = 56 - 8 * i;
        dst.push(((n >> shift) & 0xffu64) as u8);
        i = i + 1;
        assert(dst@ =~= start + u64_be(n).subrange(0, i as int));
    }
    assert(u64_be(n).subrange(0, 8) =~= u64_be(n));
}

/// Copies a byte vector.
pub fn copy_bytes(src: &Vec<u8>) -> (r: Vec<u8>)
    ensures
        r@ == src@,
{
    let mut r: Vec<u8> = Vec::new();
    push_bytes(&mut r, src.as_slice());
    assert(r@ =~= src@);
    r
}

/// Tells whether two byte vectors hold the same bytes.
pub fn bytes_equal(a: &Vec<u8>, b: &Vec<u8>) -> (r: bool)
    ensures
        r == (a@ == b@),
{
    if a.len() != b.len() {
        return false;
    }
    let mut i: usize = 0;
    while i < a.len()
        invariant
            i <= a@.len(),
            a@.len() == b@.len(),
            forall|k: int| 0 <= k < i ==> a@[k] == b@[k],
        decreases a@.len() - i,
    {
        if a[i] != b[i] {
            return false;
        }
        i = i + 1;
    }
    assert(a@ =~= b@);
    true
}

/// UTF-8 encoding distributes over concatenation.
pub proof fn lemma_encode_utf8_concat(a: Seq<char>, b: Seq<char>)
    ensures
        encode_utf8(a + b) == encode_utf8(a) + encode_utf8(b),
    decreases a.len(),
{
    if a.len() == 0 {
        assert(a + b =~= b);
        assert(encode_utf8(a) =~= Seq::<u8>::empty());
        assert(encode_utf8(a) + encode_utf8(b) =~= encode_utf8(b));
    } else {
        assert((a + b).drop_first() =~= a.drop_first() + b);
        lemma_encode_utf8_concat(a.drop_first(), b);
        assert((a + b)[0] == a[0]);
        assert(encode_utf8(a + b) =~= encode_utf8(a) + encode_utf8(b));
    }
}

/// Equal encodings come from equal character sequences.
pub proof fn lemma_encode_utf8_injective(a: Seq<char>, b: Seq<char>)
    requires
        encode_utf8(a) == encode_utf8(b),
    ensures
        a == b,
{
    encode_utf8_decode_utf8(a);
    encode_utf8_decode_utf8(b);
}

/// Joining two valid UTF-8 byte sequences gives valid UTF-8.
pub proof fn lemma_valid_utf8_concat(a: Seq<u8>, b: Seq<u8>)
    requires
        valid_utf8(a),
        valid_utf8(b),
    ensures
        valid_utf8(a + b),
{
    decode_utf8_encode_utf8(a);
    decode_utf8_encode_utf8(b);
    lemma_encode_utf8_concat(decode_utf8(a), decode_utf8(b));
    encode_utf8_valid_utf8(decode_utf8(a) + decode_utf8(b));
}

/// Bytes below 128 are valid UTF-8.
pub proof fn lemma_ascii_valid_utf8(x: Seq<u8>)
    requires
        forall|i: int| 0 <= i < x.len() ==> #[trigger] x[i] < 128,
    ensures
        valid_utf8(x),
    decreases x.len(),
{
    if x.len() > 0 {
        let b = x[0];
        assert(b & 0x7f <= 0x7f) by (bit_vector);
        assert(valid_first_scalar(x));
        let rest = x.subrange(1, x.len() as int);
        assert(pop_first_scalar(x) == rest);
        assert forall|i: int| 0 <= i < rest.len() implies #[trigger] rest[i] < 128 by {
            assert(rest[i] == x[i + 1]);
        }
        lemma_ascii_valid_utf8(rest);
    }
}

} // verus!

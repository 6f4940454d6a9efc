//! Block hashes: the digest function, the zero sentinel and leading-zero-bit
//! counting for proof of work.
use sha2::Digest;
use vstd::prelude::*;

verus! {

/// Width of a block hash in bytes.
pub const HASH_LEN: usize = 32;

/// The SHA-256 digest of a byte sequence.
pub uninterp spec fn sha256_of(data: Seq<u8>) -> Seq<u8>;

/// Relies on sha2::Sha256::digest: the digest of `data`, 32 bytes wide.
#[verifier::external_body]
pub(crate) fn sha256(data: &Vec<u8>) -> (r: Vec<u8>)
    ensures
        r@ == sha256_of(data@),
        r@.len() == HASH_LEN,
{
    sha2::Sha256::digest(data.as_slice()).to_vec()
}

/// The hash that a genesis block refers to as its predecessor.
pub open spec fn zero_hash_spec() -> Seq<u8> {
    Seq::new(HASH_LEN as nat, |i: int| 0u8)
}

/// Builds the zero sentinel hash.
pub fn zero_hash() -> (r: Vec<u8>)
    ensures
        r@ == zero_hash_spec(),
{
    let mut r: Vec<u8> = Vec::new();
    let mut i: usize = 0;
    while i < HASH_LEN
        invariant
            i <= HASH_LEN,
            r@ == Seq::new(i as nat, |k: int| 0u8),
        decreases HASH_LEN - i,
    {
        r.push(0u8);
        i = i + 1;
        assert(r@ =~= Seq::new(i as nat, |k: int| 0u8));
    }
    r
}

/// Number of leading zero bits of one byte.
pub open spec fn byte_leading_zeros(b: u8) -> nat {
    if b >= 128 {
        0
    } else if b >= 64 {
        1
    } else if b >= 32 {
        2
    } else if b >= 16 {
        3
    } else if b >= 8 {
        4
    } else if b >= 4 {
        5
    } else if b >= 2 {
        6
    } else if b >= 1 {
        7
    } else {
        8
    }
}

/// Leading zero bits of `h` counted from byte `i` on.
pub open spec fn leading_zero_bits_from(h: Seq<u8>, i: int) -> nat
    decreases h.len() - i,
{
    if i < 0 || i >= h.len() {
        0
    } else if h[i] == 0 {
        8 + leading_zero_bits_from(h, i + 1)
    } else {
        byte_leading_zeros(h[i])
    }
}

/// Leading zero bits of a hash read as a big-endian bit string.
pub open spec fn leading_zero_bits(h: Seq<u8>) -> nat {
    leading_zero_bits_from(h, 0)
}

/// Does `h` meet a proof-of-work target of `difficulty` leading zero bits?
pub open spec fn meets_difficulty(h: Seq<u8>, difficulty: u32) -> bool {
    leading_zero_bits(h) >= difficulty
}

fn byte_zeros(b: u8) -> (r: u64)
    ensures
        r == byte_leading_zeros(b),
{
    if b >= 128 {
        0
    } else if b >= 64 {
        1
    } else if b >= 32 {
        2
    } else if b >= 16 {
        3
    } else if b >= 8 {
        4
    } else if b >= 4 {
        5
    } else if b >= 2 {
        6
    } else if b >= 1 {
        7
    } else {
        8
    }
}

/// Tells whether `h` has at least `difficulty` leading zero bits.
pub fn has_leading_zero_bits(h: &Vec<u8>, difficulty: u32) -> (r: bool)
    ensures
        r == meets_difficulty(h@, difficulty),
{
    let mut i: usize = 0;
    let mut count: u64 = 0;
    while i < h.len()
        invariant
            i <= h@.len(),
            count == 8 * i,
            count < difficulty + 8,
            leading_zero_bits(h@) == count + leading_zero_bits_from(h@, i as int),
        decreases h@.len() - i,
    {
        if count >= difficulty as u64 {
            return true;
        }
        let b = h[i];
        if b != 0 {
            let z = byte_zeros(b);
            return count + z >= difficulty as u64;
        }
        i = i + 1;
        count = count + 8;
    }
    count >= difficulty as u64
}

} // verus!

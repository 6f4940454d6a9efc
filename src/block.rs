//! Blocks: the hash-verifiable unit of data that a ledger holds.
use crate::bytes::{copy_bytes, push_bytes, push_str, push_u64_be, u64_be, bytes_equal};
use crate::hash::{has_leading_zero_bits, meets_difficulty, sha256, sha256_of, zero_hash};
use vstd::prelude::*;
use vstd::utf8::*;

verus! {

/// A block of the ledger.
///
/// `hash` is derived from the other four fields by [`Block::compute_hash`];
/// a block fresh from [`Block::candidate`] carries the zero hash until the
/// proof-of-work engine finalizes it.
pub struct Block {
    pub creator: String,
    pub payload: String,
    pub prev_hash: Vec<u8>,
    pub nonce: u64,
    pub hash: Vec<u8>,
}

/// The mathematical value of a [`Block`].
pub struct BlockView {
    pub creator: Seq<char>,
    pub payload: Seq<char>,
    pub prev_hash: Seq<u8>,
    pub nonce: u64,
    pub hash: Seq<u8>,
}

impl View for Block {
    type V = BlockView;

    open spec fn view(&self) -> BlockView {
        BlockView {
            creator: self.creator@,
            payload: self.payload@,
            prev_hash: self.prev_hash@,
            nonce: self.nonce,
            hash: self.hash@,
        }
    }
}

/// The bytes that are hashed: creator, payload, predecessor hash and nonce.
pub open spec fn block_preimage(b: BlockView, nonce: u64) -> Seq<u8> {
    encode_utf8(b.creator) + encode_utf8(b.payload) + b.prev_hash + u64_be(nonce)
}

/// The hash of block `b`'s content under `nonce`.
pub open spec fn block_hash(b: BlockView, nonce: u64) -> Seq<u8> {
    sha256_of(block_preimage(b, nonce))
}

/// The stored hash is the hash of the block's own fields and nonce.
pub open spec fn hash_is_consistent(b: BlockView) -> bool {
    block_hash(b, b.nonce) == b.hash
}

/// The acceptance rule of a block against a predecessor hash and difficulty.
pub open spec fn structurally_valid(b: BlockView, expected_prev: Seq<u8>, difficulty: u32) -> bool {
    &&& hash_is_consistent(b)
    &&& b.prev_hash == expected_prev
    &&& meets_difficulty(b.hash, difficulty)
}

impl Block {
    /// An unmined block: nonce zero and the zero hash as a placeholder.
    pub fn candidate(creator: String, payload: String, prev_hash: Vec<u8>) -> (r: Block)
        ensures
            r.creator@ == creator@,
            r.payload@ == payload@,
            r.prev_hash@ == prev_hash@,
            r.nonce == 0,
            r.hash@ == crate::hash::zero_hash_spec(),
    {
        Block { creator, payload, prev_hash, nonce: 0, hash: zero_hash() }
    }

    /// The hash of this block's creator, payload and predecessor under `nonce`.
    pub fn compute_hash(&self, nonce: u64) -> (r: Vec<u8>)
        ensures
            r@ == block_hash(self@, nonce),
            r@.len() == crate::hash::HASH_LEN,
    {
        let mut data: Vec<u8> = Vec::new();
        push_str(&mut data, self.creator.as_str());
        push_str(&mut data, self.payload.as_str());
        push_bytes(&mut data, self.prev_hash.as_slice());
        push_u64_be(&mut data, nonce);
        assert(data@ =~= block_preimage(self@, nonce));
        sha256(&data)
    }

    /// Accepts the block only if its hash matches its fields, it extends
    /// `expected_prev_hash`, and its hash meets `difficulty`.
    pub fn is_structurally_valid(&self, expected_prev_hash: &Vec<u8>, difficulty: u32) -> (r: bool)
        ensures
            r == structurally_valid(self@, expected_prev_hash@, difficulty),
    {
        let h = self.compute_hash(self.nonce);
        bytes_equal(&h, &self.hash) && bytes_equal(&self.prev_hash, expected_prev_hash)
            && has_leading_zero_bits(&self.hash, difficulty)
    }

    /// A field-by-field copy.
    pub fn copy(&self) -> (r: Block)
        ensures
            r@ == self@,
    {
        Block {
            creator: self.creator.clone(),
            payload: self.payload.clone(),
            prev_hash: copy_bytes(&self.prev_hash),
            nonce: self.nonce,
            hash: copy_bytes(&self.hash),
        }
    }
}

} // verus!

//! The append-only, hash-linked sequence of accepted blocks.
use crate::block::{block_hash, hash_is_consistent, structurally_valid, Block, BlockView};
use crate::bytes::copy_bytes;
use crate::hash::{leading_zero_bits, meets_difficulty, zero_hash, zero_hash_spec};
use vstd::prelude::*;

verus! {

/// Why a block was refused by [`Ledger::append`].
#[derive(Debug, Clone, Copy, PartialEq, Eq, Structural)]
pub enum ValidationError {
    /// The block does not extend the current tip.
    InvalidPrevHash,
    /// The block's hash has too few leading zero bits.
    InvalidProofOfWork,
    /// The stored hash is not the hash of the block's fields.
    HashMismatch,
}

/// The hash that the next block must extend.
pub open spec fn tip_of(blocks: Seq<BlockView>) -> Seq<u8> {
    if blocks.len() == 0 {
        zero_hash_spec()
    } else {
        blocks.last().hash
    }
}

/// The reason a block is refused on top of `tip`, if any. The hash is
/// checked first, then the proof of work, then the link to the tip.
pub open spec fn rejection(b: BlockView, tip: Seq<u8>, difficulty: u32) -> Option<ValidationError> {
    if !hash_is_consistent(b) {
        Some(ValidationError::HashMismatch)
    } else if !meets_difficulty(b.hash, difficulty) {
        Some(ValidationError::InvalidProofOfWork)
    } else if b.prev_hash != tip {
        Some(ValidationError::InvalidPrevHash)
    } else {
        None
    }
}

/// Every block is hash-consistent, meets `difficulty`, and links to its
/// predecessor (the first one to the zero hash).
pub open spec fn valid_chain(blocks: Seq<BlockView>, difficulty: u32) -> bool {
    forall|i: int|
        0 <= i < blocks.len() ==> {
            &&& hash_is_consistent(#[trigger] blocks[i])
            &&& meets_difficulty(blocks[i].hash, difficulty)
            &&& blocks[i].prev_hash == (if i == 0 {
                zero_hash_spec()
            } else {
                blocks[i - 1].hash
            })
        }
}

/// A ledger: the blocks accepted so far and the difficulty it enforces.
pub struct Ledger {
    blocks: Vec<Block>,
    difficulty: u32,
}

impl View for Ledger {
    type V = Seq<BlockView>;

    closed spec fn view(&self) -> Seq<BlockView> {
        self.blocks@.map_values(|b: Block| b@)
    }
}

impl Ledger {
    /// The difficulty every accepted block meets.
    pub closed spec fn spec_difficulty(&self) -> u32 {
        self.difficulty
    }

    /// The chain invariant.
    pub open spec fn wf(&self) -> bool {
        valid_chain(self@, self.spec_difficulty())
    }

    /// An empty ledger that enforces `difficulty`.
    pub fn new(difficulty: u32) -> (r: Ledger)
        ensures
            r.wf(),
            r@ == Seq::<BlockView>::empty(),
            r.spec_difficulty() == difficulty,
    {
        let r = Ledger { blocks: Vec::new(), difficulty };
        assert(r@ =~= Seq::<BlockView>::empty());
        r
    }

    /// The difficulty every accepted block meets.
    pub fn difficulty(&self) -> (r: u32)
        ensures
            r == self.spec_difficulty(),
    {
        self.difficulty
    }

    /// Number of accepted blocks.
    pub fn len(&self) -> (r: usize)
        ensures
            r == self@.len(),
    {
        self.blocks.len()
    }

    /// The hash of the last block, or the zero hash while the ledger is empty.
    pub fn tip_hash(&self) -> (r: Vec<u8>)
        ensures
            r@ == tip_of(self@),
    {
        let n = self.blocks.len();
        if n == 0 {
            zero_hash()
        } else {
            copy_bytes(&self.blocks[n - 1].hash)
        }
    }

    /// Validates `block` against the tip and, if it passes, appends it.
    /// On refusal the ledger is unchanged and the reason is returned.
    pub fn append(&mut self, block: Block) -> (r: Result<(), ValidationError>)
        requires
            old(self).wf(),
        ensures
            final(self).wf(),
            final(self).spec_difficulty() == old(self).spec_difficulty(),
            match rejection(block@, tip_of(old(self)@), old(self).spec_difficulty()) {
                None => r is Ok && final(self)@ == old(self)@.push(block@),
                Some(e) => r == Err::<(), ValidationError>(e) && final(self)@ == old(self)@,
            },
    {
        let tip = self.tip_hash();
        let h = block.compute_hash(block.nonce);
        if !crate::bytes::bytes_equal(&h, &block.hash) {
            return Err(ValidationError::HashMismatch);
        }
        if !crate::hash::has_leading_zero_bits(&block.hash, self.difficulty) {
            return Err(ValidationError::InvalidProofOfWork);
        }
        if !crate::bytes::bytes_equal(&block.prev_hash, &tip) {
            return Err(ValidationError::InvalidPrevHash);
        }
        proof {
            assert(structurally_valid(block@, tip_of(self@), self.difficulty));
        }
        let ghost before = self@;
        self.blocks.push(block);
        assert(self@ =~= before.push(block@));
        assert(valid_chain(self@, self.difficulty)) by {
            assert forall|i: int| 0 <= i < self@.len() implies {
                &&& hash_is_consistent(#[trigger] self@[i])
                &&& meets_difficulty(self@[i].hash, self.difficulty)
                &&& self@[i].prev_hash == (if i == 0 {
                    zero_hash_spec()
                } else {
                    self@[i - 1].hash
                })
            } by {
                if i < before.len() {
                    assert(self@[i] == before[i]);
                    if i > 0 {
                        assert(self@[i - 1] == before[i - 1]);
                    }
                } else if i > 0 {
                    assert(self@[i - 1] == before[i - 1]);
                }
            }
        }
        Ok(())
    }

    /// A copy of all accepted blocks, in order.
    pub fn snapshot(&self) -> (r: Vec<Block>)
        ensures
            r@.map_values(|b: Block| b@) == self@,
    {
        let mut r: Vec<Block> = Vec::new();
        let mut i: usize = 0;
        while i < self.blocks.len()
            invariant
                i <= self.blocks@.len(),
                r@.len() == i,
                forall|k: int| 0 <= k < i ==> #[trigger] r@[k]@ == self.blocks@[k]@,
            decreases self.blocks@.len() - i,
        {
            r.push(self.blocks[i].copy());
            i = i + 1;
        }
        assert(r@.map_values(|b: Block| b@) =~= self@);
        r
    }
}

/// Every block held by a ledger carries the hash of its own fields and nonce.
pub proof fn lemma_accepted_hash_integrity(ledger: &Ledger, i: int)
    requires
        ledger.wf(),
        0 <= i < ledger@.len(),
    ensures
        block_hash(ledger@[i], ledger@[i].nonce) == ledger@[i].hash,
{
}

/// Every block held by a ledger meets the ledger's difficulty.
pub proof fn lemma_accepted_difficulty(ledger: &Ledger, i: int)
    requires
        ledger.wf(),
        0 <= i < ledger@.len(),
    ensures
        leading_zero_bits(ledger@[i].hash) >= ledger.spec_difficulty(),
{
}

/// The first block of a ledger extends the zero hash and every later block
/// extends the hash of the block before it.
pub proof fn lemma_chain_linkage(ledger: &Ledger, i: int)
    requires
        ledger.wf(),
        0 <= i < ledger@.len(),
    ensures
        i == 0 ==> ledger@[i].prev_hash == zero_hash_spec(),
        i > 0 ==> ledger@[i].prev_hash == ledger@[i - 1].hash,
{
}

/// A hash-consistent block whose payload is altered, with hash and nonce
/// kept, is refused as a hash mismatch by any ledger, which then keeps its
/// blocks: unless the altered content happens to hash to the same value.
pub proof fn lemma_tampered_payload_rejected(
    ledger: &Ledger,
    b: BlockView,
    payload: Seq<char>,
)
    requires
        ledger.wf(),
        hash_is_consistent(b),
        payload != b.payload,
        block_hash(BlockView { payload, ..b }, b.nonce) != b.hash,
    ensures
        rejection(BlockView { payload, ..b }, tip_of(ledger@), ledger.spec_difficulty())
            == Some(ValidationError::HashMismatch),
{
}

/// Once `b` has been appended, offering it again is refused because the tip
/// has moved past its predecessor: unless its hash equals its own
/// predecessor hash.
pub proof fn lemma_reappend_rejected(before: Seq<BlockView>, b: BlockView, difficulty: u32)
    requires
        rejection(b, tip_of(before), difficulty) is None,
        b.hash != b.prev_hash,
    ensures
        rejection(b, tip_of(before.push(b)), difficulty) == Some(ValidationError::InvalidPrevHash),
{
    assert(before.push(b).last() == b);
}

} // verus!

//! The proof-of-work engine: a cancellable search for a satisfying nonce.
use crate::block::{block_hash, Block, BlockView};
use crate::bytes::copy_bytes;
use crate::hash::{has_leading_zero_bits, meets_difficulty};
use std::sync::atomic::{AtomicBool, Ordering};
use vstd::prelude::*;

verus! {

/// What a search for a nonce ends with.
pub enum MineOutcome {
    /// A finalized block whose hash meets the difficulty.
    Mined(Block),
    /// The search was abandoned; no block was produced.
    Cancelled,
}

/// `b` is `candidate` finalized with `b.nonce`: same content, hash computed
/// under that nonce and meeting `difficulty`, and no smaller nonce would do.
pub open spec fn is_mined_from(b: BlockView, candidate: BlockView, difficulty: u32) -> bool {
    &&& b.creator == candidate.creator
    &&& b.payload == candidate.payload
    &&& b.prev_hash == candidate.prev_hash
    &&& b.hash == block_hash(candidate, b.nonce)
    &&& meets_difficulty(b.hash, difficulty)
    &&& forall|n: u64| n < b.nonce ==> !meets_difficulty(#[trigger] block_hash(candidate, n), difficulty)
}

/// `candidate` finalized under `nonce`.
pub open spec fn finalized(candidate: BlockView, nonce: u64) -> BlockView {
    BlockView { nonce, hash: block_hash(candidate, nonce), ..candidate }
}

/// One attempt of the search: the block finalized under `nonce` if its
/// hash meets `difficulty`.
pub fn try_nonce(candidate: &Block, difficulty: u32, nonce: u64) -> (r: Option<Block>)
    ensures
        r is Some <==> meets_difficulty(block_hash(candidate@, nonce), difficulty),
        r matches Some(b) ==> b@ == finalized(candidate@, nonce),
{
    let h = candidate.compute_hash(nonce);
    if has_leading_zero_bits(&h, difficulty) {
        Some(
            Block {
                creator: candidate.creator.clone(),
                payload: candidate.payload.clone(),
                prev_hash: copy_bytes(&candidate.prev_hash),
                nonce,
                hash: h,
            },
        )
    } else {
        None
    }
}

/// Searches nonces upward from zero for one whose hash meets `difficulty`.
/// `cancel` is read before every attempt; once it is set the search stops
/// with [`MineOutcome::Cancelled`]. The search also ends that way if every
/// nonce has been tried without success.
pub fn mine(candidate: &Block, difficulty: u32, cancel: &AtomicBool) -> (r: MineOutcome)
    ensures
        r matches MineOutcome::Mined(b) ==> is_mined_from(b@, candidate@, difficulty),
        difficulty == 0 ==> (r matches MineOutcome::Mined(b) ==> b.nonce == 0),
{
    let mut nonce: u64 = 0;
    loop
        invariant
            forall|n: u64| n < nonce ==> !meets_difficulty(#[trigger] block_hash(candidate@, n), difficulty),
        decreases u64::MAX - nonce,
    {
        if cancel.load(Ordering::SeqCst) {
            return MineOutcome::Cancelled;
        }
        let attempt = try_nonce(candidate, difficulty, nonce);
        if let Some(b) = attempt {
            assert(nonce > 0 ==> !meets_difficulty(block_hash(candidate@, 0), difficulty));
            return MineOutcome::Mined(b);
        }
        if nonce == u64::MAX {
            return MineOutcome::Cancelled;
        }
        nonce = nonce + 1;
    }
}

} // verus!

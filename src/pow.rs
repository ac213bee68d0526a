use vstd::prelude::*;
use crate::block::{Block, meets_difficulty, has_difficulty};

verus! {

/// Whether `new_block` may follow `prev_block`: its index is the next one,
/// it links to `prev_block`'s hash, it carries its own hash, and that hash
/// meets the difficulty.
pub open spec fn may_follow(prev_block: Block, new_block: Block) -> bool {
    &&& new_block.index as int == prev_block.index as int + 1
    &&& new_block.previous_hash@ == prev_block.hash@
    &&& new_block.recomputed() == new_block.hash@
    &&& meets_difficulty(new_block.hash@)
}

/// Decides `may_follow`.
pub fn validate_block(prev_block: &Block, new_block: &Block) -> (r: bool)
    ensures
        r == may_follow(*prev_block, *new_block),
{
    if prev_block.index == u64::MAX || new_block.index != prev_block.index + 1 {
        return false;
    }
    if !(new_block.previous_hash == prev_block.hash) {
        return false;
    }
    let computed = new_block.calculate_hash();
    if !(computed == new_block.hash) {
        return false;
    }
    if !has_difficulty(new_block.hash.as_str()) {
        return false;
    }
    true
}

} // verus!

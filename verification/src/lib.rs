//! A minimal proof-of-work ledger: blocks linked by digests, admitted after a
//! hash puzzle is solved, with pairwise chain validation and a deterministic
//! fork-choice rule.
use vstd::prelude::*;

mod block;
mod encoding;
mod hashing;
mod ledger;
mod text;

pub use block::mine_block;
pub use block::Block;
pub use ledger::check_block;
pub use ledger::App;
pub use ledger::BlockFault;
pub use ledger::ChainError;
pub use encoding::hash_to_binary_representation;
pub use encoding::meets_difficulty;
pub use hashing::calculate_hash;
pub use hashing::canonical_json;

verus! {

/// Number of leading '0' characters the binary expansion of a block's digest
/// must carry: the classic two-character difficulty prefix.
pub const DIFFICULTY_BITS: usize = 2;

} // verus!

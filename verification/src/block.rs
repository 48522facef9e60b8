//! Blocks and the mining search that produces them.
use vstd::prelude::*;

use crate::encoding::{binary_of, hex_of, meets_difficulty, to_hex, zero_prefix};
use crate::hashing::{block_digest, calculate_hash};
use crate::DIFFICULTY_BITS;

verus! {

/// One record of the ledger, immutable once constructed.
#[derive(Clone, Debug, PartialEq, Eq)]
pub struct Block {
    /// Sequence number; the genesis block has 0, each successor one more.
    pub id: u64,
    /// Hex-encoded digest of this block's own other fields.
    pub hash: String,
    /// The predecessor's `hash`; a fixed sentinel for the genesis block.
    pub previous_hash: String,
    /// Seconds since the epoch at creation; informational only.
    pub timestamp: i64,
    /// Opaque text payload.
    pub data: String,
    /// The solution of the hash puzzle.
    pub nonce: u64,
}

/// The digest that a block's own fields denote.
pub open spec fn digest_of_block(b: Block) -> Seq<u8> {
    block_digest(b.id, b.timestamp, b.previous_hash@, b.data@, b.nonce)
}

/// Self-consistency: the stored hash is exactly the hex encoding of the
/// digest recomputed from the block's other fields.
pub open spec fn self_consistent(b: Block) -> bool {
    b.hash@ == hex_of(digest_of_block(b))
}

/// Whether this nonce solves the puzzle for these fields: the digest's binary
/// expansion clears the difficulty.
pub open spec fn good_nonce(
    id: u64,
    timestamp: i64,
    previous_hash: Seq<char>,
    data: Seq<char>,
    nonce: u64,
) -> bool {
    zero_prefix(
        binary_of(block_digest(id, timestamp, previous_hash, data, nonce)),
        DIFFICULTY_BITS as nat,
    )
}

/// Tries nonces from 0 upward, strictly below `limit`, and returns the first
/// one whose digest clears the difficulty, together with that digest in hex.
pub fn mine_block(id: u64, timestamp: i64, previous_hash: &str, data: &str, limit: u64) -> (r:
    Option<(u64, String)>)
    ensures
        r matches Some(found) ==> {
            &&& found.0 < limit
            &&& good_nonce(id, timestamp, previous_hash@, data@, found.0)
            &&& found.1@ == hex_of(
                block_digest(id, timestamp, previous_hash@, data@, found.0),
            )
            &&& forall|m: u64|
                m < found.0 ==> !good_nonce(id, timestamp, previous_hash@, data@, m)
        },
        r is None ==> forall|m: u64| m < limit ==> !good_nonce(id, timestamp, previous_hash@, data@, m),
{
    let mut nonce: u64 = 0;
    while nonce < limit
        invariant
            nonce <= limit,
            forall|m: u64| m < nonce ==> !good_nonce(id, timestamp, previous_hash@, data@, m),
        decreases limit - nonce,
    {
        let digest = calculate_hash(id, timestamp, previous_hash, data, nonce);
        if meets_difficulty(&digest, DIFFICULTY_BITS) {
            let hash = to_hex(&digest);
            return Some((nonce, hash));
        }
        nonce = nonce + 1;
    }
    None
}

impl Block {
    /// Mines a block with the given fields, searching nonces strictly below
    /// `limit`; `None` means no nonce in that range solves the puzzle.
    pub fn new(id: u64, timestamp: i64, previous_hash: String, data: String, limit: u64) -> (r:
        Option<Block>)
        ensures
            r matches Some(b) ==> {
                &&& b.id == id
                &&& b.timestamp == timestamp
                &&& b.previous_hash@ == previous_hash@
                &&& b.data@ == data@
                &&& self_consistent(b)
                &&& good_nonce(id, timestamp, previous_hash@, data@, b.nonce)
                &&& forall|m: u64|
                    m < b.nonce ==> !good_nonce(id, timestamp, previous_hash@, data@, m)
            },
            r is None ==> forall|m: u64|
                m < limit ==> !good_nonce(id, timestamp, previous_hash@, data@, m),
    {
        match mine_block(id, timestamp, previous_hash.as_str(), data.as_str(), limit) {
            Some(found) => {
                let (nonce, hash) = found;
                Some(Block { id, hash, previous_hash, timestamp, data, nonce })
            },
            None => None,
        }
    }
}

/// Raising the difficulty never lowers the work: the first nonce clearing a
/// longer all-zero prefix is no earlier than the first clearing a shorter one.
pub proof fn lemma_harder_difficulty_mines_later(
    id: u64,
    timestamp: i64,
    previous_hash: Seq<char>,
    data: Seq<char>,
    m: nat,
    n: nat,
    easy_nonce: u64,
    hard_nonce: u64,
)
    requires
        m <= n,
        zero_prefix(binary_of(block_digest(id, timestamp, previous_hash, data, easy_nonce)), m),
        forall|j: u64|
            j < easy_nonce ==> !zero_prefix(
                binary_of(#[trigger] block_digest(id, timestamp, previous_hash, data, j)),
                m,
            ),
        zero_prefix(binary_of(block_digest(id, timestamp, previous_hash, data, hard_nonce)), n),
    ensures
        easy_nonce <= hard_nonce,
{
    if hard_nonce < easy_nonce {
        crate::encoding::lemma_zero_prefix_monotonic(
            binary_of(block_digest(id, timestamp, previous_hash, data, hard_nonce)),
            m,
            n,
        );
    }
}

} // verus!

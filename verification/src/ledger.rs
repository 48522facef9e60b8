//! Validation of blocks and chains, the fork-choice rule, and the ledger that
//! owns the canonical chain.
use vstd::prelude::*;

use crate::block::{digest_of_block, self_consistent, Block};
use crate::encoding::{
    binary_of, from_hex, hex_bytes, lemma_hex_of_injective, lemma_hex_of_valid,
    lemma_hex_round_trip, meets_difficulty, to_hex, valid_hex, zero_prefix,
};
use crate::hashing::calculate_hash;
use crate::DIFFICULTY_BITS;

verus! {

/// Why a candidate block was turned away, one kind per check, in the order
/// the checks run.
#[derive(Clone, Copy, Debug, PartialEq, Eq)]
pub enum BlockFault {
    /// `previous_hash` does not match the predecessor's `hash`.
    Linkage,
    /// The stored `hash` is not a well-formed hex string; malformed input,
    /// kept apart from the ordinary rejections.
    NotHex,
    /// The stored digest does not clear the difficulty.
    Difficulty,
    /// `id` is not the successor of the predecessor's `id`.
    Sequence,
    /// The digest recomputed from the block's own fields does not match the
    /// stored `hash`.
    HashMismatch,
}

/// Errors of chain-level operations.
#[derive(Clone, Copy, Debug, PartialEq, Eq)]
pub enum ChainError {
    /// A stored hash could not be decoded from hex.
    Decode,
    /// The chain has not been seeded with a genesis block.
    Empty,
    /// Both fork candidates are invalid: a fatal consensus failure.
    Conflict,
}

/// The first of the four checks (linkage, difficulty over the decoded hash,
/// sequence, self-consistency) that a candidate fails against its
/// predecessor, with hex decoding surfaced between linkage and difficulty.
pub open spec fn first_fault(b: Block, prev: Block) -> Option<BlockFault> {
    if b.previous_hash@ != prev.hash@ {
        Some(BlockFault::Linkage)
    } else if !valid_hex(b.hash@) {
        Some(BlockFault::NotHex)
    } else if !zero_prefix(binary_of(hex_bytes(b.hash@)), DIFFICULTY_BITS as nat) {
        Some(BlockFault::Difficulty)
    } else if b.id != prev.id + 1 {
        Some(BlockFault::Sequence)
    } else if !self_consistent(b) {
        Some(BlockFault::HashMismatch)
    } else {
        None
    }
}

/// A candidate properly extends its predecessor: no check fails.
pub open spec fn block_valid(b: Block, prev: Block) -> bool {
    first_fault(b, prev) is None
}

/// A whole chain is valid when every block past the exempt genesis properly
/// extends the block before it.
pub open spec fn chain_valid(c: Seq<Block>) -> bool {
    forall|i: int| 1 <= i < c.len() ==> block_valid(#[trigger] c[i], c[i - 1])
}

/// What walking a chain pairwise from index `i` reports first: `Ok(true)` if
/// every remaining pair passes, `Err(Decode)` if a malformed hash is hit
/// first, `Ok(false)` if an ordinary rejection is hit first.
pub open spec fn chain_outcome_from(c: Seq<Block>, i: int) -> Result<bool, ChainError>
    decreases c.len() - i,
{
    if i < 1 || i >= c.len() {
        Ok(true)
    } else {
        match first_fault(c[i], c[i - 1]) {
            Option::None => chain_outcome_from(c, i + 1),
            Option::Some(BlockFault::NotHex) => Err(ChainError::Decode),
            Option::Some(_) => Ok(false),
        }
    }
}

/// The verdict of walking a whole chain, genesis exempt.
pub open spec fn chain_outcome(c: Seq<Block>) -> Result<bool, ChainError> {
    chain_outcome_from(c, 1)
}

proof fn lemma_chain_outcome_from_valid(c: Seq<Block>, i: int)
    requires
        1 <= i,
    ensures
        chain_outcome_from(c, i) == Ok::<bool, ChainError>(true) <==> (forall|j: int|
            i <= j < c.len() ==> block_valid(#[trigger] c[j], c[j - 1])),
    decreases c.len() - i,
{
    if i < c.len() {
        lemma_chain_outcome_from_valid(c, i + 1);
    }
}

/// The pairwise walk reports `Ok(true)` exactly on valid chains.
pub proof fn lemma_chain_outcome_valid(c: Seq<Block>)
    ensures
        chain_outcome(c) == Ok::<bool, ChainError>(true) <==> chain_valid(c),
{
    lemma_chain_outcome_from_valid(c, 1);
}

/// A chain of at most one block is valid: the genesis block is exempt.
pub proof fn lemma_short_chain_valid(c: Seq<Block>)
    requires
        c.len() <= 1,
    ensures
        chain_valid(c),
{
}

/// Appending a properly linked block keeps a valid chain valid.
pub proof fn lemma_push_valid_block(c: Seq<Block>, b: Block)
    requires
        c.len() >= 1,
        chain_valid(c),
        block_valid(b, c.last()),
    ensures
        chain_valid(c.push(b)),
{
    let t = c.push(b);
    assert forall|i: int| 1 <= i < t.len() implies block_valid(#[trigger] t[i], t[i - 1]) by {
        if i < c.len() {
            assert(t[i] == c[i] && t[i - 1] == c[i - 1]);
        } else {
            assert(t[i] == b && t[i - 1] == c.last());
        }
    }
}

/// Appending a block that fails any check makes the longer chain invalid,
/// while the original chain is untouched: no retroactive corruption.
pub proof fn lemma_push_invalid_block(c: Seq<Block>, b: Block)
    requires
        c.len() >= 1,
        !block_valid(b, c.last()),
    ensures
        !chain_valid(c.push(b)),
{
    let t = c.push(b);
    assert(t[c.len() as int] == b && t[c.len() - 1] == c.last());
    assert(!block_valid(t[c.len() as int], t[c.len() - 1]));
}

/// A chain that is valid with one more block was valid before it.
pub proof fn lemma_chain_prefix_valid(c: Seq<Block>, b: Block)
    requires
        chain_valid(c.push(b)),
    ensures
        chain_valid(c),
{
    let t = c.push(b);
    assert forall|i: int| 1 <= i < c.len() implies block_valid(#[trigger] c[i], c[i - 1]) by {
        assert(t[i] == c[i] && t[i - 1] == c[i - 1]);
        assert(block_valid(t[i], t[i - 1]));
    }
}

/// Mining and validation agree: a block whose fields extend its predecessor
/// and whose freshly computed digest clears the difficulty passes all four
/// checks, the decoding of its hex hash included.
pub proof fn lemma_mined_block_valid(b: Block, prev: Block)
    requires
        b.previous_hash@ == prev.hash@,
        b.id == prev.id + 1,
        self_consistent(b),
        zero_prefix(binary_of(digest_of_block(b)), DIFFICULTY_BITS as nat),
    ensures
        block_valid(b, prev),
{
    lemma_hex_of_valid(digest_of_block(b));
    lemma_hex_round_trip(digest_of_block(b));
}

/// Tampering is detected, short of a digest collision: a variant of a
/// self-consistent block that keeps the stored hash but whose fields digest
/// differently is no longer self-consistent.
pub proof fn lemma_tamper_breaks_consistency(b: Block, t: Block)
    requires
        self_consistent(b),
        t.hash@ == b.hash@,
        digest_of_block(t) != digest_of_block(b),
    ensures
        !self_consistent(t),
{
    if self_consistent(t) {
        lemma_hex_of_injective(digest_of_block(t), digest_of_block(b));
    }
}

/// The four checks in their fixed order; the first failure is reported.
pub fn check_block(block: &Block, previous_block: &Block) -> (r: Result<(), BlockFault>)
    ensures
        first_fault(*block, *previous_block) is None <==> r is Ok,
        r matches Err(f) ==> first_fault(*block, *previous_block) == Some(f),
{
    if block.previous_hash != previous_block.hash {
        return Err(BlockFault::Linkage);
    }
    match from_hex(block.hash.as_str()) {
        None => Err(BlockFault::NotHex),
        Some(bytes) => {
            if !meets_difficulty(&bytes, DIFFICULTY_BITS) {
                Err(BlockFault::Difficulty)
            } else if previous_block.id == u64::MAX || block.id != previous_block.id + 1 {
                Err(BlockFault::Sequence)
            } else {
                let digest = calculate_hash(
                    block.id,
                    block.timestamp,
                    block.previous_hash.as_str(),
                    block.data.as_str(),
                    block.nonce,
                );
                let expected = to_hex(&digest);
                if expected != block.hash {
                    Err(BlockFault::HashMismatch)
                } else {
                    Ok(())
                }
            }
        },
    }
}

/// The fixed genesis block: hard coded, not mined, exempt from the checks.
pub open spec fn is_genesis(b: Block) -> bool {
    &&& b.id == 0
    &&& b.timestamp == 0
    &&& b.nonce == 0
    &&& b.previous_hash@ == "genesis"@
    &&& b.data@ == "genesis"@
    &&& b.hash@ == "genesis-hash"@
}

/// A candidate that does not point at the genesis block's hash is turned
/// away on linkage, so the freshly seeded chain keeps its single block.
pub proof fn lemma_genesis_rejects_unlinked(g: Block, b: Block)
    requires
        is_genesis(g),
        b.previous_hash@ != g.hash@,
    ensures
        first_fault(b, g) == Some(BlockFault::Linkage),
        !block_valid(b, g),
{
}

/// The ledger: sole owner of the canonical chain.
pub struct App {
    /// The canonical chain; index 0 is the genesis block.
    pub blocks: Vec<Block>,
}

impl App {
    /// A ledger with no chain yet; `genesis` must seed it before any append.
    pub fn new() -> (app: App)
        ensures
            app.blocks@.len() == 0,
    {
        App { blocks: Vec::new() }
    }

    /// Seeds the chain with the fixed genesis block; once seeded, further
    /// calls change nothing.
    pub fn genesis(&mut self)
        ensures
            old(self).blocks@.len() == 0 ==> final(self).blocks@.len() == 1 && is_genesis(
                final(self).blocks@[0],
            ),
            old(self).blocks@.len() != 0 ==> final(self).blocks@ == old(self).blocks@,
            chain_valid(old(self).blocks@) ==> chain_valid(final(self).blocks@),
    {
        if self.blocks.len() == 0 {
            let block = Block {
                id: 0,
                hash: "genesis-hash".to_owned(),
                previous_hash: "genesis".to_owned(),
                timestamp: 0,
                data: "genesis".to_owned(),
                nonce: 0,
            };
            self.blocks.push(block);
            proof {
                lemma_short_chain_valid(self.blocks@);
            }
        }
    }

    /// Validates a candidate against its claimed predecessor: `Ok(true)` when
    /// all four checks pass, `Ok(false)` on an ordinary rejection, and
    /// `Err(Decode)` when the candidate's hash is not well-formed hex.
    pub fn is_block_valid(&self, block: &Block, previous_block: &Block) -> (r: Result<
        bool,
        ChainError,
    >)
        ensures
            match first_fault(*block, *previous_block) {
                None => r == Ok::<bool, ChainError>(true),
                Some(BlockFault::NotHex) => r == Err::<bool, ChainError>(ChainError::Decode),
                Some(_) => r == Ok::<bool, ChainError>(false),
            },
            r == Ok::<bool, ChainError>(true) <==> block_valid(*block, *previous_block),
    {
        match check_block(block, previous_block) {
            Ok(()) => Ok(true),
            Err(BlockFault::NotHex) => Err(ChainError::Decode),
            Err(_) => Ok(false),
        }
    }

    /// Reads the tip and appends the candidate when it passes the checks; a
    /// rejected candidate is dropped and the chain stays as it was.
    pub fn try_add_block(&mut self, block: Block) -> (r: Result<bool, ChainError>)
        ensures
            old(self).blocks@.len() == 0 ==> r == Err::<bool, ChainError>(ChainError::Empty)
                && final(self).blocks@ == old(self).blocks@,
            old(self).blocks@.len() != 0 ==> match first_fault(block, old(self).blocks@.last()) {
                None => r == Ok::<bool, ChainError>(true) && final(self).blocks@ == old(
                    self,
                ).blocks@.push(block),
                Some(BlockFault::NotHex) => r == Err::<bool, ChainError>(ChainError::Decode)
                    && final(self).blocks@ == old(self).blocks@,
                Some(_) => r == Ok::<bool, ChainError>(false) && final(self).blocks@ == old(
                    self,
                ).blocks@,
            },
            chain_valid(old(self).blocks@) ==> chain_valid(final(self).blocks@),
    {
        let n = self.blocks.len();
        if n == 0 {
            return Err(ChainError::Empty);
        }
        let verdict = check_block(&block, &self.blocks[n - 1]);
        match verdict {
            Ok(()) => {
                proof {
                    if chain_valid(self.blocks@) {
                        lemma_push_valid_block(self.blocks@, block);
                    }
                }
                self.blocks.push(block);
                Ok(true)
            },
            Err(BlockFault::NotHex) => Err(ChainError::Decode),
            Err(_) => Ok(false),
        }
    }

    /// Walks a chain pairwise, the genesis block exempt: `Ok(true)` exactly
    /// when the chain is valid, `Err(Decode)` when a malformed hash comes
    /// before any ordinary rejection.
    pub fn is_chain_valid(&self, chain: &Vec<Block>) -> (r: Result<bool, ChainError>)
        ensures
            r == chain_outcome(chain@),
            r == Ok::<bool, ChainError>(true) <==> chain_valid(chain@),
    {
        proof {
            lemma_chain_outcome_valid(chain@);
        }
        let mut i: usize = 1;
        while i < chain.len()
            invariant
                1 <= i,
                chain_outcome(chain@) == chain_outcome_from(chain@, i as int),
            decreases chain@.len() - i,
        {
            match check_block(&chain[i], &chain[i - 1]) {
                Ok(()) => {},
                Err(BlockFault::NotHex) => {
                    return Err(ChainError::Decode);
                },
                Err(_) => {
                    return Ok(false);
                },
            }
            i = i + 1;
        }
        Ok(true)
    }

    /// The fork-choice rule: of two valid chains the longer wins and a tie
    /// goes to `remote`; of one valid chain, that one; of none, a fatal
    /// consensus conflict. A malformed hash in either chain is a decode
    /// error, `local` examined first.
    pub fn choose_chain(&self, local: Vec<Block>, remote: Vec<Block>) -> (r: Result<
        Vec<Block>,
        ChainError,
    >)
        ensures
            ({
                let lo = chain_outcome(local@);
                let ro = chain_outcome(remote@);
                if lo is Err || ro is Err {
                    r == Err::<Vec<Block>, ChainError>(ChainError::Decode)
                } else if lo == Ok::<bool, ChainError>(true) && ro == Ok::<bool, ChainError>(
                    true,
                ) {
                    if local@.len() > remote@.len() {
                        r matches Ok(c) && c@ == local@
                    } else {
                        r matches Ok(c) && c@ == remote@
                    }
                } else if lo == Ok::<bool, ChainError>(true) {
                    r matches Ok(c) && c@ == local@
                } else if ro == Ok::<bool, ChainError>(true) {
                    r matches Ok(c) && c@ == remote@
                } else {
                    r == Err::<Vec<Block>, ChainError>(ChainError::Conflict)
                }
            }),
            r matches Ok(c) ==> chain_valid(c@),
    {
        let is_local_valid = match self.is_chain_valid(&local) {
            Ok(v) => v,
            Err(_) => {
                return Err(ChainError::Decode);
            },
        };
        let is_remote_valid = match self.is_chain_valid(&remote) {
            Ok(v) => v,
            Err(_) => {
                return Err(ChainError::Decode);
            },
        };
        if is_local_valid && is_remote_valid {
            if local.len() > remote.len() {
                Ok(local)
            } else {
                Ok(remote)
            }
        } else if is_local_valid {
            Ok(local)
        } else if is_remote_valid {
            Ok(remote)
        } else {
            Err(ChainError::Conflict)
        }
    }
}

} // verus!

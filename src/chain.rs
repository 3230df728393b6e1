use crate::block::{has_work, hash_matches, now_timestamp, Block};
use crate::hashing::{calculate_hash, has_difficulty, hex_encode};
use vstd::prelude::*;

verus! {

/// Why a block was refused as the successor of another.
#[derive(Clone, Copy, Debug, PartialEq, Eq, Structural)]
pub enum BlockError {
    /// `previous_hash` is not the predecessor's hash.
    LinkMismatch,
    /// The difficulty string of the hash does not start with the prefix.
    InsufficientWork,
    /// The id is not one more than the predecessor's.
    SequenceViolation,
    /// The hash is not the hex digest of the block's fields.
    HashMismatch,
}

/// Fork choice found neither chain valid.
#[derive(Clone, Copy, Debug, PartialEq, Eq, Structural)]
pub enum ForkError {
    BothInvalid,
}

/// The verdict on `block` as the successor of `previous`: the first check that
/// fails, in the order link, work, sequence, hash.
pub open spec fn block_check(block: Block, previous: Block) -> Result<(), BlockError> {
    if block.previous_hash@ != previous.hash@ {
        Err(BlockError::LinkMismatch)
    } else if !has_work(block) {
        Err(BlockError::InsufficientWork)
    } else if block.id != previous.id + 1 {
        Err(BlockError::SequenceViolation)
    } else if !hash_matches(block) {
        Err(BlockError::HashMismatch)
    } else {
        Ok(())
    }
}

/// `block` passes all four checks as the successor of `previous`.
pub open spec fn block_valid(block: Block, previous: Block) -> bool {
    block_check(block, previous) is Ok
}

/// A chain is valid when it has more than one block and each block is a valid
/// successor of the one before it.
pub open spec fn chain_valid(c: Seq<Block>) -> bool {
    c.len() > 1 && forall|i: int| 1 <= i < c.len() ==> #[trigger] block_valid(c[i], c[i - 1])
}

/// The remote chain is taken over the local one: it is valid, and the local one
/// is invalid or strictly shorter. On equal length the local chain is kept.
pub open spec fn remote_wins(local: Seq<Block>, remote: Seq<Block>) -> bool {
    chain_valid(remote) && (!chain_valid(local) || remote.len() > local.len())
}

/// Fork choice: a valid chain beats an invalid one; between two valid chains the
/// strictly longer wins; when neither is valid there is no choice.
pub open spec fn chosen(local: Seq<Block>, remote: Seq<Block>) -> Result<Seq<Block>, ForkError> {
    if !chain_valid(local) && !chain_valid(remote) {
        Err(ForkError::BothInvalid)
    } else if remote_wins(local, remote) {
        Ok(remote)
    } else {
        Ok(local)
    }
}

/// The block every chain starts from, agreed on by all peers.
pub open spec fn is_genesis(b: Block) -> bool {
    &&& b.id == 0
    &&& b.previous_hash@ == seq!['g', 'e', 'n', 'e', 's', 'i', 's']
    &&& b.data@ == seq!['g', 'e', 'n', 'e', 's', 'i', 's', '!']
    &&& b.pow == 0
    &&& b.hash@ == seq![
        '6', '1', '6', '6', '7', '4', '6', '5', '7', '2', '2', '0', '6', '4', '6', '1', '7', '2', '6', 'b',
    ]
}

/// Checks `block` as the successor of `previous_block`, reporting the first
/// check that fails.
pub fn check_block(block: &Block, previous_block: &Block) -> (r: Result<(), BlockError>)
    ensures
        r == block_check(*block, *previous_block),
{
    if block.previous_hash != previous_block.hash {
        return Err(BlockError::LinkMismatch);
    }
    if !has_difficulty(block.hash.as_str().as_bytes()) {
        return Err(BlockError::InsufficientWork);
    }
    if previous_block.id == u64::MAX || block.id != previous_block.id + 1 {
        return Err(BlockError::SequenceViolation);
    }
    let digest = calculate_hash(
        block.id,
        block.timestamp,
        block.previous_hash.as_str(),
        block.data.as_str(),
        block.pow,
    );
    let recomputed = hex_encode(digest.as_slice());
    if recomputed != block.hash {
        return Err(BlockError::HashMismatch);
    }
    Ok(())
}

/// Whether every block of `chain` after the first is a valid successor of the
/// block before it, and there is more than one block.
pub fn chain_is_valid(chain: &Vec<Block>) -> (r: bool)
    ensures
        r == chain_valid(chain@),
{
    if chain.len() <= 1 {
        return false;
    }
    let mut i: usize = 1;
    while i < chain.len()
        invariant
            1 <= i <= chain@.len(),
            forall|j: int| 1 <= j < i ==> #[trigger] block_valid(chain@[j], chain@[j - 1]),
        decreases chain@.len() - i,
    {
        if check_block(&chain[i], &chain[i - 1]).is_err() {
            assert(!block_valid(chain@[i as int], chain@[i - 1]));
            return false;
        }
        i = i + 1;
    }
    true
}

/// A copy of a sequence of blocks.
pub fn copy_blocks(v: &Vec<Block>) -> (r: Vec<Block>)
    ensures
        r@ == v@,
{
    let mut r: Vec<Block> = Vec::new();
    let mut i: usize = 0;
    while i < v.len()
        invariant
            i <= v@.len(),
            r@ == v@.subrange(0, i as int),
        decreases v@.len() - i,
    {
        r.push(v[i].duplicate());
        assert(r@ =~= v@.subrange(0, i + 1));
        i = i + 1;
    }
    assert(v@.subrange(0, i as int) =~= v@);
    r
}

/// A local ledger: its blocks in order, the genesis block first.
#[derive(Debug)]
pub struct Chain {
    pub blocks: Vec<Block>,
}

impl Chain {
    /// An empty chain, before the genesis block is placed.
    pub fn new() -> (r: Chain)
        ensures
            r.blocks@.len() == 0,
    {
        Chain { blocks: Vec::new() }
    }

    /// The genesis block with the given timestamp.
    pub fn genesis_block(timestamp: i64) -> (r: Block)
        ensures
            is_genesis(r),
            r.timestamp == timestamp,
    {
        proof {
            reveal_strlit("genesis");
            reveal_strlit("genesis!");
            reveal_strlit("6166746572206461726b");
        }
        let r = Block {
            id: 0,
            timestamp,
            previous_hash: String::from_str("genesis"),
            data: String::from_str("genesis!"),
            pow: 0,
            hash: String::from_str("6166746572206461726b"),
        };
        assert(r.previous_hash@ =~= seq!['g', 'e', 'n', 'e', 's', 'i', 's']);
        assert(r.data@ =~= seq!['g', 'e', 'n', 'e', 's', 'i', 's', '!']);
        assert(r.hash@ =~= seq![
            '6', '1', '6', '6', '7', '4', '6', '5', '7', '2', '2', '0', '6', '4', '6', '1', '7', '2', '6', 'b',
        ]);
        r
    }

    /// Appends the genesis block, stamped with the current time. It is placed
    /// without mining and without the link check.
    pub fn genesis(&mut self)
        ensures
            final(self).blocks@.len() == old(self).blocks@.len() + 1,
            final(self).blocks@.drop_last() == old(self).blocks@,
            is_genesis(final(self).blocks@.last()),
    {
        let block = Chain::genesis_block(now_timestamp());
        self.blocks.push(block);
        assert(final(self).blocks@.drop_last() =~= old(self).blocks@);
    }

    /// Appends `block` when it is a valid successor of the last block; otherwise
    /// leaves the chain as it was.
    pub fn try_add_block(&mut self, block: Block)
        requires
            old(self).blocks@.len() > 0,
        ensures
            block_valid(block, old(self).blocks@.last()) ==> final(self).blocks@ == old(
                self,
            ).blocks@.push(block),
            !block_valid(block, old(self).blocks@.last()) ==> final(self).blocks@ == old(
                self,
            ).blocks@,
    {
        let n = self.blocks.len();
        if self.is_block_valid(&block, &self.blocks[n - 1]) {
            self.blocks.push(block);
        }
    }

    /// Whether `block` is a valid successor of `previous_block`.
    pub fn is_block_valid(&self, block: &Block, previous_block: &Block) -> (r: bool)
        ensures
            r == block_valid(*block, *previous_block),
    {
        check_block(block, previous_block).is_ok()
    }

    /// Validates a whole chain: `(true, n)` with `n` the number of checked pairs
    /// when every pair is valid, and `(false, 0)` otherwise, including for a chain
    /// of one block or none.
    pub fn is_chain_valid(&self, chain: &Vec<Block>) -> (r: (bool, i32))
        requires
            chain@.len() <= i32::MAX + 1,
        ensures
            r.0 == chain_valid(chain@),
            r.0 ==> r.1 == chain@.len() - 1,
            !r.0 ==> r.1 == 0,
    {
        if chain_is_valid(chain) {
            (true, (chain.len() - 1) as i32)
        } else {
            (false, 0)
        }
    }

    /// Picks which of two chains to hold: see `chosen`. Returns one of the two
    /// unchanged, or `ForkError::BothInvalid` when neither is valid.
    pub fn choose_chain(&self, local: Vec<Block>, remote: Vec<Block>) -> (r: Result<
        Vec<Block>,
        ForkError,
    >)
        ensures
            match (r, chosen(local@, remote@)) {
                (Ok(v), Ok(s)) => v@ == s,
                (Err(e), Err(f)) => e == f,
                _ => false,
            },
    {
        let local_valid = chain_is_valid(&local);
        let remote_valid = chain_is_valid(&remote);
        if local_valid && remote_valid {
            if remote.len() > local.len() {
                Ok(remote)
            } else {
                Ok(local)
            }
        } else if remote_valid {
            Ok(remote)
        } else if local_valid {
            Ok(local)
        } else {
            Err(ForkError::BothInvalid)
        }
    }
}

/// A chain of one block is never valid, and its check reports no pairs.
pub proof fn lemma_single_block_chain_invalid(c: Seq<Block>)
    requires
        c.len() == 1,
    ensures
        !chain_valid(c),
{
}

/// A block whose link is wrong is refused for that reason, whatever else is wrong.
pub proof fn lemma_link_checked_first(block: Block, previous: Block)
    requires
        block.previous_hash@ != previous.hash@,
    ensures
        block_check(block, previous) == Err::<(), BlockError>(BlockError::LinkMismatch),
{
}

/// A strict prefix of a valid chain loses to the chain it is a prefix of, in
/// either position.
pub proof fn lemma_prefix_loses(a: Seq<Block>, b: Seq<Block>)
    requires
        chain_valid(b),
        a.len() < b.len(),
        a == b.subrange(0, a.len() as int),
    ensures
        chosen(a, b) == Ok::<Seq<Block>, ForkError>(b),
        chosen(b, a) == Ok::<Seq<Block>, ForkError>(b),
{
    if a.len() > 1 {
        assert forall|i: int| 1 <= i < a.len() implies #[trigger] block_valid(a[i], a[i - 1]) by {
            assert(block_valid(b[i], b[i - 1]));
        }
    }
}

} // verus!

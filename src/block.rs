use crate::hashing::{
    binary_text, block_digest, calculate_hash, has_difficulty, hex_encode, hex_text,
    lemma_hex_keeps_difficulty, meets_difficulty,
};
use vstd::prelude::*;
use vstd::utf8::encode_utf8;

verus! {

/// One entry of the ledger. `hash` is the hex digest of the other fields.
#[derive(Clone, Debug)]
pub struct Block {
    pub id: u64,
    pub hash: String,
    pub previous_hash: String,
    pub timestamp: i64,
    pub data: String,
    /// The proof-of-work nonce.
    pub pow: u64,
}

impl PartialEq for Block {
    fn eq(&self, o: &Block) -> (r: bool) {
        self.id == o.id && self.hash == o.hash && self.previous_hash == o.previous_hash
            && self.timestamp == o.timestamp && self.data == o.data && self.pow == o.pow
    }
}

impl vstd::std_specs::cmp::PartialEqSpecImpl for Block {
    open spec fn obeys_eq_spec() -> bool {
        true
    }

    open spec fn eq_spec(&self, o: &Block) -> bool {
        self.id == o.id && self.hash@ == o.hash@ && self.previous_hash@ == o.previous_hash@
            && self.timestamp == o.timestamp && self.data@ == o.data@ && self.pow == o.pow
    }
}

impl Default for Block {
    fn default() -> (r: Block)
        ensures
            r.id == 0,
            r.hash@ == Seq::<char>::empty(),
            r.previous_hash@ == Seq::<char>::empty(),
            r.timestamp == 0,
            r.data@ == Seq::<char>::empty(),
            r.pow == 0,
    {
        Block {
            id: 0,
            hash: String::new(),
            previous_hash: String::new(),
            timestamp: 0,
            data: String::new(),
            pow: 0,
        }
    }
}

/// Whether nonce `pow` solves the puzzle for the given fields.
pub open spec fn nonce_wins(
    id: u64,
    timestamp: i64,
    previous_hash: Seq<char>,
    data: Seq<char>,
    pow: u64,
) -> bool {
    meets_difficulty(binary_text(block_digest(id, timestamp, previous_hash, data, pow)))
}

/// No `u64` nonce solves the puzzle for the given fields.
pub open spec fn unsolvable(id: u64, timestamp: i64, previous_hash: Seq<char>, data: Seq<char>) -> bool {
    forall|m: u64| !nonce_wins(id, timestamp, previous_hash, data, m)
}

/// The digest of the block's own fields.
pub open spec fn digest_of(b: Block) -> Seq<u8> {
    block_digest(b.id, b.timestamp, b.previous_hash@, b.data@, b.pow)
}

/// The stored hash is the hex rendering of the recomputed digest.
pub open spec fn hash_matches(b: Block) -> bool {
    b.hash@ == hex_text(digest_of(b))
}

/// The difficulty string of the stored hash's bytes starts with the prefix.
pub open spec fn has_work(b: Block) -> bool {
    meets_difficulty(binary_text(encode_utf8(b.hash@)))
}

/// Relies on chrono's `Utc::now().timestamp()`: the current time in whole seconds
/// since the Unix epoch. It depends on the clock, so nothing is promised of it.
#[verifier::external_body]
pub(crate) fn now_timestamp() -> (r: i64) {
    chrono::Utc::now().timestamp()
}

impl Block {
    /// A copy of the block, field for field.
    pub fn duplicate(&self) -> (r: Block)
        ensures
            r == *self,
    {
        Block {
            id: self.id,
            hash: self.hash.clone(),
            previous_hash: self.previous_hash.clone(),
            timestamp: self.timestamp,
            data: self.data.clone(),
            pow: self.pow,
        }
    }

    /// Searches nonces from zero upwards for the first one whose digest meets the
    /// difficulty prefix; returns it with the digest in hex, or `None` when no
    /// `u64` nonce wins.
    pub fn mine_block(id: u64, timestamp: i64, previous_hash: &str, data: &str) -> (r: Option<
        (u64, String),
    >)
        ensures
            match r {
                Some((pow, hash)) => {
                    &&& nonce_wins(id, timestamp, previous_hash@, data@, pow)
                    &&& hash@ == hex_text(block_digest(id, timestamp, previous_hash@, data@, pow))
                    &&& forall|m: u64| m < pow ==> !nonce_wins(id, timestamp, previous_hash@, data@, m)
                },
                None => unsolvable(id, timestamp, previous_hash@, data@),
            },
    {
        let mut pow: u64 = 0;
        loop
            invariant
                forall|m: u64| m < pow ==> !nonce_wins(id, timestamp, previous_hash@, data@, m),
            decreases u64::MAX - pow,
        {
            let digest = calculate_hash(id, timestamp, previous_hash, data, pow);
            if has_difficulty(digest.as_slice()) {
                let hash = hex_encode(digest.as_slice());
                return Some((pow, hash));
            }
            if pow == u64::MAX {
                assert forall|m: u64| !nonce_wins(id, timestamp, previous_hash@, data@, m) by {
                    if m < pow {
                    }
                }
                return None;
            }
            pow = pow + 1;
        }
    }

    /// Builds a block with the given fields and timestamp, mining its nonce.
    pub fn mined(id: u64, timestamp: i64, previous_hash: String, data: String) -> (r: Option<
        Block,
    >)
        ensures
            match r {
                Some(b) => {
                    &&& b.id == id
                    &&& b.timestamp == timestamp
                    &&& b.previous_hash@ == previous_hash@
                    &&& b.data@ == data@
                    &&& nonce_wins(id, timestamp, previous_hash@, data@, b.pow)
                    &&& forall|m: u64| m < b.pow ==> !nonce_wins(id, timestamp, previous_hash@, data@, m)
                    &&& hash_matches(b)
                    &&& has_work(b)
                },
                None => unsolvable(id, timestamp, previous_hash@, data@),
            },
    {
        match Block::mine_block(id, timestamp, previous_hash.as_str(), data.as_str()) {
            Some((pow, hash)) => {
                proof {
                    lemma_hex_keeps_difficulty(
                        block_digest(id, timestamp, previous_hash@, data@, pow),
                    );
                }
                Some(Block { id, hash, previous_hash, timestamp, data, pow })
            },
            None => None,
        }
    }

    /// Builds a block stamped with the current time, mining its nonce.
    pub fn new(id: u64, previous_hash: String, data: String) -> (r: Option<Block>)
        ensures
            match r {
                Some(b) => {
                    &&& b.id == id
                    &&& b.previous_hash@ == previous_hash@
                    &&& b.data@ == data@
                    &&& nonce_wins(id, b.timestamp, previous_hash@, data@, b.pow)
                    &&& hash_matches(b)
                    &&& has_work(b)
                },
                None => exists|t: i64| #[trigger] unsolvable(id, t, previous_hash@, data@),
            },
    {
        let now = now_timestamp();
        let ghost p = previous_hash@;
        let ghost d = data@;
        let r = Block::mined(id, now, previous_hash, data);
        proof {
            if r is None {
                assert(unsolvable(id, now, p, d));
            }
        }
        r
    }
}

/// Every block that mining produces carries a hash whose difficulty string starts
/// with the prefix, and that hash is the hex digest of its fields.
pub proof fn lemma_mined_block_is_sound(b: Block)
    requires
        nonce_wins(b.id, b.timestamp, b.previous_hash@, b.data@, b.pow),
        hash_matches(b),
    ensures
        has_work(b),
        meets_difficulty(binary_text(digest_of(b))),
{
    lemma_hex_keeps_difficulty(digest_of(b));
}

/// A block whose hash matches its fields stops matching when only its hash changes.
pub proof fn lemma_hash_change_breaks_match(b: Block, c: Block)
    requires
        hash_matches(b),
        c.id == b.id,
        c.timestamp == b.timestamp,
        c.previous_hash@ == b.previous_hash@,
        c.data@ == b.data@,
        c.pow == b.pow,
        c.hash@ != b.hash@,
    ensures
        !hash_matches(c),
{
}

} // verus!

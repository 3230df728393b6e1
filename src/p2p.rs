use crate::block::Block;
use crate::chain::{
    block_check, chain_is_valid, chosen, copy_blocks, remote_wins, BlockError, Chain, ForkError,
};
use vstd::prelude::*;
use vstd::string::StringSliceAdditionalSpecFns;
use vstd::utf8::{
    encode_utf8, is_char_boundary, length_of_first_scalar, pop_first_scalar, valid_utf8,
};

verus! {

/// A node's chain, sent to the peer named by `receiver`.
#[derive(Debug)]
pub struct ChainResponse {
    pub blocks: Vec<Block>,
    pub receiver: String,
}

/// A request for the chains of other peers, sent by `from_peer_id`.
#[derive(Debug)]
pub struct LocalChainRequest {
    pub from_peer_id: String,
}

/// What the coordinator reacts to.
pub enum EventType {
    /// A response this node prepared, to be published.
    LocalChainResponse(ChainResponse),
    /// A line of local input.
    Input(String),
    /// The one-time bootstrap signal.
    Init,
    /// A peer was discovered.
    PeerDiscovered(String),
    /// A chain response arrived from the network.
    ChainResponseReceived(ChainResponse),
    /// A chain request arrived from the network.
    ChainRequestReceived(LocalChainRequest),
    /// A single block arrived from the network.
    BlockReceived(Block),
    /// A block finished mining on the worker.
    BlockMined(Block),
}

/// What the coordinator asks its surroundings to do.
pub enum Action {
    Nothing,
    PublishChainRequest(LocalChainRequest),
    PublishChainResponse(ChainResponse),
    PublishBlock(Block),
    /// Mine a block with these fields off the event loop and report it back.
    Mine { id: u64, previous_hash: String, data: String },
    ListPeers(Vec<String>),
    ListChain(Vec<Block>),
    /// A block was refused, for this reason.
    Rejected(BlockError),
    /// A remote chain replaced the local one.
    Replaced,
    /// Fork choice could not decide; the local chain was kept.
    Unresolved(ForkError),
}

/// A parsed line of local input.
pub enum Command {
    CreateBlock(String),
    ListPeers,
    ListChain,
    Unknown,
}

/// `p` is a prefix of `a`.
pub open spec fn starts_with_bytes(a: Seq<u8>, p: Seq<u8>) -> bool {
    p.len() <= a.len() && a.subrange(0, p.len() as int) == p
}

fn has_prefix(a: &[u8], p: &[u8]) -> (r: bool)
    ensures
        r == starts_with_bytes(a@, p@),
{
    if p.len() > a.len() {
        return false;
    }
    let mut i: usize = 0;
    while i < p.len()
        invariant
            p@.len() <= a@.len(),
            i <= p@.len(),
            a@.subrange(0, i as int) == p@.subrange(0, i as int),
        decreases p@.len() - i,
    {
        if a[i] != p[i] {
            assert(a@.subrange(0, p@.len() as int)[i as int] != p@[i as int]);
            return false;
        }
        assert(a@.subrange(0, i + 1) =~= p@.subrange(0, i + 1));
        i = i + 1;
    }
    assert(p@.subrange(0, i as int) =~= p@);
    true
}

/// The command a line of input holds: `create block <data>`, `list peers`,
/// `list chains`, or nothing known.
pub open spec fn command_kind(line: Seq<u8>) -> int {
    if starts_with_bytes(line, "create block ".spec_bytes()) {
        0
    } else if line == "list peers".spec_bytes() {
        1
    } else if line == "list chains".spec_bytes() {
        2
    } else {
        3
    }
}

proof fn lemma_ascii_prefix_is_boundary(bytes: Seq<u8>, k: int)
    requires
        valid_utf8(bytes),
        0 <= k <= bytes.len(),
        forall|i: int| 0 <= i < k ==> bytes[i] < 128,
    ensures
        is_char_boundary(bytes, k),
    decreases k,
{
    if k > 0 {
        assert(bytes[0] < 128);
        assert(length_of_first_scalar(bytes) == 1);
        let rest = pop_first_scalar(bytes);
        assert(rest =~= bytes.subrange(1, bytes.len() as int));
        assert forall|i: int| 0 <= i < k - 1 implies rest[i] < 128 by {
            assert(rest[i] == bytes[i + 1]);
        }
        lemma_ascii_prefix_is_boundary(rest, k - 1);
    }
}

/// Reads a line of local input as a command. The data of `create block` is the
/// rest of the line after the prefix.
pub fn parse_command(line: &str) -> (r: Command)
    ensures
        match r {
            Command::CreateBlock(d) => command_kind(line.spec_bytes()) == 0 && encode_utf8(d@)
                == line.spec_bytes().subrange(13, line.spec_bytes().len() as int),
            Command::ListPeers => command_kind(line.spec_bytes()) == 1,
            Command::ListChain => command_kind(line.spec_bytes()) == 2,
            Command::Unknown => command_kind(line.spec_bytes()) == 3,
        },
{
    proof {
        reveal_strlit("create block ");
        reveal_strlit("list peers");
        reveal_strlit("list chains");
    }
    let bytes = line.as_bytes();
    let create = "create block ";
    let peers = "list peers";
    let chains = "list chains";
    assert(vstd::string::is_ascii(create));
    assert(vstd::string::is_ascii(peers));
    assert(vstd::string::is_ascii(chains));
    if has_prefix(bytes, create.as_bytes()) {
        assert(create.spec_bytes().len() == 13);
        proof {
            vstd::utf8::encode_utf8_valid_utf8(line@);
            assert forall|i: int| 0 <= i < 13 implies line.spec_bytes()[i] < 128 by {
                assert(line.spec_bytes()[i] == line.spec_bytes().subrange(0, 13)[i]);
            }
            lemma_ascii_prefix_is_boundary(line.spec_bytes(), 13);
        }
        let (_, rest) = line.split_at(13);
        let d = String::from_str(rest);
        return Command::CreateBlock(d);
    }
    assert(bytes@.subrange(0, bytes@.len() as int) =~= bytes@);
    if has_prefix(bytes, peers.as_bytes()) && bytes.len() == peers.as_bytes().len() {
        assert(bytes@ =~= peers.spec_bytes());
        return Command::ListPeers;
    }
    if has_prefix(bytes, chains.as_bytes()) && bytes.len() == chains.as_bytes().len() {
        assert(bytes@ =~= chains.spec_bytes());
        return Command::ListChain;
    }
    Command::Unknown
}

fn copy_strings(v: &Vec<String>) -> (r: Vec<String>)
    ensures
        r@ == v@,
{
    let mut r: Vec<String> = Vec::new();
    let mut i: usize = 0;
    while i < v.len()
        invariant
            i <= v@.len(),
            r@ == v@.subrange(0, i as int),
        decreases v@.len() - i,
    {
        r.push(v[i].clone());
        assert(r@ =~= v@.subrange(0, i + 1));
        i = i + 1;
    }
    assert(v@.subrange(0, i as int) =~= v@);
    r
}

/// Whether some entry of `peers` is the text `p`.
pub open spec fn knows_peer(peers: Seq<String>, p: Seq<char>) -> bool {
    exists|i: int| 0 <= i < peers.len() && (#[trigger] peers[i])@ == p
}

fn contains_peer(peers: &Vec<String>, p: &String) -> (r: bool)
    ensures
        r == knows_peer(peers@, p@),
{
    let mut i: usize = 0;
    while i < peers.len()
        invariant
            i <= peers@.len(),
            forall|j: int| 0 <= j < i ==> (#[trigger] peers@[j])@ != p@,
        decreases peers@.len() - i,
    {
        if peers[i] == *p {
            return true;
        }
        i = i + 1;
    }
    false
}

/// The state of one peer: its chain, its identity and the peers it knows.
pub struct Node {
    pub chain: Chain,
    pub peer_id: String,
    pub peers: Vec<String>,
}

/// What a node does with a block that follows its chain: append it when it is a
/// valid successor of the last block.
pub open spec fn after_block(old_blocks: Seq<Block>, new_blocks: Seq<Block>, b: Block) -> bool {
    if old_blocks.len() == 0 {
        new_blocks == old_blocks
    } else {
        match block_check(b, old_blocks.last()) {
            Ok(_) => new_blocks == old_blocks.push(b),
            Err(_) => new_blocks == old_blocks,
        }
    }
}

impl Node {
    /// A node with the given identity and chain, knowing no peers yet.
    pub fn new(peer_id: String, chain: Chain) -> (r: Node)
        ensures
            r.peer_id == peer_id,
            r.chain == chain,
            r.peers@.len() == 0,
    {
        Node { chain, peer_id, peers: Vec::new() }
    }

    fn accept_block(&mut self, b: Block) -> (r: Result<(), BlockError>)
        ensures
            final(self).peer_id == old(self).peer_id,
            final(self).peers == old(self).peers,
            after_block(old(self).chain.blocks@, final(self).chain.blocks@, b),
            old(self).chain.blocks@.len() == 0 ==> r is Ok,
            old(self).chain.blocks@.len() > 0 ==> r == block_check(b, old(self).chain.blocks@.last()),
    {
        let n = self.chain.blocks.len();
        if n == 0 {
            return Ok(());
        }
        let verdict = crate::chain::check_block(&b, &self.chain.blocks[n - 1]);
        if verdict.is_ok() {
            self.chain.blocks.push(b);
        }
        verdict
    }

    /// Handles one event and says what to do next. The chain changes only on a
    /// block that validly extends it, or on a remote chain that fork choice
    /// prefers; a request is answered with a copy of the chain.
    pub fn step(&mut self, event: EventType) -> (r: Action)
        ensures
            final(self).peer_id == old(self).peer_id,
            match event {
                EventType::LocalChainResponse(resp) => {
                    &&& *final(self) == *old(self)
                    &&& r == Action::PublishChainResponse(resp)
                },
                EventType::Init => {
                    &&& *final(self) == *old(self)
                    &&& r == Action::PublishChainRequest(
                        (LocalChainRequest { from_peer_id: old(self).peer_id }),
                    )
                },
                EventType::PeerDiscovered(p) => {
                    &&& final(self).chain == old(self).chain
                    &&& r is Nothing
                    &&& if knows_peer(old(self).peers@, p@) {
                        final(self).peers == old(self).peers
                    } else {
                        final(self).peers@ == old(self).peers@.push(p)
                    }
                },
                EventType::Input(line) => {
                    let bytes = encode_utf8(line@);
                    let blocks = old(self).chain.blocks@;
                    &&& *final(self) == *old(self)
                    &&& if command_kind(bytes) == 0 && blocks.len() > 0 && blocks.last().id
                        < u64::MAX {
                        match r {
                            Action::Mine { id, previous_hash, data } => {
                                &&& id == blocks.last().id + 1
                                &&& previous_hash == blocks.last().hash
                                &&& encode_utf8(data@) == bytes.subrange(13, bytes.len() as int)
                            },
                            _ => false,
                        }
                    } else if command_kind(bytes) == 1 {
                        match r {
                            Action::ListPeers(v) => v@ == old(self).peers@,
                            _ => false,
                        }
                    } else if command_kind(bytes) == 2 {
                        match r {
                            Action::ListChain(v) => v@ == blocks,
                            _ => false,
                        }
                    } else {
                        r is Nothing
                    }
                },
                EventType::ChainRequestReceived(req) => {
                    &&& *final(self) == *old(self)
                    &&& if req.from_peer_id@ != old(self).peer_id@ {
                        match r {
                            Action::PublishChainResponse(resp) => {
                                &&& resp.blocks@ == old(self).chain.blocks@
                                &&& resp.receiver == req.from_peer_id
                            },
                            _ => false,
                        }
                    } else {
                        r is Nothing
                    }
                },
                EventType::ChainResponseReceived(resp) => {
                    &&& final(self).peers == old(self).peers
                    &&& if resp.receiver@ != old(self).peer_id@ {
                        final(self).chain.blocks@ == old(self).chain.blocks@ && r is Nothing
                    } else {
                        match chosen(old(self).chain.blocks@, resp.blocks@) {
                            Ok(s) => {
                                &&& final(self).chain.blocks@ == s
                                &&& if remote_wins(old(self).chain.blocks@, resp.blocks@) {
                                    r is Replaced
                                } else {
                                    r is Nothing
                                }
                            },
                            Err(e) => {
                                &&& final(self).chain.blocks@ == old(self).chain.blocks@
                                &&& r == Action::Unresolved(e)
                            },
                        }
                    }
                },
                EventType::BlockReceived(b) => {
                    &&& final(self).peers == old(self).peers
                    &&& after_block(old(self).chain.blocks@, final(self).chain.blocks@, b)
                    &&& if old(self).chain.blocks@.len() > 0 {
                        match block_check(b, old(self).chain.blocks@.last()) {
                            Ok(_) => r is Nothing,
                            Err(e) => r == Action::Rejected(e),
                        }
                    } else {
                        r is Nothing
                    }
                },
                EventType::BlockMined(b) => {
                    &&& final(self).peers == old(self).peers
                    &&& after_block(old(self).chain.blocks@, final(self).chain.blocks@, b)
                    &&& if old(self).chain.blocks@.len() > 0 {
                        match block_check(b, old(self).chain.blocks@.last()) {
                            Ok(_) => r == Action::PublishBlock(b),
                            Err(e) => r == Action::Rejected(e),
                        }
                    } else {
                        r is Nothing
                    }
                },
            },
    {
        match event {
            EventType::LocalChainResponse(resp) => Action::PublishChainResponse(resp),
            EventType::Init => {
                Action::PublishChainRequest(LocalChainRequest { from_peer_id: self.peer_id.clone() })
            },
            EventType::PeerDiscovered(p) => {
                if !contains_peer(&self.peers, &p) {
                    self.peers.push(p);
                }
                Action::Nothing
            },
            EventType::Input(line) => {
                let n = self.chain.blocks.len();
                match parse_command(line.as_str()) {
                    Command::CreateBlock(data) => {
                        if n > 0 && self.chain.blocks[n - 1].id < u64::MAX {
                            let tip = &self.chain.blocks[n - 1];
                            Action::Mine { id: tip.id + 1, previous_hash: tip.hash.clone(), data }
                        } else {
                            Action::Nothing
                        }
                    },
                    Command::ListPeers => Action::ListPeers(copy_strings(&self.peers)),
                    Command::ListChain => Action::ListChain(copy_blocks(&self.chain.blocks)),
                    Command::Unknown => Action::Nothing,
                }
            },
            EventType::ChainRequestReceived(req) => {
                if req.from_peer_id != self.peer_id {
                    Action::PublishChainResponse(
                        ChainResponse {
                            blocks: copy_blocks(&self.chain.blocks),
                            receiver: req.from_peer_id,
                        },
                    )
                } else {
                    Action::Nothing
                }
            },
            EventType::ChainResponseReceived(resp) => {
                if resp.receiver != self.peer_id {
                    return Action::Nothing;
                }
                let local_valid = chain_is_valid(&self.chain.blocks);
                let remote_valid = chain_is_valid(&resp.blocks);
                if !local_valid && !remote_valid {
                    Action::Unresolved(ForkError::BothInvalid)
                } else if remote_valid && (!local_valid || resp.blocks.len()
                    > self.chain.blocks.len()) {
                    self.chain.blocks = resp.blocks;
                    Action::Replaced
                } else {
                    Action::Nothing
                }
            },
            EventType::BlockReceived(b) => {
                match self.accept_block(b) {
                    Ok(()) => Action::Nothing,
                    Err(e) => Action::Rejected(e),
                }
            },
            EventType::BlockMined(b) => {
                let published = b.duplicate();
                match self.accept_block(b) {
                    Ok(()) => {
                        if self.chain.blocks.len() == 0 {
                            Action::Nothing
                        } else {
                            Action::PublishBlock(published)
                        }
                    },
                    Err(e) => Action::Rejected(e),
                }
            },
        }
    }
}

} // verus!

use p2p_ledger::chain::{chain_is_valid, check_block};
use p2p_ledger::hashing::has_difficulty;
use p2p_ledger::p2p::{
    parse_command, Action, ChainResponse, Command, EventType, LocalChainRequest, Node,
};
use p2p_ledger::{calculate_hash, hash_to_binary, Block, BlockError, Chain, ForkError};

const GENESIS_HASH: &str = "6166746572206461726b";
const HELLO_HASH: &str = "0a50ae240095accba7f664a8f1c43f4c2f3cf4c45b37ceec47d6a487e937d571";
const OTHER_HASH: &str = "0bad39ce3225cc491bd14633c591c3f804efaad9314a889ac58e0e1032c50dce";
const SECOND_HASH: &str = "1344189fcb543302b2a79c5e56ae281e27c17ef1edec03efc5ac4e9317971140";

fn genesis() -> Block {
    Chain::genesis_block(0)
}

fn hello() -> Block {
    Block::mined(1, 0, GENESIS_HASH.to_string(), "hello".to_string()).unwrap()
}

fn other() -> Block {
    Block::mined(1, 0, GENESIS_HASH.to_string(), "other".to_string()).unwrap()
}

fn second() -> Block {
    Block::mined(2, 0, HELLO_HASH.to_string(), "second".to_string()).unwrap()
}

fn to_hex(b: &[u8]) -> String {
    b.iter().map(|x| format!("{:02x}", x)).collect()
}

#[test]
fn binary_rendering_is_zero_padded() {
    assert_eq!(hash_to_binary(&[0x01, 0xff, 0x40]), "000000011111111101000000");
    assert_eq!(hash_to_binary(&[]), "");
}

#[test]
fn difficulty_checks_leading_bits() {
    assert!(has_difficulty(&[0x3f, 0xff]));
    assert!(!has_difficulty(&[0x40]));
    assert!(!has_difficulty(&[]));
    assert!(has_difficulty("0a".as_bytes()));
    assert!(!has_difficulty("a0".as_bytes()));
}

#[test]
fn digest_of_genesis_fields() {
    let d = calculate_hash(0, 0, "genesis", "genesis!", 0);
    assert_eq!(d.len(), 32);
    assert_eq!(
        to_hex(&d),
        "82a25928da53ff4966f6522bea9f03c3d0cf8f7bc41e42bbbf307f57004f6888"
    );
}

#[test]
fn digest_escapes_strings_and_signs_timestamps() {
    let d = calculate_hash(0, -5, "a\"b", "x", 7);
    assert_eq!(
        to_hex(&d),
        "37c005b934b97498ab8fcea1feb67d9b4a6af10078f6b1e5ab92f12b3fc8633a"
    );
}

#[test]
fn mining_finds_first_winning_nonce() {
    let (pow, hash) = Block::mine_block(1, 0, GENESIS_HASH, "hello").unwrap();
    assert_eq!(pow, 5);
    assert_eq!(hash, HELLO_HASH);
    for m in 0..pow {
        assert!(!has_difficulty(&calculate_hash(1, 0, GENESIS_HASH, "hello", m)));
    }
}

#[test]
fn mined_hash_has_work_and_matches_fields() {
    for b in [hello(), other(), second()] {
        let digest = calculate_hash(b.id, b.timestamp, &b.previous_hash, &b.data, b.pow);
        assert!(hash_to_binary(&digest).starts_with("00"));
        assert!(hash_to_binary(b.hash.as_bytes()).starts_with("00"));
        assert_eq!(to_hex(&digest), b.hash);
    }
    assert_eq!(other().pow, 1);
    assert_eq!(other().hash, OTHER_HASH);
    assert_eq!(second().pow, 16);
    assert_eq!(second().hash, SECOND_HASH);
}

#[test]
fn new_block_is_mined_now() {
    let b = Block::new(1, GENESIS_HASH.to_string(), "now".to_string()).unwrap();
    assert_eq!(b.id, 1);
    assert_eq!(b.data, "now");
    assert!(b.timestamp > 0);
    assert_eq!(check_block(&b, &genesis()), Ok(()));
}

#[test]
fn mutating_a_field_breaks_the_hash() {
    let mut b = hello();
    b.data = "hellO".to_string();
    assert_eq!(check_block(&b, &genesis()), Err(BlockError::HashMismatch));
    let mut b = hello();
    b.pow += 1;
    assert_eq!(check_block(&b, &genesis()), Err(BlockError::HashMismatch));
    let mut b = hello();
    b.timestamp = 1;
    assert_eq!(check_block(&b, &genesis()), Err(BlockError::HashMismatch));
}

#[test]
fn default_block_is_empty() {
    let b = Block::default();
    assert_eq!(b.id, 0);
    assert_eq!(b.hash, "");
    assert_eq!(b.previous_hash, "");
    assert_eq!(b.timestamp, 0);
    assert_eq!(b.data, "");
    assert_eq!(b.pow, 0);
}

#[test]
fn link_is_checked_first() {
    let mut b = hello();
    b.previous_hash = "elsewhere".to_string();
    b.id = 9;
    assert_eq!(check_block(&b, &genesis()), Err(BlockError::LinkMismatch));
    let c = Chain::new();
    assert!(!c.is_block_valid(&b, &genesis()));
}

#[test]
fn each_rejection_reason() {
    let mut weak = hello();
    weak.hash = "f0".to_string();
    weak.previous_hash = "p".to_string();
    let mut g = genesis();
    g.hash = "p".to_string();
    assert_eq!(check_block(&weak, &g), Err(BlockError::InsufficientWork));
    let mut skipped = hello();
    skipped.id = 2;
    assert_eq!(check_block(&skipped, &genesis()), Err(BlockError::SequenceViolation));
    assert_eq!(check_block(&hello(), &genesis()), Ok(()));
}

#[test]
fn single_block_chain_is_invalid() {
    let c = Chain::new();
    assert_eq!(c.is_chain_valid(&vec![genesis()]), (false, 0));
    assert_eq!(c.is_chain_valid(&vec![]), (false, 0));
    assert!(!chain_is_valid(&vec![genesis()]));
}

#[test]
fn valid_chain_counts_pairs() {
    let c = Chain::new();
    assert_eq!(c.is_chain_valid(&vec![genesis(), hello()]), (true, 1));
    assert_eq!(c.is_chain_valid(&vec![genesis(), hello(), second()]), (true, 2));
    assert_eq!(c.is_chain_valid(&vec![genesis(), second()]), (false, 0));
}

#[test]
fn genesis_is_placed_without_mining() {
    let mut c = Chain::new();
    assert!(c.blocks.is_empty());
    c.genesis();
    assert_eq!(c.blocks.len(), 1);
    let g = &c.blocks[0];
    assert_eq!(g.id, 0);
    assert_eq!(g.previous_hash, "genesis");
    assert_eq!(g.data, "genesis!");
    assert_eq!(g.pow, 0);
    assert_eq!(g.hash, GENESIS_HASH);
    c.try_add_block(hello());
    assert_eq!(c.blocks.len(), 2);
}

#[test]
fn try_add_block_keeps_chain_on_rejection() {
    let mut c = Chain::new();
    c.blocks.push(genesis());
    c.try_add_block(second());
    assert_eq!(c.blocks.len(), 1);
    c.try_add_block(hello());
    c.try_add_block(second());
    assert_eq!(c.blocks, vec![genesis(), hello(), second()]);
}

#[test]
fn longer_valid_chain_wins_over_its_prefix() {
    let c = Chain::new();
    let short = vec![genesis(), hello()];
    let long = vec![genesis(), hello(), second()];
    assert_eq!(c.choose_chain(short.clone(), long.clone()), Ok(long.clone()));
    assert_eq!(c.choose_chain(long.clone(), short.clone()), Ok(long.clone()));
    assert_eq!(c.choose_chain(vec![genesis()], long.clone()), Ok(long));
}

#[test]
fn equal_length_fork_keeps_local_every_time() {
    let c = Chain::new();
    let a = vec![genesis(), hello()];
    let b = vec![genesis(), other()];
    assert_eq!(c.is_chain_valid(&a), (true, 1));
    assert_eq!(c.is_chain_valid(&b), (true, 1));
    for _ in 0..3 {
        assert_eq!(c.choose_chain(a.clone(), b.clone()), Ok(a.clone()));
        assert_eq!(c.choose_chain(b.clone(), a.clone()), Ok(b.clone()));
    }
}

#[test]
fn valid_chain_beats_invalid_one() {
    let c = Chain::new();
    let good = vec![genesis(), hello()];
    let bad = vec![genesis(), second(), hello()];
    assert_eq!(c.choose_chain(bad.clone(), good.clone()), Ok(good.clone()));
    assert_eq!(c.choose_chain(good.clone(), bad), Ok(good));
}

#[test]
fn both_invalid_is_an_error() {
    let c = Chain::new();
    assert_eq!(
        c.choose_chain(vec![genesis()], vec![]),
        Err(ForkError::BothInvalid)
    );
}

#[test]
fn commands_are_parsed() {
    match parse_command("create block some data") {
        Command::CreateBlock(d) => assert_eq!(d, "some data"),
        _ => panic!("expected create"),
    }
    match parse_command("create block ") {
        Command::CreateBlock(d) => assert_eq!(d, ""),
        _ => panic!("expected create"),
    }
    match parse_command("create block héllo ✓") {
        Command::CreateBlock(d) => assert_eq!(d, "héllo ✓"),
        _ => panic!("expected create"),
    }
    assert!(matches!(parse_command("list peers"), Command::ListPeers));
    assert!(matches!(parse_command("list chains"), Command::ListChain));
    assert!(matches!(parse_command("list peers "), Command::Unknown));
    assert!(matches!(parse_command("create block"), Command::Unknown));
    assert!(matches!(parse_command(""), Command::Unknown));
}

fn node_with_genesis(id: &str) -> Node {
    let mut c = Chain::new();
    c.blocks.push(genesis());
    Node::new(id.to_string(), c)
}

#[test]
fn init_requests_chains() {
    let mut n = node_with_genesis("me");
    match n.step(EventType::Init) {
        Action::PublishChainRequest(r) => assert_eq!(r.from_peer_id, "me"),
        _ => panic!("expected request"),
    }
}

#[test]
fn peers_are_registered_once() {
    let mut n = node_with_genesis("me");
    assert!(matches!(n.step(EventType::PeerDiscovered("a".to_string())), Action::Nothing));
    n.step(EventType::PeerDiscovered("b".to_string()));
    n.step(EventType::PeerDiscovered("a".to_string()));
    assert_eq!(n.peers, vec!["a".to_string(), "b".to_string()]);
    match n.step(EventType::Input("list peers".to_string())) {
        Action::ListPeers(v) => assert_eq!(v, vec!["a".to_string(), "b".to_string()]),
        _ => panic!("expected peers"),
    }
}

#[test]
fn create_command_asks_for_mining_then_publishes() {
    let mut n = node_with_genesis("me");
    match n.step(EventType::Input("create block hello".to_string())) {
        Action::Mine { id, previous_hash, data } => {
            assert_eq!(id, 1);
            assert_eq!(previous_hash, GENESIS_HASH);
            assert_eq!(data, "hello");
        }
        _ => panic!("expected mining"),
    }
    match n.step(EventType::BlockMined(hello())) {
        Action::PublishBlock(b) => assert_eq!(b, hello()),
        _ => panic!("expected publish"),
    }
    assert_eq!(n.chain.blocks.len(), 2);
    match n.step(EventType::BlockMined(other())) {
        Action::Rejected(e) => assert_eq!(e, BlockError::LinkMismatch),
        _ => panic!("stale block must be rejected"),
    }
    match n.step(EventType::Input("list chains".to_string())) {
        Action::ListChain(v) => assert_eq!(v, vec![genesis(), hello()]),
        _ => panic!("expected chain"),
    }
}

#[test]
fn received_block_is_appended_quietly() {
    let mut n = node_with_genesis("me");
    assert!(matches!(n.step(EventType::BlockReceived(hello())), Action::Nothing));
    assert_eq!(n.chain.blocks.len(), 2);
    assert!(matches!(
        n.step(EventType::BlockReceived(hello())),
        Action::Rejected(BlockError::LinkMismatch)
    ));
}

#[test]
fn requests_from_others_are_answered() {
    let mut n = node_with_genesis("me");
    let req = LocalChainRequest { from_peer_id: "you".to_string() };
    match n.step(EventType::ChainRequestReceived(req)) {
        Action::PublishChainResponse(r) => {
            assert_eq!(r.receiver, "you");
            assert_eq!(r.blocks, vec![genesis()]);
        }
        _ => panic!("expected response"),
    }
    let own = LocalChainRequest { from_peer_id: "me".to_string() };
    assert!(matches!(n.step(EventType::ChainRequestReceived(own)), Action::Nothing));
}

#[test]
fn longer_remote_chain_replaces_local() {
    let mut n = node_with_genesis("me");
    n.step(EventType::BlockReceived(hello()));
    let elsewhere = ChainResponse {
        blocks: vec![genesis(), hello(), second()],
        receiver: "other".to_string(),
    };
    assert!(matches!(n.step(EventType::ChainResponseReceived(elsewhere)), Action::Nothing));
    assert_eq!(n.chain.blocks.len(), 2);
    let tie = ChainResponse { blocks: vec![genesis(), other()], receiver: "me".to_string() };
    assert!(matches!(n.step(EventType::ChainResponseReceived(tie)), Action::Nothing));
    assert_eq!(n.chain.blocks, vec![genesis(), hello()]);
    let longer = ChainResponse {
        blocks: vec![genesis(), hello(), second()],
        receiver: "me".to_string(),
    };
    assert!(matches!(n.step(EventType::ChainResponseReceived(longer)), Action::Replaced));
    assert_eq!(n.chain.blocks, vec![genesis(), hello(), second()]);
}

#[test]
fn fork_with_no_valid_chain_is_reported() {
    let mut n = node_with_genesis("me");
    let resp = ChainResponse { blocks: vec![genesis()], receiver: "me".to_string() };
    assert!(matches!(
        n.step(EventType::ChainResponseReceived(resp)),
        Action::Unresolved(ForkError::BothInvalid)
    ));
    assert_eq!(n.chain.blocks, vec![genesis()]);
}

#[test]
fn local_response_is_published() {
    let mut n = node_with_genesis("me");
    let resp = ChainResponse { blocks: vec![], receiver: "x".to_string() };
    match n.step(EventType::LocalChainResponse(resp)) {
        Action::PublishChainResponse(r) => assert_eq!(r.receiver, "x"),
        _ => panic!("expected publish"),
    }
}

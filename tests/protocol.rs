use peer_ledger::block::Block;
use peer_ledger::client::Client;
use peer_ledger::hash::zero_hash;
use peer_ledger::pow::{mine, MineOutcome};
use peer_ledger::signal::{DecodeError, Message, Signal};
use std::sync::atomic::AtomicBool;

fn signal(from: &str, message: Message) -> Signal {
    Signal { from_socket_path: from.to_string(), message }
}

fn sample_block() -> Block {
    let c = Block::candidate("peer-é".to_string(), "data; with=signs".to_string(), zero_hash());
    match mine(&c, 4, &AtomicBool::new(false)) {
        MineOutcome::Mined(b) => b,
        MineOutcome::Cancelled => panic!("search was not cancelled"),
    }
}

fn same_block(a: &Block, b: &Block) -> bool {
    a.creator == b.creator
        && a.payload == b.payload
        && a.prev_hash == b.prev_hash
        && a.nonce == b.nonce
        && a.hash == b.hash
}

fn same_signal(a: &Signal, b: &Signal) -> bool {
    a.from_socket_path == b.from_socket_path
        && match (&a.message, &b.message) {
            (Message::IsOkay(x), Message::IsOkay(y)) => x == y,
            (Message::IsThisBlockIsConform(x), Message::IsThisBlockIsConform(y)) => x == y,
            (Message::AddBlock(x), Message::AddBlock(y)) => same_block(x, y),
            (Message::FinishedMining(x), Message::FinishedMining(y)) => same_block(x, y),
            (Message::NewMiner, Message::NewMiner) => true,
            _ => false,
        }
}

#[test]
fn encoding_of_a_handshake_is_exact() {
    let s = signal("abc", Message::NewMiner);
    assert_eq!(
        String::from_utf8(s.encode()).unwrap(),
        "from_address=0000000000000003abc;kind=0000000000000008NewMiner;value="
    );
    assert_eq!(
        s.to_string(),
        "from_address=0000000000000003abc;kind=0000000000000008NewMiner;value="
    );
}

#[test]
fn text_form_matches_the_bytes() {
    let s = signal("ü", Message::FinishedMining(sample_block()));
    let t = s.to_string();
    assert_eq!(t.as_bytes(), &s.encode()[..]);
    assert!(t.starts_with("from_address=0000000000000002ü;kind=000000000000000eFinishedMining;value=creator="));
}

#[test]
fn encoding_of_a_flag_is_exact() {
    let s = signal("p", Message::IsOkay(false));
    assert_eq!(
        String::from_utf8(s.encode()).unwrap(),
        "from_address=0000000000000001p;kind=0000000000000006IsOkay;value=f"
    );
}

#[test]
fn every_kind_round_trips() {
    let all = vec![
        signal("/tmp/a.sock", Message::IsOkay(true)),
        signal("/tmp/a.sock", Message::IsOkay(false)),
        signal("", Message::IsThisBlockIsConform(true)),
        signal("x", Message::AddBlock(sample_block())),
        signal("ü", Message::FinishedMining(sample_block())),
        signal("/tmp/b.sock", Message::NewMiner),
    ];
    for s in all {
        let d = Signal::decode(&s.encode()).unwrap();
        assert!(same_signal(&s, &d));
    }
}

#[test]
fn malformed_frames_are_refused() {
    assert_eq!(Signal::decode(b"").err(), Some(DecodeError));
    assert_eq!(Signal::decode(b"hello").err(), Some(DecodeError));
    let unknown = b"from_address=0000000000000001p;kind=0000000000000004Ping;value=";
    assert_eq!(Signal::decode(unknown).err(), Some(DecodeError));
    let mismatch = b"from_address=0000000000000001p;kind=0000000000000008NewMiner;value=t";
    assert_eq!(Signal::decode(mismatch).err(), Some(DecodeError));
    let bad_flag = b"from_address=0000000000000001p;kind=0000000000000006IsOkay;value=x";
    assert_eq!(Signal::decode(bad_flag).err(), Some(DecodeError));
    let short = b"from_address=0000000000000009p;kind=0000000000000008NewMiner;value=";
    assert_eq!(Signal::decode(short).err(), Some(DecodeError));
    let mut truncated = signal("x", Message::AddBlock(sample_block())).encode();
    truncated.pop();
    assert_eq!(Signal::decode(&truncated).err(), Some(DecodeError));
}

#[test]
fn client_address_holds_a_hyphenated_identifier() {
    let c = Client::new("/tmp/peers/".to_string(), 0);
    let p = c.client_socket_path.clone();
    assert_eq!(p.len(), 11 + 36 + 5);
    assert!(p.starts_with("/tmp/peers/"));
    assert!(p.ends_with(".sock"));
    let id = &p[11..47];
    assert_eq!(id, format!("{}", uuid::Uuid::from_u128(c.client_socket_id).hyphenated()));
    assert_eq!(&id[8..9], "-");
    assert_eq!(c.chain_len(), 0);
}

#[test]
fn constructors_bind_sender_and_payload() {
    let c = Client::new("/tmp/".to_string(), 0);
    let s = Signal::is_okay(&c, true);
    assert_eq!(s.from_socket_path, c.client_socket_path);
    assert!(matches!(s.message, Message::IsOkay(true)));
    assert!(matches!(Signal::is_this_block_conform(&c, false).message, Message::IsThisBlockIsConform(false)));
    assert!(matches!(Signal::new_miner(&c).message, Message::NewMiner));
    assert!(matches!(Signal::finished_mining(&c, sample_block()).message, Message::FinishedMining(_)));
    assert!(matches!(Signal::add_a_block(&c, sample_block()).message, Message::AddBlock(_)));
}

#[test]
fn two_peers_exchange_a_block() {
    let a = Client::new("/tmp/".to_string(), 8);
    let mut b = Client::new("/tmp/".to_string(), 8);
    let cancel = AtomicBool::new(false);
    let sent = a.send_block("hello".to_string(), &cancel).unwrap();
    let block = match &sent.message {
        Message::AddBlock(k) => k.copy(),
        _ => panic!("expected a block"),
    };
    assert_eq!(block.hash[0], 0);
    assert_eq!(block.creator, a.client_socket_path[5..41].to_string());
    let (to, reply) = b.respond_to_frame(&sent.encode()).unwrap();
    assert_eq!(to, a.client_socket_path);
    assert_eq!(reply.from_socket_path, b.client_socket_path);
    assert!(matches!(reply.message, Message::IsOkay(true)));
    assert_eq!(b.chain_len(), 1);
    assert_eq!(b.tip_hash(), block.hash);
    // the same block a second time no longer extends the tip
    let (_, again) = b.respond_to_frame(&sent.encode()).unwrap();
    assert!(matches!(again.message, Message::IsOkay(false)));
    assert_eq!(b.chain_len(), 1);
}

#[test]
fn dispatch_of_other_kinds() {
    let mut b = Client::new("/tmp/".to_string(), 0);
    let hello = signal("/tmp/new.sock", Message::NewMiner);
    let reply = b.respond_to_node(hello).unwrap();
    assert!(matches!(reply.message, Message::IsOkay(true)));
    assert!(b.respond_to_node(signal("x", Message::IsOkay(true))).is_none());
    assert!(b.respond_to_node(signal("x", Message::FinishedMining(sample_block()))).is_none());
    assert!(b.respond_to_frame(b"garbage").is_none());
    assert_eq!(b.chain_len(), 0);
}

#[test]
fn local_chain_copy_and_validity() {
    let mut c = Client::new("/tmp/".to_string(), 4);
    let blk = match c.mine_block("x".to_string(), &AtomicBool::new(false)) {
        MineOutcome::Mined(b) => b,
        MineOutcome::Cancelled => panic!("search was not cancelled"),
    };
    assert!(c.is_a_valid_block(&blk));
    assert_eq!(c.update_local_chain(blk.copy()), Ok(()));
    assert!(!c.is_a_valid_block(&blk));
    let chain = c.send_local_blockchain();
    assert_eq!(chain.len(), 1);
    assert_eq!(chain[0].hash, blk.hash);
}

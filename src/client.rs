//! A peer of the network: its identity, its ledger, and the decisions it
//! takes on mining and on the signals it receives.
use crate::block::{Block, BlockView};
use crate::hash::zero_hash_spec;
use crate::ledger::{rejection, tip_of, Ledger, ValidationError};
use crate::pow::{is_mined_from, mine, MineOutcome};
use crate::signal::{parse_signal, Message, MessageView, Signal, SignalView};
use std::sync::atomic::AtomicBool;
use vstd::prelude::*;

verus! {

/// The lower-case hex digit for a nibble.
pub open spec fn nibble_char(v: u128) -> char {
    if v < 10 {
        ((48 + v) as u8) as char
    } else {
        ((87 + v) as u8) as char
    }
}

/// The hyphenated lower-case form of a 128-bit identifier: its 32 hex
/// digits, most significant first, grouped 8-4-4-4-12.
pub open spec fn uuid_text(id: u128) -> Seq<char> {
    Seq::new(
        36,
        |i: int|
            if i == 8 || i == 13 || i == 18 || i == 23 {
                '-'
            } else {
                let j = if i < 8 {
                    i
                } else if i < 13 {
                    i - 1
                } else if i < 18 {
                    i - 2
                } else if i < 23 {
                    i - 3
                } else {
                    i - 4
                };
                nibble_char((id >> ((124 - 4 * j) as u128)) & 0xfu128)
            },
    )
}

/// Relies on uuid::Uuid::new_v4: a fresh random identifier.
#[verifier::external_body]
fn new_peer_id() -> (r: u128) {
    uuid::Uuid::new_v4().as_u128()
}

/// Relies on uuid::Uuid::hyphenated: the 8-4-4-4-12 lower-case hex form.
#[verifier::external_body]
fn peer_id_text(id: u128) -> (r: String)
    ensures
        r@ == uuid_text(id),
{
    uuid::Uuid::from_u128(id).hyphenated().to_string()
}

/// A peer: a unique identifier, the address it listens on, and its ledger.
pub struct Client {
    pub client_socket_id: u128,
    pub client_socket_path: String,
    blockchain: Ledger,
}

/// The candidate block that a peer with identifier `id` builds from
/// `payload` on top of `tip`.
pub open spec fn candidate_of(id: u128, payload: Seq<char>, tip: Seq<u8>) -> BlockView {
    BlockView { creator: uuid_text(id), payload, prev_hash: tip, nonce: 0, hash: zero_hash_spec() }
}

impl Client {
    /// The peer's identifier.
    pub closed spec fn id(&self) -> u128 {
        self.client_socket_id
    }

    /// The address the peer listens on.
    pub closed spec fn path(&self) -> Seq<char> {
        self.client_socket_path@
    }

    /// The blocks this peer has accepted.
    pub closed spec fn chain(&self) -> Seq<BlockView> {
        self.blockchain@
    }

    /// The difficulty this peer's ledger enforces.
    pub closed spec fn difficulty(&self) -> u32 {
        self.blockchain.spec_difficulty()
    }

    /// The peer's ledger keeps its chain invariant.
    pub closed spec fn wf(&self) -> bool {
        self.blockchain.wf()
    }

    /// A peer with a fresh identifier, listening under
    /// `clients_sockets_location`, with an empty ledger.
    pub fn new(clients_sockets_location: String, difficulty: u32) -> (r: Client)
        ensures
            r.path() == clients_sockets_location@ + uuid_text(r.id())
                + ".sock"@,
            r.wf(),
            r.chain() == Seq::<BlockView>::empty(),
            r.difficulty() == difficulty,
    {
        let id = new_peer_id();
        let mut path = clients_sockets_location;
        let text = peer_id_text(id);
        path.append(text.as_str());
        path.append(".sock");
        Client { client_socket_id: id, client_socket_path: path, blockchain: Ledger::new(difficulty) }
    }

    /// Offers a block to the local ledger.
    pub fn update_local_chain(&mut self, new_block: Block) -> (r: Result<(), ValidationError>)
        requires
            old(self).wf(),
        ensures
            final(self).wf(),
            final(self).difficulty() == old(self).difficulty(),
            final(self).id() == old(self).id(),
            final(self).path() == old(self).path(),
            match rejection(new_block@, tip_of(old(self).chain()), old(self).difficulty()) {
                None => r is Ok && final(self).chain() == old(self).chain().push(new_block@),
                Some(e) => r == Err::<(), ValidationError>(e) && final(self).chain() == old(
                    self,
                ).chain(),
            },
    {
        self.blockchain.append(new_block)
    }

    /// The unmined block holding `data` that this peer would build on its
    /// current tip.
    pub fn candidate_block(&self, data: String) -> (r: Block)
        ensures
            r@ == candidate_of(self.id(), data@, tip_of(self.chain())),
    {
        let creator = peer_id_text(self.client_socket_id);
        Block::candidate(creator, data, self.blockchain.tip_hash())
    }

    /// Mines a block holding `data` on top of the current tip, until found
    /// or until `cancel` is set.
    pub fn mine_block(&self, data: String, cancel: &AtomicBool) -> (r: MineOutcome)
        ensures
            r matches MineOutcome::Mined(b) ==> is_mined_from(
                b@,
                candidate_of(self.id(), data@, tip_of(self.chain())),
                self.difficulty(),
            ),
    {
        let candidate = self.candidate_block(data);
        mine(&candidate, self.blockchain.difficulty(), cancel)
    }

    /// Mines a block holding `data` and wraps it in the signal that asks a
    /// peer to append it; nothing if the search was cancelled.
    pub fn send_block(&self, data: String, cancel: &AtomicBool) -> (r: Option<Signal>)
        ensures
            r matches Some(s) ==> s@.from == self.path() && (s@.message matches MessageView::AddBlock(
                b,
            ) && is_mined_from(
                b,
                candidate_of(self.id(), data@, tip_of(self.chain())),
                self.difficulty(),
            )),
    {
        match self.mine_block(data, cancel) {
            MineOutcome::Mined(b) => Some(Signal::add_a_block(self, b)),
            MineOutcome::Cancelled => None,
        }
    }

    /// Handles one received signal: a block is offered to the ledger and
    /// answered with whether it was accepted; a newcomer's handshake is
    /// acknowledged; answers and notices get no reply.
    pub fn respond_to_node(&mut self, signal: Signal) -> (r: Option<Signal>)
        requires
            old(self).wf(),
        ensures
            final(self).wf(),
            final(self).difficulty() == old(self).difficulty(),
            final(self).id() == old(self).id(),
            final(self).path() == old(self).path(),
            match signal@.message {
                MessageView::AddBlock(b) => {
                    let accepted = rejection(b, tip_of(old(self).chain()), old(self).difficulty()) is None;
                    &&& r matches Some(reply) && reply@ == (SignalView {
                        from: old(self).path(),
                        message: MessageView::IsOkay(accepted),
                    })
                    &&& final(self).chain() == if accepted {
                        old(self).chain().push(b)
                    } else {
                        old(self).chain()
                    }
                },
                MessageView::NewMiner => {
                    &&& r matches Some(reply) && reply@ == (SignalView {
                        from: old(self).path(),
                        message: MessageView::IsOkay(true),
                    })
                    &&& final(self).chain() == old(self).chain()
                },
                _ => r is None && final(self).chain() == old(self).chain(),
            },
    {
        match signal.message {
            Message::AddBlock(b) => {
                let accepted = self.blockchain.append(b).is_ok();
                Some(Signal::is_okay(self, accepted))
            },
            Message::NewMiner => Some(Signal::is_okay(self, true)),
            _ => None,
        }
    }

    /// Handles one received frame: bytes that do not decode are dropped
    /// without a reply; a decoded signal is handled as by
    /// [`Client::respond_to_node`]. The reply goes to the sender named in
    /// the frame, which is returned with it.
    pub fn respond_to_frame(&mut self, frame: &[u8]) -> (r: Option<(String, Signal)>)
        requires
            old(self).wf(),
        ensures
            final(self).wf(),
            final(self).difficulty() == old(self).difficulty(),
            final(self).path() == old(self).path(),
            parse_signal(frame@) is None ==> r is None && final(self).chain() == old(self).chain(),
            parse_signal(frame@) matches Some(s) ==> match s.message {
                MessageView::AddBlock(b) => {
                    let accepted = rejection(b, tip_of(old(self).chain()), old(self).difficulty()) is None;
                    &&& r matches Some((to, reply)) && to@ == s.from && reply@ == (SignalView {
                        from: old(self).path(),
                        message: MessageView::IsOkay(accepted),
                    })
                    &&& final(self).chain() == if accepted {
                        old(self).chain().push(b)
                    } else {
                        old(self).chain()
                    }
                },
                MessageView::NewMiner => {
                    &&& r matches Some((to, reply)) && to@ == s.from && reply@ == (SignalView {
                        from: old(self).path(),
                        message: MessageView::IsOkay(true),
                    })
                    &&& final(self).chain() == old(self).chain()
                },
                _ => r is None && final(self).chain() == old(self).chain(),
            },
    {
        match Signal::decode(frame) {
            Ok(signal) => {
                let to = signal.from_socket_path.clone();
                match self.respond_to_node(signal) {
                    Some(reply) => Some((to, reply)),
                    None => None,
                }
            },
            Err(_) => None,
        }
    }

    /// A copy of the local chain, in order.
    pub fn send_local_blockchain(&self) -> (r: Vec<Block>)
        ensures
            r@.map_values(|b: Block| b@) == self.chain(),
    {
        self.blockchain.snapshot()
    }

    /// Would `block` be accepted on top of the local tip?
    pub fn is_a_valid_block(&self, block: &Block) -> (r: bool)
        ensures
            r == (rejection(block@, tip_of(self.chain()), self.difficulty()) is None),
    {
        let tip = self.blockchain.tip_hash();
        block.is_structurally_valid(&tip, self.blockchain.difficulty())
    }

    /// The difficulty this peer's ledger enforces.
    pub fn ledger_difficulty(&self) -> (r: u32)
        ensures
            r == self.difficulty(),
    {
        self.blockchain.difficulty()
    }

    /// The hash the next block must extend.
    pub fn tip_hash(&self) -> (r: Vec<u8>)
        ensures
            r@ == tip_of(self.chain()),
    {
        self.blockchain.tip_hash()
    }

    /// Number of blocks in the local chain.
    pub fn chain_len(&self) -> (r: usize)
        ensures
            r == self.chain().len(),
    {
        self.blockchain.len()
    }
}

impl Signal {
    fn new(from: &Client, message: Message) -> (r: Signal)
        ensures
            r.from_socket_path@ == from.path(),
            r.message@ == message@,
    {
        Signal { from_socket_path: from.client_socket_path.clone(), message }
    }

    /// A yes/no answer from `from`.
    pub fn is_okay(from: &Client, is_okay: bool) -> (r: Signal)
        ensures
            r@ == (SignalView { from: from.path(), message: MessageView::IsOkay(is_okay) }),
    {
        Signal::new(from, Message::IsOkay(is_okay))
    }

    /// A request from `from` to append `block`.
    pub fn add_a_block(from: &Client, block: Block) -> (r: Signal)
        ensures
            r@ == (SignalView { from: from.path(), message: MessageView::AddBlock(block@) }),
    {
        Signal::new(from, Message::AddBlock(block))
    }

    /// A verdict from `from` on a block.
    pub fn is_this_block_conform(from: &Client, is_conform: bool) -> (r: Signal)
        ensures
            r@ == (SignalView {
                from: from.path(),
                message: MessageView::IsThisBlockIsConform(is_conform),
            }),
    {
        Signal::new(from, Message::IsThisBlockIsConform(is_conform))
    }

    /// A notice from `from` that `block` was just mined.
    pub fn finished_mining(from: &Client, block: Block) -> (r: Signal)
        ensures
            r@ == (SignalView {
                from: from.path(),
                message: MessageView::FinishedMining(block@),
            }),
    {
        Signal::new(from, Message::FinishedMining(block))
    }

    /// The handshake that `from` sends when it joins.
    pub fn new_miner(from: &Client) -> (r: Signal)
        ensures
            r@ == (SignalView { from: from.path(), message: MessageView::NewMiner }),
    {
        Signal::new(from, Message::NewMiner)
    }
}

} // verus!

//! The message envelope exchanged between peers and its wire format.
//!
//! On the wire a signal reads
//! `from_address=<text>;kind=<text>;value=<value>`, where a text is its
//! byte length as sixteen hex digits followed by its UTF-8 bytes, and the
//! value is `t` or `f` for a flag, nothing for an announcement, or
//! `creator=<text>;payload=<text>;prev_hash=<hex>;hash=<hex>;nonce=<hex>`
//! for a block, with both hashes as 64 hex digits and the nonce as 16.
use crate::block::{Block, BlockView};
use crate::bytes::{lemma_encode_utf8_injective, push_str};
use crate::codec::{
    lemma_take_field, lemma_take_hex, lemma_take_lit, lemma_take_text, lemma_take_u64,
    field_text, hex_encode, push_field, push_hex, push_u64_text, read_field, read_hex, read_lit,
    read_u64, take_field, take_hex, take_lit, take_text, take_u64, u64_text,
};
use crate::hash::HASH_LEN;
use vstd::prelude::*;
use vstd::utf8::*;

verus! {

/// The payload of a signal, tagged by its kind.
pub enum Message {
    /// A yes/no answer.
    IsOkay(bool),
    /// A request to append a block.
    AddBlock(Block),
    /// A verdict on a block.
    IsThisBlockIsConform(bool),
    /// A block that has just been mined.
    FinishedMining(Block),
    /// A handshake from a peer that joined.
    NewMiner,
}

/// One protocol message: who sent it and what it says.
pub struct Signal {
    pub from_socket_path: String,
    pub message: Message,
}

/// Decoding refused the bytes: they are not a well-formed signal.
#[derive(Debug, Clone, Copy, PartialEq, Eq, Structural)]
pub struct DecodeError;

/// The mathematical value of a [`Message`].
pub enum MessageView {
    IsOkay(bool),
    AddBlock(BlockView),
    IsThisBlockIsConform(bool),
    FinishedMining(BlockView),
    NewMiner,
}

/// The mathematical value of a [`Signal`].
pub struct SignalView {
    pub from: Seq<char>,
    pub message: MessageView,
}

impl View for Message {
    type V = MessageView;

    open spec fn view(&self) -> MessageView {
        match self {
            Message::IsOkay(b) => MessageView::IsOkay(*b),
            Message::AddBlock(b) => MessageView::AddBlock(b@),
            Message::IsThisBlockIsConform(b) => MessageView::IsThisBlockIsConform(*b),
            Message::FinishedMining(b) => MessageView::FinishedMining(b@),
            Message::NewMiner => MessageView::NewMiner,
        }
    }
}

impl View for Signal {
    type V = SignalView;

    open spec fn view(&self) -> SignalView {
        SignalView { from: self.from_socket_path@, message: self.message@ }
    }
}

/// The label `from_address=` on the wire.
#[verifier::opaque]
pub open spec fn lit_from() -> Seq<u8> {
    encode_utf8("from_address="@)
}

/// The label `;kind=` on the wire.
#[verifier::opaque]
pub open spec fn lit_kind() -> Seq<u8> {
    encode_utf8(";kind="@)
}

/// The label `;value=` on the wire.
#[verifier::opaque]
pub open spec fn lit_value() -> Seq<u8> {
    encode_utf8(";value="@)
}

/// The label `creator=` on the wire.
#[verifier::opaque]
pub open spec fn lit_creator() -> Seq<u8> {
    encode_utf8("creator="@)
}

/// The label `;payload=` on the wire.
#[verifier::opaque]
pub open spec fn lit_payload() -> Seq<u8> {
    encode_utf8(";payload="@)
}

/// The label `;prev_hash=` on the wire.
#[verifier::opaque]
pub open spec fn lit_prev_hash() -> Seq<u8> {
    encode_utf8(";prev_hash="@)
}

/// The label `;hash=` on the wire.
#[verifier::opaque]
pub open spec fn lit_hash() -> Seq<u8> {
    encode_utf8(";hash="@)
}

/// The label `;nonce=` on the wire.
#[verifier::opaque]
pub open spec fn lit_nonce() -> Seq<u8> {
    encode_utf8(";nonce="@)
}

/// The wire name of a message's kind.
pub open spec fn kind_name(m: MessageView) -> Seq<char> {
    match m {
        MessageView::IsOkay(_) => "IsOkay"@,
        MessageView::AddBlock(_) => "AddBlock"@,
        MessageView::IsThisBlockIsConform(_) => "IsThisBlockIsConform"@,
        MessageView::FinishedMining(_) => "FinishedMining"@,
        MessageView::NewMiner => "NewMiner"@,
    }
}

/// A length-prefixed UTF-8 text.
#[verifier::opaque]
pub open spec fn text_field(s: Seq<char>) -> Seq<u8> {
    field_text(encode_utf8(s))
}

/// A flag on the wire: `t` or `f`.
pub open spec fn flag_text(b: bool) -> Seq<u8> {
    if b {
        seq![116u8]
    } else {
        seq![102u8]
    }
}

/// A block on the wire.
pub open spec fn block_text(b: BlockView) -> Seq<u8> {
    lit_creator() + (text_field(b.creator) + (lit_payload() + (text_field(b.payload) + (
    lit_prev_hash() + (hex_encode(b.prev_hash) + (lit_hash() + (hex_encode(b.hash) + (lit_nonce()
        + u64_text(b.nonce)))))))))
}

/// A message's value on the wire.
pub open spec fn value_text(m: MessageView) -> Seq<u8> {
    match m {
        MessageView::IsOkay(b) => flag_text(b),
        MessageView::AddBlock(b) => block_text(b),
        MessageView::IsThisBlockIsConform(b) => flag_text(b),
        MessageView::FinishedMining(b) => block_text(b),
        MessageView::NewMiner => Seq::empty(),
    }
}

/// The canonical wire form of a signal.
pub open spec fn encode_signal(s: SignalView) -> Seq<u8> {
    lit_from() + (text_field(s.from) + (lit_kind() + (field_text(encode_utf8(kind_name(s.message)))
        + (lit_value() + value_text(s.message)))))
}

/// Reads a flag at `pos`.
pub open spec fn take_flag(b: Seq<u8>, pos: int) -> Option<(bool, int)> {
    if 0 <= pos < b.len() && b[pos] == 116u8 {
        Some((true, pos + 1))
    } else if 0 <= pos < b.len() && b[pos] == 102u8 {
        Some((false, pos + 1))
    } else {
        None
    }
}

/// Reads a block at `pos`.
pub open spec fn take_block(b: Seq<u8>, pos: int) -> Option<(BlockView, int)> {
    match take_lit(b, pos, lit_creator()) {
        None => None,
        Some(p1) => match take_text(b, p1) {
            None => None,
            Some((creator, p2)) => match take_lit(b, p2, lit_payload()) {
                None => None,
                Some(p3) => match take_text(b, p3) {
                    None => None,
                    Some((payload, p4)) => match take_lit(b, p4, lit_prev_hash()) {
                        None => None,
                        Some(p5) => match take_hex(b, p5, HASH_LEN as nat) {
                            None => None,
                            Some((prev_hash, p6)) => match take_lit(b, p6, lit_hash()) {
                                None => None,
                                Some(p7) => match take_hex(b, p7, HASH_LEN as nat) {
                                    None => None,
                                    Some((hash, p8)) => match take_lit(b, p8, lit_nonce()) {
                                        None => None,
                                        Some(p9) => match take_u64(b, p9) {
                                            None => None,
                                            Some((nonce, p10)) => Some(
                                                (
                                                    BlockView {
                                                        creator,
                                                        payload,
                                                        prev_hash,
                                                        nonce,
                                                        hash,
                                                    },
                                                    p10,
                                                ),
                                            ),
                                        },
                                    },
                                },
                            },
                        },
                    },
                },
            },
        },
    }
}

/// Reads the value of a message of kind `kind` at `pos`.
pub open spec fn take_value(b: Seq<u8>, pos: int, kind: Seq<u8>) -> Option<(MessageView, int)> {
    if kind == encode_utf8("IsOkay"@) {
        match take_flag(b, pos) {
            Some((f, p)) => Some((MessageView::IsOkay(f), p)),
            None => None,
        }
    } else if kind == encode_utf8("AddBlock"@) {
        match take_block(b, pos) {
            Some((k, p)) => Some((MessageView::AddBlock(k), p)),
            None => None,
        }
    } else if kind == encode_utf8("IsThisBlockIsConform"@) {
        match take_flag(b, pos) {
            Some((f, p)) => Some((MessageView::IsThisBlockIsConform(f), p)),
            None => None,
        }
    } else if kind == encode_utf8("FinishedMining"@) {
        match take_block(b, pos) {
            Some((k, p)) => Some((MessageView::FinishedMining(k), p)),
            None => None,
        }
    } else if kind == encode_utf8("NewMiner"@) {
        Some((MessageView::NewMiner, pos))
    } else {
        None
    }
}

/// The signal that `b` holds, if `b` is exactly one well-formed signal.
pub open spec fn parse_signal(b: Seq<u8>) -> Option<SignalView> {
    match take_lit(b, 0, lit_from()) {
        None => None,
        Some(p1) => match take_text(b, p1) {
            None => None,
            Some((from, p2)) => match take_lit(b, p2, lit_kind()) {
                None => None,
                Some(p3) => match take_field(b, p3) {
                    None => None,
                    Some((kind, p4)) => match take_lit(b, p4, lit_value()) {
                        None => None,
                        Some(p5) => match take_value(b, p5, kind) {
                            None => None,
                            Some((message, p6)) => if p6 == b.len() {
                                Some(SignalView { from, message })
                            } else {
                                None
                            },
                        },
                    },
                },
            },
        },
    }
}

/// A block that the wire format can carry: both hashes are full width and
/// each text's byte length fits the length prefix.
pub open spec fn block_fits(b: BlockView) -> bool {
    &&& b.prev_hash.len() == HASH_LEN
    &&& b.hash.len() == HASH_LEN
    &&& encode_utf8(b.creator).len() <= u64::MAX
    &&& encode_utf8(b.payload).len() <= u64::MAX
}

/// A signal that the wire format can carry.
pub open spec fn signal_fits(s: SignalView) -> bool {
    &&& encode_utf8(s.from).len() <= u64::MAX
    &&& match s.message {
        MessageView::AddBlock(b) => block_fits(b),
        MessageView::FinishedMining(b) => block_fits(b),
        _ => true,
    }
}

proof fn lemma_kind_names(m: MessageView)
    ensures
        encode_utf8(kind_name(m)).len() <= u64::MAX,
        (encode_utf8(kind_name(m)) == encode_utf8("IsOkay"@)) == (m is IsOkay),
        (encode_utf8(kind_name(m)) == encode_utf8("AddBlock"@)) == (m is AddBlock),
        (encode_utf8(kind_name(m)) == encode_utf8("IsThisBlockIsConform"@)) == (
        m is IsThisBlockIsConform),
        (encode_utf8(kind_name(m)) == encode_utf8("FinishedMining"@)) == (m is FinishedMining),
        (encode_utf8(kind_name(m)) == encode_utf8("NewMiner"@)) == (m is NewMiner),
{
    reveal_strlit("IsOkay");
    reveal_strlit("AddBlock");
    reveal_strlit("IsThisBlockIsConform");
    reveal_strlit("FinishedMining");
    reveal_strlit("NewMiner");
    let k = kind_name(m);
    assert(is_ascii_chars(k));
    is_ascii_chars_encode_utf8(k);
    if encode_utf8(k) == encode_utf8("IsOkay"@) {
        lemma_encode_utf8_injective(k, "IsOkay"@);
    }
    if encode_utf8(k) == encode_utf8("AddBlock"@) {
        lemma_encode_utf8_injective(k, "AddBlock"@);
    }
    if encode_utf8(k) == encode_utf8("IsThisBlockIsConform"@) {
        lemma_encode_utf8_injective(k, "IsThisBlockIsConform"@);
    }
    if encode_utf8(k) == encode_utf8("FinishedMining"@) {
        lemma_encode_utf8_injective(k, "FinishedMining"@);
    }
    if encode_utf8(k) == encode_utf8("NewMiner"@) {
        lemma_encode_utf8_injective(k, "NewMiner"@);
    }
}

proof fn lemma_shift(p: Seq<u8>, c: Seq<u8>, r: Seq<u8>, q: Seq<u8>)
    ensures
        p + ((c + r) + q) == (p + c) + (r + q),
{
    assert(p + ((c + r) + q) =~= (p + c) + (r + q));
}

proof fn lemma_take_block(p: Seq<u8>, b: BlockView, q: Seq<u8>)
    requires
        block_fits(b),
    ensures
        take_block(p + block_text(b) + q, p.len() as int) == Some(
            (b, (p.len() + block_text(b).len()) as int),
        ),
{
    reveal(text_field);
    let x = p + block_text(b) + q;
    let c1 = lit_creator();
    let c2 = text_field(b.creator);
    let c3 = lit_payload();
    let c4 = text_field(b.payload);
    let c5 = lit_prev_hash();
    let c6 = hex_encode(b.prev_hash);
    let c7 = lit_hash();
    let c8 = hex_encode(b.hash);
    let c9 = lit_nonce();
    let c10 = u64_text(b.nonce);
    let r9 = c9 + c10;
    let r8 = c8 + r9;
    let r7 = c7 + r8;
    let r6 = c6 + r7;
    let r5 = c5 + r6;
    let r4 = c4 + r5;
    let r3 = c3 + r4;
    let r2 = c2 + r3;
    let r1 = c1 + r2;
    assert(block_text(b) == r1);
    assert(x == p + (r1 + q)) by {
        assert(p + r1 + q =~= p + (r1 + q));
    }
    lemma_shift(p, c1, r2, q);
    let p1 = p + c1;
    lemma_take_lit(p, c1, r2 + q);
    lemma_shift(p1, c2, r3, q);
    let p2 = p1 + c2;
    lemma_take_text(p1, b.creator, r3 + q);
    lemma_shift(p2, c3, r4, q);
    let p3 = p2 + c3;
    lemma_take_lit(p2, c3, r4 + q);
    lemma_shift(p3, c4, r5, q);
    let p4 = p3 + c4;
    lemma_take_text(p3, b.payload, r5 + q);
    lemma_shift(p4, c5, r6, q);
    let p5 = p4 + c5;
    lemma_take_lit(p4, c5, r6 + q);
    lemma_shift(p5, c6, r7, q);
    let p6 = p5 + c6;
    lemma_take_hex(p5, b.prev_hash, r7 + q);
    lemma_shift(p6, c7, r8, q);
    let p7 = p6 + c7;
    lemma_take_lit(p6, c7, r8 + q);
    lemma_shift(p7, c8, r9, q);
    let p8 = p7 + c8;
    lemma_take_hex(p7, b.hash, r9 + q);
    lemma_shift(p8, c9, c10, q);
    let p9 = p8 + c9;
    lemma_take_lit(p8, c9, c10 + q);
    assert(p9 + (c10 + q) == p9 + c10 + q) by {
        assert(p9 + (c10 + q) =~= p9 + c10 + q);
    }
    lemma_take_u64(p9, b.nonce, q);
}

/// Decoding the wire form of any signal that the format can carry gives
/// that signal back.
pub proof fn lemma_signal_round_trip(s: SignalView)
    requires
        signal_fits(s),
    ensures
        parse_signal(encode_signal(s)) == Some(s),
{
    reveal(text_field);
    let x = encode_signal(s);
    let e = Seq::<u8>::empty();
    let c1 = lit_from();
    let c2 = text_field(s.from);
    let c3 = lit_kind();
    let c4 = field_text(encode_utf8(kind_name(s.message)));
    let c5 = lit_value();
    let c6 = value_text(s.message);
    let r5 = c5 + c6;
    let r4 = c4 + r5;
    let r3 = c3 + r4;
    let r2 = c2 + r3;
    let r1 = c1 + r2;
    lemma_kind_names(s.message);
    assert(x == e + (r1 + e)) by {
        assert(x =~= e + (r1 + e));
    }
    lemma_shift(e, c1, r2, e);
    let p1 = e + c1;
    lemma_take_lit(e, c1, r2 + e);
    lemma_shift(p1, c2, r3, e);
    let p2 = p1 + c2;
    lemma_take_text(p1, s.from, r3 + e);
    lemma_shift(p2, c3, r4, e);
    let p3 = p2 + c3;
    lemma_take_lit(p2, c3, r4 + e);
    lemma_shift(p3, c4, r5, e);
    let p4 = p3 + c4;
    lemma_take_field(p3, encode_utf8(kind_name(s.message)), r5 + e);
    lemma_shift(p4, c5, c6, e);
    let p5 = p4 + c5;
    lemma_take_lit(p4, c5, c6 + e);
    assert(p5 + c6 + e == x);
    assert(p1 == c1) by {
        assert(p1 =~= c1);
    }
    assert(p5.len() + c6.len() == x.len());
    match s.message {
        MessageView::AddBlock(b) => {
            lemma_take_block(p5, b, e);
        },
        MessageView::FinishedMining(b) => {
            lemma_take_block(p5, b, e);
        },
        _ => {},
    }
}

/// Joins valid UTF-8 pieces, last ones first.
proof fn lemma_join_valid(pieces: Seq<Seq<u8>>, i: int)
    requires
        0 <= i <= pieces.len(),
        forall|k: int| i <= k < pieces.len() ==> valid_utf8(#[trigger] pieces[k]),
    ensures
        valid_utf8(join_from(pieces, i)),
    decreases pieces.len() - i,
{
    if i < pieces.len() {
        lemma_join_valid(pieces, i + 1);
        crate::bytes::lemma_valid_utf8_concat(pieces[i], join_from(pieces, i + 1));
    }
}

/// The pieces from index `i` on, joined right to left.
spec fn join_from(pieces: Seq<Seq<u8>>, i: int) -> Seq<u8>
    decreases pieces.len() - i,
{
    if 0 <= i < pieces.len() {
        pieces[i] + join_from(pieces, i + 1)
    } else {
        Seq::empty()
    }
}

proof fn lemma_text_field_valid(s: Seq<char>)
    ensures
        valid_utf8(text_field(s)),
{
    reveal(text_field);
    encode_utf8_valid_utf8(s);
    crate::codec::lemma_field_valid_utf8(encode_utf8(s));
}

proof fn lemma_block_text_valid(b: BlockView)
    ensures
        valid_utf8(block_text(b)),
{
    reveal(lit_creator);
    reveal(lit_payload);
    reveal(lit_prev_hash);
    reveal(lit_hash);
    reveal(lit_nonce);
    reveal(u64_text);
    let pieces = seq![
        lit_creator(),
        text_field(b.creator),
        lit_payload(),
        text_field(b.payload),
        lit_prev_hash(),
        hex_encode(b.prev_hash),
        lit_hash(),
        hex_encode(b.hash),
        lit_nonce(),
        u64_text(b.nonce),
    ];
    encode_utf8_valid_utf8("creator="@);
    encode_utf8_valid_utf8(";payload="@);
    encode_utf8_valid_utf8(";prev_hash="@);
    encode_utf8_valid_utf8(";hash="@);
    encode_utf8_valid_utf8(";nonce="@);
    lemma_text_field_valid(b.creator);
    lemma_text_field_valid(b.payload);
    crate::codec::lemma_hex_valid_utf8(b.prev_hash);
    crate::codec::lemma_hex_valid_utf8(b.hash);
    crate::codec::lemma_hex_valid_utf8(crate::bytes::u64_be(b.nonce));
    lemma_join_valid(pieces, 0);
    assert(join_from(pieces, 10) == Seq::<u8>::empty());
    assert(pieces[9] + Seq::<u8>::empty() == pieces[9]) by {
        assert(pieces[9] + Seq::<u8>::empty() =~= pieces[9]);
    }
    assert(join_from(pieces, 0) == block_text(b)) by {
        reveal_with_fuel(join_from, 11);
    }
}

/// The wire form of every signal is valid UTF-8 text.
pub proof fn lemma_signal_text_valid(s: SignalView)
    ensures
        valid_utf8(encode_signal(s)),
{
    reveal(lit_from);
    reveal(lit_kind);
    reveal(lit_value);
    encode_utf8_valid_utf8("from_address="@);
    encode_utf8_valid_utf8(";kind="@);
    encode_utf8_valid_utf8(";value="@);
    lemma_text_field_valid(s.from);
    encode_utf8_valid_utf8(kind_name(s.message));
    crate::codec::lemma_field_valid_utf8(encode_utf8(kind_name(s.message)));
    match s.message {
        MessageView::AddBlock(b) => lemma_block_text_valid(b),
        MessageView::FinishedMining(b) => lemma_block_text_valid(b),
        MessageView::IsOkay(f) => crate::bytes::lemma_ascii_valid_utf8(flag_text(f)),
        MessageView::IsThisBlockIsConform(f) => crate::bytes::lemma_ascii_valid_utf8(flag_text(f)),
        MessageView::NewMiner => {},
    }
    let v = value_text(s.message);
    let c4 = field_text(encode_utf8(kind_name(s.message)));
    crate::bytes::lemma_valid_utf8_concat(lit_value(), v);
    crate::bytes::lemma_valid_utf8_concat(c4, lit_value() + v);
    crate::bytes::lemma_valid_utf8_concat(lit_kind(), c4 + (lit_value() + v));
    crate::bytes::lemma_valid_utf8_concat(text_field(s.from), lit_kind() + (c4 + (lit_value() + v)));
    crate::bytes::lemma_valid_utf8_concat(
        lit_from(),
        text_field(s.from) + (lit_kind() + (c4 + (lit_value() + v))),
    );
}

/// Relies on String::from_utf8: it succeeds exactly when `v` is valid
/// UTF-8, and the string it returns is made of the bytes of `v`.
#[verifier::external_body]
fn utf8_to_string(v: Vec<u8>) -> (r: Option<String>)
    ensures
        r is Some <==> valid_utf8(v@),
        r matches Some(t) ==> encode_utf8(t@) == v@,
{
    String::from_utf8(v).ok()
}

fn push_text(dst: &mut Vec<u8>, s: &String)
    ensures
        final(dst)@ == old(dst)@ + text_field(s@),
{
    proof {
        reveal(text_field);
    }
    push_field(dst, s.as_str().as_bytes());
}

proof fn lemma_assoc(a: Seq<u8>, b: Seq<u8>, c: Seq<u8>)
    ensures
        a + (b + c) == (a + b) + c,
{
    assert(a + (b + c) =~= (a + b) + c);
}

fn push_block(dst: &mut Vec<u8>, b: &Block)
    ensures
        final(dst)@ == old(dst)@ + block_text(b@),
{
    let ghost start = dst@;
    let ghost c1 = lit_creator();
    let ghost c2 = text_field(b.creator@);
    let ghost c3 = lit_payload();
    let ghost c4 = text_field(b.payload@);
    let ghost c5 = lit_prev_hash();
    let ghost c6 = hex_encode(b.prev_hash@);
    let ghost c7 = lit_hash();
    let ghost c8 = hex_encode(b.hash@);
    let ghost c9 = lit_nonce();
    let ghost c10 = u64_text(b.nonce);
    let ghost r9 = c9 + c10;
    let ghost r8 = c8 + r9;
    let ghost r7 = c7 + r8;
    let ghost r6 = c6 + r7;
    let ghost r5 = c5 + r6;
    let ghost r4 = c4 + r5;
    let ghost r3 = c3 + r4;
    let ghost r2 = c2 + r3;
    let ghost target = start + block_text(b@);
    proof {
        assert(lit_creator() == encode_utf8("creator="@)) by {
            reveal(lit_creator);
        }
        assert(lit_payload() == encode_utf8(";payload="@)) by {
            reveal(lit_payload);
        }
        assert(lit_prev_hash() == encode_utf8(";prev_hash="@)) by {
            reveal(lit_prev_hash);
        }
        assert(lit_hash() == encode_utf8(";hash="@)) by {
            reveal(lit_hash);
        }
        assert(lit_nonce() == encode_utf8(";nonce="@)) by {
            reveal(lit_nonce);
        }
        lemma_assoc(start, c1, r2);
    }
    push_str(dst, "creator=");
    proof {
        lemma_assoc(dst@, c2, r3);
    }
    push_text(dst, &b.creator);
    proof {
        lemma_assoc(dst@, c3, r4);
    }
    push_str(dst, ";payload=");
    proof {
        lemma_assoc(dst@, c4, r5);
    }
    push_text(dst, &b.payload);
    proof {
        lemma_assoc(dst@, c5, r6);
    }
    push_str(dst, ";prev_hash=");
    proof {
        lemma_assoc(dst@, c6, r7);
    }
    push_hex(dst, b.prev_hash.as_slice());
    proof {
        lemma_assoc(dst@, c7, r8);
    }
    push_str(dst, ";hash=");
    proof {
        lemma_assoc(dst@, c8, r9);
    }
    push_hex(dst, b.hash.as_slice());
    proof {
        lemma_assoc(dst@, c9, c10);
    }
    push_str(dst, ";nonce=");
    push_u64_text(dst, b.nonce);
}

fn push_flag(dst: &mut Vec<u8>, f: bool)
    ensures
        final(dst)@ == old(dst)@ + flag_text(f),
{
    if f {
        dst.push(116u8);
    } else {
        dst.push(102u8);
    }
    assert(dst@ =~= old(dst)@ + flag_text(f));
}

fn push_value(dst: &mut Vec<u8>, m: &Message)
    ensures
        final(dst)@ == old(dst)@ + value_text(m@),
{
    match m {
        Message::IsOkay(f) => push_flag(dst, *f),
        Message::AddBlock(b) => push_block(dst, b),
        Message::IsThisBlockIsConform(f) => push_flag(dst, *f),
        Message::FinishedMining(b) => push_block(dst, b),
        Message::NewMiner => {
            assert(dst@ =~= old(dst)@ + value_text(m@));
        },
    }
}

fn kind_str(m: &Message) -> (r: &'static str)
    ensures
        r@ == kind_name(m@),
{
    match m {
        Message::IsOkay(_) => "IsOkay",
        Message::AddBlock(_) => "AddBlock",
        Message::IsThisBlockIsConform(_) => "IsThisBlockIsConform",
        Message::FinishedMining(_) => "FinishedMining",
        Message::NewMiner => "NewMiner",
    }
}

fn read_text(b: &[u8], pos: usize) -> (r: Option<(String, usize)>)
    ensures
        r matches Some((t, p)) ==> take_text(b@, pos as int) == Some((t@, p as int)),
        r is None ==> take_text(b@, pos as int) is None,
{
    proof {
        reveal(take_text);
    }
    match read_field(b, pos) {
        Some((f, p)) => {
            match utf8_to_string(f) {
                Some(t) => {
                    proof {
                        encode_utf8_decode_utf8(t@);
                    }
                    Some((t, p))
                },
                None => None,
            }
        },
        None => None,
    }
}

fn read_flag(b: &[u8], pos: usize) -> (r: Option<(bool, usize)>)
    ensures
        r matches Some((f, p)) ==> take_flag(b@, pos as int) == Some((f, p as int)),
        r is None ==> take_flag(b@, pos as int) is None,
{
    if pos < b.len() && b[pos] == 116u8 {
        Some((true, pos + 1))
    } else if pos < b.len() && b[pos] == 102u8 {
        Some((false, pos + 1))
    } else {
        None
    }
}

fn read_block(b: &[u8], pos: usize) -> (r: Option<(Block, usize)>)
    ensures
        r matches Some((k, p)) ==> take_block(b@, pos as int) == Some((k@, p as int)),
        r is None ==> take_block(b@, pos as int) is None,
{
    proof {
        reveal(lit_from);
        reveal(lit_kind);
        reveal(lit_value);
        reveal(lit_creator);
        reveal(lit_payload);
        reveal(lit_prev_hash);
        reveal(lit_hash);
        reveal(lit_nonce);
    }
    let p1 = read_lit(b, pos, "creator=".as_bytes())?;
    let (creator, p2) = read_text(b, p1)?;
    let p3 = read_lit(b, p2, ";payload=".as_bytes())?;
    let (payload, p4) = read_text(b, p3)?;
    let p5 = read_lit(b, p4, ";prev_hash=".as_bytes())?;
    let (prev_hash, p6) = read_hex(b, p5, HASH_LEN)?;
    let p7 = read_lit(b, p6, ";hash=".as_bytes())?;
    let (hash, p8) = read_hex(b, p7, HASH_LEN)?;
    let p9 = read_lit(b, p8, ";nonce=".as_bytes())?;
    let (nonce, p10) = read_u64(b, p9)?;
    Some((Block { creator, payload, prev_hash, nonce, hash }, p10))
}

fn same_bytes(k: &Vec<u8>, name: &str) -> (r: bool)
    ensures
        r == (k@ == encode_utf8(name@)),
{
    let mut n: Vec<u8> = Vec::new();
    push_str(&mut n, name);
    assert(n@ =~= encode_utf8(name@));
    crate::bytes::bytes_equal(k, &n)
}

fn read_value(b: &[u8], pos: usize, kind: &Vec<u8>) -> (r: Option<(Message, usize)>)
    ensures
        r matches Some((m, p)) ==> take_value(b@, pos as int, kind@) == Some((m@, p as int)),
        r is None ==> take_value(b@, pos as int, kind@) is None,
{
    if same_bytes(kind, "IsOkay") {
        let (f, p) = read_flag(b, pos)?;
        Some((Message::IsOkay(f), p))
    } else if same_bytes(kind, "AddBlock") {
        let (k, p) = read_block(b, pos)?;
        Some((Message::AddBlock(k), p))
    } else if same_bytes(kind, "IsThisBlockIsConform") {
        let (f, p) = read_flag(b, pos)?;
        Some((Message::IsThisBlockIsConform(f), p))
    } else if same_bytes(kind, "FinishedMining") {
        let (k, p) = read_block(b, pos)?;
        Some((Message::FinishedMining(k), p))
    } else if same_bytes(kind, "NewMiner") {
        Some((Message::NewMiner, pos))
    } else {
        None
    }
}

impl Signal {
    /// The canonical wire form of this signal.
    pub fn encode(&self) -> (r: Vec<u8>)
        ensures
            r@ == encode_signal(self@),
    {
        let ghost c1 = lit_from();
        let ghost c2 = text_field(self.from_socket_path@);
        let ghost c3 = lit_kind();
        let ghost c4 = field_text(encode_utf8(kind_name(self.message@)));
        let ghost c5 = lit_value();
        let ghost c6 = value_text(self.message@);
        let ghost r5 = c5 + c6;
        let ghost r4 = c4 + r5;
        let ghost r3 = c3 + r4;
        let ghost r2 = c2 + r3;
        proof {
            assert(lit_from() == encode_utf8("from_address="@)) by {
                reveal(lit_from);
            }
            assert(lit_kind() == encode_utf8(";kind="@)) by {
                reveal(lit_kind);
            }
            assert(lit_value() == encode_utf8(";value="@)) by {
                reveal(lit_value);
            }
        }
        let mut r: Vec<u8> = Vec::new();
        push_str(&mut r, "from_address=");
        assert(r@ == c1) by {
            assert(r@ =~= c1);
        }
        proof {
            lemma_assoc(r@, c2, r3);
        }
        push_text(&mut r, &self.from_socket_path);
        proof {
            lemma_assoc(r@, c3, r4);
        }
        push_str(&mut r, ";kind=");
        proof {
            lemma_assoc(r@, c4, r5);
        }
        push_field(&mut r, kind_str(&self.message).as_bytes());
        proof {
            lemma_assoc(r@, c5, c6);
        }
        push_str(&mut r, ";value=");
        push_value(&mut r, &self.message);
        r
    }

    /// Reads one signal from `bytes`; anything but exactly one well-formed
    /// signal is refused.
    pub fn decode(bytes: &[u8]) -> (r: Result<Signal, DecodeError>)
        ensures
            r matches Ok(s) ==> parse_signal(bytes@) == Some(s@),
            r is Err ==> parse_signal(bytes@) is None,
    {
        proof {
            reveal(lit_from);
            reveal(lit_kind);
            reveal(lit_value);
            reveal(lit_creator);
            reveal(lit_payload);
            reveal(lit_prev_hash);
            reveal(lit_hash);
            reveal(lit_nonce);
        }
        let p1 = match read_lit(bytes, 0, "from_address=".as_bytes()) {
            Some(p) => p,
            None => return Err(DecodeError),
        };
        let (from, p2) = match read_text(bytes, p1) {
            Some(x) => x,
            None => return Err(DecodeError),
        };
        let p3 = match read_lit(bytes, p2, ";kind=".as_bytes()) {
            Some(p) => p,
            None => return Err(DecodeError),
        };
        let (kind, p4) = match read_field(bytes, p3) {
            Some(x) => x,
            None => return Err(DecodeError),
        };
        let p5 = match read_lit(bytes, p4, ";value=".as_bytes()) {
            Some(p) => p,
            None => return Err(DecodeError),
        };
        let (message, p6) = match read_value(bytes, p5, &kind) {
            Some(x) => x,
            None => return Err(DecodeError),
        };
        if p6 != bytes.len() {
            return Err(DecodeError);
        }
        Ok(Signal { from_socket_path: from, message })
    }

    /// The wire form as a string.
    pub fn to_string(&self) -> (r: String)
        ensures
            encode_utf8(r@) == encode_signal(self@),
    {
        proof {
            lemma_signal_text_valid(self@);
        }
        match utf8_to_string(self.encode()) {
            Some(t) => t,
            None => {
                proof {
                    assert(false);
                }
                String::new()
            },
        }
    }
}

} // verus!

//! The messages nodes exchange and their wire encoding.
//!
//! Every message is a tagged union: the tag in 32 bits, little-endian, so
//! that the leading byte tells the variant, then the fields in declaration
//! order. A decoder reads one message from the front of the input and
//! ignores what follows it.

use crate::blockchain::block::{Block, BlockView};
use crate::blockchain::codec::{
    block_encodable, block_encoder, block_parser, encode_block, lemma_parse_block, parse_block,
    put_block, put_blocks, take_block, take_blocks,
};
use crate::transaction::transaction::{
    lemma_parse_transaction, parse_transaction, Transaction, TransactionView,
};
use crate::wire::{
    framed_list, framed_text, le_u32, le_u64, lemma_parse_list, lemma_parse_text, lemma_parse_u32,
    lemma_parse_u64, parse_list, parse_text, parse_u32, parse_u64, put_text, put_u32, put_u64,
    take_text, take_u32, take_u64,
};
use vstd::prelude::*;
use vstd::utf8::encode_utf8;

verus! {

/// Gossip topic for new transactions.
pub const TOPIC_TX: &'static str = "sp/tx";

/// Gossip topic for block verifications.
pub const TOPIC_VERIFY: &'static str = "sp/verify";

/// Gossip topic for newly sealed blocks.
pub const TOPIC_BLOCK: &'static str = "sp/block";

/// Name of the request-response protocol for block sync.
pub const SYNC_PROTOCOL: &'static str = "/sp/sync/1.0.0";

/// Name under which nodes identify themselves on a new connection.
pub const IDENTIFY_PROTOCOL: &'static str = "/sp/1.0.0";

/// A message that could not be decoded.
#[derive(Debug, Clone, Copy, PartialEq, Eq, Structural)]
pub enum ProtocolError {
    /// The bytes do not start with the encoding of a message.
    Malformed,
}

/// The mathematical content of a [`GossipMessage`].
pub enum GossipMessageView {
    Transaction(TransactionView),
    BlockVerification { block_index: u64, peer_id: Seq<char> },
    Block(BlockView),
}

/// Messages sent over the gossip topics.
#[derive(Debug)]
pub enum GossipMessage {
    /// A new transaction, sent to all peers.
    Transaction(Transaction),
    /// A peer says that it has verified the block at `block_index`.
    BlockVerification { block_index: u64, peer_id: String },
    /// A newly sealed block, sent to all peers.
    Block(Block),
}

impl View for GossipMessage {
    type V = GossipMessageView;

    open spec fn view(&self) -> GossipMessageView {
        match self {
            GossipMessage::Transaction(tx) => GossipMessageView::Transaction(tx@),
            GossipMessage::BlockVerification { block_index, peer_id } => {
                GossipMessageView::BlockVerification {
                    block_index: *block_index,
                    peer_id: peer_id@,
                }
            },
            GossipMessage::Block(block) => GossipMessageView::Block(block@),
        }
    }
}

/// A request on the direct sync channel.
#[derive(Debug, Clone, Copy, PartialEq, Eq, Structural)]
pub enum SyncRequest {
    /// Asks for all blocks of height `from_index` and above.
    BlocksFrom { from_index: u64 },
    /// Asks for the height of the peer's tip.
    ChainTip,
}

/// The mathematical content of a [`SyncResponse`].
pub enum SyncResponseView {
    Blocks(Seq<BlockView>),
    ChainTip { tip_index: u64 },
}

/// A response on the direct sync channel.
#[derive(Debug)]
pub enum SyncResponse {
    /// The blocks asked for, in chain order.
    Blocks(Vec<Block>),
    /// The height of the responder's tip.
    ChainTip { tip_index: u64 },
}

impl View for SyncResponse {
    type V = SyncResponseView;

    open spec fn view(&self) -> SyncResponseView {
        match self {
            SyncResponse::Blocks(blocks) => SyncResponseView::Blocks(blocks.deep_view()),
            SyncResponse::ChainTip { tip_index } => SyncResponseView::ChainTip {
                tip_index: *tip_index,
            },
        }
    }
}

/// The wire bytes of a gossip message.
pub open spec fn gossip_bytes(msg: GossipMessageView) -> Seq<u8> {
    match msg {
        GossipMessageView::Transaction(tx) => le_u32(0) + tx.encoding(),
        GossipMessageView::BlockVerification { block_index, peer_id } => le_u32(1) + le_u64(
            block_index,
        ) + framed_text(peer_id),
        GossipMessageView::Block(block) => le_u32(2) + encode_block(block),
    }
}

/// The gossip message that `b` starts with, if any.
pub open spec fn parse_gossip(b: Seq<u8>) -> Option<GossipMessageView> {
    match parse_u32(b) {
        Some((tag, n)) => if tag == 0 {
            match parse_transaction(b.skip(n)) {
                Some((tx, _)) => Some(GossipMessageView::Transaction(tx)),
                None => None,
            }
        } else if tag == 1 {
            match parse_u64(b.skip(n)) {
                Some((block_index, m)) => match parse_text(b.skip(n + m)) {
                    Some((peer_id, _)) => Some(
                        GossipMessageView::BlockVerification { block_index, peer_id },
                    ),
                    None => None,
                },
                None => None,
            }
        } else if tag == 2 {
            match parse_block(b.skip(n)) {
                Some((block, _)) => Some(GossipMessageView::Block(block)),
                None => None,
            }
        } else {
            None
        },
        None => None,
    }
}

/// True iff every length in `msg` fits its prefix, as it does for every
/// message in memory.
pub open spec fn gossip_encodable(msg: GossipMessageView) -> bool {
    match msg {
        GossipMessageView::Transaction(tx) => tx.wf(),
        GossipMessageView::BlockVerification { block_index, peer_id } => encode_utf8(
            peer_id,
        ).len() <= u64::MAX,
        GossipMessageView::Block(block) => block_encodable(block),
    }
}

/// Decoding the wire bytes of a gossip message gives the message back,
/// whatever follows them.
pub proof fn lemma_gossip_roundtrip(msg: GossipMessageView, rest: Seq<u8>)
    requires
        gossip_encodable(msg),
    ensures
        parse_gossip(gossip_bytes(msg) + rest) == Some(msg),
{
    let b = gossip_bytes(msg) + rest;
    match msg {
        GossipMessageView::Transaction(tx) => {
            lemma_parse_u32(0, tx.encoding() + rest);
            lemma_parse_transaction(tx, rest);
            assert(b =~= le_u32(0) + (tx.encoding() + rest));
            assert(b.skip(4) =~= tx.encoding() + rest);
        },
        GossipMessageView::BlockVerification { block_index, peer_id } => {
            lemma_parse_u32(1, le_u64(block_index) + framed_text(peer_id) + rest);
            lemma_parse_u64(block_index, framed_text(peer_id) + rest);
            lemma_parse_text(peer_id, rest);
            assert(b =~= le_u32(1) + (le_u64(block_index) + framed_text(peer_id) + rest));
            assert(b.skip(4) =~= le_u64(block_index) + (framed_text(peer_id) + rest));
            assert(b.skip(12) =~= framed_text(peer_id) + rest);
        },
        GossipMessageView::Block(block) => {
            lemma_parse_u32(2, encode_block(block) + rest);
            lemma_parse_block(block, rest);
            assert(b =~= le_u32(2) + (encode_block(block) + rest));
            assert(b.skip(4) =~= encode_block(block) + rest);
        },
    }
}

/// The wire bytes of a sync request.
pub open spec fn request_bytes(req: SyncRequest) -> Seq<u8> {
    match req {
        SyncRequest::BlocksFrom { from_index } => le_u32(0) + le_u64(from_index),
        SyncRequest::ChainTip => le_u32(1),
    }
}

/// The sync request that `b` starts with, if any.
pub open spec fn parse_request(b: Seq<u8>) -> Option<SyncRequest> {
    match parse_u32(b) {
        Some((tag, n)) => if tag == 0 {
            match parse_u64(b.skip(n)) {
                Some((from_index, _)) => Some(SyncRequest::BlocksFrom { from_index }),
                None => None,
            }
        } else if tag == 1 {
            Some(SyncRequest::ChainTip)
        } else {
            None
        },
        None => None,
    }
}

/// Decoding the wire bytes of a sync request gives the request back,
/// whatever follows them.
pub proof fn lemma_request_roundtrip(req: SyncRequest, rest: Seq<u8>)
    ensures
        parse_request(request_bytes(req) + rest) == Some(req),
{
    let b = request_bytes(req) + rest;
    match req {
        SyncRequest::BlocksFrom { from_index } => {
            lemma_parse_u32(0, le_u64(from_index) + rest);
            lemma_parse_u64(from_index, rest);
            assert(b =~= le_u32(0) + (le_u64(from_index) + rest));
            assert(b.skip(4) =~= le_u64(from_index) + rest);
        },
        SyncRequest::ChainTip => {
            lemma_parse_u32(1, rest);
        },
    }
}

/// The wire bytes of a sync response.
pub open spec fn response_bytes(resp: SyncResponseView) -> Seq<u8> {
    match resp {
        SyncResponseView::Blocks(blocks) => le_u32(0) + framed_list(blocks, block_encoder()),
        SyncResponseView::ChainTip { tip_index } => le_u32(1) + le_u64(tip_index),
    }
}

/// The sync response that `b` starts with, if any.
pub open spec fn parse_response(b: Seq<u8>) -> Option<SyncResponseView> {
    match parse_u32(b) {
        Some((tag, n)) => if tag == 0 {
            match parse_list(b.skip(n), block_parser()) {
                Some((blocks, _)) => Some(SyncResponseView::Blocks(blocks)),
                None => None,
            }
        } else if tag == 1 {
            match parse_u64(b.skip(n)) {
                Some((tip_index, _)) => Some(SyncResponseView::ChainTip { tip_index }),
                None => None,
            }
        } else {
            None
        },
        None => None,
    }
}

/// True iff every length in `resp` fits its prefix, as it does for every
/// response in memory.
pub open spec fn response_encodable(resp: SyncResponseView) -> bool {
    match resp {
        SyncResponseView::Blocks(blocks) => blocks.len() <= u64::MAX && forall|i: int|
            0 <= i < blocks.len() ==> block_encodable(#[trigger] blocks[i]),
        SyncResponseView::ChainTip { tip_index } => true,
    }
}

/// Decoding the wire bytes of a sync response gives the response back,
/// whatever follows them.
pub proof fn lemma_response_roundtrip(resp: SyncResponseView, rest: Seq<u8>)
    requires
        response_encodable(resp),
    ensures
        parse_response(response_bytes(resp) + rest) == Some(resp),
{
    let b = response_bytes(resp) + rest;
    match resp {
        SyncResponseView::Blocks(blocks) => {
            let body = framed_list(blocks, block_encoder());
            lemma_parse_u32(0, body + rest);
            assert forall|i: int, tail: Seq<u8>| 0 <= i < blocks.len() implies (
            #[trigger] block_parser()(block_encoder()(blocks[i]) + tail)) == Some(
                (blocks[i], block_encoder()(blocks[i]).len() as int),
            ) by {
                lemma_parse_block(blocks[i], tail);
            }
            lemma_parse_list(blocks, block_encoder(), block_parser(), rest);
            assert(b =~= le_u32(0) + (body + rest));
            assert(b.skip(4) =~= body + rest);
        },
        SyncResponseView::ChainTip { tip_index } => {
            lemma_parse_u32(1, le_u64(tip_index) + rest);
            lemma_parse_u64(tip_index, rest);
            assert(b =~= le_u32(1) + (le_u64(tip_index) + rest));
            assert(b.skip(4) =~= le_u64(tip_index) + rest);
        },
    }
}

/// Encodes a gossip message. Encoding cannot fail, and the bytes decode to
/// the message.
pub fn encode_gossip(msg: &GossipMessage) -> (r: Result<Vec<u8>, ProtocolError>)
    ensures
        r matches Ok(bytes) && bytes@ == gossip_bytes(msg@) && parse_gossip(bytes@) == Some(msg@),
{
    let mut out: Vec<u8> = Vec::new();
    match msg {
        GossipMessage::Transaction(tx) => {
            put_u32(&mut out, 0);
            tx.encode(&mut out);
            proof {
                tx.lemma_view_wf();
            }
        },
        GossipMessage::BlockVerification { block_index, peer_id } => {
            put_u32(&mut out, 1);
            put_u64(&mut out, *block_index);
            put_text(&mut out, peer_id.as_str());
        },
        GossipMessage::Block(block) => {
            put_u32(&mut out, 2);
            put_block(&mut out, block);
        },
    }
    proof {
        assert(out@ =~= gossip_bytes(msg@));
        lemma_gossip_roundtrip(msg@, Seq::empty());
        assert(gossip_bytes(msg@) + Seq::<u8>::empty() =~= gossip_bytes(msg@));
    }
    Ok(out)
}

/// Decodes the gossip message that `bytes` start with. Fails with
/// `Malformed`, and only so, when they start with none.
pub fn decode_gossip(bytes: &[u8]) -> (r: Result<GossipMessage, ProtocolError>)
    ensures
        match parse_gossip(bytes@) {
            Some(msg) => r matches Ok(got) && got@ == msg,
            None => r is Err,
        },
{
    assert(bytes@.skip(0) =~= bytes@);
    let (tag, p) = match take_u32(bytes, 0) {
        Some(x) => x,
        None => { return Err(ProtocolError::Malformed); },
    };
    if tag == 0 {
        match Transaction::decode(bytes, p) {
            Some((tx, _)) => Ok(GossipMessage::Transaction(tx)),
            None => Err(ProtocolError::Malformed),
        }
    } else if tag == 1 {
        let (block_index, q) = match take_u64(bytes, p) {
            Some(x) => x,
            None => { return Err(ProtocolError::Malformed); },
        };
        assert(bytes@.skip(p as int).skip(8) =~= bytes@.skip(q as int));
        match take_text(bytes, q) {
            Some((peer_id, _)) => Ok(GossipMessage::BlockVerification { block_index, peer_id }),
            None => Err(ProtocolError::Malformed),
        }
    } else if tag == 2 {
        match take_block(bytes, p) {
            Some((block, _)) => Ok(GossipMessage::Block(block)),
            None => Err(ProtocolError::Malformed),
        }
    } else {
        Err(ProtocolError::Malformed)
    }
}

/// Encodes a sync request. Encoding cannot fail, and the bytes decode to the
/// request.
pub fn encode_request(req: &SyncRequest) -> (r: Result<Vec<u8>, ProtocolError>)
    ensures
        r matches Ok(bytes) && bytes@ == request_bytes(*req) && parse_request(bytes@) == Some(
            *req,
        ),
{
    let mut out: Vec<u8> = Vec::new();
    match req {
        SyncRequest::BlocksFrom { from_index } => {
            put_u32(&mut out, 0);
            put_u64(&mut out, *from_index);
        },
        SyncRequest::ChainTip => {
            put_u32(&mut out, 1);
        },
    }
    proof {
        assert(out@ =~= request_bytes(*req));
        lemma_request_roundtrip(*req, Seq::empty());
        assert(request_bytes(*req) + Seq::<u8>::empty() =~= request_bytes(*req));
    }
    Ok(out)
}

/// Decodes the sync request that `bytes` start with. Fails with
/// `Malformed`, and only so, when they start with none.
pub fn decode_request(bytes: &[u8]) -> (r: Result<SyncRequest, ProtocolError>)
    ensures
        match parse_request(bytes@) {
            Some(req) => r == Ok::<SyncRequest, ProtocolError>(req),
            None => r is Err,
        },
{
    assert(bytes@.skip(0) =~= bytes@);
    let (tag, p) = match take_u32(bytes, 0) {
        Some(x) => x,
        None => { return Err(ProtocolError::Malformed); },
    };
    if tag == 0 {
        match take_u64(bytes, p) {
            Some((from_index, _)) => Ok(SyncRequest::BlocksFrom { from_index }),
            None => Err(ProtocolError::Malformed),
        }
    } else if tag == 1 {
        Ok(SyncRequest::ChainTip)
    } else {
        Err(ProtocolError::Malformed)
    }
}

/// Encodes a sync response. Encoding cannot fail, and the bytes decode to
/// the response.
pub fn encode_response(resp: &SyncResponse) -> (r: Result<Vec<u8>, ProtocolError>)
    ensures
        r matches Ok(bytes) && bytes@ == response_bytes(resp@) && parse_response(bytes@) == Some(
            resp@,
        ),
{
    let mut out: Vec<u8> = Vec::new();
    match resp {
        SyncResponse::Blocks(blocks) => {
            put_u32(&mut out, 0);
            let all = blocks.as_slice();
            assert(all.deep_view() =~= blocks.deep_view());
            assert(blocks.len() <= usize::MAX);
            put_blocks(&mut out, all);
        },
        SyncResponse::ChainTip { tip_index } => {
            put_u32(&mut out, 1);
            put_u64(&mut out, *tip_index);
        },
    }
    proof {
        assert(out@ =~= response_bytes(resp@));
        lemma_response_roundtrip(resp@, Seq::empty());
        assert(response_bytes(resp@) + Seq::<u8>::empty() =~= response_bytes(resp@));
    }
    Ok(out)
}

/// Encodes the response that carries `blocks`.
pub fn encode_blocks_response(blocks: &[Block]) -> (bytes: Vec<u8>)
    ensures
        bytes@ == response_bytes(SyncResponseView::Blocks(blocks.deep_view())),
{
    let mut out: Vec<u8> = Vec::new();
    put_u32(&mut out, 0);
    put_blocks(&mut out, blocks);
    assert(out@ =~= response_bytes(SyncResponseView::Blocks(blocks.deep_view())));
    out
}

/// Decodes the sync response that `bytes` start with. Fails with
/// `Malformed`, and only so, when they start with none.
pub fn decode_response(bytes: &[u8]) -> (r: Result<SyncResponse, ProtocolError>)
    ensures
        match parse_response(bytes@) {
            Some(resp) => r matches Ok(got) && got@ == resp,
            None => r is Err,
        },
{
    assert(bytes@.skip(0) =~= bytes@);
    let (tag, p) = match take_u32(bytes, 0) {
        Some(x) => x,
        None => { return Err(ProtocolError::Malformed); },
    };
    if tag == 0 {
        match take_blocks(bytes, p) {
            Some((blocks, _)) => Ok(SyncResponse::Blocks(blocks)),
            None => Err(ProtocolError::Malformed),
        }
    } else if tag == 1 {
        match take_u64(bytes, p) {
            Some((tip_index, _)) => Ok(SyncResponse::ChainTip { tip_index }),
            None => Err(ProtocolError::Malformed),
        }
    } else {
        Err(ProtocolError::Malformed)
    }
}

} // verus!

//! The wire encoding of blocks and of the lists they hold.
//!
//! A block is written field by field in declaration order: height, previous
//! hash, Merkle root, the transactions as a list, timestamp, nonce, and the
//! verifying peers as a list of texts.

use crate::blockchain::block::{Block, BlockView};
use crate::transaction::transaction::{
    lemma_parse_transaction, parse_transaction, Transaction, TransactionView,
};
use crate::wire::{
    append_bytes, concat_all, framed_list, framed_text, le_i64, le_u64, lemma_concat_all_skip,
    lemma_parse_fixed, lemma_parse_i64, lemma_parse_list, lemma_parse_text, lemma_parse_u64,
    lemma_prepend_step, parse_fixed, parse_i64, parse_list, parse_many, parse_text, parse_u64,
    prepend, put_i64, put_text, put_u64, take_i64, take_text, take_u64,
};
use vstd::prelude::*;
use vstd::slice::slice_subrange;
use vstd::utf8::encode_utf8;

verus! {

/// How a transaction is written.
pub open spec fn tx_encoder() -> spec_fn(TransactionView) -> Seq<u8> {
    |tx: TransactionView| tx.encoding()
}

/// How a transaction is read.
pub open spec fn tx_parser() -> spec_fn(Seq<u8>) -> Option<(TransactionView, int)> {
    |b: Seq<u8>| parse_transaction(b)
}

/// How a peer identifier is written.
pub open spec fn text_encoder() -> spec_fn(Seq<char>) -> Seq<u8> {
    |text: Seq<char>| framed_text(text)
}

/// How a peer identifier is read.
pub open spec fn text_parser() -> spec_fn(Seq<u8>) -> Option<(Seq<char>, int)> {
    |b: Seq<u8>| parse_text(b)
}

/// How a block is written.
pub open spec fn block_encoder() -> spec_fn(BlockView) -> Seq<u8> {
    |block: BlockView| encode_block(block)
}

/// How a block is read.
pub open spec fn block_parser() -> spec_fn(Seq<u8>) -> Option<(BlockView, int)> {
    |b: Seq<u8>| parse_block(b)
}

/// The wire bytes of a block.
pub open spec fn encode_block(block: BlockView) -> Seq<u8> {
    le_u64(block.index) + block.prev_hash + block.merkle_root + framed_list(
        block.transactions,
        tx_encoder(),
    ) + le_i64(block.timestamp) + le_u64(block.nonce) + framed_list(
        block.verifications,
        text_encoder(),
    )
}

/// Reads one block from the front of `b`: the content and the bytes used.
pub open spec fn parse_block(b: Seq<u8>) -> Option<(BlockView, int)> {
    match parse_u64(b) {
        Some((index, n1)) => match parse_fixed(b.skip(n1), 32) {
            Some((prev_hash, n2)) => match parse_fixed(b.skip(n1 + n2), 32) {
                Some((merkle_root, n3)) => match parse_list(b.skip(n1 + n2 + n3), tx_parser()) {
                    Some((transactions, n4)) => match parse_i64(b.skip(n1 + n2 + n3 + n4)) {
                        Some((timestamp, n5)) => match parse_u64(
                            b.skip(n1 + n2 + n3 + n4 + n5),
                        ) {
                            Some((nonce, n6)) => match parse_list(
                                b.skip(n1 + n2 + n3 + n4 + n5 + n6),
                                text_parser(),
                            ) {
                                Some((verifications, n7)) => Some(
                                    (
                                        BlockView {
                                            index,
                                            prev_hash,
                                            merkle_root,
                                            transactions,
                                            timestamp,
                                            nonce,
                                            verifications,
                                        },
                                        n1 + n2 + n3 + n4 + n5 + n6 + n7,
                                    ),
                                ),
                                None => None,
                            },
                            None => None,
                        },
                        None => None,
                    },
                    None => None,
                },
                None => None,
            },
            None => None,
        },
        None => None,
    }
}

/// Holds of the content of every block in memory: hashes have 32 bytes, and
/// every list and text has a length that fits its prefix.
pub open spec fn block_encodable(block: BlockView) -> bool {
    &&& block.prev_hash.len() == 32
    &&& block.merkle_root.len() == 32
    &&& block.transactions.len() <= u64::MAX
    &&& forall|i: int| 0 <= i < block.transactions.len() ==> (#[trigger] block.transactions[i]).wf()
    &&& block.verifications.len() <= u64::MAX
    &&& forall|i: int|
        0 <= i < block.verifications.len() ==> encode_utf8(#[trigger] block.verifications[i]).len()
            <= u64::MAX
}

/// Parsing the wire bytes of a block gives the block back, whatever follows
/// them.
pub proof fn lemma_parse_block(block: BlockView, rest: Seq<u8>)
    requires
        block_encodable(block),
    ensures
        parse_block(encode_block(block) + rest) == Some((block, encode_block(block).len() as int)),
{
    let f1 = le_u64(block.index);
    let f2 = block.prev_hash;
    let f3 = block.merkle_root;
    let f4 = framed_list(block.transactions, tx_encoder());
    let f5 = le_i64(block.timestamp);
    let f6 = le_u64(block.nonce);
    let f7 = framed_list(block.verifications, text_encoder());
    let b = encode_block(block) + rest;
    lemma_parse_u64(block.index, f2 + f3 + f4 + f5 + f6 + f7 + rest);
    lemma_parse_fixed(f2, f3 + f4 + f5 + f6 + f7 + rest);
    lemma_parse_fixed(f3, f4 + f5 + f6 + f7 + rest);
    assert forall|i: int, tail: Seq<u8>| 0 <= i < block.transactions.len() implies (
    #[trigger] tx_parser()(tx_encoder()(block.transactions[i]) + tail)) == Some(
        (block.transactions[i], tx_encoder()(block.transactions[i]).len() as int),
    ) by {
        lemma_parse_transaction(block.transactions[i], tail);
    }
    lemma_parse_list(block.transactions, tx_encoder(), tx_parser(), f5 + f6 + f7 + rest);
    lemma_parse_i64(block.timestamp, f6 + f7 + rest);
    lemma_parse_u64(block.nonce, f7 + rest);
    assert forall|i: int, tail: Seq<u8>| 0 <= i < block.verifications.len() implies (
    #[trigger] text_parser()(text_encoder()(block.verifications[i]) + tail)) == Some(
        (block.verifications[i], text_encoder()(block.verifications[i]).len() as int),
    ) by {
        lemma_parse_text(block.verifications[i], tail);
    }
    lemma_parse_list(block.verifications, text_encoder(), text_parser(), rest);
    let n1 = 8int;
    let n2 = n1 + 32;
    let n3 = n2 + 32;
    let n4 = n3 + f4.len();
    let n5 = n4 + 8;
    let n6 = n5 + 8;
    assert(b =~= f1 + (f2 + f3 + f4 + f5 + f6 + f7 + rest));
    assert(b.skip(n1) =~= f2 + (f3 + f4 + f5 + f6 + f7 + rest));
    assert(b.skip(n2) =~= f3 + (f4 + f5 + f6 + f7 + rest));
    assert(b.skip(n3) =~= f4 + (f5 + f6 + f7 + rest));
    assert(b.skip(n4) =~= f5 + (f6 + f7 + rest));
    assert(b.skip(n5) =~= f6 + (f7 + rest));
    assert(b.skip(n6) =~= f7 + rest);
}

/// Appends the transactions as a list field.
pub fn put_transactions(out: &mut Vec<u8>, txs: &Vec<Transaction>)
    ensures
        final(out)@ == old(out)@ + framed_list(txs.deep_view(), tx_encoder()),
{
    let ghost items = txs.deep_view();
    let ghost enc = tx_encoder();
    put_u64(out, txs.len() as u64);
    let ghost start = out@;
    let mut i: usize = 0;
    assert(items.skip(0) =~= items);
    while i < txs.len()
        invariant
            i <= txs@.len(),
            items == txs.deep_view(),
            enc == tx_encoder(),
            out@ + concat_all(items.skip(i as int), enc) == start + concat_all(items, enc),
        decreases txs@.len() - i,
    {
        let ghost before = out@;
        txs[i].encode(out);
        proof {
            lemma_concat_all_skip(items, enc, i as int);
            assert(before + items[i as int].encoding() + concat_all(items.skip(i + 1), enc)
                =~= before + (enc(items[i as int]) + concat_all(items.skip(i + 1), enc)));
        }
        i += 1;
    }
    assert(concat_all(items.skip(i as int), enc) =~= Seq::<u8>::empty());
    assert(out@ =~= old(out)@ + framed_list(items, enc));
}

/// Reads a list of transactions at `pos`.
pub fn take_transactions(input: &[u8], pos: usize) -> (r: Option<(Vec<Transaction>, usize)>)
    requires
        pos <= input@.len(),
    ensures
        match parse_list(input@.skip(pos as int), tx_parser()) {
            Some((txs, n)) => r matches Some((got, next)) && got.deep_view() == txs && next == pos
                + n && pos <= next <= input@.len(),
            None => r is None,
        },
{
    let (count, start) = match take_u64(input, pos) {
        Some(x) => x,
        None => { return None; },
    };
    let ghost parse = tx_parser();
    let ghost from = input@.skip(start as int);
    assert(input@.skip(pos as int).skip(8) =~= from);
    let mut items: Vec<Transaction> = Vec::new();
    let mut p = start;
    let mut i: u64 = 0;
    assert(items.deep_view() =~= Seq::<TransactionView>::empty());
    assert(prepend(Seq::<TransactionView>::empty(), 0, parse_many(from, count as nat, parse))
        == parse_many(from, count as nat, parse)) by {
        match parse_many(from, count as nat, parse) {
            Some((rest, n)) => {
                assert(Seq::<TransactionView>::empty() + rest =~= rest);
            },
            None => {},
        }
    }
    while i < count
        invariant
            i <= count,
            start <= p <= input@.len(),
            parse == tx_parser(),
            from == input@.skip(start as int),
            parse_list(input@.skip(pos as int), parse) == prepend(
                Seq::<TransactionView>::empty(),
                start - pos,
                parse_many(from, count as nat, parse),
            ),
            parse_many(from, count as nat, parse) == prepend(
                items.deep_view(),
                p - start,
                parse_many(input@.skip(p as int), (count - i) as nat, parse),
            ),
        decreases count - i,
    {
        assert(parse(input@.skip(p as int)) == parse_transaction(input@.skip(p as int)));
        match Transaction::decode(input, p) {
            None => {
                return None;
            },
            Some((tx, next)) => {
                let ghost done = items.deep_view();
                proof {
                    assert(input@.skip(p as int).skip(next - p) =~= input@.skip(next as int));
                    lemma_prepend_step(
                        done,
                        p - start,
                        tx@,
                        next - p,
                        parse_many(input@.skip(next as int), (count - i - 1) as nat, parse),
                    );
                }
                items.push(tx);
                assert(items.deep_view() =~= done.push(tx@));
                p = next;
                i += 1;
            },
        }
    }
    assert(items.deep_view() + Seq::<TransactionView>::empty() =~= items.deep_view());
    assert(Seq::<TransactionView>::empty() + items.deep_view() =~= items.deep_view());
    Some((items, p))
}

/// Appends the texts as a list field.
pub fn put_texts(out: &mut Vec<u8>, texts: &Vec<String>)
    ensures
        final(out)@ == old(out)@ + framed_list(texts.deep_view(), text_encoder()),
        forall|i: int|
            0 <= i < texts@.len() ==> encode_utf8(#[trigger] texts.deep_view()[i]).len()
                <= u64::MAX,
{
    let ghost items = texts.deep_view();
    let ghost enc = text_encoder();
    put_u64(out, texts.len() as u64);
    let ghost start = out@;
    let mut i: usize = 0;
    assert(items.skip(0) =~= items);
    while i < texts.len()
        invariant
            i <= texts@.len(),
            items == texts.deep_view(),
            enc == text_encoder(),
            out@ + concat_all(items.skip(i as int), enc) == start + concat_all(items, enc),
            forall|j: int| 0 <= j < i ==> encode_utf8(#[trigger] items[j]).len() <= u64::MAX,
        decreases texts@.len() - i,
    {
        let ghost before = out@;
        put_text(out, texts[i].as_str());
        proof {
            lemma_concat_all_skip(items, enc, i as int);
            assert(before + framed_text(items[i as int]) + concat_all(items.skip(i + 1), enc)
                =~= before + (enc(items[i as int]) + concat_all(items.skip(i + 1), enc)));
        }
        i += 1;
    }
    assert(concat_all(items.skip(i as int), enc) =~= Seq::<u8>::empty());
    assert(out@ =~= old(out)@ + framed_list(items, enc));
}

/// Reads a list of texts at `pos`.
pub fn take_texts(input: &[u8], pos: usize) -> (r: Option<(Vec<String>, usize)>)
    requires
        pos <= input@.len(),
    ensures
        match parse_list(input@.skip(pos as int), text_parser()) {
            Some((texts, n)) => r matches Some((got, next)) && got.deep_view() == texts && next
                == pos + n && pos <= next <= input@.len(),
            None => r is None,
        },
{
    let (count, start) = match take_u64(input, pos) {
        Some(x) => x,
        None => { return None; },
    };
    let ghost parse = text_parser();
    let ghost from = input@.skip(start as int);
    assert(input@.skip(pos as int).skip(8) =~= from);
    let mut items: Vec<String> = Vec::new();
    let mut p = start;
    let mut i: u64 = 0;
    assert(items.deep_view() =~= Seq::<Seq<char>>::empty());
    assert(prepend(Seq::<Seq<char>>::empty(), 0, parse_many(from, count as nat, parse))
        == parse_many(from, count as nat, parse)) by {
        match parse_many(from, count as nat, parse) {
            Some((rest, n)) => {
                assert(Seq::<Seq<char>>::empty() + rest =~= rest);
            },
            None => {},
        }
    }
    while i < count
        invariant
            i <= count,
            start <= p <= input@.len(),
            parse == text_parser(),
            from == input@.skip(start as int),
            parse_list(input@.skip(pos as int), parse) == prepend(
                Seq::<Seq<char>>::empty(),
                start - pos,
                parse_many(from, count as nat, parse),
            ),
            parse_many(from, count as nat, parse) == prepend(
                items.deep_view(),
                p - start,
                parse_many(input@.skip(p as int), (count - i) as nat, parse),
            ),
        decreases count - i,
    {
        assert(parse(input@.skip(p as int)) == parse_text(input@.skip(p as int)));
        match take_text(input, p) {
            None => {
                return None;
            },
            Some((text, next)) => {
                let ghost done = items.deep_view();
                proof {
                    assert(input@.skip(p as int).skip(next - p) =~= input@.skip(next as int));
                    lemma_prepend_step(
                        done,
                        p - start,
                        text@,
                        next - p,
                        parse_many(input@.skip(next as int), (count - i - 1) as nat, parse),
                    );
                }
                items.push(text);
                assert(items.deep_view() =~= done.push(text@));
                p = next;
                i += 1;
            },
        }
    }
    assert(items.deep_view() + Seq::<Seq<char>>::empty() =~= items.deep_view());
    assert(Seq::<Seq<char>>::empty() + items.deep_view() =~= items.deep_view());
    Some((items, p))
}

/// Reads a 32-byte hash at `pos`.
pub fn take_digest(input: &[u8], pos: usize) -> (r: Option<([u8; 32], usize)>)
    requires
        pos <= input@.len(),
    ensures
        match parse_fixed(input@.skip(pos as int), 32) {
            Some((digest, n)) => r matches Some((got, next)) && got@ == digest && next == pos + n
                && pos <= next <= input@.len(),
            None => r is None,
        },
{
    if input.len() - pos < 32 {
        return None;
    }
    let chunk = slice_subrange(input, pos, pos + 32);
    assert(chunk@ =~= input@.skip(pos as int).subrange(0, 32));
    let mut digest = [0u8; 32];
    let mut i: usize = 0;
    while i < 32
        invariant
            i <= 32,
            chunk@.len() == 32,
            forall|j: int| 0 <= j < i ==> digest@[j] == chunk@[j],
        decreases 32 - i,
    {
        digest[i] = chunk[i];
        i += 1;
    }
    assert(digest@ =~= chunk@);
    Some((digest, pos + 32))
}

/// Appends the wire bytes of `block`.
pub fn put_block(out: &mut Vec<u8>, block: &Block)
    ensures
        final(out)@ == old(out)@ + encode_block(block@),
        block_encodable(block@),
{
    proof {
        broadcast use vstd::array::array_len_matches_n;

        assert(block.transactions.len() <= usize::MAX);
        assert(block.verifications.len() <= usize::MAX);
        assert forall|i: int| 0 <= i < block@.transactions.len() implies (
        #[trigger] block@.transactions[i]).wf() by {
            block.transactions@[i].lemma_view_wf();
        }
    }
    put_u64(out, block.index);
    append_bytes(out, block.prev_hash.as_slice());
    append_bytes(out, block.merkle_root.as_slice());
    put_transactions(out, &block.transactions);
    put_i64(out, block.timestamp);
    put_u64(out, block.nonce);
    put_texts(out, &block.verifications);
    assert(out@ =~= old(out)@ + encode_block(block@));
}

/// Reads one block at `pos`; `None` when the bytes there are not the
/// encoding of a block.
pub fn take_block(input: &[u8], pos: usize) -> (r: Option<(Block, usize)>)
    requires
        pos <= input@.len(),
    ensures
        match parse_block(input@.skip(pos as int)) {
            Some((block, n)) => r matches Some((got, next)) && got@ == block && next == pos + n
                && pos <= next <= input@.len(),
            None => r is None,
        },
{
    let ghost b = input@.skip(pos as int);
    let (index, after_index) = match take_u64(input, pos) {
        Some(x) => x,
        None => { return None; },
    };
    assert(input@.skip(after_index as int) =~= b.skip(after_index - pos));
    let (prev_hash, after_prev) = match take_digest(input, after_index) {
        Some(x) => x,
        None => { return None; },
    };
    assert(input@.skip(after_prev as int) =~= b.skip(after_prev - pos));
    let (merkle_root, after_root) = match take_digest(input, after_prev) {
        Some(x) => x,
        None => { return None; },
    };
    assert(input@.skip(after_root as int) =~= b.skip(after_root - pos));
    let (transactions, after_txs) = match take_transactions(input, after_root) {
        Some(x) => x,
        None => { return None; },
    };
    assert(input@.skip(after_txs as int) =~= b.skip(after_txs - pos));
    let (timestamp, after_time) = match take_i64(input, after_txs) {
        Some(x) => x,
        None => { return None; },
    };
    assert(input@.skip(after_time as int) =~= b.skip(after_time - pos));
    let (nonce, after_nonce) = match take_u64(input, after_time) {
        Some(x) => x,
        None => { return None; },
    };
    assert(input@.skip(after_nonce as int) =~= b.skip(after_nonce - pos));
    let (verifications, after_peers) = match take_texts(input, after_nonce) {
        Some(x) => x,
        None => { return None; },
    };
    let block = Block {
        index,
        prev_hash,
        merkle_root,
        transactions,
        timestamp,
        nonce,
        verifications,
    };
    Some((block, after_peers))
}

/// Appends the blocks as a list field.
pub fn put_blocks(out: &mut Vec<u8>, blocks: &[Block])
    ensures
        final(out)@ == old(out)@ + framed_list(blocks.deep_view(), block_encoder()),
        forall|i: int| 0 <= i < blocks@.len() ==> block_encodable(#[trigger] blocks.deep_view()[i]),
{
    let ghost items = blocks.deep_view();
    let ghost enc = block_encoder();
    put_u64(out, blocks.len() as u64);
    let ghost start = out@;
    let mut i: usize = 0;
    assert(items.skip(0) =~= items);
    while i < blocks.len()
        invariant
            i <= blocks@.len(),
            items == blocks.deep_view(),
            enc == block_encoder(),
            out@ + concat_all(items.skip(i as int), enc) == start + concat_all(items, enc),
            forall|j: int| 0 <= j < i ==> block_encodable(#[trigger] items[j]),
        decreases blocks@.len() - i,
    {
        let ghost before = out@;
        put_block(out, &blocks[i]);
        proof {
            lemma_concat_all_skip(items, enc, i as int);
            assert(before + encode_block(items[i as int]) + concat_all(items.skip(i + 1), enc)
                =~= before + (enc(items[i as int]) + concat_all(items.skip(i + 1), enc)));
        }
        i += 1;
    }
    assert(concat_all(items.skip(i as int), enc) =~= Seq::<u8>::empty());
    assert(out@ =~= old(out)@ + framed_list(items, enc));
}

/// Reads a list of blocks at `pos`.
pub fn take_blocks(input: &[u8], pos: usize) -> (r: Option<(Vec<Block>, usize)>)
    requires
        pos <= input@.len(),
    ensures
        match parse_list(input@.skip(pos as int), block_parser()) {
            Some((blocks, n)) => r matches Some((got, next)) && got.deep_view() == blocks && next
                == pos + n && pos <= next <= input@.len(),
            None => r is None,
        },
{
    let (count, start) = match take_u64(input, pos) {
        Some(x) => x,
        None => { return None; },
    };
    let ghost parse = block_parser();
    let ghost from = input@.skip(start as int);
    assert(input@.skip(pos as int).skip(8) =~= from);
    let mut items: Vec<Block> = Vec::new();
    let mut p = start;
    let mut i: u64 = 0;
    assert(items.deep_view() =~= Seq::<BlockView>::empty());
    assert(prepend(Seq::<BlockView>::empty(), 0, parse_many(from, count as nat, parse))
        == parse_many(from, count as nat, parse)) by {
        match parse_many(from, count as nat, parse) {
            Some((rest, n)) => {
                assert(Seq::<BlockView>::empty() + rest =~= rest);
            },
            None => {},
        }
    }
    while i < count
        invariant
            i <= count,
            start <= p <= input@.len(),
            parse == block_parser(),
            from == input@.skip(start as int),
            parse_list(input@.skip(pos as int), parse) == prepend(
                Seq::<BlockView>::empty(),
                start - pos,
                parse_many(from, count as nat, parse),
            ),
            parse_many(from, count as nat, parse) == prepend(
                items.deep_view(),
                p - start,
                parse_many(input@.skip(p as int), (count - i) as nat, parse),
            ),
        decreases count - i,
    {
        assert(parse(input@.skip(p as int)) == parse_block(input@.skip(p as int)));
        match take_block(input, p) {
            None => {
                return None;
            },
            Some((block, next)) => {
                let ghost done = items.deep_view();
                proof {
                    assert(input@.skip(p as int).skip(next - p) =~= input@.skip(next as int));
                    lemma_prepend_step(
                        done,
                        p - start,
                        block@,
                        next - p,
                        parse_many(input@.skip(next as int), (count - i - 1) as nat, parse),
                    );
                }
                items.push(block);
                assert(items.deep_view() =~= done.push(block@));
                p = next;
                i += 1;
            },
        }
    }
    assert(items.deep_view() + Seq::<BlockView>::empty() =~= items.deep_view());
    assert(Seq::<BlockView>::empty() + items.deep_view() =~= items.deep_view());
    Some((items, p))
}

} // verus!

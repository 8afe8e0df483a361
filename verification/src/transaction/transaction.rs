//! The transaction record, its canonical encoding and its hash.

use crate::ambient::{fresh_id, unix_now};
use crate::hashing::{hex_encode, hex_lower, sha256, sha256_digest};
use crate::transaction::error::TransactionError;
use crate::transaction::transaction_type::TransactionType;
use crate::wire::{
    framed, le_i64, le_u32, lemma_parse_framed, lemma_parse_i64, lemma_parse_u32, parse_framed,
    parse_i64, parse_u32, put_framed, put_i64, put_u32, take_framed, take_i64, take_u32,
};
use vstd::prelude::*;

verus! {

/// The mathematical content of a [`Transaction`].
pub struct TransactionView {
    pub id: Seq<u8>,
    pub kind: TransactionType,
    pub payload: Seq<u8>,
    pub timestamp: i64,
    pub signature: Seq<u8>,
}

impl TransactionView {
    /// Holds of the content of every transaction in memory: the identifier has
    /// sixteen bytes and the variable fields have lengths that fit their prefix.
    pub open spec fn wf(self) -> bool {
        &&& self.id.len() == 16
        &&& self.payload.len() <= u64::MAX
        &&& self.signature.len() <= u64::MAX
    }

    /// Canonical bytes: every field in declaration order, integers
    /// little-endian, variable-length fields framed by their length.
    pub open spec fn encoding(self) -> Seq<u8> {
        framed(self.id) + le_u32(self.kind.tag_spec()) + framed(self.payload) + le_i64(
            self.timestamp,
        ) + framed(self.signature)
    }

    /// SHA-256 of the canonical bytes.
    pub open spec fn hash(self) -> Seq<u8> {
        sha256(self.encoding())
    }

    /// True iff a signature is attached.
    pub open spec fn is_signed(self) -> bool {
        self.signature.len() > 0
    }
}

/// Reads one transaction from the front of `b`: the content and the bytes used.
pub open spec fn parse_transaction(b: Seq<u8>) -> Option<(TransactionView, int)> {
    match parse_framed(b) {
        Some((id, n1)) if id.len() == 16 => match parse_u32(b.skip(n1)) {
            Some((tag, n2)) => match TransactionType::from_tag_spec(tag) {
                Some(kind) => match parse_framed(b.skip(n1 + n2)) {
                    Some((payload, n3)) => match parse_i64(b.skip(n1 + n2 + n3)) {
                        Some((timestamp, n4)) => match parse_framed(b.skip(n1 + n2 + n3 + n4)) {
                            Some((signature, n5)) => Some(
                                (
                                    TransactionView { id, kind, payload, timestamp, signature },
                                    n1 + n2 + n3 + n4 + n5,
                                ),
                            ),
                            None => None,
                        },
                        None => None,
                    },
                    None => None,
                },
                None => None,
            },
            None => None,
        },
        _ => None,
    }
}

/// Parsing the canonical bytes of a transaction gives the transaction back,
/// whatever follows them.
pub proof fn lemma_parse_transaction(tx: TransactionView, rest: Seq<u8>)
    requires
        tx.wf(),
    ensures
        parse_transaction(tx.encoding() + rest) == Some((tx, tx.encoding().len() as int)),
        tx.encoding().len() >= 44,
{
    let b = tx.encoding() + rest;
    let f1 = framed(tx.id);
    let f2 = le_u32(tx.kind.tag_spec());
    let f3 = framed(tx.payload);
    let f4 = le_i64(tx.timestamp);
    let f5 = framed(tx.signature);
    lemma_parse_framed(tx.id, f2 + f3 + f4 + f5 + rest);
    lemma_parse_u32(tx.kind.tag_spec(), f3 + f4 + f5 + rest);
    tx.kind.lemma_tag_roundtrip();
    lemma_parse_framed(tx.payload, f4 + f5 + rest);
    lemma_parse_i64(tx.timestamp, f5 + rest);
    lemma_parse_framed(tx.signature, rest);
    let n1 = f1.len() as int;
    let n2 = n1 + 4;
    let n3 = n2 + f3.len();
    let n4 = n3 + 8;
    assert(b =~= f1 + (f2 + f3 + f4 + f5 + rest));
    assert(b.skip(n1) =~= f2 + (f3 + f4 + f5 + rest));
    assert(b.skip(n2) =~= f3 + (f4 + f5 + rest));
    assert(b.skip(n3) =~= f4 + (f5 + rest));
    assert(b.skip(n4) =~= f5 + rest);
}

/// A single immutable record of an event on the network.
///
/// The payload is opaque to the ledger. The signature is carried, not
/// checked; it is empty until the originating node signs.
#[derive(Debug, PartialEq, Eq)]
pub struct Transaction {
    /// Unique 128-bit identifier.
    pub id: [u8; 16],
    /// The kind of event this transaction records.
    pub kind: TransactionType,
    /// Opaque domain payload.
    pub payload: Vec<u8>,
    /// Unix timestamp (seconds) of creation.
    pub timestamp: i64,
    /// Signature bytes; empty until signed.
    pub signature: Vec<u8>,
}

impl View for Transaction {
    type V = TransactionView;

    open spec fn view(&self) -> TransactionView {
        TransactionView {
            id: self.id@,
            kind: self.kind,
            payload: self.payload@,
            timestamp: self.timestamp,
            signature: self.signature@,
        }
    }
}

impl DeepView for Transaction {
    type V = TransactionView;

    open spec fn deep_view(&self) -> TransactionView {
        self@
    }
}

impl Clone for Transaction {
    fn clone(&self) -> (copy: Self)
        ensures
            copy@ == self@,
    {
        Transaction {
            id: self.id,
            kind: self.kind,
            payload: self.payload.clone(),
            timestamp: self.timestamp,
            signature: self.signature.clone(),
        }
    }
}

impl Transaction {
    /// The content of a transaction in memory is always well formed.
    pub proof fn lemma_view_wf(&self)
        ensures
            self@.wf(),
    {
        broadcast use vstd::array::array_len_matches_n;

        assert(self.payload.len() <= usize::MAX);
        assert(self.signature.len() <= usize::MAX);
    }

    /// Creates an unsigned transaction with a fresh random identifier and the
    /// current time. Of the identifier only its version-4 marks are fixed;
    /// nothing is fixed of the time.
    pub fn new(kind: TransactionType, payload: Vec<u8>) -> (tx: Self)
        ensures
            tx@.kind == kind,
            tx@.payload == payload@,
            tx@.signature == Seq::<u8>::empty(),
            !tx@.is_signed(),
            tx@.id[6] / 16 == 4,
            tx@.id[8] / 64 == 2,
    {
        let id = fresh_id();
        let timestamp = unix_now();
        Transaction::from_parts(id, kind, payload, timestamp)
    }

    /// Creates an unsigned transaction from a given identifier and time.
    pub fn from_parts(id: [u8; 16], kind: TransactionType, payload: Vec<u8>, timestamp: i64) -> (tx:
        Self)
        ensures
            tx@ == (TransactionView {
                id: id@,
                kind,
                payload: payload@,
                timestamp,
                signature: Seq::<u8>::empty(),
            }),
    {
        Transaction { id, kind, payload, timestamp, signature: Vec::new() }
    }

    /// Appends the canonical bytes of this transaction to `out`.
    pub fn encode(&self, out: &mut Vec<u8>)
        ensures
            final(out)@ == old(out)@ + self@.encoding(),
    {
        put_framed(out, self.id.as_slice());
        put_u32(out, self.kind.tag());
        put_framed(out, self.payload.as_slice());
        put_i64(out, self.timestamp);
        put_framed(out, self.signature.as_slice());
        assert(out@ =~= old(out)@ + self@.encoding());
    }

    /// Reads one transaction at `pos` of `input`; `None` when the bytes there
    /// are not the encoding of a transaction.
    pub fn decode(input: &[u8], pos: usize) -> (r: Option<(Transaction, usize)>)
        requires
            pos <= input@.len(),
        ensures
            match parse_transaction(input@.skip(pos as int)) {
                Some((tx, n)) => r matches Some((got, next)) && got@ == tx && next == pos + n
                    && pos <= next <= input@.len(),
                None => r is None,
            },
    {
        let ghost b = input@.skip(pos as int);
        let (id_bytes, after_id) = match take_framed(input, pos) {
            Some(x) => x,
            None => { return None; },
        };
        if id_bytes.len() != 16 {
            return None;
        }
        assert(input@.skip(after_id as int) =~= b.skip(after_id - pos));
        let (tag, after_kind) = match take_u32(input, after_id) {
            Some(x) => x,
            None => { return None; },
        };
        let kind = match TransactionType::from_tag(tag) {
            Some(k) => k,
            None => { return None; },
        };
        assert(input@.skip(after_kind as int) =~= b.skip(after_kind - pos));
        let (payload, after_payload) = match take_framed(input, after_kind) {
            Some(x) => x,
            None => { return None; },
        };
        assert(input@.skip(after_payload as int) =~= b.skip(after_payload - pos));
        let (timestamp, after_time) = match take_i64(input, after_payload) {
            Some(x) => x,
            None => { return None; },
        };
        assert(input@.skip(after_time as int) =~= b.skip(after_time - pos));
        let (signature, after_signature) = match take_framed(input, after_time) {
            Some(x) => x,
            None => { return None; },
        };
        let mut id = [0u8; 16];
        let mut i: usize = 0;
        while i < 16
            invariant
                i <= 16,
                id_bytes@.len() == 16,
                forall|j: int| 0 <= j < i ==> id@[j] == id_bytes@[j],
            decreases 16 - i,
        {
            id[i] = id_bytes[i];
            i += 1;
        }
        assert(id@ =~= id_bytes@);
        Some((Transaction { id, kind, payload, timestamp, signature }, after_signature))
    }

    /// The SHA-256 hash of the canonical bytes of this transaction, used as
    /// its leaf in a Merkle tree. Encoding cannot fail, so the result is
    /// always `Ok`.
    pub fn hash(&self) -> (r: Result<[u8; 32], TransactionError>)
        ensures
            r matches Ok(digest) && digest@ == self@.hash(),
    {
        let mut bytes: Vec<u8> = Vec::new();
        self.encode(&mut bytes);
        assert(bytes@ =~= self@.encoding());
        Ok(sha256_digest(bytes.as_slice()))
    }

    /// The hash in lower-case hexadecimal.
    pub fn hash_hex(&self) -> (r: Result<String, TransactionError>)
        ensures
            r matches Ok(text) && text@ == hex_lower(self@.hash()),
    {
        match self.hash() {
            Ok(digest) => Ok(hex_encode(digest.as_slice())),
            Err(e) => Err(e),
        }
    }

    /// Attaches a signature, replacing any earlier one.
    pub fn sign(&mut self, signature: Vec<u8>)
        ensures
            final(self)@ == (TransactionView { signature: signature@, ..old(self)@ }),
    {
        self.signature = signature;
    }

    /// True when a signature has been attached.
    pub fn is_signed(&self) -> (signed: bool)
        ensures
            signed == self@.is_signed(),
    {
        self.signature.len() > 0
    }
}

/// Transactions with the same content have the same hash.
pub proof fn lemma_hash_deterministic(a: Transaction, b: Transaction)
    requires
        a@ == b@,
    ensures
        a@.hash() == b@.hash(),
{
}

/// Transactions that differ in any field have different canonical bytes.
/// Their hashes are the SHA-256 digests of different byte strings, and so
/// differ unless SHA-256 collides on the two.
pub proof fn lemma_distinct_transactions_distinct_bytes(a: Transaction, b: Transaction)
    requires
        a@ != b@,
    ensures
        a@.encoding() != b@.encoding(),
        a@.hash() == sha256(a@.encoding()),
        b@.hash() == sha256(b@.encoding()),
{
    a.lemma_view_wf();
    b.lemma_view_wf();
    lemma_parse_transaction(a@, Seq::empty());
    lemma_parse_transaction(b@, Seq::empty());
    assert(a@.encoding() + Seq::<u8>::empty() =~= a@.encoding());
    assert(b@.encoding() + Seq::<u8>::empty() =~= b@.encoding());
}

} // verus!

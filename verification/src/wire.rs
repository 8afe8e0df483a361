//! Byte-level building blocks of the canonical binary encoding.
//!
//! Integers are written little-endian at fixed width; variable-length fields
//! are preceded by their length as a 64-bit integer. Every writer appends to a
//! buffer and every reader works at an offset of an input slice, so composite
//! encodings are concatenations of these pieces.

use vstd::bytes::*;
use vstd::prelude::*;
use vstd::slice::*;
use vstd::utf8::*;

verus! {

/// Little-endian bytes of a 32-bit integer.
pub open spec fn le_u32(x: u32) -> Seq<u8> {
    spec_u32_to_le_bytes(x)
}

/// Little-endian bytes of a 64-bit integer.
pub open spec fn le_u64(x: u64) -> Seq<u8> {
    spec_u64_to_le_bytes(x)
}

/// Little-endian two's-complement bytes of a signed 64-bit integer.
pub open spec fn le_i64(x: i64) -> Seq<u8> {
    spec_u64_to_le_bytes(x as u64)
}

/// A variable-length byte field: its length in 64 bits, then the bytes.
pub open spec fn framed(data: Seq<u8>) -> Seq<u8> {
    le_u64(data.len() as u64) + data
}

/// A text field: the UTF-8 bytes of the text, framed.
pub open spec fn framed_text(text: Seq<char>) -> Seq<u8> {
    framed(encode_utf8(text))
}

/// Reads a 32-bit integer from the front of `b`: the value and the bytes used.
pub open spec fn parse_u32(b: Seq<u8>) -> Option<(u32, int)> {
    if b.len() >= 4 {
        Some((spec_u32_from_le_bytes(b.subrange(0, 4)), 4))
    } else {
        None
    }
}

/// Reads a 64-bit integer from the front of `b`.
pub open spec fn parse_u64(b: Seq<u8>) -> Option<(u64, int)> {
    if b.len() >= 8 {
        Some((spec_u64_from_le_bytes(b.subrange(0, 8)), 8))
    } else {
        None
    }
}

/// Reads a signed 64-bit integer from the front of `b`.
pub open spec fn parse_i64(b: Seq<u8>) -> Option<(i64, int)> {
    match parse_u64(b) {
        Some((x, n)) => Some((x as i64, n)),
        None => None,
    }
}

/// Reads exactly `n` raw bytes from the front of `b`.
pub open spec fn parse_fixed(b: Seq<u8>, n: nat) -> Option<(Seq<u8>, int)> {
    if b.len() >= n {
        Some((b.subrange(0, n as int), n as int))
    } else {
        None
    }
}

/// Reads a framed byte field from the front of `b`.
pub open spec fn parse_framed(b: Seq<u8>) -> Option<(Seq<u8>, int)> {
    match parse_u64(b) {
        Some((len, _)) => if b.len() - 8 >= len {
            Some((b.subrange(8, 8 + len), 8 + len))
        } else {
            None
        },
        None => None,
    }
}

/// Reads a framed text field from the front of `b`; the bytes must be UTF-8.
pub open spec fn parse_text(b: Seq<u8>) -> Option<(Seq<char>, int)> {
    match parse_framed(b) {
        Some((raw, n)) => if valid_utf8(raw) {
            Some((decode_utf8(raw), n))
        } else {
            None
        },
        None => None,
    }
}

/// Reading back a written 32-bit integer yields it, whatever follows.
pub proof fn lemma_parse_u32(x: u32, rest: Seq<u8>)
    ensures
        le_u32(x).len() == 4,
        parse_u32(le_u32(x) + rest) == Some((x, 4int)),
{
    lemma_auto_spec_u32_to_from_le_bytes();
    assert((le_u32(x) + rest).subrange(0, 4) =~= le_u32(x));
}

/// Reading back a written 64-bit integer yields it, whatever follows.
pub proof fn lemma_parse_u64(x: u64, rest: Seq<u8>)
    ensures
        le_u64(x).len() == 8,
        parse_u64(le_u64(x) + rest) == Some((x, 8int)),
{
    lemma_auto_spec_u64_to_from_le_bytes();
    assert((le_u64(x) + rest).subrange(0, 8) =~= le_u64(x));
}

/// Reading back a written signed integer yields it, whatever follows.
pub proof fn lemma_parse_i64(x: i64, rest: Seq<u8>)
    ensures
        le_i64(x).len() == 8,
        parse_i64(le_i64(x) + rest) == Some((x, 8int)),
{
    lemma_parse_u64(x as u64, rest);
    assert((x as u64) as i64 == x) by (bit_vector);
}

/// Reading back raw bytes of known length yields them, whatever follows.
pub proof fn lemma_parse_fixed(data: Seq<u8>, rest: Seq<u8>)
    ensures
        parse_fixed(data + rest, data.len()) == Some((data, data.len() as int)),
{
    assert((data + rest).subrange(0, data.len() as int) =~= data);
}

/// Reading back a framed field yields its bytes, whatever follows.
pub proof fn lemma_parse_framed(data: Seq<u8>, rest: Seq<u8>)
    requires
        data.len() <= u64::MAX,
    ensures
        framed(data).len() == 8 + data.len(),
        parse_framed(framed(data) + rest) == Some((data, 8 + data.len() as int)),
{
    let len = data.len() as u64;
    lemma_parse_u64(len, data + rest);
    assert(framed(data) + rest =~= le_u64(len) + (data + rest));
    assert((framed(data) + rest).subrange(8, 8 + len) =~= data);
}

/// Reading back a framed text yields the text, whatever follows.
pub proof fn lemma_parse_text(text: Seq<char>, rest: Seq<u8>)
    requires
        encode_utf8(text).len() <= u64::MAX,
    ensures
        framed_text(text).len() == 8 + encode_utf8(text).len(),
        parse_text(framed_text(text) + rest) == Some(
            (text, 8 + encode_utf8(text).len() as int),
        ),
{
    lemma_parse_framed(encode_utf8(text), rest);
    encode_utf8_valid_utf8(text);
    encode_utf8_decode_utf8(text);
}

/// Appends the little-endian bytes of `x`.
pub fn put_u32(out: &mut Vec<u8>, x: u32)
    ensures
        final(out)@ == old(out)@ + le_u32(x),
{
    let bytes = u32_to_le_bytes(x);
    append_bytes(out, bytes.as_slice());
}

/// Appends the little-endian bytes of `x`.
pub fn put_u64(out: &mut Vec<u8>, x: u64)
    ensures
        final(out)@ == old(out)@ + le_u64(x),
{
    let bytes = u64_to_le_bytes(x);
    append_bytes(out, bytes.as_slice());
}

/// Appends the little-endian two's-complement bytes of `x`.
pub fn put_i64(out: &mut Vec<u8>, x: i64)
    ensures
        final(out)@ == old(out)@ + le_i64(x),
{
    put_u64(out, #[verifier::truncate] (x as u64));
}

/// Appends `data` as it stands.
pub fn append_bytes(out: &mut Vec<u8>, data: &[u8])
    ensures
        final(out)@ == old(out)@ + data@,
{
    out.extend_from_slice(data);
    assert(out@ =~= old(out)@ + data@);
}

/// Appends `data` as a framed field.
pub fn put_framed(out: &mut Vec<u8>, data: &[u8])
    ensures
        final(out)@ == old(out)@ + framed(data@),
{
    put_u64(out, data.len() as u64);
    append_bytes(out, data);
    assert(out@ =~= old(out)@ + framed(data@));
}

/// Appends `text` as a framed text field.
pub fn put_text(out: &mut Vec<u8>, text: &str)
    ensures
        final(out)@ == old(out)@ + framed_text(text@),
        encode_utf8(text@).len() <= u64::MAX,
{
    let bytes = text.as_bytes();
    assert(bytes.len() <= usize::MAX);
    put_framed(out, bytes);
}

/// Reads a 32-bit integer at `pos`; `None` when fewer than four bytes remain.
pub fn take_u32(input: &[u8], pos: usize) -> (r: Option<(u32, usize)>)
    requires
        pos <= input@.len(),
    ensures
        match parse_u32(input@.skip(pos as int)) {
            Some((x, n)) => r matches Some((got, next)) && got == x && next == pos + n
                && pos <= next <= input@.len(),
            None => r is None,
        },
{
    if input.len() - pos < 4 {
        return None;
    }
    let chunk = slice_subrange(input, pos, pos + 4);
    assert(chunk@ =~= input@.skip(pos as int).subrange(0, 4));
    Some((u32_from_le_bytes(chunk), pos + 4))
}

/// Reads a 64-bit integer at `pos`; `None` when fewer than eight bytes remain.
pub fn take_u64(input: &[u8], pos: usize) -> (r: Option<(u64, usize)>)
    requires
        pos <= input@.len(),
    ensures
        match parse_u64(input@.skip(pos as int)) {
            Some((x, n)) => r matches Some((got, next)) && got == x && next == pos + n
                && pos <= next <= input@.len(),
            None => r is None,
        },
{
    if input.len() - pos < 8 {
        return None;
    }
    let chunk = slice_subrange(input, pos, pos + 8);
    assert(chunk@ =~= input@.skip(pos as int).subrange(0, 8));
    Some((u64_from_le_bytes(chunk), pos + 8))
}

/// Reads a signed 64-bit integer at `pos`.
pub fn take_i64(input: &[u8], pos: usize) -> (r: Option<(i64, usize)>)
    requires
        pos <= input@.len(),
    ensures
        match parse_i64(input@.skip(pos as int)) {
            Some((x, n)) => r matches Some((got, next)) && got == x && next == pos + n
                && pos <= next <= input@.len(),
            None => r is None,
        },
{
    match take_u64(input, pos) {
        Some((x, next)) => Some((#[verifier::truncate] (x as i64), next)),
        None => None,
    }
}

/// Reads a framed field at `pos`; `None` when the input ends before the field does.
pub fn take_framed(input: &[u8], pos: usize) -> (r: Option<(Vec<u8>, usize)>)
    requires
        pos <= input@.len(),
    ensures
        match parse_framed(input@.skip(pos as int)) {
            Some((data, n)) => r matches Some((got, next)) && got@ == data && next == pos + n
                && pos <= next <= input@.len(),
            None => r is None,
        },
{
    match take_u64(input, pos) {
        None => None,
        Some((len, start)) => {
            if (input.len() - start) as u64 >= len {
                let end = start + len as usize;
                let chunk = slice_subrange(input, start, end);
                assert(chunk@ =~= input@.skip(pos as int).subrange(8, 8 + len));
                Some((slice_to_vec(chunk), end))
            } else {
                None
            }
        },
    }
}

/// Calls `String::from_utf8`. Trusted: the conversion succeeds exactly when
/// the bytes are valid UTF-8, and the text is then what the bytes decode to.
#[verifier::external_body]
pub(crate) fn text_from_utf8(bytes: Vec<u8>) -> (r: Option<String>)
    ensures
        r is Some <==> valid_utf8(bytes@),
        r matches Some(text) ==> text@ == decode_utf8(bytes@),
{
    String::from_utf8(bytes).ok()
}

/// Reads a framed text field at `pos`; `None` when the input ends before the
/// field does or the field is not UTF-8.
pub fn take_text(input: &[u8], pos: usize) -> (r: Option<(String, usize)>)
    requires
        pos <= input@.len(),
    ensures
        match parse_text(input@.skip(pos as int)) {
            Some((text, n)) => r matches Some((got, next)) && got@ == text && next == pos + n
                && pos <= next <= input@.len(),
            None => r is None,
        },
{
    match take_framed(input, pos) {
        None => None,
        Some((raw, next)) => match text_from_utf8(raw) {
            None => None,
            Some(text) => Some((text, next)),
        },
    }
}

/// The encodings of `items`, one after the other.
pub open spec fn concat_all<T>(items: Seq<T>, enc: spec_fn(T) -> Seq<u8>) -> Seq<u8>
    decreases items.len(),
{
    if items.len() == 0 {
        Seq::empty()
    } else {
        enc(items[0]) + concat_all(items.drop_first(), enc)
    }
}

/// A list field: the number of items in 64 bits, then the items.
pub open spec fn framed_list<T>(items: Seq<T>, enc: spec_fn(T) -> Seq<u8>) -> Seq<u8> {
    le_u64(items.len() as u64) + concat_all(items, enc)
}

/// Puts the items `done`, read from `used` bytes, in front of a later result.
pub open spec fn prepend<T>(done: Seq<T>, used: int, later: Option<(Seq<T>, int)>) -> Option<
    (Seq<T>, int),
> {
    match later {
        Some((rest, n)) => Some((done + rest, used + n)),
        None => None,
    }
}

/// Reads `count` items from the front of `b`, one after the other.
pub open spec fn parse_many<T>(
    b: Seq<u8>,
    count: nat,
    parse: spec_fn(Seq<u8>) -> Option<(T, int)>,
) -> Option<(Seq<T>, int)>
    decreases count,
{
    if count == 0 {
        Some((Seq::empty(), 0))
    } else {
        match parse(b) {
            Some((first, n)) => prepend(
                seq![first],
                n,
                parse_many(b.skip(n), (count - 1) as nat, parse),
            ),
            None => None,
        }
    }
}

/// Reads a list field from the front of `b`.
pub open spec fn parse_list<T>(b: Seq<u8>, parse: spec_fn(Seq<u8>) -> Option<(T, int)>) -> Option<
    (Seq<T>, int),
> {
    match parse_u64(b) {
        Some((count, n)) => prepend(Seq::empty(), n, parse_many(b.skip(n), count as nat, parse)),
        None => None,
    }
}

/// Items read so far and the items still to read make the whole list.
pub proof fn lemma_prepend_step<T>(done: Seq<T>, used: int, item: T, n: int, later: Option<
    (Seq<T>, int),
>)
    ensures
        prepend(done, used, prepend(seq![item], n, later)) == prepend(
            done.push(item),
            used + n,
            later,
        ),
{
    match later {
        Some((rest, m)) => {
            assert(done + (seq![item] + rest) =~= done.push(item) + rest);
        },
        None => {},
    }
}

/// The encoding of a list is the encoding of its first items followed by
/// that of the others.
pub proof fn lemma_concat_all_skip<T>(items: Seq<T>, enc: spec_fn(T) -> Seq<u8>, i: int)
    requires
        0 <= i < items.len(),
    ensures
        concat_all(items.skip(i), enc) == enc(items[i]) + concat_all(items.skip(i + 1), enc),
{
    assert(items.skip(i).drop_first() =~= items.skip(i + 1));
}

/// Reading back the written items of a list yields them, whatever follows,
/// provided each item reads back.
pub proof fn lemma_parse_many<T>(
    items: Seq<T>,
    enc: spec_fn(T) -> Seq<u8>,
    parse: spec_fn(Seq<u8>) -> Option<(T, int)>,
    rest: Seq<u8>,
)
    requires
        forall|i: int, tail: Seq<u8>|
            0 <= i < items.len() ==> #[trigger] parse(enc(items[i]) + tail) == Some(
                (items[i], enc(items[i]).len() as int),
            ),
    ensures
        parse_many(concat_all(items, enc) + rest, items.len(), parse) == Some(
            (items, concat_all(items, enc).len() as int),
        ),
    decreases items.len(),
{
    if items.len() == 0 {
        assert(items =~= Seq::<T>::empty());
    } else {
        let first = enc(items[0]);
        let others = items.drop_first();
        let b = concat_all(items, enc) + rest;
        assert(b =~= first + (concat_all(others, enc) + rest));
        assert(parse(first + (concat_all(others, enc) + rest)) == Some(
            (items[0], first.len() as int),
        ));
        assert(b.skip(first.len() as int) =~= concat_all(others, enc) + rest);
        assert forall|i: int, tail: Seq<u8>| 0 <= i < others.len() implies #[trigger] parse(
            enc(others[i]) + tail,
        ) == Some((others[i], enc(others[i]).len() as int)) by {
            assert(others[i] == items[i + 1]);
        }
        lemma_parse_many(others, enc, parse, rest);
        assert(seq![items[0]] + others =~= items);
    }
}

/// Reading back a written list field yields its items, whatever follows,
/// provided each item reads back.
pub proof fn lemma_parse_list<T>(
    items: Seq<T>,
    enc: spec_fn(T) -> Seq<u8>,
    parse: spec_fn(Seq<u8>) -> Option<(T, int)>,
    rest: Seq<u8>,
)
    requires
        items.len() <= u64::MAX,
        forall|i: int, tail: Seq<u8>|
            0 <= i < items.len() ==> #[trigger] parse(enc(items[i]) + tail) == Some(
                (items[i], enc(items[i]).len() as int),
            ),
    ensures
        parse_list(framed_list(items, enc) + rest, parse) == Some(
            (items, framed_list(items, enc).len() as int),
        ),
{
    let body = concat_all(items, enc);
    lemma_parse_u64(items.len() as u64, body + rest);
    lemma_parse_many(items, enc, parse, rest);
    assert(framed_list(items, enc) + rest =~= le_u64(items.len() as u64) + (body + rest));
    assert((framed_list(items, enc) + rest).skip(8) =~= body + rest);
    assert(Seq::<T>::empty() + items =~= items);
}

} // verus!

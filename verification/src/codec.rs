//! The byte layout of stored records.
//!
//! A record is a run of fields. A number is eight little-endian bytes; a text
//! is its UTF-8 length as a number, then its UTF-8 bytes; a list is its
//! length as a number, then its items. Each kind of field has a spec encoder,
//! a spec parser that splits one field off the front of a byte sequence, a
//! lemma that the parser undoes the encoder, and the executable writer and
//! reader that are proved against them.

use crate::model::views;
use vstd::bytes::*;
use vstd::prelude::*;
use vstd::slice::*;
use vstd::utf8::*;

verus! {

// ---------------------------------------------------------------------------
// Numbers
// ---------------------------------------------------------------------------

/// The eight bytes of a number.
pub open spec fn u64_bytes(value: u64) -> Seq<u8> {
    spec_u64_to_le_bytes(value)
}

/// Splits a number off the front of `bytes`.
pub open spec fn parse_u64(bytes: Seq<u8>) -> Option<(u64, Seq<u8>)> {
    if bytes.len() >= 8 {
        Some((spec_u64_from_le_bytes(bytes.subrange(0, 8)), bytes.skip(8)))
    } else {
        None
    }
}

/// A number is eight bytes long, and parsing reads it back.
pub proof fn lemma_parse_u64(value: u64, tail: Seq<u8>)
    ensures
        u64_bytes(value).len() == 8,
        parse_u64(u64_bytes(value) + tail) == Some((value, tail)),
{
    lemma_auto_spec_u64_to_from_le_bytes();
    assert((u64_bytes(value) + tail).subrange(0, 8) =~= u64_bytes(value));
}

/// Appends the bytes of `value` to `out`.
pub fn put_u64(out: &mut Vec<u8>, value: u64)
    ensures
        final(out)@ == old(out)@ + u64_bytes(value),
{
    let bytes = u64_to_le_bytes(value);
    out.extend_from_slice(bytes.as_slice());
}

/// Reads the number that starts at `pos`, and gives the position after it.
pub fn take_u64(bytes: &[u8], pos: usize) -> (r: Option<(u64, usize)>)
    requires
        pos <= bytes@.len(),
    ensures
        match r {
            Some((value, next)) => pos <= next <= bytes@.len() && parse_u64(
                bytes@.skip(pos as int),
            ) == Some((value, bytes@.skip(next as int))),
            None => parse_u64(bytes@.skip(pos as int)) is None,
        },
{
    if bytes.len() - pos < 8 {
        return None;
    }
    let field = slice_subrange(bytes, pos, pos + 8);
    let value = u64_from_le_bytes(field);
    assert(bytes@.skip(pos as int).subrange(0, 8) =~= field@);
    Some((value, pos + 8))
}

// ---------------------------------------------------------------------------
// Texts
// ---------------------------------------------------------------------------

/// The bytes of a text: the length of its UTF-8 form, then that form.
pub open spec fn text_bytes(text: Seq<char>) -> Seq<u8> {
    u64_bytes(encode_utf8(text).len() as u64) + encode_utf8(text)
}

/// Splits a text off the front of `bytes`.
pub open spec fn parse_text(bytes: Seq<u8>) -> Option<(Seq<char>, Seq<u8>)> {
    match parse_u64(bytes) {
        Some((len, rest)) => if len <= rest.len() && valid_utf8(rest.subrange(0, len as int)) {
            Some((decode_utf8(rest.subrange(0, len as int)), rest.skip(len as int)))
        } else {
            None
        },
        None => None,
    }
}

/// A text takes eight bytes more than its UTF-8 form.
pub proof fn lemma_text_len(text: Seq<char>)
    ensures
        text_bytes(text).len() == 8 + encode_utf8(text).len(),
{
    lemma_parse_u64(encode_utf8(text).len() as u64, Seq::empty());
}

/// Parsing reads a text back, as long as its length fits a number.
pub proof fn lemma_parse_text(text: Seq<char>, tail: Seq<u8>)
    requires
        encode_utf8(text).len() <= u64::MAX,
    ensures
        parse_text(text_bytes(text) + tail) == Some((text, tail)),
{
    let body = encode_utf8(text);
    let len = body.len() as u64;
    lemma_parse_u64(len, body + tail);
    assert(text_bytes(text) + tail =~= u64_bytes(len) + (body + tail));
    assert((body + tail).subrange(0, len as int) =~= body);
    encode_utf8_valid_utf8(text);
    encode_utf8_decode_utf8(text);
}

/// `String::from_utf8`: the string whose UTF-8 form is `bytes`, or `None`
/// when `bytes` is not valid UTF-8.
#[verifier::external_body]
fn string_from_utf8(bytes: Vec<u8>) -> (r: Option<String>)
    ensures
        match r {
            Some(text) => valid_utf8(bytes@) && encode_utf8(text@) == bytes@,
            None => !valid_utf8(bytes@),
        },
{
    String::from_utf8(bytes).ok()
}

/// Appends the bytes of `text` to `out`.
pub fn put_text(out: &mut Vec<u8>, text: &str)
    ensures
        final(out)@ == old(out)@ + text_bytes(text@),
{
    let body = text.as_bytes();
    put_u64(out, body.len() as u64);
    out.extend_from_slice(body);
}

/// Reads the text that starts at `pos`, and gives the position after it.
pub fn take_text(bytes: &[u8], pos: usize) -> (r: Option<(String, usize)>)
    requires
        pos <= bytes@.len(),
    ensures
        match r {
            Some((text, next)) => pos <= next <= bytes@.len() && parse_text(
                bytes@.skip(pos as int),
            ) == Some((text@, bytes@.skip(next as int))),
            None => parse_text(bytes@.skip(pos as int)) is None,
        },
{
    let (len, start) = match take_u64(bytes, pos) {
        Some(found) => found,
        None => { return None; },
    };
    if len > (bytes.len() - start) as u64 {
        return None;
    }
    let end = start + len as usize;
    let body = slice_to_vec(slice_subrange(bytes, start, end));
    assert(bytes@.skip(start as int).subrange(0, len as int) =~= body@);
    match string_from_utf8(body) {
        Some(text) => {
            proof {
                encode_utf8_decode_utf8(text@);
            }
            Some((text, end))
        },
        None => None,
    }
}

// ---------------------------------------------------------------------------
// Lists of numbers
// ---------------------------------------------------------------------------

/// The bytes of the items of a list of numbers, one after the other.
pub open spec fn ids_body(ids: Seq<u64>) -> Seq<u8>
    decreases ids.len(),
{
    if ids.len() == 0 {
        Seq::empty()
    } else {
        ids_body(ids.drop_last()) + u64_bytes(ids.last())
    }
}

/// The bytes of a list of numbers: its length, then its items.
pub open spec fn ids_bytes(ids: Seq<u64>) -> Seq<u8> {
    u64_bytes(ids.len() as u64) + ids_body(ids)
}

/// Splits `count` numbers off the front of `bytes`.
pub open spec fn parse_ids_body(bytes: Seq<u8>, count: nat) -> Option<(Seq<u64>, Seq<u8>)>
    decreases count,
{
    if count == 0 {
        Some((Seq::empty(), bytes))
    } else {
        match parse_ids_body(bytes, (count - 1) as nat) {
            Some((ids, rest)) => match parse_u64(rest) {
                Some((id, after)) => Some((ids.push(id), after)),
                None => None,
            },
            None => None,
        }
    }
}

/// Splits a list of numbers off the front of `bytes`.
pub open spec fn parse_ids(bytes: Seq<u8>) -> Option<(Seq<u64>, Seq<u8>)> {
    match parse_u64(bytes) {
        Some((count, rest)) => parse_ids_body(rest, count as nat),
        None => None,
    }
}

/// Each number takes eight bytes.
pub proof fn lemma_ids_body_len(ids: Seq<u64>)
    ensures
        ids_body(ids).len() == 8 * ids.len(),
    decreases ids.len(),
{
    if ids.len() > 0 {
        lemma_ids_body_len(ids.drop_last());
        lemma_parse_u64(ids.last(), Seq::empty());
    }
}

/// A list of numbers takes eight bytes, and eight more for each item.
pub proof fn lemma_ids_len(ids: Seq<u64>)
    ensures
        ids_bytes(ids).len() == 8 + 8 * ids.len(),
{
    lemma_ids_body_len(ids);
    lemma_parse_u64(ids.len() as u64, Seq::empty());
}

/// Parsing reads the items of a list of numbers back.
pub proof fn lemma_parse_ids_body(ids: Seq<u64>, tail: Seq<u8>)
    ensures
        parse_ids_body(ids_body(ids) + tail, ids.len()) == Some((ids, tail)),
    decreases ids.len(),
{
    if ids.len() > 0 {
        let front = ids.drop_last();
        let last_tail = u64_bytes(ids.last()) + tail;
        lemma_parse_ids_body(front, last_tail);
        assert(ids_body(ids) + tail =~= ids_body(front) + last_tail);
        lemma_parse_u64(ids.last(), tail);
    }
}

/// Parsing reads a list of numbers back, as long as its length fits a number.
pub proof fn lemma_parse_ids(ids: Seq<u64>, tail: Seq<u8>)
    requires
        ids.len() <= u64::MAX,
    ensures
        parse_ids(ids_bytes(ids) + tail) == Some((ids, tail)),
{
    lemma_parse_u64(ids.len() as u64, ids_body(ids) + tail);
    assert(ids_bytes(ids) + tail =~= u64_bytes(ids.len() as u64) + (ids_body(ids) + tail));
    lemma_parse_ids_body(ids, tail);
}

/// Appends the bytes of the list `ids` to `out`.
pub fn put_ids(out: &mut Vec<u8>, ids: &Vec<u64>)
    ensures
        final(out)@ == old(out)@ + ids_bytes(ids@),
{
    put_u64(out, ids.len() as u64);
    let ghost start = out@;
    let mut i: usize = 0;
    while i < ids.len()
        invariant
            i <= ids@.len(),
            out@ == start + ids_body(ids@.take(i as int)),
        decreases ids@.len() - i,
    {
        put_u64(out, ids[i]);
        assert(ids@.take(i + 1).drop_last() =~= ids@.take(i as int));
        i += 1;
    }
    assert(ids@.take(i as int) =~= ids@);
}

/// Reads the list of numbers that starts at `pos`, and gives the position
/// after it.
pub fn take_ids(bytes: &[u8], pos: usize) -> (r: Option<(Vec<u64>, usize)>)
    requires
        pos <= bytes@.len(),
    ensures
        match r {
            Some((ids, next)) => pos <= next <= bytes@.len() && parse_ids(
                bytes@.skip(pos as int),
            ) == Some((ids@, bytes@.skip(next as int))),
            None => parse_ids(bytes@.skip(pos as int)) is None,
        },
{
    let (count, start) = match take_u64(bytes, pos) {
        Some(found) => found,
        None => { return None; },
    };
    let ghost body = bytes@.skip(start as int);
    let mut ids: Vec<u64> = Vec::new();
    let mut at: usize = start;
    let mut i: u64 = 0;
    while i < count
        invariant
            i <= count,
            start <= at <= bytes@.len(),
            body == bytes@.skip(start as int),
            parse_u64(bytes@.skip(pos as int)) == Some((count, body)),
            parse_ids_body(body, i as nat) == Some((ids@, bytes@.skip(at as int))),
        decreases count - i,
    {
        match take_u64(bytes, at) {
            Some((id, next)) => {
                ids.push(id);
                at = next;
            },
            None => {
                proof {
                    lemma_parse_ids_body_fails(body, i as nat + 1, count as nat);
                }
                return None;
            },
        }
        i += 1;
    }
    Some((ids, at))
}

/// Once the bytes run out, asking for more numbers fails too.
pub proof fn lemma_parse_ids_body_fails(bytes: Seq<u8>, short: nat, count: nat)
    requires
        short <= count,
        parse_ids_body(bytes, short) is None,
    ensures
        parse_ids_body(bytes, count) is None,
    decreases count,
{
    if short < count {
        lemma_parse_ids_body_fails(bytes, short, (count - 1) as nat);
    }
}

// ---------------------------------------------------------------------------
// Lists of texts
// ---------------------------------------------------------------------------

/// The bytes of the items of a list of texts, one after the other.
pub open spec fn texts_body(texts: Seq<Seq<char>>) -> Seq<u8>
    decreases texts.len(),
{
    if texts.len() == 0 {
        Seq::empty()
    } else {
        texts_body(texts.drop_last()) + text_bytes(texts.last())
    }
}

/// The bytes of a list of texts: its length, then its items.
pub open spec fn texts_bytes(texts: Seq<Seq<char>>) -> Seq<u8> {
    u64_bytes(texts.len() as u64) + texts_body(texts)
}

/// Splits `count` texts off the front of `bytes`.
pub open spec fn parse_texts_body(bytes: Seq<u8>, count: nat) -> Option<(Seq<Seq<char>>, Seq<u8>)>
    decreases count,
{
    if count == 0 {
        Some((Seq::empty(), bytes))
    } else {
        match parse_texts_body(bytes, (count - 1) as nat) {
            Some((texts, rest)) => match parse_text(rest) {
                Some((text, after)) => Some((texts.push(text), after)),
                None => None,
            },
            None => None,
        }
    }
}

/// Splits a list of texts off the front of `bytes`.
pub open spec fn parse_texts(bytes: Seq<u8>) -> Option<(Seq<Seq<char>>, Seq<u8>)> {
    match parse_u64(bytes) {
        Some((count, rest)) => parse_texts_body(rest, count as nat),
        None => None,
    }
}

/// The items of a list of texts take at least as many bytes as any one of
/// them, and at least eight bytes each.
pub proof fn lemma_texts_body_len(texts: Seq<Seq<char>>)
    ensures
        texts_body(texts).len() >= 8 * texts.len(),
        forall|i: int|
            0 <= i < texts.len() ==> texts_body(texts).len() >= 8 + encode_utf8(
                #[trigger] texts[i],
            ).len(),
    decreases texts.len(),
{
    if texts.len() > 0 {
        let front = texts.drop_last();
        lemma_texts_body_len(front);
        lemma_text_len(texts.last());
        assert forall|i: int| 0 <= i < texts.len() implies texts_body(texts).len() >= 8
            + encode_utf8(#[trigger] texts[i]).len() by {
            if i < front.len() {
                assert(front[i] == texts[i]);
            }
        }
    }
}

/// Parsing reads the items of a list of texts back, as long as the length of
/// each fits a number.
pub proof fn lemma_parse_texts_body(texts: Seq<Seq<char>>, tail: Seq<u8>)
    requires
        forall|i: int| 0 <= i < texts.len() ==> encode_utf8(#[trigger] texts[i]).len() <= u64::MAX,
    ensures
        parse_texts_body(texts_body(texts) + tail, texts.len()) == Some((texts, tail)),
    decreases texts.len(),
{
    if texts.len() > 0 {
        let front = texts.drop_last();
        let last_tail = text_bytes(texts.last()) + tail;
        lemma_parse_texts_body(front, last_tail);
        assert(texts_body(texts) + tail =~= texts_body(front) + last_tail);
        lemma_parse_text(texts.last(), tail);
    }
}

/// Parsing reads a list of texts back, as long as its bytes can be counted
/// by a number.
pub proof fn lemma_parse_texts(texts: Seq<Seq<char>>, tail: Seq<u8>)
    requires
        texts_bytes(texts).len() <= u64::MAX,
    ensures
        parse_texts(texts_bytes(texts) + tail) == Some((texts, tail)),
{
    lemma_texts_body_len(texts);
    lemma_parse_u64(texts.len() as u64, texts_body(texts) + tail);
    assert(texts_bytes(texts) + tail =~= u64_bytes(texts.len() as u64) + (texts_body(texts)
        + tail));
    lemma_parse_texts_body(texts, tail);
}

/// Appends the bytes of the list `texts` to `out`.
pub fn put_texts(out: &mut Vec<u8>, texts: &Vec<String>)
    ensures
        final(out)@ == old(out)@ + texts_bytes(views(texts@)),
{
    put_u64(out, texts.len() as u64);
    let ghost start = out@;
    let ghost items = views(texts@);
    let mut i: usize = 0;
    while i < texts.len()
        invariant
            i <= texts@.len(),
            items == views(texts@),
            out@ == start + texts_body(items.take(i as int)),
        decreases texts@.len() - i,
    {
        put_text(out, texts[i].as_str());
        assert(items.take(i + 1).drop_last() =~= items.take(i as int));
        i += 1;
    }
    assert(items.take(i as int) =~= items);
}

/// Reads the list of texts that starts at `pos`, and gives the position
/// after it.
pub fn take_texts(bytes: &[u8], pos: usize) -> (r: Option<(Vec<String>, usize)>)
    requires
        pos <= bytes@.len(),
    ensures
        match r {
            Some((texts, next)) => pos <= next <= bytes@.len() && parse_texts(
                bytes@.skip(pos as int),
            ) == Some((views(texts@), bytes@.skip(next as int))),
            None => parse_texts(bytes@.skip(pos as int)) is None,
        },
{
    let (count, start) = match take_u64(bytes, pos) {
        Some(found) => found,
        None => { return None; },
    };
    let ghost body = bytes@.skip(start as int);
    let mut texts: Vec<String> = Vec::new();
    let mut at: usize = start;
    let mut i: u64 = 0;
    while i < count
        invariant
            i <= count,
            start <= at <= bytes@.len(),
            body == bytes@.skip(start as int),
            parse_u64(bytes@.skip(pos as int)) == Some((count, body)),
            parse_texts_body(body, i as nat) == Some(
                (views(texts@), bytes@.skip(at as int)),
            ),
        decreases count - i,
    {
        match take_text(bytes, at) {
            Some((text, next)) => {
                texts.push(text);
                at = next;
            },
            None => {
                proof {
                    lemma_parse_texts_body_fails(body, i as nat + 1, count as nat);
                }
                return None;
            },
        }
        i += 1;
    }
    Some((texts, at))
}

/// Once the bytes run out, asking for more texts fails too.
pub proof fn lemma_parse_texts_body_fails(bytes: Seq<u8>, short: nat, count: nat)
    requires
        short <= count,
        parse_texts_body(bytes, short) is None,
    ensures
        parse_texts_body(bytes, count) is None,
    decreases count,
{
    if short < count {
        lemma_parse_texts_body_fails(bytes, short, (count - 1) as nat);
    }
}

} // verus!

//! Writing and reading numbers, byte strings and texts in length-prefixed
//! little-endian form.

use vstd::prelude::*;
use vstd::bytes::lemma_auto_spec_u128_to_from_le_bytes;
use vstd::bytes::lemma_auto_spec_u16_to_from_le_bytes;
use vstd::bytes::lemma_auto_spec_u32_to_from_le_bytes;
use vstd::bytes::lemma_auto_spec_u64_to_from_le_bytes;
use vstd::bytes::spec_u128_from_le_bytes;
use vstd::bytes::spec_u128_to_le_bytes;
use vstd::bytes::spec_u16_from_le_bytes;
use vstd::bytes::spec_u16_to_le_bytes;
use vstd::bytes::spec_u32_from_le_bytes;
use vstd::bytes::spec_u32_to_le_bytes;
use vstd::bytes::spec_u64_from_le_bytes;
use vstd::bytes::spec_u64_to_le_bytes;
use vstd::bytes::u128_from_le_bytes;
use vstd::bytes::u128_to_le_bytes;
use vstd::bytes::u16_from_le_bytes;
use vstd::bytes::u16_to_le_bytes;
use vstd::bytes::u32_from_le_bytes;
use vstd::bytes::u32_to_le_bytes;
use vstd::bytes::u64_from_le_bytes;
use vstd::bytes::u64_to_le_bytes;
use vstd::slice::slice_subrange;
use vstd::slice::slice_to_vec;
use vstd::utf8::decode_utf8;
use vstd::utf8::encode_utf8;
use vstd::utf8::encode_utf8_decode_utf8;
use vstd::utf8::encode_utf8_valid_utf8;
use vstd::utf8::valid_utf8;

use crate::moq_protocol::names::texts;

verus! {

#[verifier::external_type_specification]
#[verifier::external_body]
pub struct ExFromUtf8Error(std::string::FromUtf8Error);

/// Calls `String::from_utf8`. The standard library documents that it gives
/// the text that the bytes encode where they are valid UTF-8, and an error
/// where they are not.
#[verifier::external_body]
pub(crate) fn string_from_utf8(bytes: Vec<u8>) -> (r: Result<String, std::string::FromUtf8Error>)
    ensures
        match r {
            Ok(s) => valid_utf8(bytes@) && s@ == decode_utf8(bytes@),
            Err(_) => !valid_utf8(bytes@),
        },
{
    String::from_utf8(bytes)
}

/// The first `n` bytes of `data` and what follows them.
pub open spec fn parse_fixed(data: Seq<u8>, n: nat) -> Option<(Seq<u8>, Seq<u8>)> {
    if data.len() >= n {
        Some((data.take(n as int), data.skip(n as int)))
    } else {
        None
    }
}

pub open spec fn put_u16(x: u16) -> Seq<u8> {
    spec_u16_to_le_bytes(x)
}

pub open spec fn parse_u16(data: Seq<u8>) -> Option<(u16, Seq<u8>)> {
    match parse_fixed(data, 2) {
        Some((head, rest)) => Some((spec_u16_from_le_bytes(head), rest)),
        None => None,
    }
}

pub open spec fn put_u32(x: u32) -> Seq<u8> {
    spec_u32_to_le_bytes(x)
}

pub open spec fn parse_u32(data: Seq<u8>) -> Option<(u32, Seq<u8>)> {
    match parse_fixed(data, 4) {
        Some((head, rest)) => Some((spec_u32_from_le_bytes(head), rest)),
        None => None,
    }
}

pub open spec fn put_u64(x: u64) -> Seq<u8> {
    spec_u64_to_le_bytes(x)
}

pub open spec fn parse_u64(data: Seq<u8>) -> Option<(u64, Seq<u8>)> {
    match parse_fixed(data, 8) {
        Some((head, rest)) => Some((spec_u64_from_le_bytes(head), rest)),
        None => None,
    }
}

pub open spec fn put_u128(x: u128) -> Seq<u8> {
    spec_u128_to_le_bytes(x)
}

pub open spec fn parse_u128(data: Seq<u8>) -> Option<(u128, Seq<u8>)> {
    match parse_fixed(data, 16) {
        Some((head, rest)) => Some((spec_u128_from_le_bytes(head), rest)),
        None => None,
    }
}

pub open spec fn put_u8(x: u8) -> Seq<u8> {
    seq![x]
}

pub open spec fn parse_u8(data: Seq<u8>) -> Option<(u8, Seq<u8>)> {
    if data.len() >= 1 {
        Some((data[0], data.skip(1)))
    } else {
        None
    }
}

/// The items of `items` one after the other, each written by `put`.
pub open spec fn put_list<T>(items: Seq<T>, put: spec_fn(T) -> Seq<u8>) -> Seq<u8>
    decreases items.len(),
{
    if items.len() == 0 {
        Seq::empty()
    } else {
        put_list(items.drop_last(), put) + put(items.last())
    }
}

/// `count` items read one after the other by `item`, and what follows them.
pub open spec fn parse_list<T>(
    data: Seq<u8>,
    count: nat,
    item: spec_fn(Seq<u8>) -> Option<(T, Seq<u8>)>,
) -> Option<(Seq<T>, Seq<u8>)>
    decreases count,
{
    if count == 0 {
        Some((Seq::empty(), data))
    } else {
        match item(data) {
            Some((first, rest)) => match parse_list(rest, (count - 1) as nat, item) {
                Some((others, after)) => Some((seq![first] + others, after)),
                None => None,
            },
            None => None,
        }
    }
}

/// A list is its first item and the list of the others.
pub proof fn lemma_put_list_head<T>(items: Seq<T>, put: spec_fn(T) -> Seq<u8>)
    requires
        items.len() > 0,
    ensures
        put_list(items, put) == put(items[0]) + put_list(items.skip(1), put),
    decreases items.len(),
{
    if items.len() == 1 {
        assert(items.drop_last() =~= Seq::<T>::empty());
        assert(items.skip(1) =~= Seq::<T>::empty());
        assert(put_list(items, put) =~= put(items[0]) + put_list(items.skip(1), put));
    } else {
        let init = items.drop_last();
        lemma_put_list_head(init, put);
        assert(init.skip(1) =~= items.skip(1).drop_last());
        assert(items.skip(1).last() == items.last());
        assert(put_list(items, put) =~= put(items[0]) + put_list(items.skip(1), put));
    }
}

/// Items that are read back one by one are read back as a list.
pub proof fn lemma_parse_put_list<T>(
    items: Seq<T>,
    put: spec_fn(T) -> Seq<u8>,
    item: spec_fn(Seq<u8>) -> Option<(T, Seq<u8>)>,
    rest: Seq<u8>,
)
    requires
        forall|i: int, after: Seq<u8>|
            0 <= i < items.len() ==> #[trigger] item(put(items[i]) + after) == Some(
                (items[i], after),
            ),
    ensures
        parse_list(put_list(items, put) + rest, items.len(), item) == Some((items, rest)),
    decreases items.len(),
{
    if items.len() == 0 {
        assert(put_list(items, put) + rest =~= rest);
        assert(items =~= Seq::<T>::empty());
    } else {
        let others = items.skip(1);
        lemma_put_list_head(items, put);
        let after = put_list(others, put) + rest;
        assert(put_list(items, put) + rest =~= put(items[0]) + after);
        assert(item(put(items[0]) + after) == Some((items[0], after)));
        assert forall|i: int, a: Seq<u8>| 0 <= i < others.len() implies #[trigger] item(
            put(others[i]) + a,
        ) == Some((others[i], a)) by {
            assert(others[i] == items[i + 1]);
        }
        lemma_parse_put_list(others, put, item, rest);
        assert(seq![items[0]] + others =~= items);
    }
}

/// Reading `count` items and one more is reading `count + 1` items.
pub proof fn lemma_parse_list_more<T>(
    data: Seq<u8>,
    count: nat,
    item: spec_fn(Seq<u8>) -> Option<(T, Seq<u8>)>,
)
    ensures
        parse_list(data, count + 1, item) == match parse_list(data, count, item) {
            Some((items, rest)) => match item(rest) {
                Some((last, after)) => Some((items.push(last), after)),
                None => None,
            },
            None => None,
        },
    decreases count,
{
    reveal_with_fuel(parse_list, 3);
    if count == 0 {
        match item(data) {
            Some((first, rest)) => {
                assert(seq![first] + Seq::<T>::empty() =~= Seq::<T>::empty().push(first));
                assert(parse_list(rest, 0, item) == Some((Seq::<T>::empty(), rest)));
            },
            None => {},
        }
    } else {
        match item(data) {
            Some((first, rest)) => {
                lemma_parse_list_more(rest, (count - 1) as nat, item);
                match parse_list(rest, (count - 1) as nat, item) {
                    Some((others, mid)) => {
                        match item(mid) {
                            Some((last, after)) => {
                                assert(seq![first] + others.push(last) =~= (seq![first]
                                    + others).push(last));
                            },
                            None => {},
                        }
                    },
                    None => {},
                }
            },
            None => {},
        }
    }
}

/// A byte string: its length in four bytes, then its bytes.
pub open spec fn put_blob(bytes: Seq<u8>) -> Seq<u8> {
    put_u32(bytes.len() as u32) + bytes
}

pub open spec fn parse_blob(data: Seq<u8>) -> Option<(Seq<u8>, Seq<u8>)> {
    match parse_u32(data) {
        Some((len, rest)) => parse_fixed(rest, len as nat),
        None => None,
    }
}

/// A text: its UTF-8 bytes as a byte string.
pub open spec fn put_text(text: Seq<char>) -> Seq<u8> {
    put_blob(encode_utf8(text))
}

pub open spec fn parse_text(data: Seq<u8>) -> Option<(Seq<char>, Seq<u8>)> {
    match parse_blob(data) {
        Some((bytes, rest)) => if valid_utf8(bytes) {
            Some((decode_utf8(bytes), rest))
        } else {
            None
        },
        None => None,
    }
}

/// The text's UTF-8 form is short enough for a length of four bytes.
pub open spec fn text_fits(text: Seq<char>) -> bool {
    encode_utf8(text).len() <= u32::MAX
}

/// Reading as many bytes as `head` has from `head` and what follows gives
/// `head` and what follows.
pub proof fn lemma_parse_fixed(head: Seq<u8>, rest: Seq<u8>)
    ensures
        parse_fixed(head + rest, head.len()) == Some((head, rest)),
{
    assert((head + rest).take(head.len() as int) =~= head);
    assert((head + rest).skip(head.len() as int) =~= rest);
}

/// Reading what `put_u16` wrote gives the number and what follows it.
pub proof fn lemma_parse_put_u16(x: u16, rest: Seq<u8>)
    ensures
        parse_u16(put_u16(x) + rest) == Some((x, rest)),
        put_u16(x).len() == 2,
{
    lemma_auto_spec_u16_to_from_le_bytes();
    lemma_parse_fixed(put_u16(x), rest);
}

/// Reading what `put_u32` wrote gives the number and what follows it.
pub proof fn lemma_parse_put_u32(x: u32, rest: Seq<u8>)
    ensures
        parse_u32(put_u32(x) + rest) == Some((x, rest)),
        put_u32(x).len() == 4,
{
    lemma_auto_spec_u32_to_from_le_bytes();
    lemma_parse_fixed(put_u32(x), rest);
}

/// Reading what `put_u64` wrote gives the number and what follows it.
pub proof fn lemma_parse_put_u64(x: u64, rest: Seq<u8>)
    ensures
        parse_u64(put_u64(x) + rest) == Some((x, rest)),
        put_u64(x).len() == 8,
{
    lemma_auto_spec_u64_to_from_le_bytes();
    lemma_parse_fixed(put_u64(x), rest);
}

/// Reading what `put_u128` wrote gives the number and what follows it.
pub proof fn lemma_parse_put_u128(x: u128, rest: Seq<u8>)
    ensures
        parse_u128(put_u128(x) + rest) == Some((x, rest)),
        put_u128(x).len() == 16,
{
    lemma_auto_spec_u128_to_from_le_bytes();
    lemma_parse_fixed(put_u128(x), rest);
}

/// Reading what `put_u8` wrote gives the byte and what follows it.
pub proof fn lemma_parse_put_u8(x: u8, rest: Seq<u8>)
    ensures
        parse_u8(put_u8(x) + rest) == Some((x, rest)),
{
    assert((put_u8(x) + rest).skip(1) =~= rest);
}

/// Reading what `put_blob` wrote gives the bytes and what follows them.
pub proof fn lemma_parse_put_blob(bytes: Seq<u8>, rest: Seq<u8>)
    requires
        bytes.len() <= u32::MAX,
    ensures
        parse_blob(put_blob(bytes) + rest) == Some((bytes, rest)),
{
    lemma_parse_put_u32(bytes.len() as u32, bytes + rest);
    assert(put_blob(bytes) + rest =~= put_u32(bytes.len() as u32) + (bytes + rest));
    lemma_parse_fixed(bytes, rest);
}

/// Reading what `put_text` wrote gives the text and what follows it.
pub proof fn lemma_parse_put_text(text: Seq<char>, rest: Seq<u8>)
    requires
        text_fits(text),
    ensures
        parse_text(put_text(text) + rest) == Some((text, rest)),
{
    lemma_parse_put_blob(encode_utf8(text), rest);
    encode_utf8_valid_utf8(text);
    encode_utf8_decode_utf8(text);
}

pub fn write_u16(out: &mut Vec<u8>, x: u16)
    ensures
        final(out)@ == old(out)@ + put_u16(x),
{
    let mut b = u16_to_le_bytes(x);
    out.append(&mut b);
}

pub fn write_u32(out: &mut Vec<u8>, x: u32)
    ensures
        final(out)@ == old(out)@ + put_u32(x),
{
    let mut b = u32_to_le_bytes(x);
    out.append(&mut b);
}

pub fn write_u64(out: &mut Vec<u8>, x: u64)
    ensures
        final(out)@ == old(out)@ + put_u64(x),
{
    let mut b = u64_to_le_bytes(x);
    out.append(&mut b);
}

pub fn write_u128(out: &mut Vec<u8>, x: u128)
    ensures
        final(out)@ == old(out)@ + put_u128(x),
{
    let mut b = u128_to_le_bytes(x);
    out.append(&mut b);
}

pub fn write_u8(out: &mut Vec<u8>, x: u8)
    ensures
        final(out)@ == old(out)@ + put_u8(x),
{
    out.push(x);
    proof {
        assert(out@ =~= old(out)@ + put_u8(x));
    }
}

/// Appends the bytes of `bytes`.
pub fn write_raw(out: &mut Vec<u8>, bytes: &[u8])
    ensures
        final(out)@ == old(out)@ + bytes@,
{
    let mut b = slice_to_vec(bytes);
    out.append(&mut b);
}

pub fn write_blob(out: &mut Vec<u8>, bytes: &[u8])
    requires
        bytes@.len() <= u32::MAX,
    ensures
        final(out)@ == old(out)@ + put_blob(bytes@),
{
    write_u32(out, bytes.len() as u32);
    write_raw(out, bytes);
    proof {
        assert(out@ =~= old(out)@ + put_blob(bytes@));
    }
}

/// Whether the UTF-8 form of `text` is short enough to be written.
pub fn fits(text: &str) -> (b: bool)
    ensures
        b == text_fits(text@),
{
    text.as_bytes().len() <= u32::MAX as usize
}

pub fn write_text(out: &mut Vec<u8>, text: &str)
    requires
        text_fits(text@),
    ensures
        final(out)@ == old(out)@ + put_text(text@),
{
    write_blob(out, text.as_bytes());
}

/// Reads `n` bytes at `pos`.
pub fn read_fixed(data: &[u8], pos: usize, n: usize) -> (r: Option<(&[u8], usize)>)
    requires
        pos <= data@.len(),
    ensures
        match r {
            Some((head, next)) => next == pos + n && next <= data@.len() && parse_fixed(
                data@.skip(pos as int),
                n as nat,
            ) == Some((head@, data@.skip(next as int))),
            None => parse_fixed(data@.skip(pos as int), n as nat) is None,
        },
{
    if data.len() - pos < n {
        return None;
    }
    let head = slice_subrange(data, pos, pos + n);
    proof {
        assert(data@.skip(pos as int).take(n as int) =~= data@.subrange(pos as int, pos + n));
        assert(data@.skip(pos as int).skip(n as int) =~= data@.skip(pos + n));
    }
    Some((head, pos + n))
}

pub fn read_u16(data: &[u8], pos: usize) -> (r: Option<(u16, usize)>)
    requires
        pos <= data@.len(),
    ensures
        match r {
            Some((x, next)) => next == pos + 2 && next <= data@.len() && parse_u16(
                data@.skip(pos as int),
            ) == Some((x, data@.skip(next as int))),
            None => parse_u16(data@.skip(pos as int)) is None,
        },
{
    match read_fixed(data, pos, 2) {
        Some((head, next)) => Some((u16_from_le_bytes(head), next)),
        None => None,
    }
}

pub fn read_u32(data: &[u8], pos: usize) -> (r: Option<(u32, usize)>)
    requires
        pos <= data@.len(),
    ensures
        match r {
            Some((x, next)) => next == pos + 4 && next <= data@.len() && parse_u32(
                data@.skip(pos as int),
            ) == Some((x, data@.skip(next as int))),
            None => parse_u32(data@.skip(pos as int)) is None,
        },
{
    match read_fixed(data, pos, 4) {
        Some((head, next)) => Some((u32_from_le_bytes(head), next)),
        None => None,
    }
}

pub fn read_u64(data: &[u8], pos: usize) -> (r: Option<(u64, usize)>)
    requires
        pos <= data@.len(),
    ensures
        match r {
            Some((x, next)) => next == pos + 8 && next <= data@.len() && parse_u64(
                data@.skip(pos as int),
            ) == Some((x, data@.skip(next as int))),
            None => parse_u64(data@.skip(pos as int)) is None,
        },
{
    match read_fixed(data, pos, 8) {
        Some((head, next)) => Some((u64_from_le_bytes(head), next)),
        None => None,
    }
}

pub fn read_u128(data: &[u8], pos: usize) -> (r: Option<(u128, usize)>)
    requires
        pos <= data@.len(),
    ensures
        match r {
            Some((x, next)) => next == pos + 16 && next <= data@.len() && parse_u128(
                data@.skip(pos as int),
            ) == Some((x, data@.skip(next as int))),
            None => parse_u128(data@.skip(pos as int)) is None,
        },
{
    match read_fixed(data, pos, 16) {
        Some((head, next)) => Some((u128_from_le_bytes(head), next)),
        None => None,
    }
}

pub fn read_u8(data: &[u8], pos: usize) -> (r: Option<(u8, usize)>)
    requires
        pos <= data@.len(),
    ensures
        match r {
            Some((x, next)) => next == pos + 1 && next <= data@.len() && parse_u8(
                data@.skip(pos as int),
            ) == Some((x, data@.skip(next as int))),
            None => parse_u8(data@.skip(pos as int)) is None,
        },
{
    if pos < data.len() {
        proof {
            assert(data@.skip(pos as int).skip(1) =~= data@.skip(pos + 1));
        }
        Some((data[pos], pos + 1))
    } else {
        None
    }
}

pub fn read_blob(data: &[u8], pos: usize) -> (r: Option<(&[u8], usize)>)
    requires
        pos <= data@.len(),
    ensures
        match r {
            Some((bytes, next)) => pos <= next <= data@.len() && parse_blob(data@.skip(pos as int))
                == Some((bytes@, data@.skip(next as int))),
            None => parse_blob(data@.skip(pos as int)) is None,
        },
{
    match read_u32(data, pos) {
        Some((len, next)) => read_fixed(data, next, len as usize),
        None => None,
    }
}

pub fn read_text(data: &[u8], pos: usize) -> (r: Option<(String, usize)>)
    requires
        pos <= data@.len(),
    ensures
        match r {
            Some((text, next)) => pos <= next <= data@.len() && parse_text(data@.skip(pos as int))
                == Some((text@, data@.skip(next as int))),
            None => parse_text(data@.skip(pos as int)) is None,
        },
{
    match read_blob(data, pos) {
        Some((bytes, next)) => match string_from_utf8(slice_to_vec(bytes)) {
            Ok(text) => Some((text, next)),
            Err(_) => None,
        },
        None => None,
    }
}

/// Writes a text as a list's item.
pub open spec fn text_put() -> spec_fn(Seq<char>) -> Seq<u8> {
    |t: Seq<char>| put_text(t)
}

/// Reads a text as a list's item.
pub open spec fn text_item() -> spec_fn(Seq<u8>) -> Option<(Seq<char>, Seq<u8>)> {
    |data: Seq<u8>| parse_text(data)
}

/// Reads `count` texts at `pos`.
pub fn read_texts(data: &[u8], pos: usize, count: u32) -> (r: Option<(Vec<String>, usize)>)
    requires
        pos <= data@.len(),
    ensures
        match r {
            Some((items, next)) => pos <= next <= data@.len() && parse_list(
                data@.skip(pos as int),
                count as nat,
                text_item(),
            ) == Some((texts(items@), data@.skip(next as int))),
            None => parse_list(data@.skip(pos as int), count as nat, text_item()) is None,
        },
{
    let ghost start = data@.skip(pos as int);
    let mut items: Vec<String> = Vec::new();
    let mut at = pos;
    let mut i: u32 = 0;
    proof {
        assert(texts(items@) =~= Seq::<Seq<char>>::empty());
    }
    while i < count
        invariant
            start == data@.skip(pos as int),
            pos <= at <= data@.len(),
            0 <= i <= count,
            parse_list(start, i as nat, text_item()) == Some((texts(items@), data@.skip(at as int))),
        decreases count - i,
    {
        proof {
            lemma_parse_list_more(start, i as nat, text_item());
        }
        match read_text(data, at) {
            Some((text, next)) => {
                proof {
                    assert(texts(items@.push(text)) =~= texts(items@).push(text@));
                }
                items.push(text);
                at = next;
            },
            None => {
                proof {
                    lemma_parse_list_fails(start, i as nat, count as nat, text_item());
                }
                return None;
            },
        }
        i = i + 1;
    }
    Some((items, at))
}

/// Once an item cannot be read, no longer list can be read either.
pub proof fn lemma_parse_list_fails<T>(
    data: Seq<u8>,
    done: nat,
    count: nat,
    item: spec_fn(Seq<u8>) -> Option<(T, Seq<u8>)>,
)
    requires
        done < count,
        parse_list(data, done + 1, item) is None,
    ensures
        parse_list(data, count, item) is None,
    decreases count - done,
{
    if done + 1 < count {
        lemma_parse_list_more(data, (done + 1) as nat, item);
        lemma_parse_list_fails(data, (done + 1) as nat, count, item);
    }
}

} // verus!

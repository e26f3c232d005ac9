//! Records on the wire: a sequence of typed fields, each of which says how
//! long it is, so that a reader knows where the next one begins.

use vstd::prelude::*;
use crate::moq_protocol::names::texts;
use crate::moq_protocol::object::copy_bytes;
use crate::moq_protocol::object::copy_strings;
use crate::moq_protocol::object::extension_models;
use crate::moq_protocol::object::Extension;
use crate::wire::fits;
use crate::wire::lemma_parse_list_fails;
use crate::wire::lemma_parse_list_more;
use crate::wire::lemma_parse_put_blob;
use crate::wire::lemma_parse_put_list;
use crate::wire::lemma_parse_put_text;
use crate::wire::lemma_parse_put_u32;
use crate::wire::lemma_parse_put_u64;
use crate::wire::lemma_parse_put_u8;
use crate::wire::parse_blob;
use crate::wire::parse_list;
use crate::wire::parse_text;
use crate::wire::parse_u32;
use crate::wire::parse_u64;
use crate::wire::parse_u8;
use crate::wire::put_blob;
use crate::wire::put_list;
use crate::wire::put_text;
use crate::wire::put_u32;
use crate::wire::put_u64;
use crate::wire::put_u8;
use crate::wire::read_blob;
use crate::wire::read_text;
use crate::wire::read_texts;
use crate::wire::read_u32;
use crate::wire::read_u64;
use crate::wire::read_u8;
use crate::wire::text_fits;
use crate::wire::text_item;
use crate::wire::text_put;
use crate::wire::write_blob;
use crate::wire::write_text;
use crate::wire::write_u32;
use crate::wire::write_u64;
use crate::wire::write_u8;

verus! {

/// The types of fields.
#[derive(Debug, Clone, Copy, PartialEq, Eq, Structural)]
pub enum FieldKind {
    U8,
    U32,
    U64,
    OptU64,
    Text,
    OptText,
    Blob,
    Texts,
    Numbers,
    Pairs,
}

/// A field, as mathematical values.
pub enum Field {
    U8(u8),
    U32(u32),
    U64(u64),
    OptU64(Option<u64>),
    Text(Seq<char>),
    OptText(Option<Seq<char>>),
    Blob(Seq<u8>),
    Texts(Seq<Seq<char>>),
    Numbers(Seq<u32>),
    /// Keys with their values.
    Pairs(Seq<(Seq<char>, Seq<u8>)>),
}

/// The type of a field.
pub open spec fn kind_of(f: Field) -> FieldKind {
    match f {
        Field::U8(_) => FieldKind::U8,
        Field::U32(_) => FieldKind::U32,
        Field::U64(_) => FieldKind::U64,
        Field::OptU64(_) => FieldKind::OptU64,
        Field::Text(_) => FieldKind::Text,
        Field::OptText(_) => FieldKind::OptText,
        Field::Blob(_) => FieldKind::Blob,
        Field::Texts(_) => FieldKind::Texts,
        Field::Numbers(_) => FieldKind::Numbers,
        Field::Pairs(_) => FieldKind::Pairs,
    }
}

/// The types of the fields of a record.
pub open spec fn kinds_of(fields: Seq<Field>) -> Seq<FieldKind> {
    fields.map_values(|f: Field| kind_of(f))
}

/// A key and its value: the key as a text, the value as a byte string.
pub open spec fn put_pair(p: (Seq<char>, Seq<u8>)) -> Seq<u8> {
    put_text(p.0) + put_blob(p.1)
}

pub open spec fn parse_pair(data: Seq<u8>) -> Option<((Seq<char>, Seq<u8>), Seq<u8>)> {
    match parse_text(data) {
        Some((key, rest)) => match parse_blob(rest) {
            Some((value, rest)) => Some(((key, value), rest)),
            None => None,
        },
        None => None,
    }
}

pub open spec fn pair_put() -> spec_fn((Seq<char>, Seq<u8>)) -> Seq<u8> {
    |p: (Seq<char>, Seq<u8>)| put_pair(p)
}

pub open spec fn pair_item() -> spec_fn(Seq<u8>) -> Option<((Seq<char>, Seq<u8>), Seq<u8>)> {
    |data: Seq<u8>| parse_pair(data)
}

pub open spec fn number_put() -> spec_fn(u32) -> Seq<u8> {
    |n: u32| put_u32(n)
}

pub open spec fn number_item() -> spec_fn(Seq<u8>) -> Option<(u32, Seq<u8>)> {
    |data: Seq<u8>| parse_u32(data)
}

/// Whether a pair can be written: key and value are short enough for a
/// length of four bytes.
pub open spec fn pair_fits(p: (Seq<char>, Seq<u8>)) -> bool {
    text_fits(p.0) && p.1.len() <= u32::MAX
}

/// Whether a field can be written: every length in it fits four bytes.
pub open spec fn field_fits(f: Field) -> bool {
    match f {
        Field::Text(t) => text_fits(t),
        Field::OptText(Some(t)) => text_fits(t),
        Field::Blob(b) => b.len() <= u32::MAX,
        Field::Texts(all) => all.len() <= u32::MAX && forall|i: int|
            0 <= i < all.len() ==> text_fits(#[trigger] all[i]),
        Field::Numbers(all) => all.len() <= u32::MAX,
        Field::Pairs(all) => all.len() <= u32::MAX && forall|i: int|
            0 <= i < all.len() ==> pair_fits(#[trigger] all[i]),
        _ => true,
    }
}

/// The bytes of a field. A number is written in little-endian order; an
/// optional value as a zero byte, or a one and the value; a text or a byte
/// string behind its length; a list behind the number of its items.
pub open spec fn put_field(f: Field) -> Seq<u8> {
    match f {
        Field::U8(x) => put_u8(x),
        Field::U32(x) => put_u32(x),
        Field::U64(x) => put_u64(x),
        Field::OptU64(None) => put_u8(0),
        Field::OptU64(Some(x)) => put_u8(1) + put_u64(x),
        Field::Text(t) => put_text(t),
        Field::OptText(None) => put_u8(0),
        Field::OptText(Some(t)) => put_u8(1) + put_text(t),
        Field::Blob(b) => put_blob(b),
        Field::Texts(all) => put_u32(all.len() as u32) + put_list(all, text_put()),
        Field::Numbers(all) => put_u32(all.len() as u32) + put_list(all, number_put()),
        Field::Pairs(all) => put_u32(all.len() as u32) + put_list(all, pair_put()),
    }
}

/// The field of type `kind` that bytes begin with, and what follows it.
pub open spec fn parse_field(kind: FieldKind, data: Seq<u8>) -> Option<(Field, Seq<u8>)> {
    match kind {
        FieldKind::U8 => match parse_u8(data) {
            Some((x, rest)) => Some((Field::U8(x), rest)),
            None => None,
        },
        FieldKind::U32 => match parse_u32(data) {
            Some((x, rest)) => Some((Field::U32(x), rest)),
            None => None,
        },
        FieldKind::U64 => match parse_u64(data) {
            Some((x, rest)) => Some((Field::U64(x), rest)),
            None => None,
        },
        FieldKind::OptU64 => match parse_u8(data) {
            Some((flag, rest)) => if flag == 0 {
                Some((Field::OptU64(None), rest))
            } else if flag == 1 {
                match parse_u64(rest) {
                    Some((x, rest)) => Some((Field::OptU64(Some(x)), rest)),
                    None => None,
                }
            } else {
                None
            },
            None => None,
        },
        FieldKind::Text => match parse_text(data) {
            Some((t, rest)) => Some((Field::Text(t), rest)),
            None => None,
        },
        FieldKind::OptText => match parse_u8(data) {
            Some((flag, rest)) => if flag == 0 {
                Some((Field::OptText(None), rest))
            } else if flag == 1 {
                match parse_text(rest) {
                    Some((t, rest)) => Some((Field::OptText(Some(t)), rest)),
                    None => None,
                }
            } else {
                None
            },
            None => None,
        },
        FieldKind::Blob => match parse_blob(data) {
            Some((b, rest)) => Some((Field::Blob(b), rest)),
            None => None,
        },
        FieldKind::Texts => match parse_u32(data) {
            Some((n, rest)) => match parse_list(rest, n as nat, text_item()) {
                Some((all, rest)) => Some((Field::Texts(all), rest)),
                None => None,
            },
            None => None,
        },
        FieldKind::Numbers => match parse_u32(data) {
            Some((n, rest)) => match parse_list(rest, n as nat, number_item()) {
                Some((all, rest)) => Some((Field::Numbers(all), rest)),
                None => None,
            },
            None => None,
        },
        FieldKind::Pairs => match parse_u32(data) {
            Some((n, rest)) => match parse_list(rest, n as nat, pair_item()) {
                Some((all, rest)) => Some((Field::Pairs(all), rest)),
                None => None,
            },
            None => None,
        },
    }
}

/// A pair that is read back is the pair that was written.
pub proof fn lemma_pair_round_trip(p: (Seq<char>, Seq<u8>), rest: Seq<u8>)
    requires
        pair_fits(p),
    ensures
        parse_pair(put_pair(p) + rest) == Some((p, rest)),
{
    let r1 = put_blob(p.1) + rest;
    assert(put_pair(p) + rest =~= put_text(p.0) + r1);
    lemma_parse_put_text(p.0, r1);
    lemma_parse_put_blob(p.1, rest);
}

/// A field that is read back as its type is the field that was written,
/// and what followed it follows it.
pub proof fn lemma_field_round_trip(f: Field, rest: Seq<u8>)
    requires
        field_fits(f),
    ensures
        parse_field(kind_of(f), put_field(f) + rest) == Some((f, rest)),
{
    match f {
        Field::U8(x) => {
            lemma_parse_put_u8(x, rest);
        },
        Field::U32(x) => {
            lemma_parse_put_u32(x, rest);
        },
        Field::U64(x) => {
            lemma_parse_put_u64(x, rest);
        },
        Field::OptU64(None) => {
            lemma_parse_put_u8(0, rest);
        },
        Field::OptU64(Some(x)) => {
            let r1 = put_u64(x) + rest;
            assert(put_field(f) + rest =~= put_u8(1) + r1);
            lemma_parse_put_u8(1, r1);
            lemma_parse_put_u64(x, rest);
        },
        Field::Text(t) => {
            lemma_parse_put_text(t, rest);
        },
        Field::OptText(None) => {
            lemma_parse_put_u8(0, rest);
        },
        Field::OptText(Some(t)) => {
            let r1 = put_text(t) + rest;
            assert(put_field(f) + rest =~= put_u8(1) + r1);
            lemma_parse_put_u8(1, r1);
            lemma_parse_put_text(t, rest);
        },
        Field::Blob(b) => {
            lemma_parse_put_blob(b, rest);
        },
        Field::Texts(all) => {
            let r1 = put_list(all, text_put()) + rest;
            assert(put_field(f) + rest =~= put_u32(all.len() as u32) + r1);
            lemma_parse_put_u32(all.len() as u32, r1);
            assert forall|i: int, after: Seq<u8>| 0 <= i < all.len() implies #[trigger] text_item()(
                text_put()(all[i]) + after,
            ) == Some((all[i], after)) by {
                lemma_parse_put_text(all[i], after);
            }
            lemma_parse_put_list(all, text_put(), text_item(), rest);
        },
        Field::Numbers(all) => {
            let r1 = put_list(all, number_put()) + rest;
            assert(put_field(f) + rest =~= put_u32(all.len() as u32) + r1);
            lemma_parse_put_u32(all.len() as u32, r1);
            assert forall|i: int, after: Seq<u8>| 0 <= i < all.len() implies #[trigger] number_item()(
                number_put()(all[i]) + after,
            ) == Some((all[i], after)) by {
                lemma_parse_put_u32(all[i], after);
            }
            lemma_parse_put_list(all, number_put(), number_item(), rest);
        },
        Field::Pairs(all) => {
            let r1 = put_list(all, pair_put()) + rest;
            assert(put_field(f) + rest =~= put_u32(all.len() as u32) + r1);
            lemma_parse_put_u32(all.len() as u32, r1);
            assert forall|i: int, after: Seq<u8>| 0 <= i < all.len() implies #[trigger] pair_item()(
                pair_put()(all[i]) + after,
            ) == Some((all[i], after)) by {
                lemma_pair_round_trip(all[i], after);
            }
            lemma_parse_put_list(all, pair_put(), pair_item(), rest);
        },
    }
}

/// Whether every field of a record can be written.
pub open spec fn fields_fit(fields: Seq<Field>) -> bool {
    forall|i: int| 0 <= i < fields.len() ==> field_fits(#[trigger] fields[i])
}

/// The bytes of a record: its fields one after the other.
pub open spec fn put_fields(fields: Seq<Field>) -> Seq<u8>
    decreases fields.len(),
{
    if fields.len() == 0 {
        Seq::empty()
    } else {
        put_fields(fields.drop_last()) + put_field(fields.last())
    }
}

/// The fields of the types `kinds` that bytes begin with, and what follows
/// them.
pub open spec fn parse_fields(kinds: Seq<FieldKind>, data: Seq<u8>) -> Option<(Seq<Field>, Seq<u8>)>
    decreases kinds.len(),
{
    if kinds.len() == 0 {
        Some((Seq::empty(), data))
    } else {
        match parse_fields(kinds.drop_last(), data) {
            Some((fields, rest)) => match parse_field(kinds.last(), rest) {
                Some((f, rest)) => Some((fields.push(f), rest)),
                None => None,
            },
            None => None,
        }
    }
}

/// A record that is read back by the types of its fields is the record
/// that was written, and what followed it follows it.
pub proof fn lemma_fields_round_trip(fields: Seq<Field>, rest: Seq<u8>)
    requires
        fields_fit(fields),
    ensures
        parse_fields(kinds_of(fields), put_fields(fields) + rest) == Some((fields, rest)),
    decreases fields.len(),
{
    if fields.len() == 0 {
        assert(put_fields(fields) + rest =~= rest);
        assert(fields =~= Seq::<Field>::empty());
    } else {
        let init = fields.drop_last();
        let last = fields.last();
        let r1 = put_field(last) + rest;
        assert(put_fields(fields) + rest =~= put_fields(init) + r1);
        assert(kinds_of(fields).drop_last() =~= kinds_of(init));
        assert(kinds_of(fields).last() == kind_of(last));
        lemma_fields_round_trip(init, r1);
        lemma_field_round_trip(last, rest);
        assert(init.push(last) =~= fields);
    }
}

/// A field, as it is held in memory.
#[derive(Debug, Clone)]
pub enum Value {
    U8(u8),
    U32(u32),
    U64(u64),
    OptU64(Option<u64>),
    Text(String),
    OptText(Option<String>),
    Blob(Vec<u8>),
    Texts(Vec<String>),
    Numbers(Vec<u32>),
    Pairs(Vec<Extension>),
}

impl View for Value {
    type V = Field;

    open spec fn view(&self) -> Field {
        match self {
            Value::U8(x) => Field::U8(*x),
            Value::U32(x) => Field::U32(*x),
            Value::U64(x) => Field::U64(*x),
            Value::OptU64(x) => Field::OptU64(*x),
            Value::Text(t) => Field::Text(t@),
            Value::OptText(Some(t)) => Field::OptText(Some(t@)),
            Value::OptText(None) => Field::OptText(None),
            Value::Blob(b) => Field::Blob(b@),
            Value::Texts(all) => Field::Texts(texts(all@)),
            Value::Numbers(all) => Field::Numbers(all@),
            Value::Pairs(all) => Field::Pairs(extension_models(all@)),
        }
    }
}

/// What each value of `values` is.
pub open spec fn fields(values: Seq<Value>) -> Seq<Field> {
    values.map_values(|v: Value| v@)
}

/// Whether every text of `all` can be written.
fn texts_fit(all: &Vec<String>) -> (b: bool)
    ensures
        b == forall|i: int| 0 <= i < all@.len() ==> text_fits(#[trigger] texts(all@)[i]),
{
    let mut i: usize = 0;
    while i < all.len()
        invariant
            0 <= i <= all@.len(),
            forall|k: int| 0 <= k < i ==> text_fits(#[trigger] texts(all@)[k]),
        decreases all@.len() - i,
    {
        if !fits(all[i].as_str()) {
            assert(!text_fits(texts(all@)[i as int]));
            return false;
        }
        i = i + 1;
    }
    true
}

/// Whether every pair of `all` can be written.
fn pairs_fit(all: &Vec<Extension>) -> (b: bool)
    ensures
        b == forall|i: int| 0 <= i < all@.len() ==> pair_fits(#[trigger] extension_models(all@)[i]),
{
    let mut i: usize = 0;
    while i < all.len()
        invariant
            0 <= i <= all@.len(),
            forall|k: int| 0 <= k < i ==> pair_fits(#[trigger] extension_models(all@)[k]),
        decreases all@.len() - i,
    {
        if !fits(all[i].key.as_str()) || all[i].value.len() > u32::MAX as usize {
            assert(!pair_fits(extension_models(all@)[i as int]));
            return false;
        }
        i = i + 1;
    }
    true
}

impl Value {
    /// Whether the value can be written.
    pub fn fits_wire(&self) -> (b: bool)
        ensures
            b == field_fits(self@),
    {
        match self {
            Value::Text(t) => fits(t.as_str()),
            Value::OptText(Some(t)) => fits(t.as_str()),
            Value::Blob(b) => b.len() <= u32::MAX as usize,
            Value::Texts(all) => all.len() <= u32::MAX as usize && texts_fit(all),
            Value::Numbers(all) => all.len() <= u32::MAX as usize,
            Value::Pairs(all) => all.len() <= u32::MAX as usize && pairs_fit(all),
            _ => true,
        }
    }

    /// Appends the bytes of the value to `out`.
    pub fn write(&self, out: &mut Vec<u8>)
        requires
            field_fits(self@),
        ensures
            final(out)@ == old(out)@ + put_field(self@),
    {
        match self {
            Value::U8(x) => write_u8(out, *x),
            Value::U32(x) => write_u32(out, *x),
            Value::U64(x) => write_u64(out, *x),
            Value::OptU64(None) => write_u8(out, 0),
            Value::OptU64(Some(x)) => {
                write_u8(out, 1);
                write_u64(out, *x);
                proof {
                    assert(out@ =~= old(out)@ + (put_u8(1) + put_u64(*x)));
                }
            },
            Value::Text(t) => write_text(out, t.as_str()),
            Value::OptText(None) => write_u8(out, 0),
            Value::OptText(Some(t)) => {
                write_u8(out, 1);
                write_text(out, t.as_str());
                proof {
                    assert(out@ =~= old(out)@ + (put_u8(1) + put_text(t@)));
                }
            },
            Value::Blob(b) => write_blob(out, b.as_slice()),
            Value::Texts(all) => {
                write_u32(out, all.len() as u32);
                let ghost head = out@;
                let ghost items = texts(all@);
                let mut i: usize = 0;
                proof {
                    assert(items.take(0) =~= Seq::<Seq<char>>::empty());
                    assert(out@ =~= head + put_list(items.take(0), text_put()));
                }
                while i < all.len()
                    invariant
                        items == texts(all@),
                        forall|k: int| 0 <= k < items.len() ==> text_fits(#[trigger] items[k]),
                        0 <= i <= all@.len(),
                        out@ == head + put_list(items.take(i as int), text_put()),
                    decreases all@.len() - i,
                {
                    proof {
                        assert(text_fits(items[i as int]));
                        assert(items.take(i + 1).drop_last() =~= items.take(i as int));
                        assert(items.take(i + 1).last() == all@[i as int]@);
                    }
                    write_text(out, all[i].as_str());
                    proof {
                        assert(out@ =~= head + put_list(items.take(i + 1), text_put()));
                    }
                    i = i + 1;
                }
                proof {
                    assert(items.take(all@.len() as int) =~= items);
                    assert(out@ =~= old(out)@ + put_field(self@));
                }
            },
            Value::Numbers(all) => {
                write_u32(out, all.len() as u32);
                let ghost head = out@;
                let mut i: usize = 0;
                proof {
                    assert(all@.take(0) =~= Seq::<u32>::empty());
                    assert(out@ =~= head + put_list(all@.take(0), number_put()));
                }
                while i < all.len()
                    invariant
                        0 <= i <= all@.len(),
                        out@ == head + put_list(all@.take(i as int), number_put()),
                    decreases all@.len() - i,
                {
                    proof {
                        assert(all@.take(i + 1).drop_last() =~= all@.take(i as int));
                        assert(all@.take(i + 1).last() == all@[i as int]);
                    }
                    write_u32(out, all[i]);
                    proof {
                        assert(out@ =~= head + put_list(all@.take(i + 1), number_put()));
                    }
                    i = i + 1;
                }
                proof {
                    assert(all@.take(all@.len() as int) =~= all@);
                    assert(out@ =~= old(out)@ + put_field(self@));
                }
            },
            Value::Pairs(all) => {
                write_u32(out, all.len() as u32);
                let ghost head = out@;
                let ghost items = extension_models(all@);
                let mut i: usize = 0;
                proof {
                    assert(items.take(0) =~= Seq::<(Seq<char>, Seq<u8>)>::empty());
                    assert(out@ =~= head + put_list(items.take(0), pair_put()));
                }
                while i < all.len()
                    invariant
                        items == extension_models(all@),
                        forall|k: int| 0 <= k < items.len() ==> pair_fits(#[trigger] items[k]),
                        0 <= i <= all@.len(),
                        out@ == head + put_list(items.take(i as int), pair_put()),
                    decreases all@.len() - i,
                {
                    let ghost before = out@;
                    proof {
                        assert(pair_fits(items[i as int]));
                        assert(items.take(i + 1).drop_last() =~= items.take(i as int));
                        assert(items.take(i + 1).last() == (all@[i as int].key@, all@[i as int].value@));
                    }
                    write_text(out, all[i].key.as_str());
                    write_blob(out, all[i].value.as_slice());
                    proof {
                        assert(out@ =~= before + put_pair(items[i as int]));
                        assert(out@ =~= head + put_list(items.take(i + 1), pair_put()));
                    }
                    i = i + 1;
                }
                proof {
                    assert(items.take(all@.len() as int) =~= items);
                    assert(out@ =~= old(out)@ + put_field(self@));
                }
            },
        }
    }
}

/// Reads `count` numbers at `pos`.
fn read_numbers(data: &[u8], pos: usize, count: u32) -> (r: Option<(Vec<u32>, usize)>)
    requires
        pos <= data@.len(),
    ensures
        match r {
            Some((items, next)) => pos <= next <= data@.len() && parse_list(
                data@.skip(pos as int),
                count as nat,
                number_item(),
            ) == Some((items@, data@.skip(next as int))),
            None => parse_list(data@.skip(pos as int), count as nat, number_item()) is None,
        },
{
    let ghost start = data@.skip(pos as int);
    let mut items: Vec<u32> = Vec::new();
    let mut at = pos;
    let mut i: u32 = 0;
    while i < count
        invariant
            start == data@.skip(pos as int),
            pos <= at <= data@.len(),
            0 <= i <= count,
            parse_list(start, i as nat, number_item()) == Some((items@, data@.skip(at as int))),
        decreases count - i,
    {
        proof {
            lemma_parse_list_more(start, i as nat, number_item());
        }
        match read_u32(data, at) {
            Some((n, next)) => {
                items.push(n);
                at = next;
            },
            None => {
                proof {
                    lemma_parse_list_fails(start, i as nat, count as nat, number_item());
                }
                return None;
            },
        }
        i = i + 1;
    }
    Some((items, at))
}

/// Reads `count` pairs at `pos`.
fn read_pairs(data: &[u8], pos: usize, count: u32) -> (r: Option<(Vec<Extension>, usize)>)
    requires
        pos <= data@.len(),
    ensures
        match r {
            Some((items, next)) => pos <= next <= data@.len() && parse_list(
                data@.skip(pos as int),
                count as nat,
                pair_item(),
            ) == Some((extension_models(items@), data@.skip(next as int))),
            None => parse_list(data@.skip(pos as int), count as nat, pair_item()) is None,
        },
{
    let ghost start = data@.skip(pos as int);
    let mut items: Vec<Extension> = Vec::new();
    let mut at = pos;
    let mut i: u32 = 0;
    proof {
        assert(extension_models(items@) =~= Seq::<(Seq<char>, Seq<u8>)>::empty());
    }
    while i < count
        invariant
            start == data@.skip(pos as int),
            pos <= at <= data@.len(),
            0 <= i <= count,
            parse_list(start, i as nat, pair_item()) == Some(
                (extension_models(items@), data@.skip(at as int)),
            ),
        decreases count - i,
    {
        proof {
            lemma_parse_list_more(start, i as nat, pair_item());
        }
        let pair = match read_text(data, at) {
            Some((key, mid)) => match read_blob(data, mid) {
                Some((value, next)) => Some((Extension { key, value: vstd::slice::slice_to_vec(value) }, next)),
                None => None,
            },
            None => None,
        };
        match pair {
            Some((e, next)) => {
                proof {
                    assert(extension_models(items@.push(e)) =~= extension_models(items@).push(
                        (e.key@, e.value@),
                    ));
                }
                items.push(e);
                at = next;
            },
            None => {
                proof {
                    lemma_parse_list_fails(start, i as nat, count as nat, pair_item());
                }
                return None;
            },
        }
        i = i + 1;
    }
    Some((items, at))
}

/// Reads a field of type `kind` at `pos`.
pub fn read_value(data: &[u8], pos: usize, kind: FieldKind) -> (r: Option<(Value, usize)>)
    requires
        pos <= data@.len(),
    ensures
        match r {
            Some((v, next)) => pos <= next <= data@.len() && parse_field(kind, data@.skip(pos as int))
                == Some((v@, data@.skip(next as int))),
            None => parse_field(kind, data@.skip(pos as int)) is None,
        },
{
    match kind {
        FieldKind::U8 => match read_u8(data, pos) {
            Some((x, next)) => Some((Value::U8(x), next)),
            None => None,
        },
        FieldKind::U32 => match read_u32(data, pos) {
            Some((x, next)) => Some((Value::U32(x), next)),
            None => None,
        },
        FieldKind::U64 => match read_u64(data, pos) {
            Some((x, next)) => Some((Value::U64(x), next)),
            None => None,
        },
        FieldKind::OptU64 => match read_u8(data, pos) {
            Some((flag, mid)) => if flag == 0 {
                Some((Value::OptU64(None), mid))
            } else if flag == 1 {
                match read_u64(data, mid) {
                    Some((x, next)) => Some((Value::OptU64(Some(x)), next)),
                    None => None,
                }
            } else {
                None
            },
            None => None,
        },
        FieldKind::Text => match read_text(data, pos) {
            Some((t, next)) => Some((Value::Text(t), next)),
            None => None,
        },
        FieldKind::OptText => match read_u8(data, pos) {
            Some((flag, mid)) => if flag == 0 {
                Some((Value::OptText(None), mid))
            } else if flag == 1 {
                match read_text(data, mid) {
                    Some((t, next)) => Some((Value::OptText(Some(t)), next)),
                    None => None,
                }
            } else {
                None
            },
            None => None,
        },
        FieldKind::Blob => match read_blob(data, pos) {
            Some((b, next)) => Some((Value::Blob(vstd::slice::slice_to_vec(b)), next)),
            None => None,
        },
        FieldKind::Texts => match read_u32(data, pos) {
            Some((n, mid)) => match read_texts(data, mid, n) {
                Some((all, next)) => Some((Value::Texts(all), next)),
                None => None,
            },
            None => None,
        },
        FieldKind::Numbers => match read_u32(data, pos) {
            Some((n, mid)) => match read_numbers(data, mid, n) {
                Some((all, next)) => Some((Value::Numbers(all), next)),
                None => None,
            },
            None => None,
        },
        FieldKind::Pairs => match read_u32(data, pos) {
            Some((n, mid)) => match read_pairs(data, mid, n) {
                Some((all, next)) => Some((Value::Pairs(all), next)),
                None => None,
            },
            None => None,
        },
    }
}

/// Whether every value of `values` can be written.
pub fn values_fit(values: &Vec<Value>) -> (b: bool)
    ensures
        b == fields_fit(fields(values@)),
{
    let mut i: usize = 0;
    while i < values.len()
        invariant
            0 <= i <= values@.len(),
            forall|k: int| 0 <= k < i ==> field_fits(#[trigger] fields(values@)[k]),
        decreases values@.len() - i,
    {
        if !values[i].fits_wire() {
            assert(!field_fits(fields(values@)[i as int]));
            return false;
        }
        i = i + 1;
    }
    true
}

/// Appends the bytes of the record `values` to `out`.
pub fn write_values(out: &mut Vec<u8>, values: &Vec<Value>)
    requires
        fields_fit(fields(values@)),
    ensures
        final(out)@ == old(out)@ + put_fields(fields(values@)),
{
    let ghost all = fields(values@);
    let mut i: usize = 0;
    proof {
        assert(all.take(0) =~= Seq::<Field>::empty());
        assert(out@ =~= old(out)@ + put_fields(all.take(0)));
    }
    while i < values.len()
        invariant
            all == fields(values@),
            fields_fit(all),
            0 <= i <= values@.len(),
            out@ == old(out)@ + put_fields(all.take(i as int)),
        decreases values@.len() - i,
    {
        proof {
            assert(field_fits(all[i as int]));
            assert(all.take(i + 1).drop_last() =~= all.take(i as int));
            assert(all.take(i + 1).last() == values@[i as int]@);
        }
        values[i].write(out);
        proof {
            assert(out@ =~= old(out)@ + put_fields(all.take(i + 1)));
        }
        i = i + 1;
    }
    proof {
        assert(all.take(values@.len() as int) =~= all);
    }
}

/// Reads a record with fields of the types `kinds` at `pos`.
pub fn read_values(data: &[u8], pos: usize, kinds: &Vec<FieldKind>) -> (r: Option<(Vec<Value>, usize)>)
    requires
        pos <= data@.len(),
    ensures
        match r {
            Some((values, next)) => pos <= next <= data@.len() && parse_fields(
                kinds@,
                data@.skip(pos as int),
            ) == Some((fields(values@), data@.skip(next as int))),
            None => parse_fields(kinds@, data@.skip(pos as int)) is None,
        },
{
    let ghost start = data@.skip(pos as int);
    let mut values: Vec<Value> = Vec::new();
    let mut at = pos;
    let mut i: usize = 0;
    proof {
        assert(kinds@.take(0) =~= Seq::<FieldKind>::empty());
        assert(fields(values@) =~= Seq::<Field>::empty());
    }
    while i < kinds.len()
        invariant
            start == data@.skip(pos as int),
            pos <= at <= data@.len(),
            0 <= i <= kinds@.len(),
            parse_fields(kinds@.take(i as int), start) == Some((fields(values@), data@.skip(at as int))),
        decreases kinds@.len() - i,
    {
        proof {
            assert(kinds@.take(i + 1).drop_last() =~= kinds@.take(i as int));
            assert(kinds@.take(i + 1).last() == kinds@[i as int]);
        }
        match read_value(data, at, kinds[i]) {
            Some((v, next)) => {
                proof {
                    assert(fields(values@.push(v)) =~= fields(values@).push(v@));
                }
                values.push(v);
                at = next;
            },
            None => {
                proof {
                    lemma_parse_fields_fails(kinds@, i as int, start);
                }
                return None;
            },
        }
        i = i + 1;
    }
    proof {
        assert(kinds@.take(kinds@.len() as int) =~= kinds@);
    }
    Some((values, at))
}

/// Once the first fields of a record cannot be read, the record cannot be
/// read.
pub proof fn lemma_parse_fields_fails(kinds: Seq<FieldKind>, done: int, data: Seq<u8>)
    requires
        0 <= done < kinds.len(),
        parse_fields(kinds.take(done + 1), data) is None,
    ensures
        parse_fields(kinds, data) is None,
    decreases kinds.len() - done,
{
    if done + 1 < kinds.len() {
        assert(kinds.take(done + 2).drop_last() =~= kinds.take(done + 1));
        lemma_parse_fields_fails(kinds, done + 1, data);
    } else {
        assert(kinds.take(done + 1) =~= kinds);
    }
}

/// The fields that are read by types have those types.
pub proof fn lemma_parsed_kinds(kinds: Seq<FieldKind>, data: Seq<u8>)
    ensures
        parse_fields(kinds, data) matches Some((all, _)) ==> kinds_of(all) == kinds,
    decreases kinds.len(),
{
    if kinds.len() > 0 {
        lemma_parsed_kinds(kinds.drop_last(), data);
        match parse_fields(kinds.drop_last(), data) {
            Some((all, rest)) => {
                match parse_field(kinds.last(), rest) {
                    Some((f, after)) => {
                        assert(kinds_of(all.push(f)) =~= kinds_of(all).push(kind_of(f)));
                        assert(kinds.drop_last().push(kinds.last()) =~= kinds);
                    },
                    None => {},
                }
            },
            None => {},
        }
    } else {
        assert(kinds_of(Seq::<Field>::empty()) =~= kinds);
    }
}

/// A copy of `v` with the same keys and values.
pub fn copy_extensions(v: &Vec<Extension>) -> (r: Vec<Extension>)
    ensures
        extension_models(r@) == extension_models(v@),
{
    let mut r: Vec<Extension> = Vec::new();
    let mut i: usize = 0;
    proof {
        assert(extension_models(r@) =~= extension_models(v@).take(0));
    }
    while i < v.len()
        invariant
            0 <= i <= v@.len(),
            extension_models(r@) == extension_models(v@).take(i as int),
        decreases v@.len() - i,
    {
        let e = Extension { key: v[i].key.clone(), value: copy_bytes(&v[i].value) };
        proof {
            let all = extension_models(v@);
            assert(all.take(i + 1) =~= all.take(i as int).push(all[i as int]));
            assert(extension_models(r@.push(e)) =~= extension_models(r@).push((e.key@, e.value@)));
        }
        r.push(e);
        i = i + 1;
    }
    proof {
        assert(extension_models(v@).take(v@.len() as int) =~= extension_models(v@));
    }
    r
}

/// A copy of `v`.
pub fn copy_numbers(v: &Vec<u32>) -> (r: Vec<u32>)
    ensures
        r@ == v@,
{
    let mut r: Vec<u32> = Vec::new();
    let mut i: usize = 0;
    while i < v.len()
        invariant
            0 <= i <= v@.len(),
            r@ == v@.take(i as int),
        decreases v@.len() - i,
    {
        r.push(v[i]);
        proof {
            assert(r@ =~= v@.take(i + 1));
        }
        i = i + 1;
    }
    proof {
        assert(v@.take(v@.len() as int) =~= v@);
    }
    r
}

/// Appends a value to a record.
pub fn push_value(values: &mut Vec<Value>, v: Value)
    ensures
        fields(final(values)@) == fields(old(values)@).push(v@),
{
    let ghost before = values@;
    values.push(v);
    proof {
        assert(fields(values@) =~= fields(before).push(v@));
    }
}

pub fn u8_at(values: &Vec<Value>, i: usize) -> (x: u8)
    requires
        i < values@.len(),
        kind_of(fields(values@)[i as int]) == FieldKind::U8,
    ensures
        fields(values@)[i as int] == Field::U8(x),
{
    match &values[i] {
        Value::U8(x) => *x,
        _ => 0,
    }
}

pub fn u32_at(values: &Vec<Value>, i: usize) -> (x: u32)
    requires
        i < values@.len(),
        kind_of(fields(values@)[i as int]) == FieldKind::U32,
    ensures
        fields(values@)[i as int] == Field::U32(x),
{
    match &values[i] {
        Value::U32(x) => *x,
        _ => 0,
    }
}

pub fn u64_at(values: &Vec<Value>, i: usize) -> (x: u64)
    requires
        i < values@.len(),
        kind_of(fields(values@)[i as int]) == FieldKind::U64,
    ensures
        fields(values@)[i as int] == Field::U64(x),
{
    match &values[i] {
        Value::U64(x) => *x,
        _ => 0,
    }
}

pub fn opt_u64_at(values: &Vec<Value>, i: usize) -> (x: Option<u64>)
    requires
        i < values@.len(),
        kind_of(fields(values@)[i as int]) == FieldKind::OptU64,
    ensures
        fields(values@)[i as int] == Field::OptU64(x),
{
    match &values[i] {
        Value::OptU64(x) => *x,
        _ => None,
    }
}

pub fn text_at(values: &Vec<Value>, i: usize) -> (t: String)
    requires
        i < values@.len(),
        kind_of(fields(values@)[i as int]) == FieldKind::Text,
    ensures
        fields(values@)[i as int] == Field::Text(t@),
{
    match &values[i] {
        Value::Text(t) => t.clone(),
        _ => String::new(),
    }
}

pub fn opt_text_at(values: &Vec<Value>, i: usize) -> (t: Option<String>)
    requires
        i < values@.len(),
        kind_of(fields(values@)[i as int]) == FieldKind::OptText,
    ensures
        fields(values@)[i as int] == Field::OptText(
            match t {
                Some(text) => Some(text@),
                None => None,
            },
        ),
{
    match &values[i] {
        Value::OptText(Some(t)) => Some(t.clone()),
        _ => None,
    }
}

pub fn blob_at(values: &Vec<Value>, i: usize) -> (b: Vec<u8>)
    requires
        i < values@.len(),
        kind_of(fields(values@)[i as int]) == FieldKind::Blob,
    ensures
        fields(values@)[i as int] == Field::Blob(b@),
{
    match &values[i] {
        Value::Blob(b) => copy_bytes(b),
        _ => Vec::new(),
    }
}

pub fn texts_at(values: &Vec<Value>, i: usize) -> (all: Vec<String>)
    requires
        i < values@.len(),
        kind_of(fields(values@)[i as int]) == FieldKind::Texts,
    ensures
        fields(values@)[i as int] == Field::Texts(texts(all@)),
{
    match &values[i] {
        Value::Texts(all) => copy_strings(all),
        _ => Vec::new(),
    }
}

pub fn numbers_at(values: &Vec<Value>, i: usize) -> (all: Vec<u32>)
    requires
        i < values@.len(),
        kind_of(fields(values@)[i as int]) == FieldKind::Numbers,
    ensures
        fields(values@)[i as int] == Field::Numbers(all@),
{
    match &values[i] {
        Value::Numbers(all) => copy_numbers(all),
        _ => Vec::new(),
    }
}

pub fn pairs_at(values: &Vec<Value>, i: usize) -> (all: Vec<Extension>)
    requires
        i < values@.len(),
        kind_of(fields(values@)[i as int]) == FieldKind::Pairs,
    ensures
        fields(values@)[i as int] == Field::Pairs(extension_models(all@)),
{
    match &values[i] {
        Value::Pairs(all) => copy_extensions(all),
        _ => Vec::new(),
    }
}

/// Whether the fields from `at` on have the types `kinds`.
pub open spec fn typed(all: Seq<Field>, at: int, kinds: Seq<FieldKind>) -> bool {
    at >= 0 && at + kinds.len() <= all.len() && forall|k: int|
        0 <= k < kinds.len() ==> kind_of(#[trigger] all[at + k]) == kinds[k]
}

/// Fields of given types have those types one by one.
pub proof fn lemma_typed(all: Seq<Field>, kinds: Seq<FieldKind>)
    requires
        kinds_of(all) == kinds,
    ensures
        all.len() == kinds.len(),
        forall|k: int| 0 <= k < all.len() ==> kind_of(#[trigger] all[k]) == kinds[k],
{
    assert forall|k: int| 0 <= k < all.len() implies kind_of(#[trigger] all[k]) == kinds[k] by {
        assert(kinds_of(all)[k] == kind_of(all[k]));
    }
}

} // verus!

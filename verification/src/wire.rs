//! Fields on the wire: a tag, and after it a number or a run of bytes with its
//! length in front. This module says what a field's bytes are, how a run of
//! fields is read back into a record, and holds the readers and writers that
//! every message of the protocol is built from.

use crate::varint::{
    lemma_fits, lemma_parse_encoded, lemma_parse_width, lemma_varint_len, parse_varint32,
    parse_varint64, put_varint32, put_varint64, read_varint32, read_varint64, varint_bytes,
};
use vstd::prelude::*;
use vstd::slice::*;
use vstd::string::*;
use vstd::utf8::*;

verus! {

/// How the value behind a tag is read.
#[derive(Clone, Copy, Debug, PartialEq, Eq)]
pub enum FieldKind {
    /// An unsigned number of at most 32 bits.
    U32,
    /// A signed 32-bit number, written sign-extended to 64 bits.
    I32,
    /// A number that stands for `true` unless it is zero.
    Bool,
    /// Bytes, with a length of at most 32 bits in front.
    Bytes,
    /// A nested message, with a length of at most 64 bits in front.
    Message,
    /// A tag that the record does not know; the field is passed over.
    Unknown,
}

/// The value of one field, as read.
pub ghost enum FieldValue {
    Number(int),
    Bytes(Seq<u8>),
    Skipped,
}

/// The signed number that 64 bits `v` stand for.
pub open spec fn signed_of(v: nat) -> int {
    if v < 0x8000_0000_0000_0000 {
        v as int
    } else {
        v - 0x1_0000_0000_0000_0000
    }
}

/// The 64 bits that stand for the signed number `v`.
pub open spec fn bits_of(v: int) -> nat {
    if v >= 0 {
        v as nat
    } else {
        (v + 0x1_0000_0000_0000_0000) as nat
    }
}

/// The number of bytes that a field with an unknown tag takes at the front of
/// `data`, as `protobuf::rt::read_unknown_or_skip_group` finds it; `None`
/// where that function reports an error.
pub uninterp spec fn unknown_field_len(tag: u32, data: Seq<u8>) -> Option<nat>;

/// The value of a field of kind `kind` at the front of `s`, and the bytes it
/// takes. `None` where `s` does not hold such a value.
pub open spec fn field_value(tag: u32, kind: FieldKind, s: Seq<u8>) -> Option<(FieldValue, nat)> {
    match kind {
        FieldKind::U32 => match parse_varint32(s) {
            Some((v, n)) => Some((FieldValue::Number(v as int), n)),
            None => None,
        },
        FieldKind::I32 => match parse_varint64(s) {
            Some((v, n)) => if i32::MIN <= signed_of(v) <= i32::MAX {
                Some((FieldValue::Number(signed_of(v)), n))
            } else {
                None
            },
            None => None,
        },
        FieldKind::Bool => match parse_varint64(s) {
            Some((v, n)) => Some((FieldValue::Number(if v != 0 { 1int } else { 0int }), n)),
            None => None,
        },
        FieldKind::Bytes => match parse_varint32(s) {
            Some((len, n)) => if n + len <= s.len() {
                Some((FieldValue::Bytes(s.subrange(n as int, (n + len) as int)), n + len))
            } else {
                None
            },
            None => None,
        },
        FieldKind::Message => match parse_varint64(s) {
            Some((len, n)) => if n + len <= s.len() {
                Some((FieldValue::Bytes(s.subrange(n as int, (n + len) as int)), n + len))
            } else {
                None
            },
            None => None,
        },
        FieldKind::Unknown => match unknown_field_len(tag, s) {
            Some(n) => if n <= s.len() {
                Some((FieldValue::Skipped, n))
            } else {
                None
            },
            None => None,
        },
    }
}

/// A record's fields: how each tag's value is read, and what a value does to
/// the record read so far.
#[verifier::reject_recursive_types(A)]
pub ghost struct Schema<A> {
    pub kind_of: spec_fn(u32) -> FieldKind,
    pub apply: spec_fn(A, u32, FieldValue) -> Option<A>,
}

/// The record that results when the fields in `s` are applied to `acc`, one
/// after the other, until `s` is used up. `None` where a tag or a value cannot
/// be read, or the record refuses a value.
pub open spec fn merge<A>(s: Seq<u8>, schema: Schema<A>, acc: A) -> Option<A>
    decreases s.len(),
{
    if s.len() == 0 {
        Some(acc)
    } else {
        match parse_varint32(s) {
            None => None,
            Some((tag, n)) => {
                let kind = (schema.kind_of)(tag as u32);
                match field_value(tag as u32, kind, s.skip(n as int)) {
                    None => None,
                    Some((value, k)) => {
                        if 1 <= n && n + k <= s.len() {
                            match (schema.apply)(acc, tag as u32, value) {
                                Some(next) => merge(s.skip((n + k) as int), schema, next),
                                None => None,
                            }
                        } else {
                            None
                        }
                    },
                }
            },
        }
    }
}

/// A field that holds a number: the tag, and after it the number.
pub open spec fn number_field(tag: u32, v: nat) -> Seq<u8> {
    varint_bytes(tag as nat) + varint_bytes(v)
}

/// A field that holds bytes: the tag, the length, the bytes.
pub open spec fn bytes_field(tag: u32, b: Seq<u8>) -> Seq<u8> {
    varint_bytes(tag as nat) + varint_bytes(b.len()) + b
}

/// An unsigned field; zero is not written.
pub open spec fn u32_field(tag: u32, v: u32) -> Seq<u8> {
    if v == 0 {
        Seq::empty()
    } else {
        number_field(tag, v as nat)
    }
}

/// A signed field; zero is not written.
pub open spec fn i32_field(tag: u32, v: i32) -> Seq<u8> {
    if v == 0 {
        Seq::empty()
    } else {
        number_field(tag, bits_of(v as int))
    }
}

/// A flag; `false` is not written.
pub open spec fn bool_field(tag: u32, v: bool) -> Seq<u8> {
    if v {
        number_field(tag, 1)
    } else {
        Seq::empty()
    }
}

/// A field of raw bytes; an empty run is not written.
pub open spec fn blob_field(tag: u32, b: Seq<u8>) -> Seq<u8> {
    if b.len() == 0 {
        Seq::empty()
    } else {
        bytes_field(tag, b)
    }
}

/// A text field, in UTF-8; an empty text is not written.
pub open spec fn string_field(tag: u32, s: Seq<char>) -> Seq<u8> {
    blob_field(tag, encode_utf8(s))
}

/// One step of [`merge`]: a tag read at `pos`, its value read at `at`, and the
/// rest of the fields from `next` on.
pub proof fn lemma_merge_step<A>(
    s: Seq<u8>,
    schema: Schema<A>,
    acc: A,
    pos: int,
    at: int,
    next: int,
    tag: u32,
    value: FieldValue,
)
    requires
        0 <= pos < at <= next <= s.len(),
        parse_varint32(s.skip(pos)) == Some((tag as nat, (at - pos) as nat)),
        field_value(tag, (schema.kind_of)(tag), s.skip(at)) == Some((value, (next - at) as nat)),
    ensures
        merge(s.skip(pos), schema, acc) == match (schema.apply)(acc, tag, value) {
            Some(a) => merge(s.skip(next), schema, a),
            None => None,
        },
{
    let t = s.skip(pos);
    assert(t.skip(at - pos) =~= s.skip(at));
    assert(t.skip((at - pos) + (next - at)) =~= s.skip(next));
}

/// Where the tag at `pos` cannot be read, or the value behind it, the fields
/// from `pos` on give no record.
pub proof fn lemma_merge_fails<A>(s: Seq<u8>, schema: Schema<A>, acc: A, pos: int, at: int, tag: u32)
    requires
        0 <= pos < s.len(),
        parse_varint32(s.skip(pos)) is None || (pos < at <= s.len() && parse_varint32(s.skip(pos))
            == Some((tag as nat, (at - pos) as nat)) && field_value(
            tag,
            (schema.kind_of)(tag),
            s.skip(at),
        ) is None),
    ensures
        merge(s.skip(pos), schema, acc) is None,
{
    let t = s.skip(pos);
    if parse_varint32(t) is Some {
        assert(t.skip(at - pos) =~= s.skip(at));
    }
}

/// A written number field, read back by a record that knows its tag as a
/// number of kind `kind`.
pub proof fn lemma_merge_number<A>(
    tag: u32,
    v: nat,
    kind: FieldKind,
    rest: Seq<u8>,
    schema: Schema<A>,
    acc: A,
)
    requires
        (schema.kind_of)(tag) == kind,
        kind == FieldKind::U32 && v <= u32::MAX || (kind == FieldKind::I32 || kind
            == FieldKind::Bool) && v <= u64::MAX,
        kind == FieldKind::I32 ==> i32::MIN <= signed_of(v) <= i32::MAX,
    ensures
        merge(number_field(tag, v) + rest, schema, acc) == match (schema.apply)(
            acc,
            tag,
            FieldValue::Number(
                if kind == FieldKind::U32 {
                    v as int
                } else if kind == FieldKind::I32 {
                    signed_of(v)
                } else if v != 0 {
                    1int
                } else {
                    0int
                },
            ),
        ) {
            Some(a) => merge(rest, schema, a),
            None => None,
        },
{
    let s = number_field(tag, v) + rest;
    let t = varint_bytes(tag as nat);
    let w = varint_bytes(v);
    lemma_fits(tag as nat);
    lemma_fits(v);
    lemma_varint_len(tag as nat);
    lemma_varint_len(v);
    assert(s =~= t + (w + rest));
    lemma_parse_encoded(tag as nat, w + rest, 5, 0x0f);
    assert(s.skip(t.len() as int) =~= w + rest);
    if kind == FieldKind::U32 {
        lemma_parse_encoded(v, rest, 5, 0x0f);
    } else {
        lemma_parse_encoded(v, rest, 10, 0x01);
    }
    assert(s.skip((t.len() + w.len()) as int) =~= rest);
}

/// A written bytes field, read back by a record that knows its tag as bytes
/// or as a nested message.
pub proof fn lemma_merge_bytes<A>(
    tag: u32,
    b: Seq<u8>,
    kind: FieldKind,
    rest: Seq<u8>,
    schema: Schema<A>,
    acc: A,
)
    requires
        (schema.kind_of)(tag) == kind,
        kind == FieldKind::Bytes && b.len() <= u32::MAX || kind == FieldKind::Message && b.len()
            <= u64::MAX,
    ensures
        merge(bytes_field(tag, b) + rest, schema, acc) == match (schema.apply)(
            acc,
            tag,
            FieldValue::Bytes(b),
        ) {
            Some(a) => merge(rest, schema, a),
            None => None,
        },
{
    let s = bytes_field(tag, b) + rest;
    let t = varint_bytes(tag as nat);
    let w = varint_bytes(b.len());
    lemma_fits(tag as nat);
    lemma_fits(b.len());
    lemma_varint_len(tag as nat);
    lemma_varint_len(b.len());
    assert(s =~= t + (w + (b + rest)));
    lemma_parse_encoded(tag as nat, w + (b + rest), 5, 0x0f);
    let u = s.skip(t.len() as int);
    assert(u =~= w + (b + rest));
    if kind == FieldKind::Bytes {
        lemma_parse_encoded(b.len(), b + rest, 5, 0x0f);
    } else {
        lemma_parse_encoded(b.len(), b + rest, 10, 0x01);
    }
    assert(u.subrange(w.len() as int, (w.len() + b.len()) as int) =~= b);
    assert(s.skip((t.len() + (w.len() + b.len())) as int) =~= rest);
}

/// One field as the readers hand it out: the tag, the number where the field
/// holds one, and where its bytes lie in the body that was read.
#[derive(Clone, Copy, Debug, PartialEq, Eq)]
pub struct RawField {
    pub tag: u32,
    pub number: i64,
    pub start: usize,
    pub end: usize,
    pub next: usize,
}

impl RawField {
    /// The value that this field stands for, read as `kind` from `body`.
    pub open spec fn value(self, kind: FieldKind, body: Seq<u8>) -> FieldValue {
        match kind {
            FieldKind::U32 | FieldKind::I32 | FieldKind::Bool => FieldValue::Number(
                self.number as int,
            ),
            FieldKind::Bytes | FieldKind::Message => FieldValue::Bytes(
                body.subrange(self.start as int, self.end as int),
            ),
            FieldKind::Unknown => FieldValue::Skipped,
        }
    }
}

/// Passes over a field whose tag the record does not know.
///
/// Trusted: calls `protobuf::rt::read_unknown_or_skip_group` on a
/// `CodedInputStream` over `data` and reports the stream's `pos`. The contract
/// names the result ([`unknown_field_len`]) and claims nothing else.
#[verifier::external_body]
pub(crate) fn skip_unknown_field(tag: u32, data: &[u8]) -> (r: Option<usize>)
    ensures
        r is Some <==> unknown_field_len(tag, data@) is Some,
        r matches Some(n) ==> unknown_field_len(tag, data@) == Some(n as nat),
{
    let mut input = protobuf::CodedInputStream::from_bytes(data);
    let mut unknown = protobuf::UnknownFields::new();
    match protobuf::rt::read_unknown_or_skip_group(tag, &mut input, &mut unknown) {
        Ok(()) => Some(input.pos() as usize),
        Err(_) => None,
    }
}

/// Reads `bytes` as UTF-8 text.
///
/// Trusted: calls `core::str::from_utf8`. The contract claims that the call
/// succeeds exactly on well-formed UTF-8 and returns the text that the bytes
/// encode.
#[verifier::external_body]
pub(crate) fn text_of(bytes: &[u8]) -> (r: Option<&str>)
    ensures
        r is Some <==> valid_utf8(bytes@),
        r matches Some(s) ==> s@ == decode_utf8(bytes@),
{
    core::str::from_utf8(bytes).ok()
}

/// The field with an unknown tag that stands at `at`, given the number of
/// bytes that passing over it took, if it could be passed over: it ends that
/// many bytes on. No field where it could not be passed over, or where it
/// would end behind `limit`.
pub fn skipped_field(tag: u32, at: usize, limit: usize, taken: Option<usize>) -> (r: Option<
    RawField,
>)
    ensures
        match taken {
            Some(n) => if at <= limit && n <= limit - at {
                r == Some(RawField { tag, number: 0, start: at, end: at, next: (at + n) as usize })
            } else {
                r is None
            },
            None => r is None,
        },
{
    match taken {
        Some(n) => {
            if at <= limit && n <= limit - at {
                Some(RawField { tag, number: 0, start: at, end: at, next: at + n })
            } else {
                None
            }
        },
        None => None,
    }
}

/// Reads the tag at `pos`.
pub fn read_tag(body: &[u8], pos: usize) -> (r: Option<(u32, usize)>)
    requires
        pos <= body@.len(),
    ensures
        r is Some <==> parse_varint32(body@.skip(pos as int)) is Some,
        r matches Some((tag, at)) ==> pos < at <= body@.len() && parse_varint32(
            body@.skip(pos as int),
        ) == Some((tag as nat, (at - pos) as nat)),
{
    let rest = slice_subrange(body, pos, body.len());
    proof {
        assert(rest@ =~= body@.skip(pos as int));
        lemma_parse_width(rest@);
    }
    match read_varint32(rest) {
        Some((tag, n)) => Some((tag, pos + n)),
        None => None,
    }
}

/// Reads, at `at`, the value of a field with tag `tag` and kind `kind`.
pub fn read_value(body: &[u8], at: usize, tag: u32, kind: FieldKind) -> (r: Option<RawField>)
    requires
        at <= body@.len(),
    ensures
        r is Some <==> field_value(tag, kind, body@.skip(at as int)) is Some,
        r matches Some(f) ==> f.tag == tag && at <= f.start <= f.end <= f.next <= body@.len()
            && field_value(tag, kind, body@.skip(at as int)) == Some(
            (f.value(kind, body@), (f.next - at) as nat),
        ),
{
    let rest = slice_subrange(body, at, body.len());
    proof {
        assert(rest@ =~= body@.skip(at as int));
        lemma_parse_width(rest@);
    }
    match kind {
        FieldKind::U32 => match read_varint32(rest) {
            Some((v, n)) => Some(
                RawField { tag, number: v as i64, start: at, end: at, next: at + n },
            ),
            None => None,
        },
        FieldKind::I32 => match read_varint64(rest) {
            Some((v, n)) => {
                if v <= 0x7fff_ffff {
                    Some(RawField { tag, number: v as i64, start: at, end: at, next: at + n })
                } else if v >= 0xffff_ffff_8000_0000 {
                    let below: i64 = (u64::MAX - v) as i64;
                    Some(RawField { tag, number: -below - 1, start: at, end: at, next: at + n })
                } else {
                    None
                }
            },
            None => None,
        },
        FieldKind::Bool => match read_varint64(rest) {
            Some((v, n)) => {
                let number: i64 = if v != 0 {
                    1
                } else {
                    0
                };
                Some(RawField { tag, number, start: at, end: at, next: at + n })
            },
            None => None,
        },
        FieldKind::Bytes => match read_varint32(rest) {
            Some((len, n)) => {
                if len as u64 <= (rest.len() - n) as u64 {
                    let start: usize = at + n;
                    let end: usize = start + len as usize;
                    proof {
                        assert(rest@.subrange(n as int, n + len) =~= body@.subrange(
                            start as int,
                            end as int,
                        ));
                    }
                    Some(RawField { tag, number: 0, start, end, next: end })
                } else {
                    None
                }
            },
            None => None,
        },
        FieldKind::Message => match read_varint64(rest) {
            Some((len, n)) => {
                if len <= (rest.len() - n) as u64 {
                    let start: usize = at + n;
                    let end: usize = start + len as usize;
                    proof {
                        assert(rest@.subrange(n as int, n + len) =~= body@.subrange(
                            start as int,
                            end as int,
                        ));
                    }
                    Some(RawField { tag, number: 0, start, end, next: end })
                } else {
                    None
                }
            },
            None => None,
        },
        FieldKind::Unknown => skipped_field(tag, at, body.len(), skip_unknown_field(tag, rest)),
    }
}

/// Appends a number field.
pub fn put_number_field(buf: &mut Vec<u8>, tag: u32, v: u64)
    ensures
        final(buf)@ == old(buf)@ + number_field(tag, v as nat),
{
    put_varint32(buf, tag);
    put_varint64(buf, v);
    proof {
        assert(buf@ =~= old(buf)@ + number_field(tag, v as nat));
    }
}

/// Appends a bytes field, whether or not `bytes` is empty.
pub fn put_bytes_field(buf: &mut Vec<u8>, tag: u32, bytes: &[u8])
    ensures
        final(buf)@ == old(buf)@ + bytes_field(tag, bytes@),
{
    put_varint32(buf, tag);
    put_varint64(buf, bytes.len() as u64);
    let ghost mid = buf@;
    buf.extend_from_slice(bytes);
    proof {
        assert(buf@ =~= mid + bytes@);
        assert(buf@ =~= old(buf)@ + bytes_field(tag, bytes@));
    }
}

/// Appends an unsigned field, unless it is zero.
pub fn put_u32(buf: &mut Vec<u8>, tag: u32, v: u32)
    ensures
        final(buf)@ == old(buf)@ + u32_field(tag, v),
{
    if v != 0 {
        put_number_field(buf, tag, v as u64);
    } else {
        proof {
            assert(buf@ =~= old(buf)@ + u32_field(tag, v));
        }
    }
}

/// Appends a signed field, unless it is zero.
pub fn put_i32(buf: &mut Vec<u8>, tag: u32, v: i32)
    ensures
        final(buf)@ == old(buf)@ + i32_field(tag, v),
{
    if v > 0 {
        put_number_field(buf, tag, v as u64);
    } else if v < 0 {
        let above: u64 = (-(v as i64)) as u64;
        put_number_field(buf, tag, u64::MAX - above + 1);
    } else {
        proof {
            assert(buf@ =~= old(buf)@ + i32_field(tag, v));
        }
    }
}

/// Appends a flag, unless it is `false`.
pub fn put_bool(buf: &mut Vec<u8>, tag: u32, v: bool)
    ensures
        final(buf)@ == old(buf)@ + bool_field(tag, v),
{
    if v {
        put_number_field(buf, tag, 1);
    } else {
        proof {
            assert(buf@ =~= old(buf)@ + bool_field(tag, v));
        }
    }
}

/// Appends a field of raw bytes, unless there are none.
pub fn put_blob(buf: &mut Vec<u8>, tag: u32, bytes: &[u8])
    ensures
        final(buf)@ == old(buf)@ + blob_field(tag, bytes@),
{
    if bytes.len() != 0 {
        put_bytes_field(buf, tag, bytes);
    } else {
        proof {
            assert(buf@ =~= old(buf)@ + blob_field(tag, bytes@));
        }
    }
}

/// Appends a text field, unless the text is empty.
pub fn put_string(buf: &mut Vec<u8>, tag: u32, s: &str)
    ensures
        final(buf)@ == old(buf)@ + string_field(tag, s@),
{
    put_blob(buf, tag, s.as_bytes());
}

} // verus!

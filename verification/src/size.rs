//! How long a message will be, found without writing it. A message is
//! measured before it is written, so that one that is too large costs
//! neither time nor memory.
//!
//! Lengths are counted up to one more than `MAX_MESSAGE_SIZE` and no further:
//! beyond that the answer is "too large", whatever the exact number.

use crate::message::{
    content_body, datetime_bytes, datetime_field, file_bytes, file_field, file_option_view,
    files_bytes, files_view, main_bytes, Content, File, FileView, Main, RtcDateTime,
    MAX_MESSAGE_SIZE, TAG_COMMAND_ID, TAG_COMMAND_STATUS, TAG_HAS_NEXT,
};
use crate::varint::{lemma_varint_len, varint_bytes};
use crate::wire::{
    blob_field, bool_field, bytes_field, i32_field, number_field, string_field, u32_field,
};
use vstd::prelude::*;
use vstd::string::*;

verus! {

/// The count at which measuring stops: one more than the largest body.
pub const SIZE_CAP: u64 = 0x8000_0000;

/// The length `n`, as far as it is counted.
pub open spec fn capped(n: nat) -> u64 {
    if n >= SIZE_CAP {
        SIZE_CAP
    } else {
        n as u64
    }
}

/// The sum of two counted lengths, counted.
pub fn plus(a: u64, b: u64) -> (r: u64)
    ensures
        r == capped((a + b) as nat),
{
    if a >= SIZE_CAP || b >= SIZE_CAP || a + b >= SIZE_CAP {
        SIZE_CAP
    } else {
        a + b
    }
}

/// The number of bytes that the encoding of `v` takes.
pub fn varint_len(v: u64) -> (n: u64)
    ensures
        n == varint_bytes(v as nat).len(),
        1 <= n <= 10,
{
    let mut n: u64 = 1;
    let mut rest: u64 = v;
    proof {
        lemma_varint_len(v as nat);
    }
    while rest >= 128
        invariant
            1 <= n,
            varint_bytes(v as nat).len() <= 10,
            varint_bytes(v as nat).len() == (n - 1) + varint_bytes(rest as nat).len(),
        decreases rest,
    {
        proof {
            lemma_varint_len((rest / 128) as nat);
        }
        rest = rest / 128;
        n = n + 1;
    }
    n
}

/// The length of a bytes field, given the counted length of what it holds.
pub fn bytes_field_len(tag: u32, inner: u64) -> (r: u64)
    ensures
        r <= SIZE_CAP,
        forall|b: Seq<u8>|
            inner == capped(b.len()) ==> r == capped((#[trigger] bytes_field(tag, b)).len()),
{
    proof {
        lemma_varint_len(tag as nat);
        assert forall|b: Seq<u8>| inner == capped(b.len()) implies varint_bytes(b.len()).len()
            >= 1 by {
            lemma_varint_len(b.len());
        }
    }
    if inner >= SIZE_CAP {
        SIZE_CAP
    } else {
        plus(plus(varint_len(tag as u64), varint_len(inner)), inner)
    }
}

/// The length of a number field.
pub fn number_field_len(tag: u32, v: u64) -> (r: u64)
    ensures
        r == number_field(tag, v as nat).len(),
        r <= 20,
{
    varint_len(tag as u64) + varint_len(v)
}

/// The length of an unsigned field.
pub fn u32_len(tag: u32, v: u32) -> (r: u64)
    ensures
        r == u32_field(tag, v).len(),
        r <= 20,
{
    if v == 0 {
        0
    } else {
        number_field_len(tag, v as u64)
    }
}

/// The length of a signed field.
pub fn i32_len(tag: u32, v: i32) -> (r: u64)
    ensures
        r == i32_field(tag, v).len(),
        r <= 20,
{
    if v > 0 {
        number_field_len(tag, v as u64)
    } else if v < 0 {
        let above: u64 = (-(v as i64)) as u64;
        number_field_len(tag, u64::MAX - above + 1)
    } else {
        0
    }
}

/// The length of a flag.
pub fn bool_len(tag: u32, v: bool) -> (r: u64)
    ensures
        r == bool_field(tag, v).len(),
        r <= 20,
{
    if v {
        number_field_len(tag, 1)
    } else {
        0
    }
}

/// The length `n` of something that is held in memory, counted.
pub fn count(n: usize) -> (r: u64)
    ensures
        r == capped(n as nat),
{
    if n as u64 >= SIZE_CAP {
        SIZE_CAP
    } else {
        n as u64
    }
}

/// The length of a field of raw bytes.
pub fn blob_len(tag: u32, bytes: &[u8]) -> (r: u64)
    ensures
        r == capped(blob_field(tag, bytes@).len()),
{
    if bytes.len() == 0 {
        0
    } else {
        bytes_field_len(tag, count(bytes.len()))
    }
}

/// The length of a text field.
pub fn string_len(tag: u32, s: &str) -> (r: u64)
    ensures
        r == capped(string_field(tag, s@).len()),
{
    blob_len(tag, s.as_bytes())
}

/// The length of the body of a file entry.
pub fn file_len(f: &File) -> (r: u64)
    ensures
        r == capped(file_bytes(f@).len()),
{
    let a = i32_len(8, f.file_type);
    let b = string_len(18, f.name.as_str());
    let c = u32_len(24, f.size);
    let d = blob_len(34, f.data.as_slice());
    plus(plus(plus(a, b), c), d)
}

/// The length of a file entry as field `tag`, if there is one.
pub fn file_option_len(tag: u32, file: &Option<File>) -> (r: u64)
    ensures
        r == capped(file_field(tag, file_option_view(*file)).len()),
{
    match file {
        Some(f) => bytes_field_len(tag, file_len(f)),
        None => 0,
    }
}

/// The length of the body of a date and time.
pub fn datetime_len(d: &RtcDateTime) -> (r: u64)
    ensures
        r == datetime_bytes(*d).len(),
        r <= 140,
{
    u32_len(8, d.hour) + u32_len(16, d.minute) + u32_len(24, d.second) + u32_len(32, d.day)
        + u32_len(40, d.month) + u32_len(48, d.year) + u32_len(56, d.weekday)
}

/// The length of a date and time as field 1, if there is one.
pub fn datetime_option_len(datetime: &Option<RtcDateTime>) -> (r: u64)
    ensures
        r == capped(datetime_field(*datetime).len()),
{
    match datetime {
        Some(d) => bytes_field_len(10, datetime_len(d)),
        None => 0,
    }
}

/// The lengths of the entries of a longer list add up.
pub proof fn lemma_files_len_push(files: Seq<FileView>, f: FileView)
    ensures
        files_bytes(files.push(f)).len() == files_bytes(files).len() + bytes_field(
            10,
            file_bytes(f),
        ).len(),
{
    crate::encode::lemma_files_bytes_push(files, f);
}

/// The length of the entries of a listing.
pub fn files_len(files: &Vec<File>) -> (r: u64)
    ensures
        r == capped(files_bytes(files_view(files@)).len()),
{
    let ghost all = files_view(files@);
    let mut total: u64 = 0;
    let mut i: usize = 0;
    proof {
        assert(all.take(0) =~= Seq::<FileView>::empty());
    }
    while i < files.len()
        invariant
            i <= files.len(),
            all == files_view(files@),
            total == capped(files_bytes(all.take(i as int)).len()),
        decreases files.len() - i,
    {
        let f = &files[i];
        let one = bytes_field_len(10, file_len(f));
        proof {
            assert(all.take(i + 1) =~= all.take(i as int).push(f@));
            lemma_files_len_push(all.take(i as int), f@);
        }
        total = plus(total, one);
        i = i + 1;
    }
    proof {
        assert(all.take(i as int) =~= all);
    }
    total
}

/// The length of the body of a payload.
pub fn content_len(c: &Content) -> (r: u64)
    ensures
        r == capped(content_body(c@).len()),
{
    match c {
        Content::Empty => 0,
        Content::AppStartRequest(r) => plus(
            string_len(10, r.name.as_str()),
            string_len(18, r.args.as_str()),
        ),
        Content::StorageListRequest(r) => string_len(10, r.path.as_str()),
        Content::StorageListResponse(r) => files_len(&r.file),
        Content::StorageReadRequest(r) => string_len(10, r.path.as_str()),
        Content::StorageReadResponse(r) => file_option_len(10, &r.file),
        Content::StorageWriteRequest(r) => plus(
            string_len(10, r.path.as_str()),
            file_option_len(18, &r.file),
        ),
        Content::StorageDeleteRequest(r) => plus(
            string_len(10, r.path.as_str()),
            bool_len(16, r.recursive),
        ),
        Content::StorageStatRequest(r) => string_len(10, r.path.as_str()),
        Content::StorageStatResponse(r) => file_option_len(10, &r.file),
        Content::SystemGetDatetimeRequest => 0,
        Content::SystemGetDatetimeResponse(r) => datetime_option_len(&r.datetime),
        Content::SystemSetDatetimeRequest(r) => datetime_option_len(&r.datetime),
        Content::SystemPlayAudiovisualAlertRequest => 0,
    }
}

/// The length of the body of a message, counted: `SIZE_CAP` for every body
/// that is longer than `MAX_MESSAGE_SIZE`, and the exact length for every
/// other.
pub fn body_len(m: &Main) -> (r: u64)
    ensures
        r == capped(main_bytes(m@).len()),
        r <= MAX_MESSAGE_SIZE <==> main_bytes(m@).len() <= MAX_MESSAGE_SIZE,
{
    let a = u32_len(TAG_COMMAND_ID, m.command_id);
    let b = i32_len(TAG_COMMAND_STATUS, m.command_status);
    let c = bool_len(TAG_HAS_NEXT, m.has_next);
    let d = match &m.content {
        Some(content) => bytes_field_len(
            crate::encode::tag_of_content(content),
            content_len(content),
        ),
        None => 0,
    };
    plus(a + b + c, d)
}

} // verus!

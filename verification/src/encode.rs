//! Writing messages: each function appends exactly the bytes that
//! `message` defines for its argument.

use crate::message::{
    content_body, content_tag, datetime_bytes, datetime_field, file_bytes, file_field,
    file_option_view, files_bytes, files_view, framed, main_bytes, Content, RtcDateTime, File,
    FileView, Main, MainView, MAX_MESSAGE_SIZE, TAG_APP_START_REQUEST, TAG_COMMAND_ID,
    TAG_COMMAND_STATUS, TAG_EMPTY, TAG_HAS_NEXT, TAG_STORAGE_DELETE_REQUEST,
    TAG_STORAGE_LIST_REQUEST, TAG_STORAGE_LIST_RESPONSE, TAG_STORAGE_READ_REQUEST,
    TAG_STORAGE_READ_RESPONSE, TAG_STORAGE_STAT_REQUEST, TAG_STORAGE_STAT_RESPONSE,
    TAG_STORAGE_WRITE_REQUEST, TAG_SYSTEM_GET_DATETIME_REQUEST, TAG_SYSTEM_GET_DATETIME_RESPONSE,
    TAG_SYSTEM_PLAY_AUDIOVISUAL_ALERT_REQUEST, TAG_SYSTEM_SET_DATETIME_REQUEST,
};
use crate::size::body_len;
use crate::varint::put_varint32;
use crate::wire::{bytes_field, put_blob, put_bool, put_bytes_field, put_i32, put_string, put_u32};
use vstd::prelude::*;

verus! {

/// Why a message was not written.
#[derive(Clone, Copy, Debug, PartialEq, Eq)]
pub enum EncodeError {
    /// The body is longer than `MAX_MESSAGE_SIZE` bytes.
    MessageTooLarge,
}

/// What writing `m` gives: the framed message, or the reason why there is none.
pub open spec fn encoded(m: MainView) -> Result<Seq<u8>, EncodeError> {
    if main_bytes(m).len() <= MAX_MESSAGE_SIZE {
        Ok(framed(m))
    } else {
        Err(EncodeError::MessageTooLarge)
    }
}

/// `r` is what `want` says: the same failure, or the same bytes.
pub open spec fn bytes_match(
    r: Result<Vec<u8>, EncodeError>,
    want: Result<Seq<u8>, EncodeError>,
) -> bool {
    match r {
        Ok(bytes) => want == Ok::<Seq<u8>, EncodeError>(bytes@),
        Err(e) => want == Err::<Seq<u8>, EncodeError>(e),
    }
}

/// Entries written one after the other are the entries of the longer list.
pub proof fn lemma_files_bytes_push(files: Seq<FileView>, f: FileView)
    ensures
        files_bytes(files.push(f)) == files_bytes(files) + bytes_field(10, file_bytes(f)),
    decreases files.len(),
{
    let longer = files.push(f);
    if files.len() == 0 {
        assert(longer.drop_first() =~= Seq::<FileView>::empty());
        assert(files_bytes(longer.drop_first()) =~= Seq::<u8>::empty());
        assert(longer[0] == f);
        assert(files_bytes(longer) =~= bytes_field(10, file_bytes(f)));
    } else {
        assert(longer.drop_first() =~= files.drop_first().push(f));
        lemma_files_bytes_push(files.drop_first(), f);
        assert(files_bytes(longer) =~= files_bytes(files) + bytes_field(10, file_bytes(f)));
    }
}

/// Appends the body of a file entry.
pub fn put_file(buf: &mut Vec<u8>, f: &File)
    ensures
        final(buf)@ == old(buf)@ + file_bytes(f@),
{
    put_i32(buf, 8, f.file_type);
    put_string(buf, 18, f.name.as_str());
    put_u32(buf, 24, f.size);
    put_blob(buf, 34, f.data.as_slice());
    proof {
        assert(buf@ =~= old(buf)@ + file_bytes(f@));
    }
}

/// Appends a file entry as field `tag`, with its length in front.
pub fn put_file_field(buf: &mut Vec<u8>, tag: u32, f: &File)
    ensures
        final(buf)@ == old(buf)@ + bytes_field(tag, file_bytes(f@)),
{
    let mut inner: Vec<u8> = Vec::new();
    put_file(&mut inner, f);
    proof {
        assert(inner@ =~= file_bytes(f@));
    }
    put_bytes_field(buf, tag, inner.as_slice());
}

/// Appends a file entry as field `tag`, if there is one.
pub fn put_file_option(buf: &mut Vec<u8>, tag: u32, file: &Option<File>)
    ensures
        final(buf)@ == old(buf)@ + file_field(tag, file_option_view(*file)),
{
    match file {
        Some(f) => {
            put_file_field(buf, tag, f);
        },
        None => {
            proof {
                assert(buf@ =~= old(buf)@ + file_field(tag, file_option_view(*file)));
            }
        },
    }
}

/// Appends the body of a date and time.
pub fn put_datetime(buf: &mut Vec<u8>, d: &RtcDateTime)
    ensures
        final(buf)@ == old(buf)@ + datetime_bytes(*d),
{
    put_u32(buf, 8, d.hour);
    put_u32(buf, 16, d.minute);
    put_u32(buf, 24, d.second);
    put_u32(buf, 32, d.day);
    put_u32(buf, 40, d.month);
    put_u32(buf, 48, d.year);
    put_u32(buf, 56, d.weekday);
    proof {
        assert(buf@ =~= old(buf)@ + datetime_bytes(*d));
    }
}

/// Appends a date and time as field 1, if there is one.
pub fn put_datetime_option(buf: &mut Vec<u8>, datetime: &Option<RtcDateTime>)
    ensures
        final(buf)@ == old(buf)@ + datetime_field(*datetime),
{
    match datetime {
        Some(d) => {
            let mut inner: Vec<u8> = Vec::new();
            put_datetime(&mut inner, d);
            proof {
                assert(inner@ =~= datetime_bytes(*d));
            }
            put_bytes_field(buf, 10, inner.as_slice());
        },
        None => {
            proof {
                assert(buf@ =~= old(buf)@ + datetime_field(*datetime));
            }
        },
    }
}

/// Appends the entries of a listing.
pub fn put_files(buf: &mut Vec<u8>, files: &Vec<File>)
    ensures
        final(buf)@ == old(buf)@ + files_bytes(files_view(files@)),
{
    let ghost all = files_view(files@);
    let mut i: usize = 0;
    proof {
        assert(all.take(0) =~= Seq::<FileView>::empty());
        assert(buf@ =~= old(buf)@ + files_bytes(all.take(0)));
    }
    while i < files.len()
        invariant
            i <= files.len(),
            all == files_view(files@),
            buf@ == old(buf)@ + files_bytes(all.take(i as int)),
        decreases files.len() - i,
    {
        put_file_field(buf, 10, &files[i]);
        proof {
            assert(all.take(i + 1) =~= all.take(i as int).push(files[i as int]@));
            lemma_files_bytes_push(all.take(i as int), files[i as int]@);
            assert(buf@ =~= old(buf)@ + files_bytes(all.take(i + 1)));
        }
        i = i + 1;
    }
    proof {
        assert(all.take(i as int) =~= all);
    }
}

/// The body of a payload.
pub fn content_to_bytes(c: &Content) -> (r: Vec<u8>)
    ensures
        r@ == content_body(c@),
{
    let mut body: Vec<u8> = Vec::new();
    match c {
        Content::Empty => {},
        Content::AppStartRequest(r) => {
            put_string(&mut body, 10, r.name.as_str());
            put_string(&mut body, 18, r.args.as_str());
        },
        Content::StorageListRequest(r) => {
            put_string(&mut body, 10, r.path.as_str());
        },
        Content::StorageListResponse(r) => {
            put_files(&mut body, &r.file);
        },
        Content::StorageReadRequest(r) => {
            put_string(&mut body, 10, r.path.as_str());
        },
        Content::StorageReadResponse(r) => {
            put_file_option(&mut body, 10, &r.file);
        },
        Content::StorageWriteRequest(r) => {
            put_string(&mut body, 10, r.path.as_str());
            put_file_option(&mut body, 18, &r.file);
        },
        Content::StorageDeleteRequest(r) => {
            put_string(&mut body, 10, r.path.as_str());
            put_bool(&mut body, 16, r.recursive);
        },
        Content::StorageStatRequest(r) => {
            put_string(&mut body, 10, r.path.as_str());
        },
        Content::StorageStatResponse(r) => {
            put_file_option(&mut body, 10, &r.file);
        },
        Content::SystemGetDatetimeRequest => {},
        Content::SystemGetDatetimeResponse(r) => {
            put_datetime_option(&mut body, &r.datetime);
        },
        Content::SystemSetDatetimeRequest(r) => {
            put_datetime_option(&mut body, &r.datetime);
        },
        Content::SystemPlayAudiovisualAlertRequest => {},
    }
    proof {
        assert(body@ =~= content_body(c@));
    }
    body
}

/// The tag under which a payload stands in the envelope.
pub fn tag_of_content(c: &Content) -> (tag: u32)
    ensures
        tag == content_tag(c@),
{
    match c {
        Content::Empty => TAG_EMPTY,
        Content::AppStartRequest(_) => TAG_APP_START_REQUEST,
        Content::StorageListRequest(_) => TAG_STORAGE_LIST_REQUEST,
        Content::StorageListResponse(_) => TAG_STORAGE_LIST_RESPONSE,
        Content::StorageReadRequest(_) => TAG_STORAGE_READ_REQUEST,
        Content::StorageReadResponse(_) => TAG_STORAGE_READ_RESPONSE,
        Content::StorageWriteRequest(_) => TAG_STORAGE_WRITE_REQUEST,
        Content::StorageDeleteRequest(_) => TAG_STORAGE_DELETE_REQUEST,
        Content::StorageStatRequest(_) => TAG_STORAGE_STAT_REQUEST,
        Content::StorageStatResponse(_) => TAG_STORAGE_STAT_RESPONSE,
        Content::SystemGetDatetimeRequest => TAG_SYSTEM_GET_DATETIME_REQUEST,
        Content::SystemGetDatetimeResponse(_) => TAG_SYSTEM_GET_DATETIME_RESPONSE,
        Content::SystemSetDatetimeRequest(_) => TAG_SYSTEM_SET_DATETIME_REQUEST,
        Content::SystemPlayAudiovisualAlertRequest => TAG_SYSTEM_PLAY_AUDIOVISUAL_ALERT_REQUEST,
    }
}

/// The body of a message, without its length in front.
pub fn encode_body(m: &Main) -> (r: Vec<u8>)
    ensures
        r@ == main_bytes(m@),
{
    let mut body: Vec<u8> = Vec::new();
    put_u32(&mut body, TAG_COMMAND_ID, m.command_id);
    put_i32(&mut body, TAG_COMMAND_STATUS, m.command_status);
    put_bool(&mut body, TAG_HAS_NEXT, m.has_next);
    match &m.content {
        Some(c) => {
            let inner = content_to_bytes(c);
            let tag = tag_of_content(c);
            put_bytes_field(&mut body, tag, inner.as_slice());
        },
        None => {},
    }
    proof {
        assert(body@ =~= main_bytes(m@));
    }
    body
}

/// Writes `m` as it goes over the link: the length of its body, and the body.
/// Fails, and only fails, where the body is longer than `MAX_MESSAGE_SIZE`;
/// such a message is measured and not written.
pub fn encode(m: &Main) -> (r: Result<Vec<u8>, EncodeError>)
    ensures
        bytes_match(r, encoded(m@)),
{
    if body_len(m) > MAX_MESSAGE_SIZE {
        return Err(EncodeError::MessageTooLarge);
    }
    let body = encode_body(m);
    let mut out: Vec<u8> = Vec::new();
    put_varint32(&mut out, body.len() as u32);
    out.extend_from_slice(body.as_slice());
    proof {
        assert(out@ =~= framed(m@));
    }
    Ok(out)
}

} // verus!

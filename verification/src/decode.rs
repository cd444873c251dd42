//! Reading messages: each function returns exactly the record that `message`
//! defines for the bytes it is given, and nothing where `message` defines none.

use crate::message::{
    datetime_holder_schema, datetime_kind, datetime_schema, delete_schema, empty_schema,
    file_holder_schema, file_kind, file_option_view, file_schema, files_view, is_content_tag,
    listing_schema, main_kind, main_schema, parse_content, parse_datetime, parse_datetime_holder,
    parse_delete, parse_empty, parse_file, parse_file_holder, parse_listing, parse_main,
    parse_start, parse_text, parse_write, start_schema, text_schema, write_schema, Content,
    RtcDateTime, DeleteRequest, File, FileView, GetDateTimeResponse, ListRequest, ListResponse,
    Main, MainView, ReadRequest, ReadResponse, SetDateTimeRequest, StartRequest, StatRequest,
    StatResponse, WriteRequest, TAG_APP_START_REQUEST, TAG_COMMAND_ID, TAG_COMMAND_STATUS,
    TAG_EMPTY, TAG_HAS_NEXT, TAG_STORAGE_DELETE_REQUEST, TAG_STORAGE_LIST_REQUEST,
    TAG_STORAGE_LIST_RESPONSE, TAG_STORAGE_READ_REQUEST, TAG_STORAGE_READ_RESPONSE,
    TAG_STORAGE_STAT_REQUEST, TAG_STORAGE_STAT_RESPONSE, TAG_STORAGE_WRITE_REQUEST,
    TAG_SYSTEM_GET_DATETIME_REQUEST, TAG_SYSTEM_GET_DATETIME_RESPONSE,
    TAG_SYSTEM_PLAY_AUDIOVISUAL_ALERT_REQUEST, TAG_SYSTEM_SET_DATETIME_REQUEST,
};
use crate::varint::{cut_short, lemma_parse_width, parse_varint32, read_varint32};
use crate::wire::{
    lemma_merge_fails, lemma_merge_step, merge, read_tag, read_value, text_of, FieldKind,
};
use vstd::prelude::*;
use vstd::slice::*;
use vstd::string::*;

verus! {

/// Why a buffer gave no message.
#[derive(Clone, Copy, Debug, PartialEq, Eq)]
pub enum DecodeError {
    /// The buffer ends before the message does: more bytes are to come.
    Incomplete,
    /// The bytes that are there cannot be the message: waiting will not help.
    Malformed,
}

/// What reading the buffer `s` gives: the declared length of the body and the
/// message in it, or the reason why there is none. Bytes behind the body play
/// no part.
pub open spec fn decoded(s: Seq<u8>) -> Result<(u32, MainView), DecodeError> {
    match parse_varint32(s) {
        None => if cut_short(s, 5) {
            Err(DecodeError::Incomplete)
        } else {
            Err(DecodeError::Malformed)
        },
        Some((len, n)) => if s.len() < n + len {
            Err(DecodeError::Incomplete)
        } else {
            match parse_main(s.subrange(n as int, (n + len) as int)) {
                Some(m) => Ok((len as u32, m)),
                None => Err(DecodeError::Malformed),
            }
        },
    }
}

/// `r` is what `want` says: the same failure, or the same length with a
/// message of that value.
pub open spec fn decode_match(
    r: Result<(u32, Main), DecodeError>,
    want: Result<(u32, MainView), DecodeError>,
) -> bool {
    match r {
        Ok((len, m)) => want == Ok::<(u32, MainView), DecodeError>((len, m@)),
        Err(e) => want == Err::<(u32, MainView), DecodeError>(e),
    }
}

/// How a file entry reads the value behind `tag`.
pub fn kind_of_file(tag: u32) -> (kind: FieldKind)
    ensures
        kind == file_kind(tag),
{
    if tag == 8 {
        FieldKind::I32
    } else if tag == 18 || tag == 34 {
        FieldKind::Bytes
    } else if tag == 24 {
        FieldKind::U32
    } else {
        FieldKind::Unknown
    }
}

/// Reads the body of a file entry.
pub fn decode_file(body: &[u8]) -> (r: Option<File>)
    ensures
        r is Some <==> parse_file(body@) is Some,
        r matches Some(f) ==> parse_file(body@) == Some(f@),
{
    let mut acc = File { file_type: 0, name: String::new(), size: 0, data: Vec::new() };
    let mut pos: usize = 0;
    assert(body@.skip(0) =~= body@);
    while pos < body.len()
        invariant
            pos <= body@.len(),
            parse_file(body@) == merge(body@.skip(pos as int), file_schema(), acc@),
        decreases body@.len() - pos,
    {
        let (tag, at) = match read_tag(body, pos) {
            Some(found) => found,
            None => {
                proof {
                    lemma_merge_fails(body@, file_schema(), acc@, pos as int, 0, 0);
                }
                return None;
            },
        };
        let kind = kind_of_file(tag);
        let field = match read_value(body, at, tag, kind) {
            Some(field) => field,
            None => {
                proof {
                    lemma_merge_fails(body@, file_schema(), acc@, pos as int, at as int, tag);
                }
                return None;
            },
        };
        proof {
            lemma_merge_step(
                body@,
                file_schema(),
                acc@,
                pos as int,
                at as int,
                field.next as int,
                tag,
                field.value(kind, body@),
            );
        }
        if tag == 8 {
            acc.file_type = field.number as i32;
        } else if tag == 24 {
            acc.size = field.number as u32;
        } else if tag == 18 {
            match text_of(slice_subrange(body, field.start, field.end)) {
                Some(text) => {
                    acc.name = text.to_owned();
                },
                None => {
                    return None;
                },
            }
        } else if tag == 34 {
            acc.data = slice_to_vec(slice_subrange(body, field.start, field.end));
        }
        pos = field.next;
    }
    Some(acc)
}

/// How a date and time reads the value behind `tag`.
pub fn kind_of_datetime(tag: u32) -> (kind: FieldKind)
    ensures
        kind == datetime_kind(tag),
{
    if tag == 8 || tag == 16 || tag == 24 || tag == 32 || tag == 40 || tag == 48 || tag == 56 {
        FieldKind::U32
    } else {
        FieldKind::Unknown
    }
}

/// Reads the body of a date and time.
pub fn decode_datetime(body: &[u8]) -> (r: Option<RtcDateTime>)
    ensures
        r == parse_datetime(body@),
{
    let mut acc = RtcDateTime { hour: 0, minute: 0, second: 0, day: 0, month: 0, year: 0, weekday: 0 };
    let mut pos: usize = 0;
    assert(body@.skip(0) =~= body@);
    while pos < body.len()
        invariant
            pos <= body@.len(),
            parse_datetime(body@) == merge(body@.skip(pos as int), datetime_schema(), acc),
        decreases body@.len() - pos,
    {
        let (tag, at) = match read_tag(body, pos) {
            Some(found) => found,
            None => {
                proof {
                    lemma_merge_fails(body@, datetime_schema(), acc, pos as int, 0, 0);
                }
                return None;
            },
        };
        let kind = kind_of_datetime(tag);
        let field = match read_value(body, at, tag, kind) {
            Some(field) => field,
            None => {
                proof {
                    lemma_merge_fails(body@, datetime_schema(), acc, pos as int, at as int, tag);
                }
                return None;
            },
        };
        proof {
            lemma_merge_step(
                body@,
                datetime_schema(),
                acc,
                pos as int,
                at as int,
                field.next as int,
                tag,
                field.value(kind, body@),
            );
        }
        if tag == 8 {
            acc.hour = field.number as u32;
        } else if tag == 16 {
            acc.minute = field.number as u32;
        } else if tag == 24 {
            acc.second = field.number as u32;
        } else if tag == 32 {
            acc.day = field.number as u32;
        } else if tag == 40 {
            acc.month = field.number as u32;
        } else if tag == 48 {
            acc.year = field.number as u32;
        } else if tag == 56 {
            acc.weekday = field.number as u32;
        }
        pos = field.next;
    }
    Some(acc)
}

/// Reads the body of a message without fields: whether every field in it can
/// be passed over.
pub fn decode_empty(body: &[u8]) -> (r: bool)
    ensures
        r == parse_empty(body@),
{
    let mut pos: usize = 0;
    assert(body@.skip(0) =~= body@);
    while pos < body.len()
        invariant
            pos <= body@.len(),
            parse_empty(body@) == (merge(body@.skip(pos as int), empty_schema(), ()) is Some),
        decreases body@.len() - pos,
    {
        let (tag, at) = match read_tag(body, pos) {
            Some(found) => found,
            None => {
                proof {
                    lemma_merge_fails(body@, empty_schema(), (), pos as int, 0, 0);
                }
                return false;
            },
        };
        let field = match read_value(body, at, tag, FieldKind::Unknown) {
            Some(field) => field,
            None => {
                proof {
                    lemma_merge_fails(body@, empty_schema(), (), pos as int, at as int, tag);
                }
                return false;
            },
        };
        proof {
            lemma_merge_step(
                body@,
                empty_schema(),
                (),
                pos as int,
                at as int,
                field.next as int,
                tag,
                field.value(FieldKind::Unknown, body@),
            );
        }
        pos = field.next;
    }
    true
}

/// Reads the body of a message whose one field is a text, field 1.
pub fn decode_text(body: &[u8]) -> (r: Option<String>)
    ensures
        r is Some <==> parse_text(body@) is Some,
        r matches Some(text) ==> parse_text(body@) == Some(text@),
{
    let mut acc = String::new();
    let mut pos: usize = 0;
    assert(body@.skip(0) =~= body@);
    while pos < body.len()
        invariant
            pos <= body@.len(),
            parse_text(body@) == merge(body@.skip(pos as int), text_schema(), acc@),
        decreases body@.len() - pos,
    {
        let (tag, at) = match read_tag(body, pos) {
            Some(found) => found,
            None => {
                proof {
                    lemma_merge_fails(body@, text_schema(), acc@, pos as int, 0, 0);
                }
                return None;
            },
        };
        let kind = if tag == 10 {
            FieldKind::Bytes
        } else {
            FieldKind::Unknown
        };
        let field = match read_value(body, at, tag, kind) {
            Some(field) => field,
            None => {
                proof {
                    lemma_merge_fails(body@, text_schema(), acc@, pos as int, at as int, tag);
                }
                return None;
            },
        };
        proof {
            lemma_merge_step(
                body@,
                text_schema(),
                acc@,
                pos as int,
                at as int,
                field.next as int,
                tag,
                field.value(kind, body@),
            );
        }
        if tag == 10 {
            match text_of(slice_subrange(body, field.start, field.end)) {
                Some(text) => {
                    acc = text.to_owned();
                },
                None => {
                    return None;
                },
            }
        }
        pos = field.next;
    }
    Some(acc)
}

/// Reads the body of a start request: the name and the arguments.
pub fn decode_start(body: &[u8]) -> (r: Option<StartRequest>)
    ensures
        r is Some <==> parse_start(body@) is Some,
        r matches Some(s) ==> parse_start(body@) == Some((s.name@, s.args@)),
{
    let mut acc = StartRequest { name: String::new(), args: String::new() };
    let mut pos: usize = 0;
    assert(body@.skip(0) =~= body@);
    while pos < body.len()
        invariant
            pos <= body@.len(),
            parse_start(body@) == merge(
                body@.skip(pos as int),
                start_schema(),
                (acc.name@, acc.args@),
            ),
        decreases body@.len() - pos,
    {
        let ghost before = (acc.name@, acc.args@);
        let (tag, at) = match read_tag(body, pos) {
            Some(found) => found,
            None => {
                proof {
                    lemma_merge_fails(body@, start_schema(), before, pos as int, 0, 0);
                }
                return None;
            },
        };
        let kind = if tag == 10 || tag == 18 {
            FieldKind::Bytes
        } else {
            FieldKind::Unknown
        };
        let field = match read_value(body, at, tag, kind) {
            Some(field) => field,
            None => {
                proof {
                    lemma_merge_fails(body@, start_schema(), before, pos as int, at as int, tag);
                }
                return None;
            },
        };
        proof {
            lemma_merge_step(
                body@,
                start_schema(),
                before,
                pos as int,
                at as int,
                field.next as int,
                tag,
                field.value(kind, body@),
            );
        }
        if tag == 10 || tag == 18 {
            match text_of(slice_subrange(body, field.start, field.end)) {
                Some(text) => {
                    if tag == 10 {
                        acc.name = text.to_owned();
                    } else {
                        acc.args = text.to_owned();
                    }
                },
                None => {
                    return None;
                },
            }
        }
        pos = field.next;
    }
    Some(acc)
}

/// Reads the body of a write request: the path and the file.
pub fn decode_write(body: &[u8]) -> (r: Option<WriteRequest>)
    ensures
        r is Some <==> parse_write(body@) is Some,
        r matches Some(w) ==> parse_write(body@) == Some((w.path@, file_option_view(w.file))),
{
    let mut acc = WriteRequest { path: String::new(), file: None };
    let mut pos: usize = 0;
    assert(body@.skip(0) =~= body@);
    while pos < body.len()
        invariant
            pos <= body@.len(),
            parse_write(body@) == merge(
                body@.skip(pos as int),
                write_schema(),
                (acc.path@, file_option_view(acc.file)),
            ),
        decreases body@.len() - pos,
    {
        let ghost before = (acc.path@, file_option_view(acc.file));
        let (tag, at) = match read_tag(body, pos) {
            Some(found) => found,
            None => {
                proof {
                    lemma_merge_fails(body@, write_schema(), before, pos as int, 0, 0);
                }
                return None;
            },
        };
        let kind = if tag == 10 {
            FieldKind::Bytes
        } else if tag == 18 {
            FieldKind::Message
        } else {
            FieldKind::Unknown
        };
        let field = match read_value(body, at, tag, kind) {
            Some(field) => field,
            None => {
                proof {
                    lemma_merge_fails(body@, write_schema(), before, pos as int, at as int, tag);
                }
                return None;
            },
        };
        proof {
            lemma_merge_step(
                body@,
                write_schema(),
                before,
                pos as int,
                at as int,
                field.next as int,
                tag,
                field.value(kind, body@),
            );
        }
        if tag == 10 {
            match text_of(slice_subrange(body, field.start, field.end)) {
                Some(text) => {
                    acc.path = text.to_owned();
                },
                None => {
                    return None;
                },
            }
        } else if tag == 18 {
            match decode_file(slice_subrange(body, field.start, field.end)) {
                Some(file) => {
                    acc.file = Some(file);
                },
                None => {
                    return None;
                },
            }
        }
        pos = field.next;
    }
    Some(acc)
}

/// Reads the body of a delete request: the path and the flag.
pub fn decode_delete(body: &[u8]) -> (r: Option<DeleteRequest>)
    ensures
        r is Some <==> parse_delete(body@) is Some,
        r matches Some(d) ==> parse_delete(body@) == Some((d.path@, d.recursive)),
{
    let mut acc = DeleteRequest { path: String::new(), recursive: false };
    let mut pos: usize = 0;
    assert(body@.skip(0) =~= body@);
    while pos < body.len()
        invariant
            pos <= body@.len(),
            parse_delete(body@) == merge(
                body@.skip(pos as int),
                delete_schema(),
                (acc.path@, acc.recursive),
            ),
        decreases body@.len() - pos,
    {
        let ghost before = (acc.path@, acc.recursive);
        let (tag, at) = match read_tag(body, pos) {
            Some(found) => found,
            None => {
                proof {
                    lemma_merge_fails(body@, delete_schema(), before, pos as int, 0, 0);
                }
                return None;
            },
        };
        let kind = if tag == 10 {
            FieldKind::Bytes
        } else if tag == 16 {
            FieldKind::Bool
        } else {
            FieldKind::Unknown
        };
        let field = match read_value(body, at, tag, kind) {
            Some(field) => field,
            None => {
                proof {
                    lemma_merge_fails(body@, delete_schema(), before, pos as int, at as int, tag);
                }
                return None;
            },
        };
        proof {
            lemma_merge_step(
                body@,
                delete_schema(),
                before,
                pos as int,
                at as int,
                field.next as int,
                tag,
                field.value(kind, body@),
            );
        }
        if tag == 10 {
            match text_of(slice_subrange(body, field.start, field.end)) {
                Some(text) => {
                    acc.path = text.to_owned();
                },
                None => {
                    return None;
                },
            }
        } else if tag == 16 {
            acc.recursive = field.number != 0;
        }
        pos = field.next;
    }
    Some(acc)
}

/// Reads the body of a message whose one field is a file, field 1.
pub fn decode_file_holder(body: &[u8]) -> (r: Option<Option<File>>)
    ensures
        r is Some <==> parse_file_holder(body@) is Some,
        r matches Some(file) ==> parse_file_holder(body@) == Some(file_option_view(file)),
{
    let mut acc: Option<File> = None;
    let mut pos: usize = 0;
    assert(body@.skip(0) =~= body@);
    while pos < body.len()
        invariant
            pos <= body@.len(),
            parse_file_holder(body@) == merge(
                body@.skip(pos as int),
                file_holder_schema(),
                file_option_view(acc),
            ),
        decreases body@.len() - pos,
    {
        let ghost before = file_option_view(acc);
        let (tag, at) = match read_tag(body, pos) {
            Some(found) => found,
            None => {
                proof {
                    lemma_merge_fails(body@, file_holder_schema(), before, pos as int, 0, 0);
                }
                return None;
            },
        };
        let kind = if tag == 10 {
            FieldKind::Message
        } else {
            FieldKind::Unknown
        };
        let field = match read_value(body, at, tag, kind) {
            Some(field) => field,
            None => {
                proof {
                    lemma_merge_fails(
                        body@,
                        file_holder_schema(),
                        before,
                        pos as int,
                        at as int,
                        tag,
                    );
                }
                return None;
            },
        };
        proof {
            lemma_merge_step(
                body@,
                file_holder_schema(),
                before,
                pos as int,
                at as int,
                field.next as int,
                tag,
                field.value(kind, body@),
            );
        }
        if tag == 10 {
            match decode_file(slice_subrange(body, field.start, field.end)) {
                Some(file) => {
                    acc = Some(file);
                },
                None => {
                    return None;
                },
            }
        }
        pos = field.next;
    }
    Some(acc)
}

/// Reads the body of a list response: its entries, in order.
pub fn decode_listing(body: &[u8]) -> (r: Option<Vec<File>>)
    ensures
        r is Some <==> parse_listing(body@) is Some,
        r matches Some(files) ==> parse_listing(body@) == Some(files_view(files@)),
{
    let mut acc: Vec<File> = Vec::new();
    let mut pos: usize = 0;
    assert(body@.skip(0) =~= body@);
    assert(files_view(acc@) =~= Seq::<FileView>::empty());
    while pos < body.len()
        invariant
            pos <= body@.len(),
            parse_listing(body@) == merge(
                body@.skip(pos as int),
                listing_schema(),
                files_view(acc@),
            ),
        decreases body@.len() - pos,
    {
        let ghost before = files_view(acc@);
        let (tag, at) = match read_tag(body, pos) {
            Some(found) => found,
            None => {
                proof {
                    lemma_merge_fails(body@, listing_schema(), before, pos as int, 0, 0);
                }
                return None;
            },
        };
        let kind = if tag == 10 {
            FieldKind::Message
        } else {
            FieldKind::Unknown
        };
        let field = match read_value(body, at, tag, kind) {
            Some(field) => field,
            None => {
                proof {
                    lemma_merge_fails(body@, listing_schema(), before, pos as int, at as int, tag);
                }
                return None;
            },
        };
        proof {
            lemma_merge_step(
                body@,
                listing_schema(),
                before,
                pos as int,
                at as int,
                field.next as int,
                tag,
                field.value(kind, body@),
            );
        }
        if tag == 10 {
            match decode_file(slice_subrange(body, field.start, field.end)) {
                Some(file) => {
                    let ghost entry = file@;
                    acc.push(file);
                    proof {
                        assert(files_view(acc@) =~= before.push(entry));
                    }
                },
                None => {
                    return None;
                },
            }
        }
        pos = field.next;
    }
    Some(acc)
}

/// Reads the body of a message whose one field is a date and time, field 1.
pub fn decode_datetime_holder(body: &[u8]) -> (r: Option<Option<RtcDateTime>>)
    ensures
        r == parse_datetime_holder(body@),
{
    let mut acc: Option<RtcDateTime> = None;
    let mut pos: usize = 0;
    assert(body@.skip(0) =~= body@);
    while pos < body.len()
        invariant
            pos <= body@.len(),
            parse_datetime_holder(body@) == merge(
                body@.skip(pos as int),
                datetime_holder_schema(),
                acc,
            ),
        decreases body@.len() - pos,
    {
        let (tag, at) = match read_tag(body, pos) {
            Some(found) => found,
            None => {
                proof {
                    lemma_merge_fails(body@, datetime_holder_schema(), acc, pos as int, 0, 0);
                }
                return None;
            },
        };
        let kind = if tag == 10 {
            FieldKind::Message
        } else {
            FieldKind::Unknown
        };
        let field = match read_value(body, at, tag, kind) {
            Some(field) => field,
            None => {
                proof {
                    lemma_merge_fails(
                        body@,
                        datetime_holder_schema(),
                        acc,
                        pos as int,
                        at as int,
                        tag,
                    );
                }
                return None;
            },
        };
        proof {
            lemma_merge_step(
                body@,
                datetime_holder_schema(),
                acc,
                pos as int,
                at as int,
                field.next as int,
                tag,
                field.value(kind, body@),
            );
        }
        if tag == 10 {
            match decode_datetime(slice_subrange(body, field.start, field.end)) {
                Some(datetime) => {
                    acc = Some(datetime);
                },
                None => {
                    return None;
                },
            }
        }
        pos = field.next;
    }
    Some(acc)
}

/// Whether `tag` is one of the payloads' tags.
pub fn content_tag_known(tag: u32) -> (r: bool)
    ensures
        r == is_content_tag(tag),
{
    tag == TAG_EMPTY || tag == TAG_STORAGE_LIST_REQUEST || tag == TAG_STORAGE_LIST_RESPONSE || tag
        == TAG_STORAGE_READ_REQUEST || tag == TAG_STORAGE_READ_RESPONSE || tag
        == TAG_STORAGE_WRITE_REQUEST || tag == TAG_STORAGE_DELETE_REQUEST || tag
        == TAG_APP_START_REQUEST || tag == TAG_STORAGE_STAT_REQUEST || tag
        == TAG_STORAGE_STAT_RESPONSE || tag == TAG_SYSTEM_GET_DATETIME_REQUEST || tag
        == TAG_SYSTEM_GET_DATETIME_RESPONSE || tag == TAG_SYSTEM_SET_DATETIME_REQUEST || tag
        == TAG_SYSTEM_PLAY_AUDIOVISUAL_ALERT_REQUEST
}

/// Reads the body of the payload that stands under `tag` in the envelope.
pub fn decode_content(tag: u32, body: &[u8]) -> (r: Option<Content>)
    ensures
        r is Some <==> parse_content(tag, body@) is Some,
        r matches Some(c) ==> parse_content(tag, body@) == Some(c@),
{
    if tag == TAG_EMPTY {
        if decode_empty(body) {
            Some(Content::Empty)
        } else {
            None
        }
    } else if tag == TAG_SYSTEM_GET_DATETIME_REQUEST {
        if decode_empty(body) {
            Some(Content::SystemGetDatetimeRequest)
        } else {
            None
        }
    } else if tag == TAG_SYSTEM_PLAY_AUDIOVISUAL_ALERT_REQUEST {
        if decode_empty(body) {
            Some(Content::SystemPlayAudiovisualAlertRequest)
        } else {
            None
        }
    } else if tag == TAG_APP_START_REQUEST {
        match decode_start(body) {
            Some(request) => Some(Content::AppStartRequest(request)),
            None => None,
        }
    } else if tag == TAG_STORAGE_LIST_REQUEST {
        match decode_text(body) {
            Some(path) => Some(Content::StorageListRequest(ListRequest { path })),
            None => None,
        }
    } else if tag == TAG_STORAGE_READ_REQUEST {
        match decode_text(body) {
            Some(path) => Some(Content::StorageReadRequest(ReadRequest { path })),
            None => None,
        }
    } else if tag == TAG_STORAGE_STAT_REQUEST {
        match decode_text(body) {
            Some(path) => Some(Content::StorageStatRequest(StatRequest { path })),
            None => None,
        }
    } else if tag == TAG_STORAGE_LIST_RESPONSE {
        match decode_listing(body) {
            Some(file) => Some(Content::StorageListResponse(ListResponse { file })),
            None => None,
        }
    } else if tag == TAG_STORAGE_READ_RESPONSE {
        match decode_file_holder(body) {
            Some(file) => Some(Content::StorageReadResponse(ReadResponse { file })),
            None => None,
        }
    } else if tag == TAG_STORAGE_STAT_RESPONSE {
        match decode_file_holder(body) {
            Some(file) => Some(Content::StorageStatResponse(StatResponse { file })),
            None => None,
        }
    } else if tag == TAG_STORAGE_WRITE_REQUEST {
        match decode_write(body) {
            Some(request) => Some(Content::StorageWriteRequest(request)),
            None => None,
        }
    } else if tag == TAG_STORAGE_DELETE_REQUEST {
        match decode_delete(body) {
            Some(request) => Some(Content::StorageDeleteRequest(request)),
            None => None,
        }
    } else if tag == TAG_SYSTEM_GET_DATETIME_RESPONSE {
        match decode_datetime_holder(body) {
            Some(datetime) => Some(
                Content::SystemGetDatetimeResponse(GetDateTimeResponse { datetime }),
            ),
            None => None,
        }
    } else if tag == TAG_SYSTEM_SET_DATETIME_REQUEST {
        match decode_datetime_holder(body) {
            Some(datetime) => Some(
                Content::SystemSetDatetimeRequest(SetDateTimeRequest { datetime }),
            ),
            None => None,
        }
    } else {
        None
    }
}

/// How the envelope reads the value behind `tag`.
pub fn kind_of_main(tag: u32) -> (kind: FieldKind)
    ensures
        kind == main_kind(tag),
{
    if tag == TAG_COMMAND_ID {
        FieldKind::U32
    } else if tag == TAG_COMMAND_STATUS {
        FieldKind::I32
    } else if tag == TAG_HAS_NEXT {
        FieldKind::Bool
    } else if content_tag_known(tag) {
        FieldKind::Message
    } else {
        FieldKind::Unknown
    }
}

/// Reads the body of a message.
pub fn decode_main(body: &[u8]) -> (r: Option<Main>)
    ensures
        r is Some <==> parse_main(body@) is Some,
        r matches Some(m) ==> parse_main(body@) == Some(m@),
{
    let mut acc = Main { command_id: 0, command_status: 0, has_next: false, content: None };
    let mut pos: usize = 0;
    assert(body@.skip(0) =~= body@);
    while pos < body.len()
        invariant
            pos <= body@.len(),
            parse_main(body@) == merge(body@.skip(pos as int), main_schema(), acc@),
        decreases body@.len() - pos,
    {
        let (tag, at) = match read_tag(body, pos) {
            Some(found) => found,
            None => {
                proof {
                    lemma_merge_fails(body@, main_schema(), acc@, pos as int, 0, 0);
                }
                return None;
            },
        };
        let kind = kind_of_main(tag);
        let field = match read_value(body, at, tag, kind) {
            Some(field) => field,
            None => {
                proof {
                    lemma_merge_fails(body@, main_schema(), acc@, pos as int, at as int, tag);
                }
                return None;
            },
        };
        proof {
            lemma_merge_step(
                body@,
                main_schema(),
                acc@,
                pos as int,
                at as int,
                field.next as int,
                tag,
                field.value(kind, body@),
            );
        }
        if tag == TAG_COMMAND_ID {
            acc.command_id = field.number as u32;
        } else if tag == TAG_COMMAND_STATUS {
            acc.command_status = field.number as i32;
        } else if tag == TAG_HAS_NEXT {
            acc.has_next = field.number != 0;
        } else if content_tag_known(tag) {
            match decode_content(tag, slice_subrange(body, field.start, field.end)) {
                Some(content) => {
                    acc.content = Some(content);
                },
                None => {
                    return None;
                },
            }
        }
        pos = field.next;
    }
    Some(acc)
}

/// Whether `data` stops inside the length that a message begins with.
pub fn stops_inside_length(data: &[u8]) -> (r: bool)
    ensures
        r == cut_short(data@, 5),
{
    if data.len() >= 5 {
        return false;
    }
    let mut i: usize = 0;
    while i < data.len()
        invariant
            i <= data@.len(),
            data@.len() < 5,
            forall|j: int| 0 <= j < i ==> data@[j] >= 0x80,
        decreases data@.len() - i,
    {
        if data[i] < 0x80 {
            return false;
        }
        i = i + 1;
    }
    true
}

/// Reads one message from the front of `data`: the length of its body, and
/// as many bytes behind it. Returns the declared length with the message.
///
/// `Incomplete` where `data` ends inside the length or before the body is
/// whole; `Malformed` where the length or the body cannot be read.
pub fn decode(data: &[u8]) -> (r: Result<(u32, Main), DecodeError>)
    ensures
        decode_match(r, decoded(data@)),
{
    proof {
        lemma_parse_width(data@);
    }
    match read_varint32(data) {
        None => {
            if stops_inside_length(data) {
                Err(DecodeError::Incomplete)
            } else {
                Err(DecodeError::Malformed)
            }
        },
        Some((len, n)) => {
            if ((data.len() - n) as u64) < len as u64 {
                Err(DecodeError::Incomplete)
            } else {
                let body = slice_subrange(data, n, n + len as usize);
                match decode_main(body) {
                    Some(m) => Ok((len, m)),
                    None => Err(DecodeError::Malformed),
                }
            }
        },
    }
}

} // verus!

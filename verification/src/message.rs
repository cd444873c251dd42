//! The messages of the protocol: one envelope, `Main`, that carries a command
//! identifier, a status, a continuation flag and at most one payload. For each
//! message this module gives the value, its mathematical view, the bytes it is
//! written as, and the record that those bytes are read back into.

use crate::varint::varint_bytes;
use crate::wire::{
    blob_field, bool_field, bytes_field, i32_field, merge, string_field, u32_field, FieldKind,
    FieldValue, Schema,
};
use vstd::prelude::*;
use vstd::utf8::*;

verus! {

/// The largest body that is written: 2^31 - 1 bytes.
pub const MAX_MESSAGE_SIZE: u64 = 0x7fff_ffff;

/// The tag of the command identifier: field 1, a number.
pub const TAG_COMMAND_ID: u32 = 8;

/// The tag of the status: field 2, a number.
pub const TAG_COMMAND_STATUS: u32 = 16;

/// The tag of the continuation flag: field 3, a number.
pub const TAG_HAS_NEXT: u32 = 24;

/// The tag of the payload "empty": field 4, a nested message.
pub const TAG_EMPTY: u32 = 34;

/// The tag of the payload "storage list request": field 7, a nested message.
pub const TAG_STORAGE_LIST_REQUEST: u32 = 58;

/// The tag of the payload "storage list response": field 8, a nested message.
pub const TAG_STORAGE_LIST_RESPONSE: u32 = 66;

/// The tag of the payload "storage read request": field 9, a nested message.
pub const TAG_STORAGE_READ_REQUEST: u32 = 74;

/// The tag of the payload "storage read response": field 10, a nested message.
pub const TAG_STORAGE_READ_RESPONSE: u32 = 82;

/// The tag of the payload "storage write request": field 11, a nested message.
pub const TAG_STORAGE_WRITE_REQUEST: u32 = 90;

/// The tag of the payload "storage delete request": field 12, a nested message.
pub const TAG_STORAGE_DELETE_REQUEST: u32 = 98;

/// The tag of the payload "app start request": field 16, a nested message.
pub const TAG_APP_START_REQUEST: u32 = 130;

/// The tag of the payload "storage stat request": field 24, a nested message.
pub const TAG_STORAGE_STAT_REQUEST: u32 = 194;

/// The tag of the payload "storage stat response": field 25, a nested message.
pub const TAG_STORAGE_STAT_RESPONSE: u32 = 202;

/// The tag of the payload "system get datetime request": field 35, a nested message.
pub const TAG_SYSTEM_GET_DATETIME_REQUEST: u32 = 282;

/// The tag of the payload "system get datetime response": field 36, a nested message.
pub const TAG_SYSTEM_GET_DATETIME_RESPONSE: u32 = 290;

/// The tag of the payload "system set datetime request": field 37, a nested message.
pub const TAG_SYSTEM_SET_DATETIME_REQUEST: u32 = 298;

/// The tag of the payload "system play audiovisual alert request": field 38, a nested message.
pub const TAG_SYSTEM_PLAY_AUDIOVISUAL_ALERT_REQUEST: u32 = 306;

/// The number that a file entry's type holds for a plain file.
pub const FILE_TYPE_FILE: i32 = 0;

/// The number that a file entry's type holds for a directory.
pub const FILE_TYPE_DIR: i32 = 1;

/// A file or directory entry of the device's storage.
#[derive(Clone, Debug, PartialEq, Eq)]
pub struct File {
    pub file_type: i32,
    pub name: String,
    pub size: u32,
    pub data: Vec<u8>,
}

/// A file entry as a value: the view of [`File`].
pub ghost struct FileView {
    pub file_type: i32,
    pub name: Seq<char>,
    pub size: u32,
    pub data: Seq<u8>,
}

impl View for File {
    type V = FileView;

    open spec fn view(&self) -> FileView {
        FileView { file_type: self.file_type, name: self.name@, size: self.size, data: self.data@ }
    }
}

/// A date and time of the device's clock. Weekdays count from Monday, 1.
#[derive(Clone, Copy, Debug, PartialEq, Eq)]
pub struct RtcDateTime {
    pub hour: u32,
    pub minute: u32,
    pub second: u32,
    pub day: u32,
    pub month: u32,
    pub year: u32,
    pub weekday: u32,
}

/// A request to start an application.
#[derive(Clone, Debug, PartialEq, Eq)]
pub struct StartRequest {
    pub name: String,
    pub args: String,
}

/// A request to list a directory.
#[derive(Clone, Debug, PartialEq, Eq)]
pub struct ListRequest {
    pub path: String,
}

/// One message of a listing: some of its entries.
#[derive(Clone, Debug, PartialEq, Eq)]
pub struct ListResponse {
    pub file: Vec<File>,
}

/// A request to read a file.
#[derive(Clone, Debug, PartialEq, Eq)]
pub struct ReadRequest {
    pub path: String,
}

/// One message of a file that is read: some of its bytes.
#[derive(Clone, Debug, PartialEq, Eq)]
pub struct ReadResponse {
    pub file: Option<File>,
}

/// One segment of a file that is written.
#[derive(Clone, Debug, PartialEq, Eq)]
pub struct WriteRequest {
    pub path: String,
    pub file: Option<File>,
}

/// A request to delete a file or a directory.
#[derive(Clone, Debug, PartialEq, Eq)]
pub struct DeleteRequest {
    pub path: String,
    pub recursive: bool,
}

/// A request for the size of a file.
#[derive(Clone, Debug, PartialEq, Eq)]
pub struct StatRequest {
    pub path: String,
}

/// The answer to a stat request: the file with its size.
#[derive(Clone, Debug, PartialEq, Eq)]
pub struct StatResponse {
    pub file: Option<File>,
}

/// The device's date and time.
#[derive(Clone, Debug, PartialEq, Eq)]
pub struct GetDateTimeResponse {
    pub datetime: Option<RtcDateTime>,
}

/// A request to set the device's date and time.
#[derive(Clone, Debug, PartialEq, Eq)]
pub struct SetDateTimeRequest {
    pub datetime: Option<RtcDateTime>,
}

/// The payload of a message: a closed set of requests and responses.
#[derive(Clone, Debug, PartialEq, Eq)]
pub enum Content {
    Empty,
    AppStartRequest(StartRequest),
    StorageListRequest(ListRequest),
    StorageListResponse(ListResponse),
    StorageReadRequest(ReadRequest),
    StorageReadResponse(ReadResponse),
    StorageWriteRequest(WriteRequest),
    StorageDeleteRequest(DeleteRequest),
    StorageStatRequest(StatRequest),
    StorageStatResponse(StatResponse),
    SystemGetDatetimeRequest,
    SystemGetDatetimeResponse(GetDateTimeResponse),
    SystemSetDatetimeRequest(SetDateTimeRequest),
    SystemPlayAudiovisualAlertRequest,
}

/// A payload as a value: the view of [`Content`].
pub ghost enum ContentView {
    Empty,
    AppStartRequest { name: Seq<char>, args: Seq<char> },
    StorageListRequest { path: Seq<char> },
    StorageListResponse { entries: Seq<FileView> },
    StorageReadRequest { path: Seq<char> },
    StorageReadResponse { file: Option<FileView> },
    StorageWriteRequest { path: Seq<char>, file: Option<FileView> },
    StorageDeleteRequest { path: Seq<char>, recursive: bool },
    StorageStatRequest { path: Seq<char> },
    StorageStatResponse { file: Option<FileView> },
    SystemGetDatetimeRequest,
    SystemGetDatetimeResponse { datetime: Option<RtcDateTime> },
    SystemSetDatetimeRequest { datetime: Option<RtcDateTime> },
    SystemPlayAudiovisualAlertRequest,
}

/// The view of a file that may be absent.
pub open spec fn file_option_view(file: Option<File>) -> Option<FileView> {
    match file {
        Some(f) => Some(f@),
        None => None,
    }
}

/// The views of a list of files, in order.
pub open spec fn files_view(files: Seq<File>) -> Seq<FileView> {
    files.map_values(|f: File| f@)
}

impl View for Content {
    type V = ContentView;

    open spec fn view(&self) -> ContentView {
        match *self {
            Content::Empty => ContentView::Empty,
            Content::AppStartRequest(r) => ContentView::AppStartRequest {
                name: r.name@,
                args: r.args@,
            },
            Content::StorageListRequest(r) => ContentView::StorageListRequest { path: r.path@ },
            Content::StorageListResponse(r) => ContentView::StorageListResponse {
                entries: files_view(r.file@),
            },
            Content::StorageReadRequest(r) => ContentView::StorageReadRequest { path: r.path@ },
            Content::StorageReadResponse(r) => ContentView::StorageReadResponse {
                file: file_option_view(r.file),
            },
            Content::StorageWriteRequest(r) => ContentView::StorageWriteRequest {
                path: r.path@,
                file: file_option_view(r.file),
            },
            Content::StorageDeleteRequest(r) => ContentView::StorageDeleteRequest {
                path: r.path@,
                recursive: r.recursive,
            },
            Content::StorageStatRequest(r) => ContentView::StorageStatRequest { path: r.path@ },
            Content::StorageStatResponse(r) => ContentView::StorageStatResponse {
                file: file_option_view(r.file),
            },
            Content::SystemGetDatetimeRequest => ContentView::SystemGetDatetimeRequest,
            Content::SystemGetDatetimeResponse(r) => ContentView::SystemGetDatetimeResponse {
                datetime: r.datetime,
            },
            Content::SystemSetDatetimeRequest(r) => ContentView::SystemSetDatetimeRequest {
                datetime: r.datetime,
            },
            Content::SystemPlayAudiovisualAlertRequest => {
                ContentView::SystemPlayAudiovisualAlertRequest
            },
        }
    }
}

/// One message of the protocol.
#[derive(Clone, Debug, PartialEq, Eq)]
pub struct Main {
    pub command_id: u32,
    pub command_status: i32,
    pub has_next: bool,
    pub content: Option<Content>,
}

/// A message as a value: the view of [`Main`].
pub ghost struct MainView {
    pub command_id: u32,
    pub command_status: i32,
    pub has_next: bool,
    pub content: Option<ContentView>,
}

impl View for Main {
    type V = MainView;

    open spec fn view(&self) -> MainView {
        MainView {
            command_id: self.command_id,
            command_status: self.command_status,
            has_next: self.has_next,
            content: match self.content {
                Some(c) => Some(c@),
                None => None,
            },
        }
    }
}

// ---------------------------------------------------------------------------
// What each message is written as.
// ---------------------------------------------------------------------------
/// The body of a file entry: type, name, size and data, each left out where
/// it is zero or empty.
pub open spec fn file_bytes(f: FileView) -> Seq<u8> {
    i32_field(8, f.file_type) + string_field(18, f.name) + u32_field(24, f.size) + blob_field(
        34,
        f.data,
    )
}

/// A file entry as field `tag` of the message around it; nothing for an
/// absent file.
pub open spec fn file_field(tag: u32, file: Option<FileView>) -> Seq<u8> {
    match file {
        Some(f) => bytes_field(tag, file_bytes(f)),
        None => Seq::empty(),
    }
}

/// The entries of a listing, each as field 1.
pub open spec fn files_bytes(files: Seq<FileView>) -> Seq<u8>
    decreases files.len(),
{
    if files.len() == 0 {
        Seq::empty()
    } else {
        bytes_field(10, file_bytes(files[0])) + files_bytes(files.drop_first())
    }
}

/// The body of a date and time: seven numbers, each left out where it is zero.
pub open spec fn datetime_bytes(d: RtcDateTime) -> Seq<u8> {
    u32_field(8, d.hour) + u32_field(16, d.minute) + u32_field(24, d.second) + u32_field(32, d.day)
        + u32_field(40, d.month) + u32_field(48, d.year) + u32_field(56, d.weekday)
}

/// A date and time as field 1 of the message around it.
pub open spec fn datetime_field(datetime: Option<RtcDateTime>) -> Seq<u8> {
    match datetime {
        Some(d) => bytes_field(10, datetime_bytes(d)),
        None => Seq::empty(),
    }
}

/// The tag under which a payload stands in the envelope.
pub open spec fn content_tag(c: ContentView) -> u32 {
    match c {
        ContentView::Empty => TAG_EMPTY,
        ContentView::AppStartRequest { .. } => TAG_APP_START_REQUEST,
        ContentView::StorageListRequest { .. } => TAG_STORAGE_LIST_REQUEST,
        ContentView::StorageListResponse { .. } => TAG_STORAGE_LIST_RESPONSE,
        ContentView::StorageReadRequest { .. } => TAG_STORAGE_READ_REQUEST,
        ContentView::StorageReadResponse { .. } => TAG_STORAGE_READ_RESPONSE,
        ContentView::StorageWriteRequest { .. } => TAG_STORAGE_WRITE_REQUEST,
        ContentView::StorageDeleteRequest { .. } => TAG_STORAGE_DELETE_REQUEST,
        ContentView::StorageStatRequest { .. } => TAG_STORAGE_STAT_REQUEST,
        ContentView::StorageStatResponse { .. } => TAG_STORAGE_STAT_RESPONSE,
        ContentView::SystemGetDatetimeRequest => TAG_SYSTEM_GET_DATETIME_REQUEST,
        ContentView::SystemGetDatetimeResponse { .. } => TAG_SYSTEM_GET_DATETIME_RESPONSE,
        ContentView::SystemSetDatetimeRequest { .. } => TAG_SYSTEM_SET_DATETIME_REQUEST,
        ContentView::SystemPlayAudiovisualAlertRequest => TAG_SYSTEM_PLAY_AUDIOVISUAL_ALERT_REQUEST,
    }
}

/// The body of a payload.
pub open spec fn content_body(c: ContentView) -> Seq<u8> {
    match c {
        ContentView::Empty => Seq::empty(),
        ContentView::AppStartRequest { name, args } => string_field(10, name) + string_field(
            18,
            args,
        ),
        ContentView::StorageListRequest { path } => string_field(10, path),
        ContentView::StorageListResponse { entries } => files_bytes(entries),
        ContentView::StorageReadRequest { path } => string_field(10, path),
        ContentView::StorageReadResponse { file } => file_field(10, file),
        ContentView::StorageWriteRequest { path, file } => string_field(10, path) + file_field(
            18,
            file,
        ),
        ContentView::StorageDeleteRequest { path, recursive } => string_field(10, path)
            + bool_field(16, recursive),
        ContentView::StorageStatRequest { path } => string_field(10, path),
        ContentView::StorageStatResponse { file } => file_field(10, file),
        ContentView::SystemGetDatetimeRequest => Seq::empty(),
        ContentView::SystemGetDatetimeResponse { datetime } => datetime_field(datetime),
        ContentView::SystemSetDatetimeRequest { datetime } => datetime_field(datetime),
        ContentView::SystemPlayAudiovisualAlertRequest => Seq::empty(),
    }
}

/// A payload as a field of the envelope; nothing for an absent payload.
pub open spec fn content_field(content: Option<ContentView>) -> Seq<u8> {
    match content {
        Some(c) => bytes_field(content_tag(c), content_body(c)),
        None => Seq::empty(),
    }
}

/// The body of a message: identifier, status, continuation flag, payload.
pub open spec fn main_bytes(m: MainView) -> Seq<u8> {
    u32_field(TAG_COMMAND_ID, m.command_id) + i32_field(TAG_COMMAND_STATUS, m.command_status)
        + bool_field(TAG_HAS_NEXT, m.has_next) + content_field(m.content)
}

/// A message as it goes over the link: the length of the body, and the body.
pub open spec fn framed(m: MainView) -> Seq<u8> {
    varint_bytes(main_bytes(m).len()) + main_bytes(m)
}

// ---------------------------------------------------------------------------
// What each message is read back into.
// ---------------------------------------------------------------------------
/// A file entry before any field is read: every field zero or empty.
pub open spec fn blank_file() -> FileView {
    FileView { file_type: 0, name: Seq::empty(), size: 0, data: Seq::empty() }
}

/// A date and time before any field is read: every number zero.
pub open spec fn blank_datetime() -> RtcDateTime {
    RtcDateTime { hour: 0, minute: 0, second: 0, day: 0, month: 0, year: 0, weekday: 0 }
}

/// A message before any field is read: identifier 0, status OK, no
/// continuation, no payload.
pub open spec fn blank_main() -> MainView {
    MainView { command_id: 0, command_status: 0, has_next: false, content: None }
}

/// How a file entry reads the value behind `tag`.
pub open spec fn file_kind(tag: u32) -> FieldKind {
    if tag == 8 {
        FieldKind::I32
    } else if tag == 18 {
        FieldKind::Bytes
    } else if tag == 24 {
        FieldKind::U32
    } else if tag == 34 {
        FieldKind::Bytes
    } else {
        FieldKind::Unknown
    }
}

/// What a value does to a file entry. A name that is not UTF-8 is refused.
pub open spec fn file_apply(acc: FileView, tag: u32, value: FieldValue) -> Option<FileView> {
    match value {
        FieldValue::Number(x) => if tag == 8 {
            Some(FileView { file_type: x as i32, ..acc })
        } else {
            Some(FileView { size: x as u32, ..acc })
        },
        FieldValue::Bytes(b) => if tag == 18 {
            if valid_utf8(b) {
                Some(FileView { name: decode_utf8(b), ..acc })
            } else {
                None
            }
        } else {
            Some(FileView { data: b, ..acc })
        },
        FieldValue::Skipped => Some(acc),
    }
}

/// The fields of a file entry: type 1, name 2, size 3, data 4.
pub open spec fn file_schema() -> Schema<FileView> {
    Schema {
        kind_of: |tag: u32| file_kind(tag),
        apply: |acc: FileView, tag: u32, value: FieldValue| file_apply(acc, tag, value),
    }
}

/// The file entry that the body `s` holds.
pub open spec fn parse_file(s: Seq<u8>) -> Option<FileView> {
    merge(s, file_schema(), blank_file())
}

/// How a date and time reads the value behind `tag`.
pub open spec fn datetime_kind(tag: u32) -> FieldKind {
    if tag == 8 || tag == 16 || tag == 24 || tag == 32 || tag == 40 || tag == 48 || tag == 56 {
        FieldKind::U32
    } else {
        FieldKind::Unknown
    }
}

/// What a value does to a date and time.
pub open spec fn datetime_apply(acc: RtcDateTime, tag: u32, value: FieldValue) -> Option<RtcDateTime> {
    match value {
        FieldValue::Number(x) => if tag == 8 {
            Some(RtcDateTime { hour: x as u32, ..acc })
        } else if tag == 16 {
            Some(RtcDateTime { minute: x as u32, ..acc })
        } else if tag == 24 {
            Some(RtcDateTime { second: x as u32, ..acc })
        } else if tag == 32 {
            Some(RtcDateTime { day: x as u32, ..acc })
        } else if tag == 40 {
            Some(RtcDateTime { month: x as u32, ..acc })
        } else if tag == 48 {
            Some(RtcDateTime { year: x as u32, ..acc })
        } else {
            Some(RtcDateTime { weekday: x as u32, ..acc })
        },
        _ => Some(acc),
    }
}

/// The fields of a date and time: hour 1, minute 2, second 3, day 4, month 5,
/// year 6, weekday 7.
pub open spec fn datetime_schema() -> Schema<RtcDateTime> {
    Schema {
        kind_of: |tag: u32| datetime_kind(tag),
        apply: |acc: RtcDateTime, tag: u32, value: FieldValue| datetime_apply(acc, tag, value),
    }
}

/// The date and time that the body `s` holds.
pub open spec fn parse_datetime(s: Seq<u8>) -> Option<RtcDateTime> {
    merge(s, datetime_schema(), blank_datetime())
}

/// A message without fields of its own: every tag is unknown to it.
pub open spec fn empty_schema() -> Schema<()> {
    Schema {
        kind_of: |tag: u32| FieldKind::Unknown,
        apply: |acc: (), tag: u32, value: FieldValue| Some(()),
    }
}

/// Whether the body `s` can be read as a message without fields.
pub open spec fn parse_empty(s: Seq<u8>) -> bool {
    merge(s, empty_schema(), ()) is Some
}

/// How a message with one text reads the value behind `tag`.
pub open spec fn text_kind(tag: u32) -> FieldKind {
    if tag == 10 {
        FieldKind::Bytes
    } else {
        FieldKind::Unknown
    }
}

/// What a value does to the text. A text that is not UTF-8 is refused.
pub open spec fn text_apply(acc: Seq<char>, tag: u32, value: FieldValue) -> Option<Seq<char>> {
    match value {
        FieldValue::Bytes(b) => if valid_utf8(b) {
            Some(decode_utf8(b))
        } else {
            None
        },
        _ => Some(acc),
    }
}

/// A message whose one field is a text, field 1: the requests that name a path.
pub open spec fn text_schema() -> Schema<Seq<char>> {
    Schema {
        kind_of: |tag: u32| text_kind(tag),
        apply: |acc: Seq<char>, tag: u32, value: FieldValue| text_apply(acc, tag, value),
    }
}

/// The path that the body `s` of a list, read or stat request holds.
pub open spec fn parse_text(s: Seq<u8>) -> Option<Seq<char>> {
    merge(s, text_schema(), Seq::empty())
}

/// How a start request reads the value behind `tag`.
pub open spec fn start_kind(tag: u32) -> FieldKind {
    if tag == 10 || tag == 18 {
        FieldKind::Bytes
    } else {
        FieldKind::Unknown
    }
}

/// What a value does to the name and the arguments of a start request.
pub open spec fn start_apply(acc: (Seq<char>, Seq<char>), tag: u32, value: FieldValue) -> Option<
    (Seq<char>, Seq<char>),
> {
    match value {
        FieldValue::Bytes(b) => if !valid_utf8(b) {
            None
        } else if tag == 10 {
            Some((decode_utf8(b), acc.1))
        } else {
            Some((acc.0, decode_utf8(b)))
        },
        _ => Some(acc),
    }
}

/// The fields of a start request: name 1, arguments 2.
pub open spec fn start_schema() -> Schema<(Seq<char>, Seq<char>)> {
    Schema {
        kind_of: |tag: u32| start_kind(tag),
        apply: |acc: (Seq<char>, Seq<char>), tag: u32, value: FieldValue|
            start_apply(acc, tag, value),
    }
}

/// The name and the arguments that the body `s` of a start request holds.
pub open spec fn parse_start(s: Seq<u8>) -> Option<(Seq<char>, Seq<char>)> {
    merge(s, start_schema(), (Seq::empty(), Seq::empty()))
}

/// How a write request reads the value behind `tag`.
pub open spec fn write_kind(tag: u32) -> FieldKind {
    if tag == 10 {
        FieldKind::Bytes
    } else if tag == 18 {
        FieldKind::Message
    } else {
        FieldKind::Unknown
    }
}

/// What a value does to the path and the file of a write request.
pub open spec fn write_apply(
    acc: (Seq<char>, Option<FileView>),
    tag: u32,
    value: FieldValue,
) -> Option<(Seq<char>, Option<FileView>)> {
    match value {
        FieldValue::Bytes(b) => if tag == 10 {
            if valid_utf8(b) {
                Some((decode_utf8(b), acc.1))
            } else {
                None
            }
        } else {
            match parse_file(b) {
                Some(f) => Some((acc.0, Some(f))),
                None => None,
            }
        },
        _ => Some(acc),
    }
}

/// The fields of a write request: path 1, file 2.
pub open spec fn write_schema() -> Schema<(Seq<char>, Option<FileView>)> {
    Schema {
        kind_of: |tag: u32| write_kind(tag),
        apply: |acc: (Seq<char>, Option<FileView>), tag: u32, value: FieldValue|
            write_apply(acc, tag, value),
    }
}

/// The path and the file that the body `s` of a write request holds.
pub open spec fn parse_write(s: Seq<u8>) -> Option<(Seq<char>, Option<FileView>)> {
    merge(s, write_schema(), (Seq::empty(), None))
}

/// How a delete request reads the value behind `tag`.
pub open spec fn delete_kind(tag: u32) -> FieldKind {
    if tag == 10 {
        FieldKind::Bytes
    } else if tag == 16 {
        FieldKind::Bool
    } else {
        FieldKind::Unknown
    }
}

/// What a value does to the path and the flag of a delete request.
pub open spec fn delete_apply(acc: (Seq<char>, bool), tag: u32, value: FieldValue) -> Option<
    (Seq<char>, bool),
> {
    match value {
        FieldValue::Bytes(b) => if valid_utf8(b) {
            Some((decode_utf8(b), acc.1))
        } else {
            None
        },
        FieldValue::Number(x) => Some((acc.0, x != 0)),
        FieldValue::Skipped => Some(acc),
    }
}

/// The fields of a delete request: path 1, recursive 2.
pub open spec fn delete_schema() -> Schema<(Seq<char>, bool)> {
    Schema {
        kind_of: |tag: u32| delete_kind(tag),
        apply: |acc: (Seq<char>, bool), tag: u32, value: FieldValue| delete_apply(acc, tag, value),
    }
}

/// The path and the flag that the body `s` of a delete request holds.
pub open spec fn parse_delete(s: Seq<u8>) -> Option<(Seq<char>, bool)> {
    merge(s, delete_schema(), (Seq::empty(), false))
}

/// How a message that holds one nested message, field 1, reads the value
/// behind `tag`.
pub open spec fn holder_kind(tag: u32) -> FieldKind {
    if tag == 10 {
        FieldKind::Message
    } else {
        FieldKind::Unknown
    }
}

/// What a value does to the file that is held: a later file replaces an
/// earlier one.
pub open spec fn file_holder_apply(acc: Option<FileView>, tag: u32, value: FieldValue) -> Option<
    Option<FileView>,
> {
    match value {
        FieldValue::Bytes(b) => match parse_file(b) {
            Some(f) => Some(Some(f)),
            None => None,
        },
        _ => Some(acc),
    }
}

/// A message whose one field is a file, field 1: the read and stat responses.
pub open spec fn file_holder_schema() -> Schema<Option<FileView>> {
    Schema {
        kind_of: |tag: u32| holder_kind(tag),
        apply: |acc: Option<FileView>, tag: u32, value: FieldValue|
            file_holder_apply(acc, tag, value),
    }
}

/// The file that the body `s` of a read or stat response holds, if any.
pub open spec fn parse_file_holder(s: Seq<u8>) -> Option<Option<FileView>> {
    merge(s, file_holder_schema(), None)
}

/// What a value does to the entries read so far: an entry joins them at the
/// end.
pub open spec fn listing_apply(acc: Seq<FileView>, tag: u32, value: FieldValue) -> Option<
    Seq<FileView>,
> {
    match value {
        FieldValue::Bytes(b) => match parse_file(b) {
            Some(f) => Some(acc.push(f)),
            None => None,
        },
        _ => Some(acc),
    }
}

/// A message whose field 1 repeats, one file each time: the list response.
pub open spec fn listing_schema() -> Schema<Seq<FileView>> {
    Schema {
        kind_of: |tag: u32| holder_kind(tag),
        apply: |acc: Seq<FileView>, tag: u32, value: FieldValue| listing_apply(acc, tag, value),
    }
}

/// The entries that the body `s` of a list response holds, in order.
pub open spec fn parse_listing(s: Seq<u8>) -> Option<Seq<FileView>> {
    merge(s, listing_schema(), Seq::empty())
}

/// What a value does to the date and time that is held.
pub open spec fn datetime_holder_apply(
    acc: Option<RtcDateTime>,
    tag: u32,
    value: FieldValue,
) -> Option<Option<RtcDateTime>> {
    match value {
        FieldValue::Bytes(b) => match parse_datetime(b) {
            Some(d) => Some(Some(d)),
            None => None,
        },
        _ => Some(acc),
    }
}

/// A message whose one field is a date and time, field 1.
pub open spec fn datetime_holder_schema() -> Schema<Option<RtcDateTime>> {
    Schema {
        kind_of: |tag: u32| holder_kind(tag),
        apply: |acc: Option<RtcDateTime>, tag: u32, value: FieldValue|
            datetime_holder_apply(acc, tag, value),
    }
}

/// The date and time that the body `s` of a clock message holds, if any.
pub open spec fn parse_datetime_holder(s: Seq<u8>) -> Option<Option<RtcDateTime>> {
    merge(s, datetime_holder_schema(), None)
}

/// The payload that the body `b` holds when it stands under `tag` in the
/// envelope. `None` where the body cannot be read as that payload, and where
/// `tag` is no payload's tag.
pub open spec fn parse_content(tag: u32, b: Seq<u8>) -> Option<ContentView> {
    if tag == TAG_EMPTY {
        if parse_empty(b) {
            Some(ContentView::Empty)
        } else {
            None
        }
    } else if tag == TAG_SYSTEM_GET_DATETIME_REQUEST {
        if parse_empty(b) {
            Some(ContentView::SystemGetDatetimeRequest)
        } else {
            None
        }
    } else if tag == TAG_SYSTEM_PLAY_AUDIOVISUAL_ALERT_REQUEST {
        if parse_empty(b) {
            Some(ContentView::SystemPlayAudiovisualAlertRequest)
        } else {
            None
        }
    } else if tag == TAG_APP_START_REQUEST {
        match parse_start(b) {
            Some((name, args)) => Some(ContentView::AppStartRequest { name, args }),
            None => None,
        }
    } else if tag == TAG_STORAGE_LIST_REQUEST {
        match parse_text(b) {
            Some(path) => Some(ContentView::StorageListRequest { path }),
            None => None,
        }
    } else if tag == TAG_STORAGE_READ_REQUEST {
        match parse_text(b) {
            Some(path) => Some(ContentView::StorageReadRequest { path }),
            None => None,
        }
    } else if tag == TAG_STORAGE_STAT_REQUEST {
        match parse_text(b) {
            Some(path) => Some(ContentView::StorageStatRequest { path }),
            None => None,
        }
    } else if tag == TAG_STORAGE_LIST_RESPONSE {
        match parse_listing(b) {
            Some(entries) => Some(ContentView::StorageListResponse { entries }),
            None => None,
        }
    } else if tag == TAG_STORAGE_READ_RESPONSE {
        match parse_file_holder(b) {
            Some(file) => Some(ContentView::StorageReadResponse { file }),
            None => None,
        }
    } else if tag == TAG_STORAGE_STAT_RESPONSE {
        match parse_file_holder(b) {
            Some(file) => Some(ContentView::StorageStatResponse { file }),
            None => None,
        }
    } else if tag == TAG_STORAGE_WRITE_REQUEST {
        match parse_write(b) {
            Some((path, file)) => Some(ContentView::StorageWriteRequest { path, file }),
            None => None,
        }
    } else if tag == TAG_STORAGE_DELETE_REQUEST {
        match parse_delete(b) {
            Some((path, recursive)) => Some(ContentView::StorageDeleteRequest { path, recursive }),
            None => None,
        }
    } else if tag == TAG_SYSTEM_GET_DATETIME_RESPONSE {
        match parse_datetime_holder(b) {
            Some(datetime) => Some(ContentView::SystemGetDatetimeResponse { datetime }),
            None => None,
        }
    } else if tag == TAG_SYSTEM_SET_DATETIME_REQUEST {
        match parse_datetime_holder(b) {
            Some(datetime) => Some(ContentView::SystemSetDatetimeRequest { datetime }),
            None => None,
        }
    } else {
        None
    }
}

/// Whether `tag` is one of the payloads' tags.
pub open spec fn is_content_tag(tag: u32) -> bool {
    tag == TAG_EMPTY || tag == TAG_STORAGE_LIST_REQUEST || tag == TAG_STORAGE_LIST_RESPONSE || tag
        == TAG_STORAGE_READ_REQUEST || tag == TAG_STORAGE_READ_RESPONSE || tag
        == TAG_STORAGE_WRITE_REQUEST || tag == TAG_STORAGE_DELETE_REQUEST || tag
        == TAG_APP_START_REQUEST || tag == TAG_STORAGE_STAT_REQUEST || tag
        == TAG_STORAGE_STAT_RESPONSE || tag == TAG_SYSTEM_GET_DATETIME_REQUEST || tag
        == TAG_SYSTEM_GET_DATETIME_RESPONSE || tag == TAG_SYSTEM_SET_DATETIME_REQUEST || tag
        == TAG_SYSTEM_PLAY_AUDIOVISUAL_ALERT_REQUEST
}

/// How the envelope reads the value behind `tag`.
pub open spec fn main_kind(tag: u32) -> FieldKind {
    if tag == TAG_COMMAND_ID {
        FieldKind::U32
    } else if tag == TAG_COMMAND_STATUS {
        FieldKind::I32
    } else if tag == TAG_HAS_NEXT {
        FieldKind::Bool
    } else if is_content_tag(tag) {
        FieldKind::Message
    } else {
        FieldKind::Unknown
    }
}

/// What a value does to the envelope. A payload replaces the payload read
/// before it.
pub open spec fn main_apply(acc: MainView, tag: u32, value: FieldValue) -> Option<MainView> {
    match value {
        FieldValue::Number(x) => if tag == TAG_COMMAND_ID {
            Some(MainView { command_id: x as u32, ..acc })
        } else if tag == TAG_COMMAND_STATUS {
            Some(MainView { command_status: x as i32, ..acc })
        } else {
            Some(MainView { has_next: x != 0, ..acc })
        },
        FieldValue::Bytes(b) => match parse_content(tag, b) {
            Some(c) => Some(MainView { content: Some(c), ..acc }),
            None => None,
        },
        FieldValue::Skipped => Some(acc),
    }
}

/// The fields of the envelope: identifier 1, status 2, continuation flag 3,
/// and one field for each payload.
pub open spec fn main_schema() -> Schema<MainView> {
    Schema {
        kind_of: |tag: u32| main_kind(tag),
        apply: |acc: MainView, tag: u32, value: FieldValue| main_apply(acc, tag, value),
    }
}

/// The message that the body `s` holds.
pub open spec fn parse_main(s: Seq<u8>) -> Option<MainView> {
    merge(s, main_schema(), blank_main())
}

} // verus!

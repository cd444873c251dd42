//! Laws that tie writing to reading: what was written is read back as the
//! same message, and no proper prefix of it is mistaken for a message.

use crate::decode::{decoded, DecodeError};
use crate::encode::encoded;
use crate::message::{
    blank_datetime, blank_file, blank_main, content_body, content_field, content_tag,
    datetime_bytes, datetime_field, datetime_holder_schema, datetime_schema, delete_schema,
    empty_schema, file_bytes, file_field, file_holder_schema, file_schema, files_bytes, framed,
    listing_schema, main_bytes, main_schema, parse_content, parse_datetime, parse_file, parse_main,
    parse_text, start_schema, text_schema, write_schema, ContentView, RtcDateTime, FileView,
    MainView, MAX_MESSAGE_SIZE, TAG_COMMAND_ID, TAG_COMMAND_STATUS, TAG_HAS_NEXT,
};
use crate::varint::{
    lemma_cut_short_parses_nothing, lemma_fits, lemma_parse_encoded, lemma_prefix_cut_short,
    lemma_varint_len, varint_bytes,
};
use crate::wire::{
    bits_of, blob_field, bool_field, bytes_field, i32_field, lemma_merge_bytes, lemma_merge_number,
    merge, signed_of, string_field, u32_field, FieldKind, FieldValue, Schema,
};
use vstd::prelude::*;
use vstd::utf8::*;

verus! {

/// A text whose encoding is empty is empty.
pub proof fn lemma_encoding_empty(s: Seq<char>)
    ensures
        encode_utf8(s).len() == 0 <==> s.len() == 0,
{
    if s.len() != 0 {
        assert(encode_scalar(s[0] as u32).len() >= 1);
    }
}

/// Reading an unsigned field that was written: the value is applied, or, where
/// it is zero and nothing was written, the record stays as it is.
pub proof fn lemma_read_u32<A>(tag: u32, v: u32, rest: Seq<u8>, schema: Schema<A>, acc: A)
    requires
        (schema.kind_of)(tag) == FieldKind::U32,
    ensures
        merge(u32_field(tag, v) + rest, schema, acc) == if v == 0 {
            merge(rest, schema, acc)
        } else {
            match (schema.apply)(acc, tag, FieldValue::Number(v as int)) {
                Some(a) => merge(rest, schema, a),
                None => None,
            }
        },
{
    if v == 0 {
        assert(u32_field(tag, v) + rest =~= rest);
    } else {
        lemma_merge_number(tag, v as nat, FieldKind::U32, rest, schema, acc);
    }
}

/// Reading a signed field that was written.
pub proof fn lemma_read_i32<A>(tag: u32, v: i32, rest: Seq<u8>, schema: Schema<A>, acc: A)
    requires
        (schema.kind_of)(tag) == FieldKind::I32,
    ensures
        merge(i32_field(tag, v) + rest, schema, acc) == if v == 0 {
            merge(rest, schema, acc)
        } else {
            match (schema.apply)(acc, tag, FieldValue::Number(v as int)) {
                Some(a) => merge(rest, schema, a),
                None => None,
            }
        },
{
    if v == 0 {
        assert(i32_field(tag, v) + rest =~= rest);
    } else {
        assert(signed_of(bits_of(v as int)) == v);
        lemma_merge_number(tag, bits_of(v as int), FieldKind::I32, rest, schema, acc);
    }
}

/// Reading a flag that was written.
pub proof fn lemma_read_bool<A>(tag: u32, v: bool, rest: Seq<u8>, schema: Schema<A>, acc: A)
    requires
        (schema.kind_of)(tag) == FieldKind::Bool,
    ensures
        merge(bool_field(tag, v) + rest, schema, acc) == if !v {
            merge(rest, schema, acc)
        } else {
            match (schema.apply)(acc, tag, FieldValue::Number(1)) {
                Some(a) => merge(rest, schema, a),
                None => None,
            }
        },
{
    if !v {
        assert(bool_field(tag, v) + rest =~= rest);
    } else {
        lemma_merge_number(tag, 1, FieldKind::Bool, rest, schema, acc);
    }
}

/// Reading a field of raw bytes that was written.
pub proof fn lemma_read_blob<A>(tag: u32, b: Seq<u8>, rest: Seq<u8>, schema: Schema<A>, acc: A)
    requires
        (schema.kind_of)(tag) == FieldKind::Bytes,
        b.len() <= u32::MAX,
    ensures
        merge(blob_field(tag, b) + rest, schema, acc) == if b.len() == 0 {
            merge(rest, schema, acc)
        } else {
            match (schema.apply)(acc, tag, FieldValue::Bytes(b)) {
                Some(a) => merge(rest, schema, a),
                None => None,
            }
        },
{
    if b.len() == 0 {
        assert(blob_field(tag, b) + rest =~= rest);
    } else {
        lemma_merge_bytes(tag, b, FieldKind::Bytes, rest, schema, acc);
    }
}

/// A bytes field is longer than the bytes it holds.
pub proof fn lemma_bytes_field_len(tag: u32, b: Seq<u8>)
    ensures
        bytes_field(tag, b).len() >= b.len() + 2,
{
    lemma_varint_len(tag as nat);
    lemma_varint_len(b.len());
}

/// A file entry that was written is read back as it was.
pub proof fn lemma_parse_file(f: FileView)
    requires
        file_bytes(f).len() <= u32::MAX,
    ensures
        parse_file(file_bytes(f)) == Some(f),
{
    broadcast use {encode_utf8_valid_utf8, encode_utf8_decode_utf8};

    let sch = file_schema();
    let name = encode_utf8(f.name);
    let w1 = i32_field(8, f.file_type);
    let w2 = string_field(18, f.name);
    let w3 = u32_field(24, f.size);
    let w4 = blob_field(34, f.data);
    let a0 = blank_file();
    let a1 = FileView { file_type: f.file_type, ..a0 };
    let a2 = FileView { name: f.name, ..a1 };
    let a3 = FileView { size: f.size, ..a2 };
    lemma_encoding_empty(f.name);
    if name.len() != 0 {
        lemma_bytes_field_len(18, name);
    }
    if f.data.len() != 0 {
        lemma_bytes_field_len(34, f.data);
    }
    let nothing = Seq::<u8>::empty();
    assert(w4 + nothing =~= w4);
    lemma_read_blob(34, f.data, nothing, sch, a3);
    assert(f.data.len() == 0 ==> f.data =~= a3.data);
    assert(merge(w4, sch, a3) == Some(f));
    lemma_read_u32(24, f.size, w4, sch, a2);
    assert(merge(w3 + w4, sch, a2) == Some(f));
    lemma_read_blob(18, name, w3 + w4, sch, a1);
    assert(f.name.len() == 0 ==> f.name =~= a1.name);
    assert(merge(w2 + (w3 + w4), sch, a1) == Some(f));
    lemma_read_i32(8, f.file_type, w2 + (w3 + w4), sch, a0);
    assert(file_bytes(f) =~= w1 + (w2 + (w3 + w4)));
}

/// A date and time that was written is read back as it was.
pub proof fn lemma_parse_datetime(d: RtcDateTime)
    ensures
        parse_datetime(datetime_bytes(d)) == Some(d),
{
    let sch = datetime_schema();
    let w1 = u32_field(8, d.hour);
    let w2 = u32_field(16, d.minute);
    let w3 = u32_field(24, d.second);
    let w4 = u32_field(32, d.day);
    let w5 = u32_field(40, d.month);
    let w6 = u32_field(48, d.year);
    let w7 = u32_field(56, d.weekday);
    let a0 = blank_datetime();
    let a1 = RtcDateTime { hour: d.hour, ..a0 };
    let a2 = RtcDateTime { minute: d.minute, ..a1 };
    let a3 = RtcDateTime { second: d.second, ..a2 };
    let a4 = RtcDateTime { day: d.day, ..a3 };
    let a5 = RtcDateTime { month: d.month, ..a4 };
    let a6 = RtcDateTime { year: d.year, ..a5 };
    let nothing = Seq::<u8>::empty();
    let r6 = w6 + w7;
    let r5 = w5 + r6;
    let r4 = w4 + r5;
    let r3 = w3 + r4;
    let r2 = w2 + r3;
    assert(merge(w7, sch, a6) == Some(d)) by {
        assert(w7 + nothing =~= w7);
        lemma_read_u32(56, d.weekday, nothing, sch, a6);
    }
    assert(merge(r6, sch, a5) == Some(d)) by {
        lemma_read_u32(48, d.year, w7, sch, a5);
    }
    assert(merge(r5, sch, a4) == Some(d)) by {
        lemma_read_u32(40, d.month, r6, sch, a4);
    }
    assert(merge(r4, sch, a3) == Some(d)) by {
        lemma_read_u32(32, d.day, r5, sch, a3);
    }
    assert(merge(r3, sch, a2) == Some(d)) by {
        lemma_read_u32(24, d.second, r4, sch, a2);
    }
    assert(merge(r2, sch, a1) == Some(d)) by {
        lemma_read_u32(16, d.minute, r3, sch, a1);
    }
    assert(merge(w1 + r2, sch, a0) == Some(d)) by {
        lemma_read_u32(8, d.hour, r2, sch, a0);
    }
    lemma_seven_parts(w1, w2, w3, w4, w5, w6, w7);
}

proof fn lemma_seven_parts(
    a: Seq<u8>,
    b: Seq<u8>,
    c: Seq<u8>,
    d: Seq<u8>,
    e: Seq<u8>,
    f: Seq<u8>,
    g: Seq<u8>,
)
    ensures
        a + b + c + d + e + f + g == a + (b + (c + (d + (e + (f + g))))),
{
    assert(a + b + c + d + e + f + g =~= a + (b + (c + (d + (e + (f + g))))));
}

/// The entries of a listing that were written are read back, in order, behind
/// the entries read before them.
pub proof fn lemma_parse_files(files: Seq<FileView>, acc: Seq<FileView>)
    requires
        files_bytes(files).len() <= u32::MAX,
    ensures
        merge(files_bytes(files), listing_schema(), acc) == Some(acc + files),
    decreases files.len(),
{
    let sch = listing_schema();
    if files.len() == 0 {
        assert(acc + files =~= acc);
    } else {
        let first = files[0];
        let rest = files.drop_first();
        lemma_bytes_field_len(10, file_bytes(first));
        lemma_parse_file(first);
        lemma_merge_bytes(10, file_bytes(first), FieldKind::Message, files_bytes(rest), sch, acc);
        lemma_parse_files(rest, acc.push(first));
        assert(acc.push(first) + rest =~= acc + files);
    }
}

/// A payload that was written is read back as it was.
pub proof fn lemma_parse_content(c: ContentView)
    requires
        content_body(c).len() <= u32::MAX,
    ensures
        parse_content(content_tag(c), content_body(c)) == Some(c),
{
    broadcast use {encode_utf8_valid_utf8, encode_utf8_decode_utf8};

    let nothing = Seq::<u8>::empty();
    match c {
        ContentView::Empty
        | ContentView::SystemGetDatetimeRequest
        | ContentView::SystemPlayAudiovisualAlertRequest => {
            assert(merge(nothing, empty_schema(), ()) is Some);
        },
        ContentView::AppStartRequest { name, args } => {
            let sch = start_schema();
            let n = encode_utf8(name);
            let a = encode_utf8(args);
            let w1 = string_field(10, name);
            let w2 = string_field(18, args);
            lemma_encoding_empty(name);
            lemma_encoding_empty(args);
            if n.len() != 0 {
                lemma_bytes_field_len(10, n);
            }
            if a.len() != 0 {
                lemma_bytes_field_len(18, a);
            }
            let a0 = (Seq::<char>::empty(), Seq::<char>::empty());
            let a1 = (name, Seq::<char>::empty());
            assert(w2 + nothing =~= w2);
            lemma_read_blob(18, a, nothing, sch, a1);
            assert(args.len() == 0 ==> args =~= Seq::<char>::empty());
            assert(merge(w2, sch, a1) == Some((name, args)));
            lemma_read_blob(10, n, w2, sch, a0);
            assert(name.len() == 0 ==> name =~= Seq::<char>::empty());
            assert(merge(w1 + w2, sch, a0) == Some((name, args)));
        },
        ContentView::StorageListRequest { path }
        | ContentView::StorageReadRequest { path }
        | ContentView::StorageStatRequest { path } => {
            lemma_parse_text(path);
        },
        ContentView::StorageListResponse { entries } => {
            lemma_parse_files(entries, Seq::empty());
            assert(Seq::<FileView>::empty() + entries =~= entries);
        },
        ContentView::StorageReadResponse { file } | ContentView::StorageStatResponse { file } => {
            let sch = file_holder_schema();
            match file {
                Some(f) => {
                    lemma_bytes_field_len(10, file_bytes(f));
                    lemma_parse_file(f);
                    lemma_merge_bytes(10, file_bytes(f), FieldKind::Message, nothing, sch, None);
                    assert(file_field(10, file) + nothing =~= file_field(10, file));
                },
                None => {},
            }
        },
        ContentView::StorageWriteRequest { path, file } => {
            let sch = write_schema();
            let p = encode_utf8(path);
            let w1 = string_field(10, path);
            let w2 = file_field(18, file);
            lemma_encoding_empty(path);
            if p.len() != 0 {
                lemma_bytes_field_len(10, p);
            }
            let a0 = (Seq::<char>::empty(), None::<FileView>);
            let a1 = (path, None::<FileView>);
            match file {
                Some(f) => {
                    lemma_bytes_field_len(18, file_bytes(f));
                    lemma_parse_file(f);
                    lemma_merge_bytes(18, file_bytes(f), FieldKind::Message, nothing, sch, a1);
                    assert(w2 + nothing =~= w2);
                },
                None => {},
            }
            assert(merge(w2, sch, a1) == Some((path, file)));
            lemma_read_blob(10, p, w2, sch, a0);
            assert(path.len() == 0 ==> path =~= Seq::<char>::empty());
            assert(merge(w1 + w2, sch, a0) == Some((path, file)));
        },
        ContentView::StorageDeleteRequest { path, recursive } => {
            let sch = delete_schema();
            let p = encode_utf8(path);
            let w1 = string_field(10, path);
            let w2 = bool_field(16, recursive);
            lemma_encoding_empty(path);
            if p.len() != 0 {
                lemma_bytes_field_len(10, p);
            }
            let a0 = (Seq::<char>::empty(), false);
            let a1 = (path, false);
            assert(w2 + nothing =~= w2);
            lemma_read_bool(16, recursive, nothing, sch, a1);
            assert(merge(w2, sch, a1) == Some((path, recursive)));
            lemma_read_blob(10, p, w2, sch, a0);
            assert(path.len() == 0 ==> path =~= Seq::<char>::empty());
            assert(merge(w1 + w2, sch, a0) == Some((path, recursive)));
        },
        ContentView::SystemGetDatetimeResponse { datetime }
        | ContentView::SystemSetDatetimeRequest { datetime } => {
            let sch = datetime_holder_schema();
            match datetime {
                Some(d) => {
                    lemma_parse_datetime(d);
                    lemma_merge_bytes(10, datetime_bytes(d), FieldKind::Message, nothing, sch, None);
                    assert(datetime_field(datetime) + nothing =~= datetime_field(datetime));
                },
                None => {},
            }
        },
    }
}

/// A path that was written as the one field of a request is read back.
pub proof fn lemma_parse_text(path: Seq<char>)
    requires
        string_field(10, path).len() <= u32::MAX,
    ensures
        parse_text(string_field(10, path)) == Some(path),
{
    broadcast use {encode_utf8_valid_utf8, encode_utf8_decode_utf8};

    let p = encode_utf8(path);
    let nothing = Seq::<u8>::empty();
    lemma_encoding_empty(path);
    if p.len() != 0 {
        lemma_bytes_field_len(10, p);
    }
    lemma_read_blob(10, p, nothing, text_schema(), Seq::<char>::empty());
    assert(string_field(10, path) + nothing =~= string_field(10, path));
    assert(path.len() == 0 ==> path =~= Seq::<char>::empty());
}

/// The body of a message that was written is read back as the message.
pub proof fn lemma_parse_main(m: MainView)
    requires
        main_bytes(m).len() <= u32::MAX,
    ensures
        parse_main(main_bytes(m)) == Some(m),
{
    let sch = main_schema();
    let w1 = u32_field(TAG_COMMAND_ID, m.command_id);
    let w2 = i32_field(TAG_COMMAND_STATUS, m.command_status);
    let w3 = bool_field(TAG_HAS_NEXT, m.has_next);
    let w4 = content_field(m.content);
    let a0 = blank_main();
    let a1 = MainView { command_id: m.command_id, ..a0 };
    let a2 = MainView { command_status: m.command_status, ..a1 };
    let a3 = MainView { has_next: m.has_next, ..a2 };
    let nothing = Seq::<u8>::empty();
    match m.content {
        Some(c) => {
            lemma_bytes_field_len(content_tag(c), content_body(c));
            lemma_parse_content(c);
            lemma_merge_bytes(
                content_tag(c),
                content_body(c),
                FieldKind::Message,
                nothing,
                sch,
                a3,
            );
            assert(w4 + nothing =~= w4);
        },
        None => {},
    }
    assert(merge(w4, sch, a3) == Some(m));
    lemma_read_bool(TAG_HAS_NEXT, m.has_next, w4, sch, a2);
    assert(merge(w3 + w4, sch, a2) == Some(m));
    lemma_read_i32(TAG_COMMAND_STATUS, m.command_status, w3 + w4, sch, a1);
    assert(merge(w2 + (w3 + w4), sch, a1) == Some(m));
    lemma_read_u32(TAG_COMMAND_ID, m.command_id, w2 + (w3 + w4), sch, a0);
    assert(main_bytes(m) =~= w1 + (w2 + (w3 + w4)));
}

/// Round trip: a message that can be written is read back from its bytes as
/// the same message, with the length of its body, whatever bytes follow it in
/// the buffer.
pub proof fn lemma_decode_encoded(m: MainView, rest: Seq<u8>)
    requires
        main_bytes(m).len() <= MAX_MESSAGE_SIZE,
    ensures
        decoded(framed(m) + rest) == Ok::<(u32, MainView), DecodeError>(
            (main_bytes(m).len() as u32, m),
        ),
{
    let body = main_bytes(m);
    let head = varint_bytes(body.len());
    let s = framed(m) + rest;
    lemma_fits(body.len());
    lemma_varint_len(body.len());
    assert(s =~= head + (body + rest));
    lemma_parse_encoded(body.len(), body + rest, 5, 0x0f);
    assert(s.subrange(head.len() as int, (head.len() + body.len()) as int) =~= body);
    lemma_parse_main(m);
}

/// Round trip, in terms of what writing gives: whenever a message can be
/// written, reading what was written gives the message back, with its
/// identifier, status, continuation flag and payload as they were.
pub proof fn lemma_round_trip(m: MainView)
    requires
        encoded(m) is Ok,
    ensures
        decoded(encoded(m)->Ok_0) == Ok::<(u32, MainView), DecodeError>(
            (main_bytes(m).len() as u32, m),
        ),
{
    lemma_decode_encoded(m, Seq::empty());
    assert(framed(m) + Seq::<u8>::empty() =~= framed(m));
}

/// No proper prefix of a written message is a message: reading one reports
/// that more bytes are to come.
pub proof fn lemma_prefix_incomplete(m: MainView, k: int)
    requires
        main_bytes(m).len() <= MAX_MESSAGE_SIZE,
        0 <= k < framed(m).len(),
    ensures
        decoded(framed(m).take(k)) == Err::<(u32, MainView), DecodeError>(
            DecodeError::Incomplete,
        ),
{
    let body = main_bytes(m);
    let head = varint_bytes(body.len());
    let p = framed(m).take(k);
    lemma_fits(body.len());
    lemma_varint_len(body.len());
    if k < head.len() {
        assert(p =~= head.take(k));
        lemma_prefix_cut_short(body.len(), k, 5, 0x0f);
        lemma_cut_short_parses_nothing(p, 5, 0x0f);
    } else {
        let part = body.take(k - head.len());
        assert(p =~= head + part);
        lemma_parse_encoded(body.len(), part, 5, 0x0f);
    }
}

} // verus!

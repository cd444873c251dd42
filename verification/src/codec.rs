//! The codec: it owns the command identifier, builds each request of the
//! protocol as bytes ready for the link, and reads responses back.
//!
//! The identifier advances once for each command, however many packets or
//! continuation messages the command takes.

use crate::chunker::{chunks_of, chunks_view, split, TRANSPORT_UNIT_SIZE};
use crate::clock::{clock_fields, in_calendar_range};
use crate::decode::{decode, decode_match, decoded, DecodeError};
use crate::encode::{bytes_match, encode, encoded, EncodeError};
use crate::message::{
    blank_file, Content, ContentView, DeleteRequest, File, FileView, ListRequest, Main, MainView,
    ReadRequest, RtcDateTime, SetDateTimeRequest, StartRequest, StatRequest, WriteRequest,
};
use vstd::prelude::*;
use vstd::slice::*;
use vstd::string::*;

verus! {

/// The most bytes of a file that one write request carries. Larger segments
/// overrun the device's receive buffer.
pub const FILE_SEGMENT_SIZE: usize = 512;

/// The codec's state: the identifier that the next command will carry, and
/// the two sizes that it cuts by. Both sizes are at least 1.
pub struct ProtobufCodec {
    command_id: u32,
    unit_size: usize,
    segment_size: usize,
}

/// One segment of a file upload: a write request, cut into packets.
#[derive(Clone, Debug, PartialEq, Eq)]
pub struct ProtobufWriteRequestChunk {
    /// The number of bytes of the file that this segment carries.
    pub file_byte_count: usize,
    /// The framed write request, in pieces of at most the transport unit,
    /// to be sent in order.
    pub packets: Vec<Vec<u8>>,
}

/// A message from the host: identifier `id`, status OK.
pub open spec fn request(id: u32, has_next: bool, content: Option<ContentView>) -> MainView {
    MainView { command_id: id, command_status: 0, has_next, content }
}

/// The packets that `m` is sent as: its framed bytes, cut at the transport
/// unit `unit`; or the reason why `m` cannot be written.
pub open spec fn packets_of(m: MainView, unit: nat) -> Result<Seq<Seq<u8>>, EncodeError> {
    match encoded(m) {
        Ok(bytes) => Ok(chunks_of(bytes, unit)),
        Err(e) => Err(e),
    }
}

/// `r` is what `want` says: the same failure, or packets that hold what
/// `want` holds.
pub open spec fn packets_match(
    r: Result<Vec<Vec<u8>>, EncodeError>,
    want: Result<Seq<Seq<u8>>, EncodeError>,
) -> bool {
    match r {
        Ok(packets) => want == Ok::<Seq<Seq<u8>>, EncodeError>(chunks_view(packets@)),
        Err(e) => want == Err::<Seq<Seq<u8>>, EncodeError>(e),
    }
}

/// The request to start the application `path` with arguments `args`.
pub open spec fn launch_request(id: u32, path: Seq<char>, args: Seq<char>) -> MainView {
    request(id, false, Some(ContentView::AppStartRequest { name: path, args }))
}

/// The request to list the directory `path`.
pub open spec fn list_request(id: u32, path: Seq<char>) -> MainView {
    request(id, false, Some(ContentView::StorageListRequest { path }))
}

/// The request to read the file `path`.
pub open spec fn read_request(id: u32, path: Seq<char>) -> MainView {
    request(id, false, Some(ContentView::StorageReadRequest { path }))
}

/// The request for the size of the file `path`.
pub open spec fn stat_request(id: u32, path: Seq<char>) -> MainView {
    request(id, false, Some(ContentView::StorageStatRequest { path }))
}

/// The request to delete `path`.
pub open spec fn delete_request(id: u32, path: Seq<char>, recursive: bool) -> MainView {
    request(id, false, Some(ContentView::StorageDeleteRequest { path, recursive }))
}

/// The request to play the device's alert.
pub open spec fn alert_request(id: u32) -> MainView {
    request(id, false, Some(ContentView::SystemPlayAudiovisualAlertRequest))
}

/// The request for the device's date and time.
pub open spec fn get_datetime_request(id: u32) -> MainView {
    request(id, false, Some(ContentView::SystemGetDatetimeRequest))
}

/// The request to set the device's date and time.
pub open spec fn set_datetime_request(id: u32, datetime: RtcDateTime) -> MainView {
    request(id, false, Some(ContentView::SystemSetDatetimeRequest { datetime: Some(datetime) }))
}

/// The segments that a file is uploaded in, each of at most `size` bytes.
pub open spec fn segments_of(data: Seq<u8>, size: nat) -> Seq<Seq<u8>> {
    chunks_of(data, size)
}

/// The write request for segment `i` of a file: the destination path and the
/// segment's bytes, with the continuation flag set on every segment but the
/// last. The one segment of an empty file carries no file entry at all.
pub open spec fn write_request(
    id: u32,
    path: Seq<char>,
    data: Seq<u8>,
    size: nat,
    i: int,
) -> MainView {
    let segments = segments_of(data, size);
    let file = if data.len() == 0 {
        None
    } else {
        Some(FileView { data: segments[i], ..blank_file() })
    };
    request(id, i + 1 < segments.len(), Some(ContentView::StorageWriteRequest { path, file }))
}

/// An empty file is uploaded as one segment that carries no bytes and is not
/// continued.
pub proof fn lemma_empty_file_one_segment(id: u32, path: Seq<char>, size: nat)
    ensures
        segments_of(Seq::empty(), size).len() == 1,
        segments_of(Seq::empty(), size)[0].len() == 0,
        !write_request(id, path, Seq::empty(), size, 0).has_next,
        write_request(id, path, Seq::empty(), size, 0).content == Some(
            ContentView::StorageWriteRequest { path, file: None },
        ),
{
}

/// Writes `m` and cuts the bytes into pieces of `unit_size` bytes.
pub fn encode_chunked(m: &Main, unit_size: usize) -> (r: Result<Vec<Vec<u8>>, EncodeError>)
    ensures
        packets_match(r, packets_of(m@, unit_size as nat)),
{
    match encode(m) {
        Ok(bytes) => Ok(split(bytes.as_slice(), unit_size)),
        Err(e) => Err(e),
    }
}

impl ProtobufCodec {
    #[verifier::type_invariant]
    spec fn sizes_positive(&self) -> bool {
        self.unit_size > 0 && self.segment_size > 0
    }

    /// The identifier that the next command will carry.
    pub closed spec fn id(&self) -> u32 {
        self.command_id
    }

    /// The transport unit: the most bytes that one packet holds.
    pub closed spec fn unit(&self) -> nat {
        self.unit_size as nat
    }

    /// The file segment size: the most bytes of a file that one write request
    /// holds.
    pub closed spec fn segment(&self) -> nat {
        self.segment_size as nat
    }

    /// A codec at the start of a session: the identifier is 0, and the sizes
    /// are `TRANSPORT_UNIT_SIZE` and `FILE_SEGMENT_SIZE`.
    pub fn new() -> (codec: ProtobufCodec)
        ensures
            codec.id() == 0,
            codec.unit() == TRANSPORT_UNIT_SIZE,
            codec.segment() == FILE_SEGMENT_SIZE,
    {
        ProtobufCodec {
            command_id: 0,
            unit_size: TRANSPORT_UNIT_SIZE,
            segment_size: FILE_SEGMENT_SIZE,
        }
    }

    /// A codec at the start of a session that cuts by the given sizes, for a
    /// link that needs other sizes than the usual ones. There is no codec for
    /// a size of 0.
    pub fn with_sizes(transport_unit_size: usize, file_segment_size: usize) -> (r: Option<
        ProtobufCodec,
    >)
        ensures
            r is Some <==> transport_unit_size > 0 && file_segment_size > 0,
            r matches Some(codec) ==> codec.id() == 0 && codec.unit() == transport_unit_size
                && codec.segment() == file_segment_size,
    {
        if transport_unit_size == 0 || file_segment_size == 0 {
            None
        } else {
            Some(
                ProtobufCodec {
                    command_id: 0,
                    unit_size: transport_unit_size,
                    segment_size: file_segment_size,
                },
            )
        }
    }

    /// The transport unit.
    pub fn transport_unit_size(&self) -> (size: usize)
        ensures
            size == self.unit(),
            size > 0,
    {
        proof {
            use_type_invariant(self);
        }
        self.unit_size
    }

    /// The file segment size.
    pub fn file_segment_size(&self) -> (size: usize)
        ensures
            size == self.segment(),
            size > 0,
    {
        proof {
            use_type_invariant(self);
        }
        self.segment_size
    }

    /// The identifier that the next command will carry.
    pub fn command_id(&self) -> (id: u32)
        ensures
            id == self.id(),
    {
        self.command_id
    }

    /// A message with the current identifier, status OK and no payload. With
    /// `increment` the identifier advances by one; without, it stays.
    pub fn new_blank_packet(&mut self, increment: bool) -> (m: Main)
        requires
            increment ==> old(self).id() < u32::MAX,
        ensures
            m@ == request(old(self).id(), false, None),
            final(self).id() == if increment {
                (old(self).id() + 1) as u32
            } else {
                old(self).id()
            },
            final(self).unit() == old(self).unit(),
            final(self).segment() == old(self).segment(),
    {
        let m = Main {
            command_id: self.command_id,
            command_status: 0,
            has_next: false,
            content: None,
        };
        if increment {
            proof {
                use_type_invariant(&*self);
            }
            self.command_id = self.command_id + 1;
        }
        m
    }

    /// Advances the identifier by one.
    pub fn inc_command_id(&mut self)
        requires
            old(self).id() < u32::MAX,
        ensures
            final(self).id() == old(self).id() + 1,
            final(self).unit() == old(self).unit(),
            final(self).segment() == old(self).segment(),
    {
        proof {
            use_type_invariant(&*self);
        }
        self.command_id = self.command_id + 1;
    }

    /// A message without payload and with status OK, framed. The identifier
    /// advances by one.
    pub fn create_ok_packet(&mut self) -> (r: Result<Vec<u8>, EncodeError>)
        requires
            old(self).id() < u32::MAX,
        ensures
            final(self).id() == old(self).id() + 1,
            final(self).unit() == old(self).unit(),
            final(self).segment() == old(self).segment(),
            bytes_match(r, encoded(request(old(self).id(), false, None))),
    {
        let m = self.new_blank_packet(true);
        encode(&m)
    }

    /// A request to start the application `path` with arguments `args`, in
    /// packets. The identifier advances by one.
    pub fn create_launch_request_packet(&mut self, path: &str, args: &str) -> (r: Result<
        Vec<Vec<u8>>,
        EncodeError,
    >)
        requires
            old(self).id() < u32::MAX,
        ensures
            final(self).id() == old(self).id() + 1,
            final(self).unit() == old(self).unit(),
            final(self).segment() == old(self).segment(),
            packets_match(
                r,
                packets_of(launch_request(old(self).id(), path@, args@), old(self).unit()),
            ),
    {
        let unit = self.transport_unit_size();
        let mut m = self.new_blank_packet(true);
        m.content = Some(
            Content::AppStartRequest(StartRequest { name: path.to_owned(), args: args.to_owned() }),
        );
        encode_chunked(&m, unit)
    }

    /// A request to list the directory `path`, in packets. The identifier
    /// advances by one.
    pub fn create_list_request_packet(&mut self, path: &str) -> (r: Result<
        Vec<Vec<u8>>,
        EncodeError,
    >)
        requires
            old(self).id() < u32::MAX,
        ensures
            final(self).id() == old(self).id() + 1,
            final(self).unit() == old(self).unit(),
            final(self).segment() == old(self).segment(),
            packets_match(r, packets_of(list_request(old(self).id(), path@), old(self).unit())),
    {
        let unit = self.transport_unit_size();
        let mut m = self.new_blank_packet(true);
        m.content = Some(Content::StorageListRequest(ListRequest { path: path.to_owned() }));
        encode_chunked(&m, unit)
    }

    /// The write requests that upload `file_data` to `dest_path`: one for
    /// each segment of at most the file segment size, each in packets. All of
    /// them carry the same identifier, which advances by one when all are
    /// built, and stays where one of them cannot be written.
    pub fn create_write_request_packets(&mut self, file_data: &[u8], dest_path: &str) -> (r:
        Result<Vec<ProtobufWriteRequestChunk>, EncodeError>)
        requires
            old(self).id() < u32::MAX,
        ensures
            final(self).unit() == old(self).unit(),
            final(self).segment() == old(self).segment(),
            match r {
                Ok(chunks) => {
                    &&& final(self).id() == old(self).id() + 1
                    &&& chunks@.len() == segments_of(file_data@, old(self).segment()).len()
                    &&& forall|i: int|
                        0 <= i < chunks@.len() ==> (#[trigger] chunks@[i]).file_byte_count
                            == segments_of(file_data@, old(self).segment())[i].len() && packets_of(
                            write_request(
                                old(self).id(),
                                dest_path@,
                                file_data@,
                                old(self).segment(),
                                i,
                            ),
                            old(self).unit(),
                        ) == Ok::<Seq<Seq<u8>>, EncodeError>(chunks_view(chunks@[i].packets@))
                },
                Err(e) => {
                    &&& final(self).id() == old(self).id()
                    &&& exists|i: int|
                        0 <= i < segments_of(file_data@, old(self).segment()).len()
                            && #[trigger] packets_of(
                            write_request(
                                old(self).id(),
                                dest_path@,
                                file_data@,
                                old(self).segment(),
                                i,
                            ),
                            old(self).unit(),
                        ) == Err::<Seq<Seq<u8>>, EncodeError>(e)
                },
            },
            file_data@.len() == 0 ==> (r matches Ok(chunks) ==> chunks@.len() == 1
                && chunks@[0].file_byte_count == 0),
    {
        let unit = self.transport_unit_size();
        let size = self.file_segment_size();
        let segments = split(file_data, size);
        let mut stream: Vec<ProtobufWriteRequestChunk> = Vec::new();
        let ghost id = self.id();
        let whole = file_data.len() == 0;
        let mut i: usize = 0;
        while i < segments.len()
            invariant
                i <= segments@.len(),
                self.id() == id,
                id == old(self).id(),
                self.unit() == old(self).unit(),
                self.segment() == old(self).segment(),
                unit == self.unit(),
                size == self.segment(),
                whole == (file_data@.len() == 0),
                chunks_view(segments@) == segments_of(file_data@, size as nat),
                stream@.len() == i,
                forall|j: int|
                    0 <= j < i ==> (#[trigger] stream@[j]).file_byte_count == segments_of(
                        file_data@,
                        size as nat,
                    )[j].len() && packets_of(
                        write_request(id, dest_path@, file_data@, size as nat, j),
                        unit as nat,
                    ) == Ok::<Seq<Seq<u8>>, EncodeError>(chunks_view(stream@[j].packets@)),
            decreases segments@.len() - i,
        {
            let segment = &segments[i];
            proof {
                assert(chunks_view(segments@)[i as int] == segments@[i as int]@);
            }
            let file = if whole {
                None
            } else {
                Some(
                    File {
                        file_type: 0,
                        name: String::new(),
                        size: 0,
                        data: slice_to_vec(segment.as_slice()),
                    },
                )
            };
            let mut m = self.new_blank_packet(false);
            m.has_next = i + 1 < segments.len();
            m.content = Some(
                Content::StorageWriteRequest(WriteRequest { path: dest_path.to_owned(), file }),
            );
            proof {
                let want = write_request(id, dest_path@, file_data@, size as nat, i as int);
                assert(m@.content == want.content);
                assert(m@ == want);
            }
            let packets = match encode_chunked(&m, unit) {
                Ok(packets) => packets,
                Err(e) => {
                    return Err(e);
                },
            };
            stream.push(ProtobufWriteRequestChunk { file_byte_count: segment.len(), packets });
            i = i + 1;
        }
        self.inc_command_id();
        Ok(stream)
    }

    /// A request to read the file `path`, in packets. The identifier advances
    /// by one.
    pub fn create_read_request_packet(&mut self, path: &str) -> (r: Result<
        Vec<Vec<u8>>,
        EncodeError,
    >)
        requires
            old(self).id() < u32::MAX,
        ensures
            final(self).id() == old(self).id() + 1,
            final(self).unit() == old(self).unit(),
            final(self).segment() == old(self).segment(),
            packets_match(r, packets_of(read_request(old(self).id(), path@), old(self).unit())),
    {
        let unit = self.transport_unit_size();
        let mut m = self.new_blank_packet(true);
        m.content = Some(Content::StorageReadRequest(ReadRequest { path: path.to_owned() }));
        encode_chunked(&m, unit)
    }

    /// A request for the size of the file `path`, in packets. The identifier
    /// advances by one.
    pub fn create_stat_request_packet(&mut self, path: &str) -> (r: Result<
        Vec<Vec<u8>>,
        EncodeError,
    >)
        requires
            old(self).id() < u32::MAX,
        ensures
            final(self).id() == old(self).id() + 1,
            final(self).unit() == old(self).unit(),
            final(self).segment() == old(self).segment(),
            packets_match(r, packets_of(stat_request(old(self).id(), path@), old(self).unit())),
    {
        let unit = self.transport_unit_size();
        let mut m = self.new_blank_packet(true);
        m.content = Some(Content::StorageStatRequest(StatRequest { path: path.to_owned() }));
        encode_chunked(&m, unit)
    }

    /// A request to delete `path`, and with `recursive` what lies below it, in
    /// packets. The identifier advances by one.
    pub fn create_delete_request_packet(&mut self, path: &str, recursive: bool) -> (r: Result<
        Vec<Vec<u8>>,
        EncodeError,
    >)
        requires
            old(self).id() < u32::MAX,
        ensures
            final(self).id() == old(self).id() + 1,
            final(self).unit() == old(self).unit(),
            final(self).segment() == old(self).segment(),
            packets_match(
                r,
                packets_of(delete_request(old(self).id(), path@, recursive), old(self).unit()),
            ),
    {
        let unit = self.transport_unit_size();
        let mut m = self.new_blank_packet(true);
        m.content = Some(
            Content::StorageDeleteRequest(DeleteRequest { path: path.to_owned(), recursive }),
        );
        encode_chunked(&m, unit)
    }

    /// A request to play the device's alert, framed. The identifier advances
    /// by one.
    pub fn create_alert_request_packet(&mut self) -> (r: Result<Vec<u8>, EncodeError>)
        requires
            old(self).id() < u32::MAX,
        ensures
            final(self).id() == old(self).id() + 1,
            final(self).unit() == old(self).unit(),
            final(self).segment() == old(self).segment(),
            bytes_match(r, encoded(alert_request(old(self).id()))),
    {
        let mut m = self.new_blank_packet(true);
        m.content = Some(Content::SystemPlayAudiovisualAlertRequest);
        encode(&m)
    }

    /// A request to set the device's clock to the given numbers, framed. The
    /// identifier advances by one.
    pub fn create_set_datetime_request_from_fields(&mut self, datetime: RtcDateTime) -> (r: Result<
        Vec<u8>,
        EncodeError,
    >)
        requires
            old(self).id() < u32::MAX,
        ensures
            final(self).id() == old(self).id() + 1,
            final(self).unit() == old(self).unit(),
            final(self).segment() == old(self).segment(),
            bytes_match(r, encoded(set_datetime_request(old(self).id(), datetime))),
    {
        let mut m = self.new_blank_packet(true);
        m.content = Some(
            Content::SystemSetDatetimeRequest(SetDateTimeRequest { datetime: Some(datetime) }),
        );
        encode(&m)
    }

    /// A request to set the device's clock to `datetime`, framed. The
    /// identifier advances by one. The request carries the numbers that
    /// `chrono` reads off `datetime`, which lie in the calendar's ranges.
    pub fn create_set_datetime_request_packet(&mut self, datetime: chrono::NaiveDateTime) -> (r:
        Result<Vec<u8>, EncodeError>)
        requires
            old(self).id() < u32::MAX,
        ensures
            final(self).id() == old(self).id() + 1,
            final(self).unit() == old(self).unit(),
            final(self).segment() == old(self).segment(),
            exists|d: RtcDateTime|
                in_calendar_range(d) && #[trigger] bytes_match(
                    r,
                    encoded(set_datetime_request(old(self).id(), d)),
                ),
    {
        let fields = clock_fields(&datetime);
        self.create_set_datetime_request_from_fields(fields)
    }

    /// A request for the device's date and time, framed. The identifier
    /// advances by one.
    pub fn create_get_datetime_request_packet(&mut self) -> (r: Result<Vec<u8>, EncodeError>)
        requires
            old(self).id() < u32::MAX,
        ensures
            final(self).id() == old(self).id() + 1,
            final(self).unit() == old(self).unit(),
            final(self).segment() == old(self).segment(),
            bytes_match(r, encoded(get_datetime_request(old(self).id()))),
    {
        let mut m = self.new_blank_packet(true);
        m.content = Some(Content::SystemGetDatetimeRequest);
        encode(&m)
    }

    /// Reads one message from the front of `data`, which starts with the
    /// length of the message's body. Returns that length with the message.
    pub fn parse_response(data: &[u8]) -> (r: Result<(u32, Main), DecodeError>)
        ensures
            decode_match(r, decoded(data@)),
    {
        decode(data)
    }
}

} // verus!

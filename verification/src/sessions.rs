//! The commands that take more than one exchange, each as a machine that is
//! told what arrived and says what to do: a download, a directory listing, an
//! upload. The caller owns the link; it writes, waits and reads as it is
//! told, and hands every notification over as it comes.

use crate::codec::ProtobufWriteRequestChunk;
use crate::flows::{
    advance_progress, list_outcome, read_data, response_gate, stat_outcome, stat_size,
    take_list_message, take_read_message, CommandError,
};
use crate::message::{
    files_view, framed, main_bytes, ContentView, File, FileView, MainView, MAX_MESSAGE_SIZE,
};
use crate::pacing::{
    next_send_step, send_start, send_step, start_sending, PacingPolicy, SendCursor, SendStep,
};
use crate::reassembler::{
    fresh, lemma_whole_message_arrives, step, ResponseStream, StreamEvent, StreamEventView,
    StreamModel, StreamState,
};
use vstd::prelude::*;

verus! {

/// Where a download stands.
#[derive(Clone, Copy, Debug, PartialEq, Eq, Structural)]
pub enum DownloadPhase {
    /// The size of the file was asked for; the answer is awaited.
    AwaitingSize,
    /// The file was asked for; its bytes are arriving.
    Reading,
    /// The file is whole.
    Finished,
    /// The download failed.
    Failed,
}

/// What a notification meant to a download.
#[derive(Clone, Copy, Debug, PartialEq, Eq, Structural)]
pub enum DownloadEvent {
    /// Nothing yet: wait for the next notification.
    Wait,
    /// The file has this size: send the read request now.
    SizeKnown(u32),
    /// So many bytes of the file are here; more follow.
    Received(usize),
    /// The file is whole.
    Complete,
    /// The download failed.
    Failed(CommandError),
    /// The download had ended before; the notification was ignored.
    Closed,
}

/// A download as a value.
pub ghost struct DownloadModel {
    pub phase: DownloadPhase,
    pub stream: StreamModel,
    pub received: Seq<u8>,
}

/// A download for which nothing has arrived.
pub open spec fn download_start() -> DownloadModel {
    DownloadModel { phase: DownloadPhase::AwaitingSize, stream: fresh(), received: Seq::empty() }
}

/// A download after it failed.
pub open spec fn download_failed(d: DownloadModel, stream: StreamModel) -> DownloadModel {
    DownloadModel { phase: DownloadPhase::Failed, stream, received: d.received }
}

/// What one notification does to a download.
///
/// While the size is awaited, the first message that is whole must be the
/// answer to the stat request; with it the reading starts on a stream of its
/// own. While the file is read, every message adds its bytes, and the one
/// that announces no further message completes the file. An empty payload, a
/// status other than OK, a payload of another kind where the size is awaited,
/// and bytes that cannot be a message all end the download.
pub open spec fn download_step(d: DownloadModel, fragment: Seq<u8>) -> (
    DownloadModel,
    DownloadEvent,
) {
    if d.phase == DownloadPhase::Finished || d.phase == DownloadPhase::Failed {
        (d, DownloadEvent::Closed)
    } else {
        let (stream, event) = step(d.stream, fragment);
        let waiting = DownloadModel { phase: d.phase, stream, received: d.received };
        match event {
            StreamEventView::Waiting | StreamEventView::Closed => (waiting, DownloadEvent::Wait),
            StreamEventView::Malformed => (
                download_failed(d, stream),
                DownloadEvent::Failed(CommandError::MalformedResponse),
            ),
            StreamEventView::Message(m) | StreamEventView::Last(m) => {
                if d.phase == DownloadPhase::AwaitingSize {
                    match stat_outcome(m) {
                        Ok(size) => (
                            DownloadModel {
                                phase: DownloadPhase::Reading,
                                stream: fresh(),
                                received: d.received,
                            },
                            DownloadEvent::SizeKnown(size),
                        ),
                        Err(e) => (download_failed(d, stream), DownloadEvent::Failed(e)),
                    }
                } else {
                    match response_gate(m) {
                        Ok(()) => {
                            let received = d.received + read_data(m);
                            if m.has_next {
                                (
                                    DownloadModel { phase: DownloadPhase::Reading, stream, received },
                                    DownloadEvent::Received(received.len() as usize),
                                )
                            } else {
                                (
                                    DownloadModel {
                                        phase: DownloadPhase::Finished,
                                        stream,
                                        received,
                                    },
                                    DownloadEvent::Complete,
                                )
                            }
                        },
                        Err(e) => (download_failed(d, stream), DownloadEvent::Failed(e)),
                    }
                }
            },
        }
    }
}

/// A path that does not exist: the device answers the stat request, or the
/// read request, with the empty payload. Whenever that answer arrives whole,
/// the download fails with `InvalidPath`; it never completes as a file of no
/// bytes.
pub proof fn lemma_missing_path_fails_download(d: DownloadModel, m: MainView)
    requires
        d.phase == DownloadPhase::AwaitingSize || d.phase == DownloadPhase::Reading,
        d.stream.state == StreamState::AwaitingFirstFragment || d.stream.state
            == StreamState::Accumulating,
        d.stream.buffer.len() == 0,
        m.content == Some(ContentView::Empty),
        main_bytes(m).len() <= MAX_MESSAGE_SIZE,
    ensures
        download_step(d, framed(m)).1 == DownloadEvent::Failed(CommandError::InvalidPath),
        download_step(d, framed(m)).0.phase == DownloadPhase::Failed,
        download_step(d, framed(m)).0.received == d.received,
{
    lemma_whole_message_arrives(d.stream, m);
    assert(response_gate(m) == Err::<(), CommandError>(CommandError::InvalidPath));
    assert(stat_outcome(m) == Err::<u32, CommandError>(CommandError::InvalidPath));
}

/// A download in progress.
pub struct Download {
    phase: DownloadPhase,
    stream: ResponseStream,
    received: Vec<u8>,
}

impl Download {
    /// The download as a value.
    pub closed spec fn model(&self) -> DownloadModel {
        DownloadModel {
            phase: self.phase,
            stream: self.stream.model(),
            received: self.received@,
        }
    }

    /// A download for which nothing has arrived. The stat request is to be
    /// sent first.
    pub fn new() -> (d: Download)
        ensures
            d.model() == download_start(),
    {
        Download {
            phase: DownloadPhase::AwaitingSize,
            stream: ResponseStream::new(),
            received: Vec::new(),
        }
    }

    /// Where the download stands.
    pub fn phase(&self) -> (phase: DownloadPhase)
        ensures
            phase == self.model().phase,
    {
        self.phase
    }

    /// Takes one notification and says what it meant.
    pub fn on_fragment(&mut self, fragment: &[u8]) -> (event: DownloadEvent)
        ensures
            (final(self).model(), event) == download_step(old(self).model(), fragment@),
    {
        match self.phase {
            DownloadPhase::Finished | DownloadPhase::Failed => {
                return DownloadEvent::Closed;
            },
            _ => {},
        }
        let message = match self.stream.on_fragment(fragment) {
            StreamEvent::Waiting | StreamEvent::Closed => {
                return DownloadEvent::Wait;
            },
            StreamEvent::Malformed => {
                self.phase = DownloadPhase::Failed;
                return DownloadEvent::Failed(CommandError::MalformedResponse);
            },
            StreamEvent::Message(m) => m,
            StreamEvent::Last(m) => m,
        };
        match self.phase {
            DownloadPhase::AwaitingSize => match stat_size(&message) {
                Ok(size) => {
                    self.phase = DownloadPhase::Reading;
                    self.stream = ResponseStream::new();
                    DownloadEvent::SizeKnown(size)
                },
                Err(e) => {
                    self.phase = DownloadPhase::Failed;
                    DownloadEvent::Failed(e)
                },
            },
            _ => match take_read_message(&mut self.received, &message) {
                Ok(done) => {
                    if done {
                        self.phase = DownloadPhase::Finished;
                        DownloadEvent::Complete
                    } else {
                        DownloadEvent::Received(self.received.len())
                    }
                },
                Err(e) => {
                    self.phase = DownloadPhase::Failed;
                    DownloadEvent::Failed(e)
                },
            },
        }
    }

    /// The bytes of the file that are here.
    pub fn into_bytes(self) -> (bytes: Vec<u8>)
        ensures
            bytes@ == self.model().received,
    {
        self.received
    }
}

/// Where a listing stands.
#[derive(Clone, Copy, Debug, PartialEq, Eq, Structural)]
pub enum ListingPhase {
    /// Entries are arriving.
    Collecting,
    /// The listing is whole.
    Finished,
    /// The listing failed.
    Failed,
}

/// What a notification meant to a listing.
#[derive(Clone, Copy, Debug, PartialEq, Eq, Structural)]
pub enum ListingEvent {
    /// Nothing yet: wait for the next notification.
    Wait,
    /// So many entries are here; more follow.
    Gathered(usize),
    /// The listing is whole.
    Complete,
    /// The listing failed.
    Failed(CommandError),
    /// The listing had ended before; the notification was ignored.
    Closed,
}

/// A listing as a value.
pub ghost struct ListingModel {
    pub phase: ListingPhase,
    pub stream: StreamModel,
    pub entries: Seq<FileView>,
}

/// A listing for which nothing has arrived.
pub open spec fn listing_start() -> ListingModel {
    ListingModel { phase: ListingPhase::Collecting, stream: fresh(), entries: Seq::empty() }
}

/// What one notification does to a listing: every message adds its entries
/// behind those that are here, and the one that announces no further message
/// completes the listing. An empty payload, a status other than OK, a payload
/// of another kind and bytes that cannot be a message end it.
pub open spec fn listing_step(l: ListingModel, fragment: Seq<u8>) -> (ListingModel, ListingEvent) {
    if l.phase != ListingPhase::Collecting {
        (l, ListingEvent::Closed)
    } else {
        let (stream, event) = step(l.stream, fragment);
        let failed = ListingModel { phase: ListingPhase::Failed, stream, entries: l.entries };
        match event {
            StreamEventView::Waiting | StreamEventView::Closed => (
                ListingModel { phase: l.phase, stream, entries: l.entries },
                ListingEvent::Wait,
            ),
            StreamEventView::Malformed => (
                failed,
                ListingEvent::Failed(CommandError::MalformedResponse),
            ),
            StreamEventView::Message(m) | StreamEventView::Last(m) => match list_outcome(m) {
                Ok(files) => {
                    let entries = l.entries + files;
                    if m.has_next {
                        (
                            ListingModel { phase: ListingPhase::Collecting, stream, entries },
                            ListingEvent::Gathered(entries.len() as usize),
                        )
                    } else {
                        (
                            ListingModel { phase: ListingPhase::Finished, stream, entries },
                            ListingEvent::Complete,
                        )
                    }
                },
                Err(e) => (failed, ListingEvent::Failed(e)),
            },
        }
    }
}

/// A path that does not exist: whenever the empty payload arrives whole, the
/// listing fails with `InvalidPath`; it never completes as a listing of no
/// entries.
pub proof fn lemma_missing_path_fails_listing(l: ListingModel, m: MainView)
    requires
        l.phase == ListingPhase::Collecting,
        l.stream.state == StreamState::AwaitingFirstFragment || l.stream.state
            == StreamState::Accumulating,
        l.stream.buffer.len() == 0,
        m.content == Some(ContentView::Empty),
        main_bytes(m).len() <= MAX_MESSAGE_SIZE,
    ensures
        listing_step(l, framed(m)).1 == ListingEvent::Failed(CommandError::InvalidPath),
        listing_step(l, framed(m)).0.phase == ListingPhase::Failed,
{
    lemma_whole_message_arrives(l.stream, m);
    assert(list_outcome(m) == Err::<Seq<FileView>, CommandError>(CommandError::InvalidPath));
}

/// A listing in progress.
pub struct Listing {
    phase: ListingPhase,
    stream: ResponseStream,
    entries: Vec<File>,
}

impl Listing {
    /// The listing as a value.
    pub closed spec fn model(&self) -> ListingModel {
        ListingModel {
            phase: self.phase,
            stream: self.stream.model(),
            entries: files_view(self.entries@),
        }
    }

    /// A listing for which nothing has arrived.
    pub fn new() -> (l: Listing)
        ensures
            l.model() == listing_start(),
    {
        let l = Listing {
            phase: ListingPhase::Collecting,
            stream: ResponseStream::new(),
            entries: Vec::new(),
        };
        proof {
            assert(files_view(l.entries@) =~= Seq::<FileView>::empty());
        }
        l
    }

    /// Where the listing stands.
    pub fn phase(&self) -> (phase: ListingPhase)
        ensures
            phase == self.model().phase,
    {
        self.phase
    }

    /// Takes one notification and says what it meant.
    pub fn on_fragment(&mut self, fragment: &[u8]) -> (event: ListingEvent)
        ensures
            (final(self).model(), event) == listing_step(old(self).model(), fragment@),
    {
        match self.phase {
            ListingPhase::Collecting => {},
            _ => {
                return ListingEvent::Closed;
            },
        }
        let message = match self.stream.on_fragment(fragment) {
            StreamEvent::Waiting | StreamEvent::Closed => {
                return ListingEvent::Wait;
            },
            StreamEvent::Malformed => {
                self.phase = ListingPhase::Failed;
                return ListingEvent::Failed(CommandError::MalformedResponse);
            },
            StreamEvent::Message(m) => m,
            StreamEvent::Last(m) => m,
        };
        match take_list_message(&mut self.entries, message) {
            Ok(done) => {
                if done {
                    self.phase = ListingPhase::Finished;
                    ListingEvent::Complete
                } else {
                    ListingEvent::Gathered(self.entries.len())
                }
            },
            Err(e) => {
                self.phase = ListingPhase::Failed;
                ListingEvent::Failed(e)
            },
        }
    }

    /// The entries that are here, in the order of their arrival.
    pub fn into_entries(self) -> (entries: Vec<File>)
        ensures
            files_view(entries@) == self.model().entries,
    {
        self.entries
    }
}

/// Where an upload stands within the segment in hand.
#[derive(Clone, Copy, Debug, PartialEq, Eq, Structural)]
pub enum UploadPhase {
    /// The packets of the segment are going out.
    Sending,
    /// The segment is out and the progress was reported.
    Reported,
    /// All segments are out and the last pause was taken.
    Settled,
}

/// Where an upload stands.
#[derive(Clone, Copy, Debug, PartialEq, Eq, Structural)]
pub struct UploadCursor {
    /// The segment in hand.
    pub segment: usize,
    /// Where the sending of its packets stands.
    pub send: SendCursor,
    pub phase: UploadPhase,
    /// The bytes of the file that are out.
    pub position: u64,
}

/// What the caller of an upload is to do next.
#[derive(Clone, Copy, Debug, PartialEq, Eq, Structural)]
pub enum UploadStep {
    /// Write this packet of this segment, without asking for a response.
    Write { segment: usize, packet: usize },
    /// Look, without waiting, whether a flow control signal is pending.
    Probe,
    /// Wait for so many milliseconds.
    Pause(u64),
    /// So many bytes of the file are out.
    Progress(u64),
    /// All is out: read the response.
    ReadResponse,
}

/// The cursor before the first packet of the first segment.
pub open spec fn upload_start() -> UploadCursor {
    UploadCursor { segment: 0, send: send_start(), phase: UploadPhase::Sending, position: 0 }
}

/// The progress after a segment that carries `count` bytes of the file.
pub open spec fn progress_after(position: u64, count: usize) -> u64 {
    if position + count <= u64::MAX {
        (position + count) as u64
    } else {
        u64::MAX
    }
}

/// The next step of an upload and the cursor after it.
///
/// The packets of each segment go out as the pacing says. After a segment
/// the progress is reported, by what the segment carries of the file, and
/// the pause between segments is taken. After the last segment the pause
/// before the response is taken, and the response is read.
pub open spec fn upload_step(
    policy: PacingPolicy,
    chunks: Seq<ProtobufWriteRequestChunk>,
    cursor: UploadCursor,
    signal: bool,
) -> (UploadCursor, UploadStep) {
    if cursor.segment >= chunks.len() {
        if cursor.phase == UploadPhase::Settled {
            (cursor, UploadStep::ReadResponse)
        } else {
            (
                UploadCursor { phase: UploadPhase::Settled, ..cursor },
                UploadStep::Pause(policy.response_delay_ms),
            )
        }
    } else if cursor.phase == UploadPhase::Sending {
        let chunk = chunks[cursor.segment as int];
        let (send, step) = send_step(policy, chunk.packets@.len() as usize, cursor.send, signal);
        match step {
            SendStep::Write(packet) => (
                UploadCursor { send, ..cursor },
                UploadStep::Write { segment: cursor.segment, packet },
            ),
            SendStep::Probe => (UploadCursor { send, ..cursor }, UploadStep::Probe),
            SendStep::Pause(millis) => (UploadCursor { send, ..cursor }, UploadStep::Pause(millis)),
            SendStep::Done => {
                let position = progress_after(cursor.position, chunk.file_byte_count);
                (
                    UploadCursor { send, phase: UploadPhase::Reported, position, ..cursor },
                    UploadStep::Progress(position),
                )
            },
        }
    } else {
        (
            UploadCursor {
                segment: (cursor.segment + 1) as usize,
                send: send_start(),
                phase: UploadPhase::Sending,
                position: cursor.position,
            },
            UploadStep::Pause(policy.segment_delay_ms),
        )
    }
}

/// The cursor before the first packet of the first segment.
pub fn start_upload() -> (cursor: UploadCursor)
    ensures
        cursor == upload_start(),
{
    UploadCursor {
        segment: 0,
        send: start_sending(),
        phase: UploadPhase::Sending,
        position: 0,
    }
}

/// Says what to do next in an upload and moves the cursor past it. `signal`
/// says whether the last probe found a flow control signal.
pub fn next_upload_step(
    policy: &PacingPolicy,
    chunks: &Vec<ProtobufWriteRequestChunk>,
    cursor: UploadCursor,
    signal: bool,
) -> (r: (UploadCursor, UploadStep))
    ensures
        r == upload_step(*policy, chunks@, cursor, signal),
        r.1 matches UploadStep::Write { segment, packet } ==> segment < chunks@.len() && packet
            < chunks@[segment as int].packets@.len(),
{
    if cursor.segment >= chunks.len() {
        return match cursor.phase {
            UploadPhase::Settled => (cursor, UploadStep::ReadResponse),
            _ => (
                UploadCursor {
                    segment: cursor.segment,
                    send: cursor.send,
                    phase: UploadPhase::Settled,
                    position: cursor.position,
                },
                UploadStep::Pause(policy.response_delay_ms),
            ),
        };
    }
    match cursor.phase {
        UploadPhase::Sending => {
            let chunk = &chunks[cursor.segment];
            let (send, step) = next_send_step(policy, chunk.packets.len(), cursor.send, signal);
            let moved = UploadCursor {
                segment: cursor.segment,
                send,
                phase: cursor.phase,
                position: cursor.position,
            };
            match step {
                SendStep::Write(packet) => (
                    moved,
                    UploadStep::Write { segment: cursor.segment, packet },
                ),
                SendStep::Probe => (moved, UploadStep::Probe),
                SendStep::Pause(millis) => (moved, UploadStep::Pause(millis)),
                SendStep::Done => {
                    let position = advance_progress(cursor.position, chunk.file_byte_count);
                    (
                        UploadCursor {
                            segment: cursor.segment,
                            send,
                            phase: UploadPhase::Reported,
                            position,
                        },
                        UploadStep::Progress(position),
                    )
                },
            }
        },
        _ => (
            UploadCursor {
                segment: cursor.segment + 1,
                send: start_sending(),
                phase: UploadPhase::Sending,
                position: cursor.position,
            },
            UploadStep::Pause(policy.segment_delay_ms),
        ),
    }
}

} // verus!

//! Putting a response back together. Notifications deliver a message in
//! fragments of any size; the reassembler gathers them and tries to read a
//! message after each one. A response may be a stream of messages: each but
//! the last sets its continuation flag, and the buffer starts afresh after
//! each of them.

use crate::decode::{decode, decoded, DecodeError};
use crate::message::{framed, main_bytes, Main, MainView, MAX_MESSAGE_SIZE};
use crate::roundtrip::{lemma_decode_encoded, lemma_prefix_incomplete};
use vstd::prelude::*;

verus! {

/// What an attempt to read a message from `buffer` gives: nothing while no
/// byte has arrived, else the message or the reason why there is none yet.
pub open spec fn attempt(buffer: Seq<u8>) -> Option<Result<MainView, DecodeError>> {
    if buffer.len() == 0 {
        None
    } else {
        Some(
            match decoded(buffer) {
                Ok((_, m)) => Ok(m),
                Err(e) => Err(e),
            },
        )
    }
}

/// The bytes of one message, as far as they have arrived.
pub struct Reassembler {
    buffer: Vec<u8>,
}

impl View for Reassembler {
    type V = Seq<u8>;

    closed spec fn view(&self) -> Seq<u8> {
        self.buffer@
    }
}

impl Reassembler {
    /// A reassembler that holds no bytes.
    pub fn new() -> (r: Reassembler)
        ensures
            r@ == Seq::<u8>::empty(),
    {
        Reassembler { buffer: Vec::new() }
    }

    /// Adds a fragment behind the bytes held so far.
    pub fn feed(&mut self, bytes: &[u8])
        ensures
            final(self)@ == old(self)@ + bytes@,
    {
        self.buffer.extend_from_slice(bytes);
        proof {
            assert(self.buffer@ =~= old(self).buffer@ + bytes@);
        }
    }

    /// Tries to read a message from the bytes held. The bytes stay as they
    /// are, whatever the outcome.
    pub fn try_decode(&self) -> (r: Option<Result<Main, DecodeError>>)
        ensures
            match r {
                None => attempt(self@) is None,
                Some(Ok(m)) => attempt(self@) == Some(Ok::<MainView, DecodeError>(m@)),
                Some(Err(e)) => attempt(self@) == Some(Err::<MainView, DecodeError>(e)),
            },
    {
        if self.buffer.len() == 0 {
            return None;
        }
        match decode(self.buffer.as_slice()) {
            Ok((_, m)) => Some(Ok(m)),
            Err(e) => Some(Err(e)),
        }
    }

    /// Drops the bytes held.
    pub fn clear(&mut self)
        ensures
            final(self)@ == Seq::<u8>::empty(),
    {
        self.buffer.clear();
    }

    /// The number of bytes held.
    pub fn len(&self) -> (n: usize)
        ensures
            n == self@.len(),
    {
        self.buffer.len()
    }
}

/// Where a response stream stands.
#[derive(Clone, Copy, Debug, PartialEq, Eq, Structural)]
pub enum StreamState {
    /// No byte of the response has arrived.
    AwaitingFirstFragment,
    /// Part of a message has arrived.
    Accumulating,
    /// The last message of the response was read.
    Done,
    /// The bytes that arrived cannot be a message.
    Failed,
}

/// What a fragment brought.
#[derive(Clone, Debug, PartialEq, Eq)]
pub enum StreamEvent {
    /// No message is whole yet.
    Waiting,
    /// A message that announces another one.
    Message(Main),
    /// The last message of the response.
    Last(Main),
    /// The bytes cannot be a message; they were dropped.
    Malformed,
    /// The stream had ended before; the fragment was ignored.
    Closed,
}

/// What a fragment brought, as a value: the view of [`StreamEvent`].
pub ghost enum StreamEventView {
    Waiting,
    Message(MainView),
    Last(MainView),
    Malformed,
    Closed,
}

impl View for StreamEvent {
    type V = StreamEventView;

    open spec fn view(&self) -> StreamEventView {
        match *self {
            StreamEvent::Waiting => StreamEventView::Waiting,
            StreamEvent::Message(m) => StreamEventView::Message(m@),
            StreamEvent::Last(m) => StreamEventView::Last(m@),
            StreamEvent::Malformed => StreamEventView::Malformed,
            StreamEvent::Closed => StreamEventView::Closed,
        }
    }
}

/// A response stream as a value: its state and the bytes it holds.
pub ghost struct StreamModel {
    pub state: StreamState,
    pub buffer: Seq<u8>,
}

/// A stream on which nothing has arrived.
pub open spec fn fresh() -> StreamModel {
    StreamModel { state: StreamState::AwaitingFirstFragment, buffer: Seq::empty() }
}

/// What one fragment does to a stream, and what it brings.
///
/// A stream that has ended ignores it. Otherwise the fragment joins the
/// bytes held. While no message is whole the bytes stay; a message that
/// announces another one empties the buffer; the last message ends the
/// stream; bytes that cannot be a message are dropped and the stream fails.
pub open spec fn step(s: StreamModel, fragment: Seq<u8>) -> (StreamModel, StreamEventView) {
    if s.state == StreamState::Done || s.state == StreamState::Failed {
        (s, StreamEventView::Closed)
    } else {
        let buffer = s.buffer + fragment;
        match attempt(buffer) {
            None => (StreamModel { state: s.state, buffer }, StreamEventView::Waiting),
            Some(Err(DecodeError::Incomplete)) => (
                StreamModel { state: StreamState::Accumulating, buffer },
                StreamEventView::Waiting,
            ),
            Some(Err(DecodeError::Malformed)) => (
                StreamModel { state: StreamState::Failed, buffer: Seq::empty() },
                StreamEventView::Malformed,
            ),
            Some(Ok(m)) => if m.has_next {
                (
                    StreamModel { state: StreamState::Accumulating, buffer: Seq::empty() },
                    StreamEventView::Message(m),
                )
            } else {
                (StreamModel { state: StreamState::Done, buffer }, StreamEventView::Last(m))
            },
        }
    }
}

/// What a run of fragments does to a stream, one after the other, and what
/// they bring, in order.
pub open spec fn run(s: StreamModel, fragments: Seq<Seq<u8>>) -> (
    StreamModel,
    Seq<StreamEventView>,
)
    decreases fragments.len(),
{
    if fragments.len() == 0 {
        (s, Seq::empty())
    } else {
        let (next, event) = step(s, fragments[0]);
        let (last, events) = run(next, fragments.drop_first());
        (last, seq![event] + events)
    }
}

/// The response to one command: a reassembler and the state of the stream.
pub struct ResponseStream {
    state: StreamState,
    reassembler: Reassembler,
}

impl ResponseStream {
    /// The stream as a value.
    pub closed spec fn model(&self) -> StreamModel {
        StreamModel { state: self.state, buffer: self.reassembler@ }
    }

    /// A stream on which nothing has arrived.
    pub fn new() -> (s: ResponseStream)
        ensures
            s.model() == fresh(),
    {
        ResponseStream { state: StreamState::AwaitingFirstFragment, reassembler: Reassembler::new() }
    }

    /// Where the stream stands.
    pub fn state(&self) -> (state: StreamState)
        ensures
            state == self.model().state,
    {
        self.state
    }

    /// The number of bytes that the stream holds.
    pub fn buffered(&self) -> (n: usize)
        ensures
            n == self.model().buffer.len(),
    {
        self.reassembler.len()
    }

    /// Takes one fragment and says what it brought.
    pub fn on_fragment(&mut self, fragment: &[u8]) -> (event: StreamEvent)
        ensures
            (final(self).model(), event@) == step(old(self).model(), fragment@),
    {
        match self.state {
            StreamState::Done | StreamState::Failed => {
                return StreamEvent::Closed;
            },
            _ => {},
        }
        self.reassembler.feed(fragment);
        match self.reassembler.try_decode() {
            None => StreamEvent::Waiting,
            Some(Err(DecodeError::Incomplete)) => {
                self.state = StreamState::Accumulating;
                StreamEvent::Waiting
            },
            Some(Err(DecodeError::Malformed)) => {
                self.reassembler.clear();
                self.state = StreamState::Failed;
                StreamEvent::Malformed
            },
            Some(Ok(m)) => {
                if m.has_next {
                    self.reassembler.clear();
                    self.state = StreamState::Accumulating;
                    StreamEvent::Message(m)
                } else {
                    self.state = StreamState::Done;
                    StreamEvent::Last(m)
                }
            },
        }
    }
}

/// The fragments put end to end.
pub open spec fn joined(fragments: Seq<Seq<u8>>) -> Seq<u8>
    decreases fragments.len(),
{
    if fragments.len() == 0 {
        Seq::empty()
    } else {
        fragments[0] + joined(fragments.drop_first())
    }
}

/// What a written message brings when its last fragment arrives.
pub open spec fn arrival(m: MainView) -> StreamEventView {
    if m.has_next {
        StreamEventView::Message(m)
    } else {
        StreamEventView::Last(m)
    }
}

/// The stream after a written message has arrived whole.
pub open spec fn after_arrival(m: MainView) -> StreamModel {
    if m.has_next {
        StreamModel { state: StreamState::Accumulating, buffer: Seq::empty() }
    } else {
        StreamModel { state: StreamState::Done, buffer: framed(m) }
    }
}

/// A written message that arrives whole, in one fragment, on a stream that
/// holds nothing, is read at once.
pub proof fn lemma_whole_message_arrives(s: StreamModel, m: MainView)
    requires
        s.state == StreamState::AwaitingFirstFragment || s.state == StreamState::Accumulating,
        s.buffer.len() == 0,
        main_bytes(m).len() <= MAX_MESSAGE_SIZE,
    ensures
        step(s, framed(m)) == (after_arrival(m), arrival(m)),
{
    lemma_decode_encoded(m, Seq::empty());
    crate::varint::lemma_varint_len(main_bytes(m).len());
    assert(framed(m) + Seq::<u8>::empty() =~= framed(m));
    assert(s.buffer + framed(m) =~= framed(m));
}

/// As many times `Waiting` as `n` says.
pub open spec fn waiting(n: nat) -> Seq<StreamEventView> {
    Seq::new(n, |i: int| StreamEventView::Waiting)
}

/// Reassembly: a written message that arrives in fragments of any sizes, the
/// last of them not empty, brings `Waiting` for every fragment but the last,
/// and with the last the message itself, once: no byte is lost and none is
/// read twice. `held` is what has arrived of the message before.
pub proof fn lemma_fragments_give_message(
    m: MainView,
    state: StreamState,
    held: Seq<u8>,
    fragments: Seq<Seq<u8>>,
)
    requires
        main_bytes(m).len() <= MAX_MESSAGE_SIZE,
        state == StreamState::AwaitingFirstFragment && held.len() == 0 || state
            == StreamState::Accumulating,
        fragments.len() >= 1,
        fragments.last().len() > 0,
        held + joined(fragments) == framed(m),
    ensures
        run(StreamModel { state, buffer: held }, fragments) == (
            after_arrival(m),
            waiting((fragments.len() - 1) as nat).push(arrival(m)),
        ),
    decreases fragments.len(),
{
    let s = StreamModel { state, buffer: held };
    let first = fragments[0];
    let rest = fragments.drop_first();
    let buffer = held + first;
    if fragments.len() == 1 {
        assert(joined(rest) =~= Seq::<u8>::empty());
        assert(buffer =~= framed(m));
        assert(framed(m) + Seq::<u8>::empty() =~= framed(m));
        lemma_decode_encoded(m, Seq::empty());
        assert(run(step(s, first).0, rest).1 =~= Seq::<StreamEventView>::empty());
        assert(waiting(0).push(arrival(m)) =~= seq![arrival(m)] + Seq::<
            StreamEventView,
        >::empty());
    } else {
        lemma_joined_last_part(rest);
        assert(framed(m) =~= buffer + joined(rest));
        assert(buffer =~= framed(m).take(buffer.len() as int));
        lemma_prefix_incomplete(m, buffer.len() as int);
        let next = step(s, first).0;
        assert(next.buffer == buffer);
        lemma_fragments_give_message(m, next.state, buffer, rest);
        assert(waiting((fragments.len() - 1) as nat).push(arrival(m)) =~= seq![
            StreamEventView::Waiting,
        ] + waiting((rest.len() - 1) as nat).push(arrival(m)));
    }
}

proof fn lemma_joined_last_part(fragments: Seq<Seq<u8>>)
    requires
        fragments.len() >= 1,
        fragments.last().len() > 0,
    ensures
        joined(fragments).len() > 0,
    decreases fragments.len(),
{
    if fragments.len() > 1 {
        assert(fragments.drop_first().last() == fragments.last());
        lemma_joined_last_part(fragments.drop_first());
    }
}

/// The messages of a response in their frames, each as one fragment.
pub open spec fn frames(msgs: Seq<MainView>) -> Seq<Seq<u8>> {
    msgs.map_values(|m: MainView| framed(m))
}

/// The messages form one response: there is at least one, each can be
/// written, and each but the last announces another one.
pub open spec fn one_response(msgs: Seq<MainView>) -> bool {
    &&& msgs.len() >= 1
    &&& forall|i: int|
        0 <= i < msgs.len() ==> main_bytes(#[trigger] msgs[i]).len() <= MAX_MESSAGE_SIZE
            && msgs[i].has_next == (i + 1 < msgs.len())
}

/// Streaming: a response of N messages is consumed as exactly N messages. Each
/// message but the last leaves the buffer empty, and the last one, and no
/// message before it, ends the stream.
pub proof fn lemma_response_consumed(msgs: Seq<MainView>, state: StreamState)
    requires
        one_response(msgs),
        state == StreamState::AwaitingFirstFragment || state == StreamState::Accumulating,
    ensures
        run(StreamModel { state, buffer: Seq::empty() }, frames(msgs)) == (
            after_arrival(msgs.last()),
            msgs.map_values(|m: MainView| arrival(m)),
        ),
        !msgs.last().has_next,
        forall|i: int|
            0 <= i < msgs.len() - 1 ==> (#[trigger] run(
                StreamModel { state, buffer: Seq::empty() },
                frames(msgs).take(i + 1),
            )).0 == (StreamModel { state: StreamState::Accumulating, buffer: Seq::empty() }),
    decreases msgs.len(),
{
    let s = StreamModel { state, buffer: Seq::<u8>::empty() };
    let first = msgs[0];
    let rest = msgs.drop_first();
    let fs = frames(msgs);
    let events = msgs.map_values(|m: MainView| arrival(m));
    assert(s.buffer + fs[0] =~= framed(first));
    assert(framed(first) + Seq::<u8>::empty() =~= framed(first));
    lemma_decode_encoded(first, Seq::empty());
    crate::varint::lemma_varint_len(main_bytes(first).len());
    let (next, event) = step(s, fs[0]);
    assert(event == arrival(first));
    assert(next == after_arrival(first));
    assert(fs.drop_first() =~= frames(rest));
    if msgs.len() == 1 {
        assert(run(next, fs.drop_first()).1 =~= Seq::<StreamEventView>::empty());
        assert(events =~= seq![event] + Seq::<StreamEventView>::empty());
    } else {
        assert(one_response(rest)) by {
            assert forall|i: int| 0 <= i < rest.len() implies main_bytes(#[trigger] rest[i]).len()
                <= MAX_MESSAGE_SIZE && rest[i].has_next == (i + 1 < rest.len()) by {
                assert(rest[i] == msgs[i + 1]);
            }
        }
        lemma_response_consumed(rest, StreamState::Accumulating);
        assert(rest.last() == msgs.last());
        assert(events =~= seq![event] + rest.map_values(|m: MainView| arrival(m)));
        assert forall|i: int| 0 <= i < msgs.len() - 1 implies (#[trigger] run(
            s,
            fs.take(i + 1),
        )).0 == (StreamModel { state: StreamState::Accumulating, buffer: Seq::empty() }) by {
            let part = fs.take(i + 1);
            assert(part[0] == fs[0]);
            assert(part.drop_first() =~= frames(rest).take(i));
            if i == 0 {
                assert(run(next, part.drop_first()).0 == next);
            } else {
                assert(run(next, frames(rest).take((i - 1) + 1)).0 == (StreamModel {
                    state: StreamState::Accumulating,
                    buffer: Seq::empty(),
                }));
            }
        }
    }
}

} // verus!

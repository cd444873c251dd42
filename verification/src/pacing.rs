//! How fast to send. The device acknowledges no packet, so the host sends in
//! order and waits between writes; when the device signals on its flow
//! control characteristic, the host waits longer. The delays are found by
//! trial on a given link and are no part of the protocol.
//!
//! Nothing here sleeps or writes: a cursor says what to do next, and the
//! caller does it.

use vstd::prelude::*;

verus! {

/// The delays of a link, in milliseconds.
#[derive(Clone, Copy, Debug, PartialEq, Eq)]
pub struct PacingPolicy {
    /// The pause after every packet.
    pub chunk_delay_ms: u64,
    /// The further pause after a packet when a flow control signal was
    /// pending.
    pub flow_control_delay_ms: u64,
    /// The pause after every segment of an upload.
    pub segment_delay_ms: u64,
    /// The pause between the last segment of an upload and reading the
    /// response.
    pub response_delay_ms: u64,
    /// The pause between a read request and the first look at the response.
    pub read_delay_ms: u64,
}

impl PacingPolicy {
    /// A policy without pauses, for runs that must not take time.
    pub fn immediate() -> (policy: PacingPolicy)
        ensures
            policy.chunk_delay_ms == 0,
            policy.flow_control_delay_ms == 0,
            policy.segment_delay_ms == 0,
            policy.response_delay_ms == 0,
            policy.read_delay_ms == 0,
    {
        PacingPolicy {
            chunk_delay_ms: 0,
            flow_control_delay_ms: 0,
            segment_delay_ms: 0,
            response_delay_ms: 0,
            read_delay_ms: 0,
        }
    }
}

impl Default for PacingPolicy {
    /// The delays that work on common adapters: 20 ms after a packet, 800 ms
    /// more after a flow control signal, 140 ms after a segment, 400 ms before
    /// the response to an upload is read, 200 ms after a read request.
    fn default() -> (policy: PacingPolicy)
        ensures
            policy.chunk_delay_ms == 20,
            policy.flow_control_delay_ms == 800,
            policy.segment_delay_ms == 140,
            policy.response_delay_ms == 400,
            policy.read_delay_ms == 200,
    {
        PacingPolicy {
            chunk_delay_ms: 20,
            flow_control_delay_ms: 800,
            segment_delay_ms: 140,
            response_delay_ms: 400,
            read_delay_ms: 200,
        }
    }
}

/// Where the sending of one packet stands.
#[derive(Clone, Copy, Debug, PartialEq, Eq, Structural)]
pub enum SendPhase {
    /// The packet is to be written.
    Ready,
    /// The packet was written; the flow control signal is to be looked for.
    Written,
    /// The signal was looked for; the caller knows whether one was pending.
    Probed,
    /// A signal was pending and the long pause was taken.
    Recovered,
}

/// Where the sending of a run of packets stands: the packet in hand and its
/// phase.
#[derive(Clone, Copy, Debug, PartialEq, Eq, Structural)]
pub struct SendCursor {
    pub index: usize,
    pub phase: SendPhase,
}

/// What the caller is to do next.
#[derive(Clone, Copy, Debug, PartialEq, Eq, Structural)]
pub enum SendStep {
    /// Write the packet with this index, without asking for a response.
    Write(usize),
    /// Look, without waiting, whether a flow control signal is pending.
    Probe,
    /// Wait for so many milliseconds.
    Pause(u64),
    /// All packets are out.
    Done,
}

/// The cursor before the first packet.
pub open spec fn send_start() -> SendCursor {
    SendCursor { index: 0, phase: SendPhase::Ready }
}

/// The next step and the cursor after it, for a run of `total` packets.
/// `signal` says whether the last probe found a flow control signal; it is
/// read in phase `Probed` and nowhere else.
///
/// Each packet is written, the signal is looked for, the long pause is taken
/// if one was pending, and the short pause is taken in any case.
pub open spec fn send_step(policy: PacingPolicy, total: usize, cursor: SendCursor, signal: bool) -> (
    SendCursor,
    SendStep,
) {
    if cursor.index >= total {
        (cursor, SendStep::Done)
    } else {
        match cursor.phase {
            SendPhase::Ready => (
                SendCursor { index: cursor.index, phase: SendPhase::Written },
                SendStep::Write(cursor.index),
            ),
            SendPhase::Written => (
                SendCursor { index: cursor.index, phase: SendPhase::Probed },
                SendStep::Probe,
            ),
            SendPhase::Probed => if signal {
                (
                    SendCursor { index: cursor.index, phase: SendPhase::Recovered },
                    SendStep::Pause(policy.flow_control_delay_ms),
                )
            } else {
                (
                    SendCursor { index: (cursor.index + 1) as usize, phase: SendPhase::Ready },
                    SendStep::Pause(policy.chunk_delay_ms),
                )
            },
            SendPhase::Recovered => (
                SendCursor { index: (cursor.index + 1) as usize, phase: SendPhase::Ready },
                SendStep::Pause(policy.chunk_delay_ms),
            ),
        }
    }
}

/// The cursor before the first packet.
pub fn start_sending() -> (cursor: SendCursor)
    ensures
        cursor == send_start(),
{
    SendCursor { index: 0, phase: SendPhase::Ready }
}

/// Says what to do next and moves the cursor past it.
pub fn next_send_step(policy: &PacingPolicy, total: usize, cursor: SendCursor, signal: bool) -> (r:
    (SendCursor, SendStep))
    ensures
        r == send_step(*policy, total, cursor, signal),
{
    if cursor.index >= total {
        return (cursor, SendStep::Done);
    }
    match cursor.phase {
        SendPhase::Ready => (
            SendCursor { index: cursor.index, phase: SendPhase::Written },
            SendStep::Write(cursor.index),
        ),
        SendPhase::Written => (
            SendCursor { index: cursor.index, phase: SendPhase::Probed },
            SendStep::Probe,
        ),
        SendPhase::Probed => {
            if signal {
                (
                    SendCursor { index: cursor.index, phase: SendPhase::Recovered },
                    SendStep::Pause(policy.flow_control_delay_ms),
                )
            } else {
                (
                    SendCursor { index: cursor.index + 1, phase: SendPhase::Ready },
                    SendStep::Pause(policy.chunk_delay_ms),
                )
            }
        },
        SendPhase::Recovered => (
            SendCursor { index: cursor.index + 1, phase: SendPhase::Ready },
            SendStep::Pause(policy.chunk_delay_ms),
        ),
    }
}

/// The steps that send the packets from `from` on, where `signals[i]` says
/// whether a flow control signal was pending after packet `i`.
pub open spec fn schedule(policy: PacingPolicy, total: usize, from: nat, signals: Seq<bool>) -> Seq<
    SendStep,
>
    decreases total - from,
{
    if from >= total {
        Seq::empty()
    } else {
        let head = if signals[from as int] {
            seq![
                SendStep::Write(from as usize),
                SendStep::Probe,
                SendStep::Pause(policy.flow_control_delay_ms),
                SendStep::Pause(policy.chunk_delay_ms),
            ]
        } else {
            seq![
                SendStep::Write(from as usize),
                SendStep::Probe,
                SendStep::Pause(policy.chunk_delay_ms),
            ]
        };
        head + schedule(policy, total, from + 1, signals)
    }
}

/// The steps that the cursor gives when it is asked `count` times, and the
/// cursor after them. Each time it is told what the probe after the packet in
/// hand found.
pub open spec fn drive(
    policy: PacingPolicy,
    total: usize,
    cursor: SendCursor,
    signals: Seq<bool>,
    count: nat,
) -> (SendCursor, Seq<SendStep>)
    decreases count,
{
    if count == 0 {
        (cursor, Seq::empty())
    } else {
        let (next, step) = send_step(policy, total, cursor, signals[cursor.index as int]);
        let (last, steps) = drive(policy, total, next, signals, (count - 1) as nat);
        (last, seq![step] + steps)
    }
}

/// Pacing: whatever the probes find, the cursor has every packet written
/// once, in order, looks for the signal after each, and pauses after each:
/// long and short where a signal was pending, short where none was. After
/// that it says `Done`, and goes on saying so.
pub proof fn lemma_cursor_follows_schedule(
    policy: PacingPolicy,
    total: usize,
    from: nat,
    signals: Seq<bool>,
)
    requires
        from <= total,
        signals.len() == total,
    ensures
        drive(
            policy,
            total,
            SendCursor { index: from as usize, phase: SendPhase::Ready },
            signals,
            schedule(policy, total, from, signals).len(),
        ) == (
            SendCursor { index: total, phase: SendPhase::Ready },
            schedule(policy, total, from, signals),
        ),
        send_step(policy, total, SendCursor { index: total, phase: SendPhase::Ready }, false)
            == (SendCursor { index: total, phase: SendPhase::Ready }, SendStep::Done),
    decreases total - from,
{
    if from < total {
        let c0 = SendCursor { index: from as usize, phase: SendPhase::Ready };
        let rest = schedule(policy, total, from + 1, signals);
        let all = schedule(policy, total, from, signals);
        let next = SendCursor { index: (from + 1) as usize, phase: SendPhase::Ready };
        lemma_cursor_follows_schedule(policy, total, from + 1, signals);
        let s = signals[from as int];
        let c1 = SendCursor { index: from as usize, phase: SendPhase::Written };
        let c2 = SendCursor { index: from as usize, phase: SendPhase::Probed };
        let c3 = SendCursor { index: from as usize, phase: SendPhase::Recovered };
        let n = rest.len();
        if s {
            assert(all.len() == n + 4);
            let d3 = drive(policy, total, c3, signals, n + 1);
            assert(d3 == (
                SendCursor { index: total, phase: SendPhase::Ready },
                seq![SendStep::Pause(policy.chunk_delay_ms)] + rest,
            ));
            let d2 = drive(policy, total, c2, signals, n + 2);
            assert(d2.1 =~= seq![SendStep::Pause(policy.flow_control_delay_ms)] + d3.1);
            let d1 = drive(policy, total, c1, signals, n + 3);
            assert(d1.1 =~= seq![SendStep::Probe] + d2.1);
            let d0 = drive(policy, total, c0, signals, n + 4);
            assert(d0.1 =~= seq![SendStep::Write(from as usize)] + d1.1);
            assert(d0.1 =~= all);
        } else {
            assert(all.len() == n + 3);
            let d2 = drive(policy, total, c2, signals, n + 1);
            assert(d2 == (
                SendCursor { index: total, phase: SendPhase::Ready },
                seq![SendStep::Pause(policy.chunk_delay_ms)] + rest,
            ));
            let d1 = drive(policy, total, c1, signals, n + 2);
            assert(d1.1 =~= seq![SendStep::Probe] + d2.1);
            let d0 = drive(policy, total, c0, signals, n + 3);
            assert(d0.1 =~= seq![SendStep::Write(from as usize)] + d1.1);
            assert(d0.1 =~= all);
        }
    }
}

} // verus!

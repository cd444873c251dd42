use flipper_rpc::codec::ProtobufCodec;
use flipper_rpc::pacing::{
    next_send_step, start_sending, PacingPolicy, SendCursor, SendPhase, SendStep,
};
use flipper_rpc::sessions::{next_upload_step, start_upload, UploadPhase, UploadStep};

fn steps_for(policy: &PacingPolicy, total: usize, signals: &[bool]) -> Vec<SendStep> {
    let mut cursor = start_sending();
    let mut steps = Vec::new();
    let mut signal = false;
    for _ in 0..1000 {
        let (next, step) = next_send_step(policy, total, cursor, signal);
        cursor = next;
        match step {
            SendStep::Done => {
                steps.push(step);
                return steps;
            }
            SendStep::Probe => {
                signal = signals[cursor.index];
            }
            _ => {}
        }
        steps.push(step);
    }
    panic!("the cursor never finished");
}

#[test]
fn default_delays() {
    let p = PacingPolicy::default();
    assert_eq!(p.chunk_delay_ms, 20);
    assert_eq!(p.flow_control_delay_ms, 800);
    assert_eq!(p.segment_delay_ms, 140);
    assert_eq!(p.response_delay_ms, 400);
    assert_eq!(p.read_delay_ms, 200);
}

#[test]
fn immediate_policy_has_no_delays() {
    let p = PacingPolicy::immediate();
    assert_eq!(
        p,
        PacingPolicy {
            chunk_delay_ms: 0,
            flow_control_delay_ms: 0,
            segment_delay_ms: 0,
            response_delay_ms: 0,
            read_delay_ms: 0
        }
    );
}

#[test]
fn sending_starts_before_the_first_packet() {
    assert_eq!(
        start_sending(),
        SendCursor {
            index: 0,
            phase: SendPhase::Ready
        }
    );
}

#[test]
fn each_packet_is_written_probed_and_paused() {
    let policy = PacingPolicy::default();
    assert_eq!(
        steps_for(&policy, 3, &[false, true, false]),
        vec![
            SendStep::Write(0),
            SendStep::Probe,
            SendStep::Pause(20),
            SendStep::Write(1),
            SendStep::Probe,
            SendStep::Pause(800),
            SendStep::Pause(20),
            SendStep::Write(2),
            SendStep::Probe,
            SendStep::Pause(20),
            SendStep::Done,
        ]
    );
}

#[test]
fn no_packets_are_done_at_once() {
    let policy = PacingPolicy::default();
    assert_eq!(steps_for(&policy, 0, &[]), vec![SendStep::Done]);
    let (cursor, step) = next_send_step(&policy, 0, start_sending(), true);
    assert_eq!(step, SendStep::Done);
    assert_eq!(cursor, start_sending());
}

#[test]
fn done_stays_done() {
    let policy = PacingPolicy::immediate();
    let cursor = SendCursor {
        index: 2,
        phase: SendPhase::Ready,
    };
    let (next, step) = next_send_step(&policy, 2, cursor, false);
    assert_eq!((next, step), (cursor, SendStep::Done));
    let (next, step) = next_send_step(&policy, 2, next, true);
    assert_eq!((next, step), (cursor, SendStep::Done));
}

#[test]
fn signal_counts_only_after_a_probe() {
    let policy = PacingPolicy::default();
    let (cursor, step) = next_send_step(&policy, 1, start_sending(), true);
    assert_eq!(step, SendStep::Write(0));
    let (cursor, step) = next_send_step(&policy, 1, cursor, true);
    assert_eq!(step, SendStep::Probe);
    let (cursor, step) = next_send_step(&policy, 1, cursor, false);
    assert_eq!(step, SendStep::Pause(20));
    assert_eq!(
        cursor,
        SendCursor {
            index: 1,
            phase: SendPhase::Ready
        }
    );
}

#[test]
fn upload_steps_for_two_segments() {
    let mut codec = ProtobufCodec::new();
    let data = vec![0u8; 600];
    let chunks = codec.create_write_request_packets(&data, "/ext/f").unwrap();
    assert_eq!(chunks.len(), 2);
    assert_eq!(chunks[0].packets.len(), 2);
    assert_eq!(chunks[1].packets.len(), 1);

    let policy = PacingPolicy::default();
    let mut cursor = start_upload();
    assert_eq!(cursor.phase, UploadPhase::Sending);
    let mut steps = Vec::new();
    // a flow control signal is pending after the second packet of segment 0
    let mut probes = 0;
    let mut signal = false;
    for _ in 0..100 {
        let (next, step) = next_upload_step(&policy, &chunks, cursor, signal);
        cursor = next;
        steps.push(step);
        match step {
            UploadStep::Probe => {
                probes += 1;
                signal = probes == 2;
            }
            UploadStep::ReadResponse => break,
            _ => {}
        }
    }
    assert_eq!(
        steps,
        vec![
            UploadStep::Write { segment: 0, packet: 0 },
            UploadStep::Probe,
            UploadStep::Pause(20),
            UploadStep::Write { segment: 0, packet: 1 },
            UploadStep::Probe,
            UploadStep::Pause(800),
            UploadStep::Pause(20),
            UploadStep::Progress(512),
            UploadStep::Pause(140),
            UploadStep::Write { segment: 1, packet: 0 },
            UploadStep::Probe,
            UploadStep::Pause(20),
            UploadStep::Progress(600),
            UploadStep::Pause(140),
            UploadStep::Pause(400),
            UploadStep::ReadResponse,
        ]
    );
    // the response is asked for again and again
    let (next, step) = next_upload_step(&policy, &chunks, cursor, false);
    assert_eq!(step, UploadStep::ReadResponse);
    assert_eq!(next, cursor);
    assert_eq!(cursor.position, 600);
}

#[test]
fn upload_of_an_empty_file_reports_no_bytes() {
    let mut codec = ProtobufCodec::new();
    let chunks = codec.create_write_request_packets(&[], "/ext/f").unwrap();
    let policy = PacingPolicy::immediate();
    let mut cursor = start_upload();
    let mut steps = Vec::new();
    for _ in 0..20 {
        let (next, step) = next_upload_step(&policy, &chunks, cursor, false);
        cursor = next;
        steps.push(step);
        if step == UploadStep::ReadResponse {
            break;
        }
    }
    assert_eq!(
        steps,
        vec![
            UploadStep::Write { segment: 0, packet: 0 },
            UploadStep::Probe,
            UploadStep::Pause(0),
            UploadStep::Progress(0),
            UploadStep::Pause(0),
            UploadStep::Pause(0),
            UploadStep::ReadResponse,
        ]
    );
}

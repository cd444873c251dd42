use flipper_rpc::decode::DecodeError;
use flipper_rpc::encode::encode;
use flipper_rpc::message::{Content, File, Main, ReadResponse, StartRequest};
use flipper_rpc::reassembler::{Reassembler, ResponseStream, StreamEvent, StreamState};

fn read_message(id: u32, data: Vec<u8>, has_next: bool) -> Main {
    Main {
        command_id: id,
        command_status: 0,
        has_next,
        content: Some(Content::StorageReadResponse(ReadResponse {
            file: Some(File {
                file_type: 0,
                name: String::new(),
                size: 0,
                data,
            }),
        })),
    }
}

#[test]
fn nothing_fed_gives_nothing() {
    let r = Reassembler::new();
    assert_eq!(r.len(), 0);
    assert_eq!(r.try_decode(), None);
}

#[test]
fn every_proper_prefix_is_incomplete() {
    let m = Main {
        command_id: 1,
        command_status: 0,
        has_next: false,
        content: Some(Content::AppStartRequest(StartRequest {
            name: "/ext/app.fap".to_string(),
            args: "/ext/chungus_app.fap".to_string(),
        })),
    };
    let bytes = encode(&m).unwrap();
    let mut r = Reassembler::new();
    for (i, b) in bytes.iter().enumerate() {
        r.feed(&[*b]);
        assert_eq!(r.len(), i + 1);
        if i + 1 < bytes.len() {
            assert_eq!(r.try_decode(), Some(Err(DecodeError::Incomplete)));
        } else {
            assert_eq!(r.try_decode(), Some(Ok(m.clone())));
        }
    }
    // the attempt leaves the bytes where they are
    assert_eq!(r.len(), bytes.len());
    assert_eq!(r.try_decode(), Some(Ok(m)));
    r.clear();
    assert_eq!(r.len(), 0);
    assert_eq!(r.try_decode(), None);
}

#[test]
fn long_message_in_fragments_of_many_sizes() {
    // a body of more than 127 bytes: the length takes two bytes
    let m = read_message(3, (0..1000u32).map(|i| (i % 256) as u8).collect(), false);
    let bytes = encode(&m).unwrap();
    for size in [1usize, 2, 3, 20, 244, 350, 999, 5000] {
        let mut stream = ResponseStream::new();
        assert_eq!(stream.state(), StreamState::AwaitingFirstFragment);
        let pieces: Vec<&[u8]> = bytes.chunks(size).collect();
        for (i, piece) in pieces.iter().enumerate() {
            let event = stream.on_fragment(piece);
            if i + 1 < pieces.len() {
                assert_eq!(event, StreamEvent::Waiting);
                assert_eq!(stream.state(), StreamState::Accumulating);
            } else {
                assert_eq!(event, StreamEvent::Last(m.clone()));
                assert_eq!(stream.state(), StreamState::Done);
            }
        }
        assert_eq!(stream.on_fragment(&[1, 2, 3]), StreamEvent::Closed);
        assert_eq!(stream.state(), StreamState::Done);
    }
}

#[test]
fn stream_of_three_messages_is_three_messages() {
    let msgs = vec![
        read_message(5, vec![1; 300], true),
        read_message(5, vec![2; 300], true),
        read_message(5, vec![3; 17], false),
    ];
    let mut stream = ResponseStream::new();
    let mut seen = Vec::new();
    for m in &msgs {
        let bytes = encode(m).unwrap();
        let (first, second) = bytes.split_at(bytes.len() / 2);
        assert_eq!(stream.on_fragment(first), StreamEvent::Waiting);
        assert_eq!(stream.buffered(), first.len());
        match stream.on_fragment(second) {
            StreamEvent::Message(got) => {
                assert!(got.has_next);
                assert_eq!(stream.state(), StreamState::Accumulating);
                // the buffer starts afresh for the next message
                assert_eq!(stream.buffered(), 0);
                seen.push(got);
            }
            StreamEvent::Last(got) => {
                assert!(!got.has_next);
                assert_eq!(stream.state(), StreamState::Done);
                seen.push(got);
            }
            other => panic!("unexpected event {:?}", other),
        }
    }
    assert_eq!(seen, msgs);
}

#[test]
fn single_terminal_message_ends_the_stream() {
    let m = read_message(0, vec![], false);
    let mut stream = ResponseStream::new();
    assert_eq!(stream.on_fragment(&encode(&m).unwrap()), StreamEvent::Last(m));
    assert_eq!(stream.state(), StreamState::Done);
}

#[test]
fn empty_fragment_changes_nothing() {
    let mut stream = ResponseStream::new();
    assert_eq!(stream.on_fragment(&[]), StreamEvent::Waiting);
    assert_eq!(stream.state(), StreamState::AwaitingFirstFragment);
}

#[test]
fn declared_length_beyond_the_bytes_waits() {
    // the length says 18, nine bytes follow
    let mut r = Reassembler::new();
    r.feed(&[18u8, 58, 16, 10, 14, 47, 101, 120, 116, 47]);
    assert_eq!(r.try_decode(), Some(Err(DecodeError::Incomplete)));
    // garbage completes the length: the body cannot be read
    r.feed(&[0xff, 0xff, 0xff, 0xff, 0xff, 0xff, 0xff, 0xff, 0xff]);
    assert_eq!(r.try_decode(), Some(Err(DecodeError::Malformed)));
}

#[test]
fn length_that_never_ends_is_malformed() {
    let mut r = Reassembler::new();
    r.feed(&[0x80, 0x80, 0x80, 0x80]);
    assert_eq!(r.try_decode(), Some(Err(DecodeError::Incomplete)));
    r.feed(&[0x80]);
    assert_eq!(r.try_decode(), Some(Err(DecodeError::Malformed)));
}

#[test]
fn length_beyond_32_bits_is_malformed() {
    let mut r = Reassembler::new();
    r.feed(&[0xff, 0xff, 0xff, 0xff, 0x10]);
    assert_eq!(r.try_decode(), Some(Err(DecodeError::Malformed)));
    let mut r = Reassembler::new();
    r.feed(&[0xff, 0xff, 0xff, 0xff, 0x0f]);
    assert_eq!(r.try_decode(), Some(Err(DecodeError::Incomplete)));
}

#[test]
fn malformed_bytes_fail_the_stream_and_are_dropped() {
    let mut stream = ResponseStream::new();
    assert_eq!(stream.on_fragment(&[2u8, 0]), StreamEvent::Waiting);
    assert_eq!(stream.on_fragment(&[0]), StreamEvent::Malformed);
    assert_eq!(stream.state(), StreamState::Failed);
    assert_eq!(stream.on_fragment(&[0]), StreamEvent::Closed);
    assert_eq!(stream.state(), StreamState::Failed);
}

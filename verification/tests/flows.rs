use flipper_rpc::codec::ProtobufCodec;
use flipper_rpc::encode::encode;
use flipper_rpc::flows::{
    advance_progress, check_response, command_outcome, device_datetime, interpret_status,
    stat_size, take_list_message, take_read_message, CommandError,
};
use flipper_rpc::listing::{
    arrange_listing, bytes_not_greater, partition_entries, sort_by_name,
};
use flipper_rpc::message::{
    Content, File, GetDateTimeResponse, ListResponse, Main, ReadResponse, RtcDateTime,
    StatResponse,
};
use flipper_rpc::sessions::{
    Download, DownloadEvent, DownloadPhase, Listing, ListingEvent, ListingPhase,
};

fn response(status: i32, has_next: bool, content: Option<Content>) -> Main {
    Main {
        command_id: 4,
        command_status: status,
        has_next,
        content,
    }
}

fn entry(name: &str, file_type: i32, size: u32) -> File {
    File {
        file_type,
        name: name.to_string(),
        size,
        data: vec![],
    }
}

fn data_message(data: Vec<u8>, has_next: bool) -> Main {
    response(
        0,
        has_next,
        Some(Content::StorageReadResponse(ReadResponse {
            file: Some(File {
                file_type: 0,
                name: String::new(),
                size: 0,
                data,
            }),
        })),
    )
}

#[test]
fn every_status_has_its_outcome() {
    assert_eq!(interpret_status(0), Ok(()));
    assert_eq!(interpret_status(15), Err(CommandError::InvalidParameters));
    assert_eq!(interpret_status(10), Err(CommandError::InvalidPath));
    assert_eq!(interpret_status(16), Err(CommandError::AppCantStart));
    assert_eq!(interpret_status(17), Err(CommandError::AppSystemLocked));
    assert_eq!(interpret_status(4), Err(CommandError::Busy));
    assert_eq!(interpret_status(2), Err(CommandError::DeviceDecode));
    assert_eq!(interpret_status(1), Err(CommandError::UnexpectedStatus(1)));
    assert_eq!(interpret_status(58), Err(CommandError::UnexpectedStatus(58)));
    assert_eq!(interpret_status(-3), Err(CommandError::UnexpectedStatus(-3)));
}

#[test]
fn outcome_of_a_status_only_response() {
    assert_eq!(command_outcome(&response(0, false, Some(Content::Empty))), Ok(()));
    assert_eq!(command_outcome(&response(0, false, None)), Ok(()));
    assert_eq!(
        command_outcome(&response(16, false, Some(Content::Empty))),
        Err(CommandError::AppCantStart)
    );
    assert_eq!(
        command_outcome(&response(10, false, None)),
        Err(CommandError::InvalidPath)
    );
}

#[test]
fn response_read_from_the_wire_is_interpreted() {
    // status 17 with the empty payload, as the device sends it
    let bytes = [4u8, 16, 17, 34, 0];
    let (_, m) = ProtobufCodec::parse_response(&bytes).unwrap();
    assert_eq!(command_outcome(&m), Err(CommandError::AppSystemLocked));
}

#[test]
fn empty_payload_means_invalid_path() {
    assert_eq!(
        check_response(&response(0, false, Some(Content::Empty))),
        Err(CommandError::InvalidPath)
    );
    assert_eq!(
        check_response(&response(7, false, Some(Content::Empty))),
        Err(CommandError::InvalidPath)
    );
    assert_eq!(check_response(&response(0, false, None)), Ok(()));
    assert_eq!(
        check_response(&response(4, false, None)),
        Err(CommandError::Busy)
    );
}

#[test]
fn stat_response_gives_the_size() {
    let m = response(
        0,
        false,
        Some(Content::StorageStatResponse(StatResponse {
            file: Some(entry("", 0, 70000)),
        })),
    );
    assert_eq!(stat_size(&m), Ok(70000));
    let m = response(
        0,
        false,
        Some(Content::StorageStatResponse(StatResponse { file: None })),
    );
    assert_eq!(stat_size(&m), Ok(0));
}

#[test]
fn stat_on_missing_path_is_invalid_path_not_zero() {
    let m = response(0, false, Some(Content::Empty));
    assert_eq!(stat_size(&m), Err(CommandError::InvalidPath));
}

#[test]
fn stat_with_other_payload_is_unexpected() {
    let m = response(0, false, Some(Content::SystemGetDatetimeRequest));
    assert_eq!(stat_size(&m), Err(CommandError::UnexpectedContent));
    let m = response(0, false, None);
    assert_eq!(stat_size(&m), Err(CommandError::UnexpectedContent));
    let m = response(
        2,
        false,
        Some(Content::StorageStatResponse(StatResponse {
            file: Some(entry("", 0, 5)),
        })),
    );
    assert_eq!(stat_size(&m), Err(CommandError::DeviceDecode));
}

#[test]
fn read_messages_add_their_bytes() {
    let mut received = vec![9u8];
    assert_eq!(
        take_read_message(&mut received, &data_message(vec![1, 2, 3], true)),
        Ok(false)
    );
    assert_eq!(received, vec![9u8, 1, 2, 3]);
    assert_eq!(
        take_read_message(&mut received, &data_message(vec![4], false)),
        Ok(true)
    );
    assert_eq!(received, vec![9u8, 1, 2, 3, 4]);
    // a message of another kind adds nothing
    assert_eq!(
        take_read_message(&mut received, &response(0, false, None)),
        Ok(true)
    );
    assert_eq!(received, vec![9u8, 1, 2, 3, 4]);
}

#[test]
fn read_on_missing_path_is_invalid_path_not_an_empty_file() {
    let mut received = Vec::new();
    assert_eq!(
        take_read_message(&mut received, &response(0, false, Some(Content::Empty))),
        Err(CommandError::InvalidPath)
    );
    assert!(received.is_empty());
}

#[test]
fn list_messages_add_their_entries() {
    let mut entries = vec![entry("z", 0, 1)];
    let m = response(
        0,
        true,
        Some(Content::StorageListResponse(ListResponse {
            file: vec![entry("b", 1, 0), entry("a", 0, 2)],
        })),
    );
    assert_eq!(take_list_message(&mut entries, m), Ok(false));
    assert_eq!(entries, vec![entry("z", 0, 1), entry("b", 1, 0), entry("a", 0, 2)]);
    let m = response(
        0,
        false,
        Some(Content::StorageListResponse(ListResponse { file: vec![] })),
    );
    assert_eq!(take_list_message(&mut entries, m), Ok(true));
    assert_eq!(entries.len(), 3);
}

#[test]
fn list_refuses_what_is_no_listing() {
    let mut entries = vec![entry("z", 0, 1)];
    assert_eq!(
        take_list_message(&mut entries, response(0, false, Some(Content::Empty))),
        Err(CommandError::InvalidPath)
    );
    assert_eq!(
        take_list_message(&mut entries, response(0, false, None)),
        Err(CommandError::UnexpectedContent)
    );
    assert_eq!(
        take_list_message(
            &mut entries,
            response(
                15,
                false,
                Some(Content::StorageListResponse(ListResponse { file: vec![] }))
            )
        ),
        Err(CommandError::InvalidParameters)
    );
    assert_eq!(entries, vec![entry("z", 0, 1)]);
}

#[test]
fn device_clock_is_read() {
    let d = RtcDateTime {
        hour: 10,
        minute: 39,
        second: 45,
        day: 29,
        month: 1,
        year: 2024,
        weekday: 1,
    };
    let m = response(
        0,
        false,
        Some(Content::SystemGetDatetimeResponse(GetDateTimeResponse {
            datetime: Some(d),
        })),
    );
    assert_eq!(device_datetime(&m), Ok(d));
    let m = response(
        0,
        false,
        Some(Content::SystemGetDatetimeResponse(GetDateTimeResponse {
            datetime: None,
        })),
    );
    assert_eq!(
        device_datetime(&m),
        Ok(RtcDateTime {
            hour: 0,
            minute: 0,
            second: 0,
            day: 0,
            month: 0,
            year: 0,
            weekday: 0
        })
    );
    assert_eq!(
        device_datetime(&response(0, false, Some(Content::SystemGetDatetimeRequest))),
        Err(CommandError::UnexpectedContent)
    );
}

#[test]
fn progress_counts_file_bytes() {
    assert_eq!(advance_progress(0, 512), 512);
    assert_eq!(advance_progress(512, 511), 1023);
    assert_eq!(advance_progress(7, 0), 7);
    assert_eq!(advance_progress(u64::MAX - 1, 1), u64::MAX);
    assert_eq!(advance_progress(u64::MAX - 1, 2), u64::MAX);
}

#[test]
fn names_compare_byte_by_byte() {
    assert!(bytes_not_greater(b"", b""));
    assert!(bytes_not_greater(b"", b"a"));
    assert!(!bytes_not_greater(b"a", b""));
    assert!(bytes_not_greater(b"a", b"a"));
    assert!(bytes_not_greater(b"a", b"ab"));
    assert!(!bytes_not_greater(b"ab", b"a"));
    assert!(bytes_not_greater(b"B", b"a"));
    assert!(!bytes_not_greater(b"a", b"B"));
    assert!(bytes_not_greater(b"abc", b"abd"));
    assert!(!bytes_not_greater(b"abd", b"abc"));
    assert!(bytes_not_greater("z".as_bytes(), "ä".as_bytes()));
}

#[test]
fn sort_is_ascending_and_keeps_ties_in_order() {
    let entries = vec![
        entry("nfc", 0, 1),
        entry("Apps", 0, 2),
        entry("apps", 0, 3),
        entry("nfc", 0, 4),
        entry("", 0, 5),
        entry("ä", 0, 6),
        entry("apps2", 0, 7),
        entry("nfc", 0, 8),
    ];
    let sorted = sort_by_name(entries);
    let got: Vec<(String, u32)> = sorted.iter().map(|f| (f.name.clone(), f.size)).collect();
    let want: Vec<(String, u32)> = vec![
        ("", 5),
        ("Apps", 2),
        ("apps", 3),
        ("apps2", 7),
        ("nfc", 1),
        ("nfc", 4),
        ("nfc", 8),
        ("ä", 6),
    ]
    .into_iter()
    .map(|(n, s)| (n.to_string(), s))
    .collect();
    assert_eq!(got, want);
}

#[test]
fn sort_agrees_with_the_order_of_strings() {
    let names = [
        "subghz", "nfc", "infrared", "apps", "badusb", "Update", "u2f", "ibutton", "lfrfid",
        "apps_data", ".cache", "музыка", "dolphin", "Ω", "a", "",
    ];
    let entries: Vec<File> = names.iter().map(|n| entry(n, 0, 0)).collect();
    let sorted = sort_by_name(entries);
    let got: Vec<String> = sorted.into_iter().map(|f| f.name).collect();
    let mut want: Vec<String> = names.iter().map(|n| n.to_string()).collect();
    want.sort();
    assert_eq!(got, want);
}

#[test]
fn sort_of_nothing_and_of_one() {
    assert_eq!(sort_by_name(vec![]), vec![]);
    assert_eq!(sort_by_name(vec![entry("a", 1, 0)]), vec![entry("a", 1, 0)]);
}

#[test]
fn partition_parts_directories_from_files() {
    let entries = vec![
        entry("b", 1, 0),
        entry("x", 0, 10),
        entry("a", 1, 0),
        entry("odd", 2, 3),
        entry("c", 0, 20),
    ];
    let (dirs, files) = partition_entries(entries);
    assert_eq!(dirs, vec![entry("b", 1, 0), entry("a", 1, 0)]);
    assert_eq!(files, vec![entry("x", 0, 10), entry("odd", 2, 3), entry("c", 0, 20)]);
}

#[test]
fn listing_is_arranged_for_display() {
    let entries = vec![
        entry("nfc", 1, 0),
        entry("Manifest", 0, 100),
        entry("apps", 1, 0),
        entry(".region_data", 0, 30),
    ];
    let (dirs, files) = arrange_listing(entries);
    assert_eq!(dirs, vec![entry("apps", 1, 0), entry("nfc", 1, 0)]);
    assert_eq!(files, vec![entry(".region_data", 0, 30), entry("Manifest", 0, 100)]);
}

#[test]
fn download_of_a_file_in_three_messages() {
    let mut d = Download::new();
    assert_eq!(d.phase(), DownloadPhase::AwaitingSize);
    let stat = encode(&response(
        0,
        false,
        Some(Content::StorageStatResponse(StatResponse {
            file: Some(entry("", 0, 700)),
        })),
    ))
    .unwrap();
    assert_eq!(d.on_fragment(&stat[..3]), DownloadEvent::Wait);
    assert_eq!(d.on_fragment(&stat[3..]), DownloadEvent::SizeKnown(700));
    assert_eq!(d.phase(), DownloadPhase::Reading);

    let parts = [vec![1u8; 300], vec![2u8; 300], vec![3u8; 100]];
    let mut so_far = 0;
    for (i, part) in parts.iter().enumerate() {
        let last = i + 1 == parts.len();
        let bytes = encode(&data_message(part.clone(), !last)).unwrap();
        let pieces: Vec<&[u8]> = bytes.chunks(244).collect();
        for (j, piece) in pieces.iter().enumerate() {
            let event = d.on_fragment(piece);
            if j + 1 < pieces.len() {
                assert_eq!(event, DownloadEvent::Wait);
            } else if last {
                assert_eq!(event, DownloadEvent::Complete);
            } else {
                so_far += part.len();
                assert_eq!(event, DownloadEvent::Received(so_far));
            }
        }
    }
    assert_eq!(d.phase(), DownloadPhase::Finished);
    assert_eq!(d.on_fragment(&[1]), DownloadEvent::Closed);
    let mut want = vec![1u8; 300];
    want.extend_from_slice(&[2u8; 300]);
    want.extend_from_slice(&[3u8; 100]);
    assert_eq!(d.into_bytes(), want);
}

#[test]
fn download_of_a_missing_path_fails_with_invalid_path() {
    // the stat request is answered with the empty payload
    let mut d = Download::new();
    let empty = encode(&response(0, false, Some(Content::Empty))).unwrap();
    assert_eq!(
        d.on_fragment(&empty),
        DownloadEvent::Failed(CommandError::InvalidPath)
    );
    assert_eq!(d.phase(), DownloadPhase::Failed);
    assert_eq!(d.on_fragment(&empty), DownloadEvent::Closed);
    assert!(d.into_bytes().is_empty());

    // the stat request is answered, the read request is not
    let mut d = Download::new();
    let stat = encode(&response(
        0,
        false,
        Some(Content::StorageStatResponse(StatResponse {
            file: Some(entry("", 0, 0)),
        })),
    ))
    .unwrap();
    assert_eq!(d.on_fragment(&stat), DownloadEvent::SizeKnown(0));
    assert_eq!(
        d.on_fragment(&empty),
        DownloadEvent::Failed(CommandError::InvalidPath)
    );
    assert_eq!(d.phase(), DownloadPhase::Failed);
}

#[test]
fn download_fails_on_bytes_that_are_no_message() {
    let mut d = Download::new();
    assert_eq!(
        d.on_fragment(&[2u8, 0, 0]),
        DownloadEvent::Failed(CommandError::MalformedResponse)
    );
    assert_eq!(d.phase(), DownloadPhase::Failed);
}

#[test]
fn download_of_an_empty_file_completes() {
    let mut d = Download::new();
    let stat = encode(&response(
        0,
        false,
        Some(Content::StorageStatResponse(StatResponse {
            file: Some(entry("", 0, 0)),
        })),
    ))
    .unwrap();
    assert_eq!(d.on_fragment(&stat), DownloadEvent::SizeKnown(0));
    let read = encode(&response(
        0,
        false,
        Some(Content::StorageReadResponse(ReadResponse { file: None })),
    ))
    .unwrap();
    assert_eq!(d.on_fragment(&read), DownloadEvent::Complete);
    assert!(d.into_bytes().is_empty());
}

#[test]
fn listing_over_two_messages() {
    let mut l = Listing::new();
    assert_eq!(l.phase(), ListingPhase::Collecting);
    let first = encode(&response(
        0,
        true,
        Some(Content::StorageListResponse(ListResponse {
            file: vec![entry("nfc", 1, 0), entry("b.txt", 0, 5)],
        })),
    ))
    .unwrap();
    let second = encode(&response(
        0,
        false,
        Some(Content::StorageListResponse(ListResponse {
            file: vec![entry("apps", 1, 0), entry("a.txt", 0, 6)],
        })),
    ))
    .unwrap();
    assert_eq!(l.on_fragment(&first[..10]), ListingEvent::Wait);
    assert_eq!(l.on_fragment(&first[10..]), ListingEvent::Gathered(2));
    assert_eq!(l.on_fragment(&second), ListingEvent::Complete);
    assert_eq!(l.phase(), ListingPhase::Finished);
    assert_eq!(l.on_fragment(&second), ListingEvent::Closed);
    let (dirs, files) = arrange_listing(l.into_entries());
    assert_eq!(dirs, vec![entry("apps", 1, 0), entry("nfc", 1, 0)]);
    assert_eq!(files, vec![entry("a.txt", 0, 6), entry("b.txt", 0, 5)]);
}

#[test]
fn listing_of_a_missing_path_fails_with_invalid_path() {
    let mut l = Listing::new();
    let empty = encode(&response(0, false, Some(Content::Empty))).unwrap();
    assert_eq!(
        l.on_fragment(&empty),
        ListingEvent::Failed(CommandError::InvalidPath)
    );
    assert_eq!(l.phase(), ListingPhase::Failed);
    assert!(l.into_entries().is_empty());
}

#[test]
fn listing_fails_on_another_payload_and_on_garbage() {
    let mut l = Listing::new();
    let other = encode(&response(0, false, Some(Content::SystemGetDatetimeRequest))).unwrap();
    assert_eq!(
        l.on_fragment(&other),
        ListingEvent::Failed(CommandError::UnexpectedContent)
    );
    let mut l = Listing::new();
    assert_eq!(
        l.on_fragment(&[1u8, 7]),
        ListingEvent::Failed(CommandError::MalformedResponse)
    );
}

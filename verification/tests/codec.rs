use chrono::{Datelike, Timelike};
use flipper_rpc::codec::{ProtobufCodec, FILE_SEGMENT_SIZE};
use flipper_rpc::chunker::TRANSPORT_UNIT_SIZE;
use flipper_rpc::decode::DecodeError;
use flipper_rpc::message::Content;

fn stitch(chunks: &[Vec<u8>]) -> Vec<u8> {
    let mut all = Vec::new();
    for c in chunks {
        all.extend_from_slice(c);
    }
    all
}

#[test]
fn protobuf_codec_launch_request_test() {
    // check that data can be loaded in and out, from protobuf form to byte data
    let mut p = ProtobufCodec::new();
    // include command id increment in all tests
    p.inc_command_id();
    let path = "/ext/app.fap";
    let args = "/ext/chungus_app.fap";
    let mut launch_chunks = p.create_launch_request_packet(path, args).unwrap();

    let mut launch_packet = Vec::new();
    launch_chunks.iter_mut().for_each(|x| launch_packet.append(&mut *x));

    match ProtobufCodec::parse_response(&launch_packet) {
        Ok(m) => {
            if let Some(Content::AppStartRequest(r)) = m.1.content {
                assert_eq!(1, m.1.command_id);
                assert_eq!(path, r.name);
            } else {
                panic!("wrong type of protobuf message");
            }
        }
        Err(e) => {
            panic!("error {:?}", e);
        }
    };
}

#[test]
fn protobuf_codec_list_packet_test() {
    let mut p = ProtobufCodec::new();
    let path = "/ext/apps";
    p.inc_command_id();
    let mut list_chunks = p.create_list_request_packet(path).unwrap();

    let mut list_packet = Vec::new();
    list_chunks.iter_mut().for_each(|x| list_packet.append(&mut *x));

    match ProtobufCodec::parse_response(&list_packet) {
        Ok(m) => {
            if let Some(Content::StorageListRequest(r)) = m.1.content {
                assert_eq!(1, m.1.command_id);
                assert_eq!(path, r.path);
            } else {
                panic!("wrong type of protobuf message");
            }
        }
        Err(e) => {
            panic!("error {:?}", e);
        }
    };
}

#[test]
fn protobuf_codec_write_request_test() {
    // generate some data, package it up, then check to see if the
    // data chunks match the data that went in
    let mut p = ProtobufCodec::new();
    p.inc_command_id();

    let mut data = Vec::new();
    for i in 0..1023 {
        data.push(i as u8);
    }

    let write_request_chunks = p.create_write_request_packets(&data, "/ext/data.dat").unwrap();

    let mut index = 0;
    for mut chunk in write_request_chunks {
        let mut stitched_vec = Vec::new();
        chunk.packets.iter_mut().for_each(|x| stitched_vec.append(x));

        match ProtobufCodec::parse_response(&stitched_vec) {
            Ok(m) => {
                if let Some(Content::StorageWriteRequest(r)) = m.1.content {
                    assert_eq!(1, m.1.command_id);
                    assert_eq!(r.file.unwrap().data, data[index..index + chunk.file_byte_count]);
                    index += chunk.file_byte_count;
                } else {
                    panic!("wrong type of protobuf message");
                }
            }
            Err(e) => {
                panic!("error {:?}", e);
            }
        };
    }
}

#[test]
fn protobuf_codec_read_request_test() {
    let mut p = ProtobufCodec::new();
    p.inc_command_id();
    let path = "/ext/apps/GPIO/ublox.fap";
    let mut read_chunks = p.create_read_request_packet(path).unwrap();

    let mut read_packet = Vec::new();
    read_chunks.iter_mut().for_each(|x| read_packet.append(&mut *x));

    match ProtobufCodec::parse_response(&read_packet) {
        Ok(m) => {
            if let Some(Content::StorageReadRequest(r)) = m.1.content {
                assert_eq!(1, m.1.command_id);
                assert_eq!(path, r.path);
            } else {
                panic!("wrong type of protobuf message");
            }
        }
        Err(e) => {
            panic!("error {:?}", e);
        }
    };
}

#[test]
pub fn protobuf_codec_stat_request_test() {
    let mut p = ProtobufCodec::new();
    p.inc_command_id();
    let path = "/ext/apps/GPIO/ublox.fap";
    let mut stat_chunks = p.create_stat_request_packet(path).unwrap();

    let mut stat_packet = Vec::new();
    stat_chunks.iter_mut().for_each(|x| stat_packet.append(&mut *x));

    match ProtobufCodec::parse_response(&stat_packet) {
        Ok(m) => {
            if let Some(Content::StorageStatRequest(r)) = m.1.content {
                assert_eq!(1, m.1.command_id);
                assert_eq!(path, r.path);
            } else {
                panic!("wrong type of protobuf message");
            }
        }
        Err(e) => {
            panic!("error {:?}", e);
        }
    };
}

#[test]
pub fn protobuf_codec_delete_request_test() {
    let mut p = ProtobufCodec::new();
    p.inc_command_id();
    let path = "/ext/apps/GPIO/ublox.fap";
    let mut delete_chunks = p.create_delete_request_packet(path, true).unwrap();

    let mut delete_packet = Vec::new();
    delete_chunks.iter_mut().for_each(|x| delete_packet.append(&mut *x));

    match ProtobufCodec::parse_response(&delete_packet) {
        Ok(m) => {
            if let Some(Content::StorageDeleteRequest(r)) = m.1.content {
                assert_eq!(1, m.1.command_id);
                assert_eq!(path, r.path);
                assert_eq!(true, r.recursive);
            } else {
                panic!("wrong type of protobuf message");
            }
        }
        Err(e) => {
            panic!("error {:?}", e);
        }
    };
}

#[test]
pub fn protobuf_codec_alert_request_test() {
    let mut p = ProtobufCodec::new();
    p.inc_command_id();
    let alert_packet = p.create_alert_request_packet().unwrap();

    match ProtobufCodec::parse_response(&alert_packet) {
        Ok(m) => {
            if let Some(Content::SystemPlayAudiovisualAlertRequest) = m.1.content {
                assert_eq!(1, m.1.command_id);
            } else {
                panic!("unexpected type decoded!");
            }
        }
        Err(e) => {
            panic!("error {:?}", e);
        }
    };
}

#[test]
pub fn protobuf_codec_set_datetime_request_test() {
    let mut p = ProtobufCodec::new();
    p.inc_command_id();
    let datetime =
        chrono::DateTime::parse_from_rfc2822("Mon, 29 Jan 2024 10:39:45 -0700").unwrap();
    let datetime_packet = p
        .create_set_datetime_request_packet(datetime.naive_local())
        .unwrap();

    match ProtobufCodec::parse_response(&datetime_packet) {
        Ok(m) => {
            if let Some(Content::SystemSetDatetimeRequest(r)) = m.1.content {
                let d = r.datetime.unwrap();
                assert_eq!(d.hour, datetime.hour());
                assert_eq!(d.minute, datetime.minute());
                assert_eq!(d.second, datetime.second());
                assert_eq!(d.day, datetime.day());
                assert_eq!(d.month, datetime.month());
                assert_eq!(d.year, datetime.year() as u32);
                assert_eq!(d.weekday, datetime.weekday().number_from_monday());
                assert_eq!(1, m.1.command_id);
            } else {
                panic!("wrong type of protobuf message");
            }
        }
        Err(e) => {
            panic!("error {:?}", e);
        }
    };
}

#[test]
pub fn protobuf_codec_get_datetime_request_test() {
    let mut p = ProtobufCodec::new();
    p.inc_command_id();
    let datetime_packet = p.create_get_datetime_request_packet().unwrap();

    match ProtobufCodec::parse_response(&datetime_packet) {
        Ok(m) => {
            if let Some(Content::SystemGetDatetimeRequest) = m.1.content {
                assert_eq!(1, m.1.command_id);
            } else {
                panic!("wrong type of protobuf message");
            }
        }
        Err(e) => {
            panic!("error {:?}", e);
        }
    };
}

#[test]
fn bad_data_test() {
    // force the whole thing to u8
    // the data is a list request for "/ext/apps/NFC/" whose tag was set to 0
    let dat = [
        18u8, 0, 16, 10, 14, 47, 101, 120, 116, 47, 97, 112, 112, 115, 47, 78, 70, 67, 47,
    ];

    match ProtobufCodec::parse_response(&dat) {
        Ok(_) => {
            panic!("parse of bad data succeeded!");
        }
        Err(_) => {
            // nothing to do here
        }
    };
}

#[test]
fn bad_data_is_malformed_not_incomplete() {
    let dat = [
        18u8, 0, 16, 10, 14, 47, 101, 120, 116, 47, 97, 112, 112, 115, 47, 78, 70, 67, 47,
    ];
    assert_eq!(
        ProtobufCodec::parse_response(&dat).unwrap_err(),
        DecodeError::Malformed
    );
}

#[test]
fn set_datetime_request_carries_exact_fields() {
    let mut p = ProtobufCodec::new();
    let datetime =
        chrono::DateTime::parse_from_rfc2822("Mon, 29 Jan 2024 10:39:45 -0700").unwrap();
    let packet = p
        .create_set_datetime_request_packet(datetime.naive_local())
        .unwrap();
    let (_, m) = ProtobufCodec::parse_response(&packet).unwrap();
    match m.content {
        Some(Content::SystemSetDatetimeRequest(r)) => {
            let d = r.datetime.unwrap();
            assert_eq!(
                (d.hour, d.minute, d.second, d.day, d.month, d.year, d.weekday),
                (10, 39, 45, 29, 1, 2024, 1)
            );
        }
        _ => panic!("wrong type of protobuf message"),
    }
    assert_eq!(p.command_id(), 1);
}

#[test]
fn sunday_is_weekday_seven() {
    let mut p = ProtobufCodec::new();
    let datetime =
        chrono::DateTime::parse_from_rfc2822("Sun, 4 Feb 2024 23:59:59 +0000").unwrap();
    let packet = p
        .create_set_datetime_request_packet(datetime.naive_local())
        .unwrap();
    let (_, m) = ProtobufCodec::parse_response(&packet).unwrap();
    match m.content {
        Some(Content::SystemSetDatetimeRequest(r)) => {
            let d = r.datetime.unwrap();
            assert_eq!(d.weekday, 7);
            assert_eq!((d.hour, d.minute, d.second), (23, 59, 59));
        }
        _ => panic!("wrong type of protobuf message"),
    }
}

#[test]
fn new_codec_starts_at_zero() {
    let p = ProtobufCodec::new();
    assert_eq!(p.command_id(), 0);
}

#[test]
fn blank_packet_increments_only_when_asked() {
    let mut p = ProtobufCodec::new();
    let m = p.new_blank_packet(false);
    assert_eq!(m.command_id, 0);
    assert_eq!(m.command_status, 0);
    assert!(!m.has_next);
    assert!(m.content.is_none());
    assert_eq!(p.command_id(), 0);
    let m = p.new_blank_packet(true);
    assert_eq!(m.command_id, 0);
    assert_eq!(p.command_id(), 1);
    let m = p.new_blank_packet(true);
    assert_eq!(m.command_id, 1);
    assert_eq!(p.command_id(), 2);
}

#[test]
fn ok_packet_bytes() {
    let mut p = ProtobufCodec::new();
    // identifier 0 and status OK are not written: the body is empty
    assert_eq!(p.create_ok_packet().unwrap(), vec![0u8]);
    assert_eq!(p.create_ok_packet().unwrap(), vec![2u8, 8, 1]);
    assert_eq!(p.command_id(), 2);
}

#[test]
fn list_request_bytes_match_the_wire() {
    let mut p = ProtobufCodec::new();
    let packets = p.create_list_request_packet("/ext/apps/NFC/").unwrap();
    assert_eq!(packets.len(), 1);
    assert_eq!(
        packets[0],
        vec![18u8, 58, 16, 10, 14, 47, 101, 120, 116, 47, 97, 112, 112, 115, 47, 78, 70, 67, 47]
    );
}

#[test]
fn alert_and_get_datetime_bytes() {
    let mut p = ProtobufCodec::new();
    // field 38, length-delimited: tag 306 = [0xb2, 0x02], empty body
    assert_eq!(p.create_alert_request_packet().unwrap(), vec![3u8, 0xb2, 0x02, 0]);
    // now identifier 1; field 35: tag 282 = [0x9a, 0x02]
    assert_eq!(
        p.create_get_datetime_request_packet().unwrap(),
        vec![5u8, 8, 1, 0x9a, 0x02, 0]
    );
}

#[test]
fn delete_request_bytes() {
    let mut p = ProtobufCodec::new();
    let packets = p.create_delete_request_packet("/a", true).unwrap();
    assert_eq!(stitch(&packets), vec![8u8, 98, 6, 10, 2, 47, 97, 16, 1]);
    let packets = p.create_delete_request_packet("/a", false).unwrap();
    assert_eq!(stitch(&packets), vec![8u8, 8, 1, 98, 4, 10, 2, 47, 97]);
}

#[test]
fn command_id_increments_once_per_command() {
    let mut p = ProtobufCodec::new();
    p.create_launch_request_packet("a", "b").unwrap();
    assert_eq!(p.command_id(), 1);
    p.create_list_request_packet("/ext").unwrap();
    assert_eq!(p.command_id(), 2);
    p.create_read_request_packet("/ext/f").unwrap();
    assert_eq!(p.command_id(), 3);
    p.create_stat_request_packet("/ext/f").unwrap();
    assert_eq!(p.command_id(), 4);
    p.create_delete_request_packet("/ext/f", false).unwrap();
    assert_eq!(p.command_id(), 5);
    p.create_alert_request_packet().unwrap();
    assert_eq!(p.command_id(), 6);
    p.create_get_datetime_request_packet().unwrap();
    assert_eq!(p.command_id(), 7);
    // a long path takes several packets and still one identifier
    let long = "x".repeat(1000);
    let packets = p.create_read_request_packet(&long).unwrap();
    assert!(packets.len() > 1);
    assert_eq!(p.command_id(), 8);
    // an upload of many segments takes one identifier
    let data = vec![7u8; 5000];
    let chunks = p.create_write_request_packets(&data, "/ext/f").unwrap();
    assert_eq!(chunks.len(), 10);
    assert_eq!(p.command_id(), 9);
    for c in chunks {
        let (_, m) = ProtobufCodec::parse_response(&stitch(&c.packets)).unwrap();
        assert_eq!(m.command_id, 8);
    }
}

#[test]
fn empty_file_write_is_one_segment() {
    let mut p = ProtobufCodec::new();
    let chunks = p.create_write_request_packets(&[], "/ext/empty").unwrap();
    assert_eq!(chunks.len(), 1);
    assert_eq!(chunks[0].file_byte_count, 0);
    let (_, m) = ProtobufCodec::parse_response(&stitch(&chunks[0].packets)).unwrap();
    assert!(!m.has_next);
    assert_eq!(m.command_id, 0);
    match m.content {
        Some(Content::StorageWriteRequest(r)) => {
            assert_eq!(r.path, "/ext/empty");
            assert!(r.file.is_none());
        }
        _ => panic!("wrong type of protobuf message"),
    }
    assert_eq!(p.command_id(), 1);
}

#[test]
fn write_of_1023_bytes_is_two_segments() {
    let mut p = ProtobufCodec::new();
    let data: Vec<u8> = (0..1023u32).map(|i| (i % 251) as u8).collect();
    let chunks = p.create_write_request_packets(&data, "/ext/data.dat").unwrap();
    assert_eq!(chunks.len(), 2);
    assert_eq!(chunks[0].file_byte_count, 512);
    assert_eq!(chunks[1].file_byte_count, 511);
    let mut has_next = Vec::new();
    let mut payload = Vec::new();
    for c in &chunks {
        for packet in &c.packets {
            assert!(packet.len() <= TRANSPORT_UNIT_SIZE);
        }
        let (_, m) = ProtobufCodec::parse_response(&stitch(&c.packets)).unwrap();
        has_next.push(m.has_next);
        match m.content {
            Some(Content::StorageWriteRequest(r)) => {
                assert_eq!(r.path, "/ext/data.dat");
                payload.extend_from_slice(&r.file.unwrap().data);
            }
            _ => panic!("wrong type of protobuf message"),
        }
    }
    assert_eq!(has_next, vec![true, false]);
    assert_eq!(payload, data);
}

#[test]
fn write_of_exact_multiple_has_no_empty_segment() {
    let mut p = ProtobufCodec::new();
    let data = vec![1u8; 2 * FILE_SEGMENT_SIZE];
    let chunks = p.create_write_request_packets(&data, "/ext/f").unwrap();
    assert_eq!(chunks.len(), 2);
    assert_eq!(chunks[0].file_byte_count, 512);
    assert_eq!(chunks[1].file_byte_count, 512);
    let (_, last) = ProtobufCodec::parse_response(&stitch(&chunks[1].packets)).unwrap();
    assert!(!last.has_next);
    let (_, first) = ProtobufCodec::parse_response(&stitch(&chunks[0].packets)).unwrap();
    assert!(first.has_next);
    // a segment of 512 bytes with its framing needs two packets
    assert_eq!(chunks[0].packets.len(), 2);
    assert_eq!(chunks[0].packets[0].len(), TRANSPORT_UNIT_SIZE);
}

#[test]
fn launch_scenario_keeps_name_and_args() {
    let mut p = ProtobufCodec::new();
    p.inc_command_id();
    let packets = p
        .create_launch_request_packet("/ext/app.fap", "/ext/chungus_app.fap")
        .unwrap();
    let (len, m) = ProtobufCodec::parse_response(&stitch(&packets)).unwrap();
    assert_eq!(m.command_id, 1);
    assert_eq!(m.command_status, 0);
    assert!(!m.has_next);
    match m.content {
        Some(Content::AppStartRequest(r)) => {
            assert_eq!(r.name, "/ext/app.fap");
            assert_eq!(r.args, "/ext/chungus_app.fap");
        }
        _ => panic!("wrong type of protobuf message"),
    }
    assert_eq!(len as usize + 1, stitch(&packets).len());
}

#[test]
fn sizes_can_be_set() {
    assert!(ProtobufCodec::with_sizes(0, 512).is_none());
    assert!(ProtobufCodec::with_sizes(350, 0).is_none());
    let mut p = ProtobufCodec::with_sizes(20, 100).unwrap();
    assert_eq!(p.command_id(), 0);
    assert_eq!(p.transport_unit_size(), 20);
    assert_eq!(p.file_segment_size(), 100);
    let data: Vec<u8> = (0..250u32).map(|i| i as u8).collect();
    let chunks = p.create_write_request_packets(&data, "/ext/f").unwrap();
    assert_eq!(chunks.len(), 3);
    assert_eq!(
        chunks.iter().map(|c| c.file_byte_count).collect::<Vec<usize>>(),
        vec![100, 100, 50]
    );
    let mut payload = Vec::new();
    for c in &chunks {
        for packet in &c.packets {
            assert!(packet.len() <= 20);
        }
        let (_, m) = ProtobufCodec::parse_response(&stitch(&c.packets)).unwrap();
        match m.content {
            Some(Content::StorageWriteRequest(r)) => {
                payload.extend_from_slice(&r.file.unwrap().data)
            }
            _ => panic!("wrong type of protobuf message"),
        }
    }
    assert_eq!(payload, data);
    let packets = p.create_stat_request_packet("/ext/a/rather/long/path/to/a/file").unwrap();
    assert_eq!(packets.len(), 3);
}

#[test]
fn usual_sizes() {
    let p = ProtobufCodec::new();
    assert_eq!(p.transport_unit_size(), 350);
    assert_eq!(p.file_segment_size(), 512);
    assert_eq!(FILE_SEGMENT_SIZE, 512);
}

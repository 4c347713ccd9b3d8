use xiu::chunk::errors::{PackError, UnpackError};
use xiu::chunk::packetizer::ChunkPacketizer;
use xiu::chunk::unpacketizer::{ChunkUnpacketizer, UnpackResult};
use xiu::message::RtmpMessage;

fn payload(len: usize) -> Vec<u8> {
    (0..len).map(|i| (i * 7 + 3) as u8).collect()
}

fn read_one(u: &mut ChunkUnpacketizer) -> RtmpMessage {
    match u.read_message() {
        Ok(Some(m)) => m,
        other => panic!("expected a message, got {:?}", other),
    }
}

#[test]
fn single_chunk_message_has_expected_bytes() {
    let mut p = ChunkPacketizer::new();
    let m = RtmpMessage::new(8, 0x010203, 1, vec![0xAA, 0xBB]);
    let bytes = p.write_message(4, &m).unwrap();
    assert_eq!(
        bytes,
        vec![
            0x04, // format 0, chunk stream 4
            0x01, 0x02, 0x03, // timestamp
            0x00, 0x00, 0x02, // length
            0x08, // type
            0x01, 0x00, 0x00, 0x00, // message stream id, little-endian
            0xAA, 0xBB,
        ]
    );
}

#[test]
fn round_trip_in_one_chunk() {
    let mut p = ChunkPacketizer::new();
    let mut u = ChunkUnpacketizer::new();
    let m = RtmpMessage::new(9, 1234, 1, payload(100));
    let bytes = p.write_message(6, &m).unwrap();
    u.extend_data(&bytes);
    assert_eq!(read_one(&mut u), m);
    assert_eq!(u.buffered(), 0);
    assert_eq!(u.read_message(), Ok(None));
}

#[test]
fn round_trip_across_many_chunks() {
    let mut p = ChunkPacketizer::new();
    let mut u = ChunkUnpacketizer::new();
    let m = RtmpMessage::new(9, 77, 5, payload(1000));
    let bytes = p.write_message(6, &m).unwrap();
    // 12 bytes of headers, 1000 of payload, 7 continuation headers of one byte
    assert_eq!(bytes.len(), 12 + 1000 + 7);
    assert_eq!(bytes[12 + 128], 0xC6);
    u.extend_data(&bytes);
    assert_eq!(read_one(&mut u), m);
}

#[test]
fn round_trip_with_chunk_size_one() {
    let mut p = ChunkPacketizer::new();
    let mut u = ChunkUnpacketizer::new();
    let set = RtmpMessage::new(1, 0, 0, vec![0, 0, 0, 1]);
    let bytes = p.write_message(2, &set).unwrap();
    u.extend_data(&bytes);
    assert_eq!(read_one(&mut u), set);
    assert_eq!(p.max_chunk_size(), 1);
    assert_eq!(u.max_chunk_size(), 1);
    let m = RtmpMessage::new(8, 10, 1, payload(5));
    let bytes = p.write_message(4, &m).unwrap();
    assert_eq!(bytes.len(), 12 + 5 + 4);
    u.extend_data(&bytes);
    assert_eq!(read_one(&mut u), m);
}

#[test]
fn round_trip_of_an_empty_payload() {
    let mut p = ChunkPacketizer::new();
    let mut u = ChunkUnpacketizer::new();
    let m = RtmpMessage::new(20, 5, 0, Vec::new());
    let bytes = p.write_message(3, &m).unwrap();
    assert_eq!(bytes.len(), 12);
    u.extend_data(&bytes);
    assert_eq!(read_one(&mut u), m);
}

#[test]
fn bytes_may_arrive_one_at_a_time() {
    let mut p = ChunkPacketizer::new();
    let mut u = ChunkUnpacketizer::new();
    let m = RtmpMessage::new(9, 42, 1, payload(300));
    let bytes = p.write_message(70, &m).unwrap();
    let mut got = None;
    for (i, b) in bytes.iter().enumerate() {
        u.extend_data(&[*b]);
        match u.read_message() {
            Ok(None) => assert!(i + 1 < bytes.len()),
            Ok(Some(m)) => {
                assert_eq!(i + 1, bytes.len());
                got = Some(m);
            }
            Err(e) => panic!("unexpected {:?}", e),
        }
    }
    assert_eq!(got, Some(m));
}

#[test]
fn compressed_headers_use_formats_one_and_three() {
    let mut p = ChunkPacketizer::new();
    let mut u = ChunkUnpacketizer::new();
    let m1 = RtmpMessage::new(8, 1000, 1, payload(10));
    let m2 = RtmpMessage::new(8, 1020, 1, payload(10));
    let m3 = RtmpMessage::new(8, 1040, 1, payload(10));
    let b1 = p.write_message(4, &m1).unwrap();
    let b2 = p.write_message(4, &m2).unwrap();
    let b3 = p.write_message(4, &m3).unwrap();
    assert_eq!(b1[0] >> 6, 0);
    assert_eq!(b2[0] >> 6, 1);
    assert_eq!(b3[0] >> 6, 3);
    assert_eq!(b2.len(), 1 + 7 + 10);
    assert_eq!(&b2[1..4], &[0, 0, 20]);
    assert_eq!(b3.len(), 1 + 10);
    u.extend_data(&b1);
    u.extend_data(&b2);
    u.extend_data(&b3);
    assert_eq!(read_one(&mut u), m1);
    assert_eq!(read_one(&mut u), m2);
    assert_eq!(read_one(&mut u), m3);
}

#[test]
fn a_change_of_type_or_a_step_back_in_time_takes_a_full_header() {
    let mut p = ChunkPacketizer::new();
    let m1 = RtmpMessage::new(8, 1000, 1, payload(10));
    let other_type = RtmpMessage::new(9, 1020, 1, payload(10));
    let back = RtmpMessage::new(9, 5, 1, payload(10));
    p.write_message(4, &m1).unwrap();
    assert_eq!(p.write_message(4, &other_type).unwrap()[0] >> 6, 0);
    assert_eq!(p.write_message(4, &back).unwrap()[0] >> 6, 0);
}

#[test]
fn extended_timestamp_is_written_and_recovered() {
    let mut p = ChunkPacketizer::new();
    let mut u = ChunkUnpacketizer::new();
    let m = RtmpMessage::new(9, 0x0123_4567, 1, payload(3));
    let bytes = p.write_message(4, &m).unwrap();
    assert_eq!(&bytes[1..4], &[0xFF, 0xFF, 0xFF]);
    assert_eq!(&bytes[12..16], &[0x01, 0x23, 0x45, 0x67]);
    assert_eq!(bytes.len(), 1 + 11 + 4 + 3);
    u.extend_data(&bytes);
    assert_eq!(read_one(&mut u), m);
}

#[test]
fn timestamp_of_exactly_ffffff_is_extended() {
    let mut p = ChunkPacketizer::new();
    let mut u = ChunkUnpacketizer::new();
    let m = RtmpMessage::new(9, 0xFF_FFFF, 1, payload(3));
    let bytes = p.write_message(4, &m).unwrap();
    assert_eq!(&bytes[1..4], &[0xFF, 0xFF, 0xFF]);
    assert_eq!(&bytes[12..16], &[0x00, 0xFF, 0xFF, 0xFF]);
    u.extend_data(&bytes);
    assert_eq!(read_one(&mut u), m);
    let below = RtmpMessage::new(9, 0xFF_FFFE, 2, payload(3));
    let bytes = p.write_message(5, &below).unwrap();
    assert_eq!(&bytes[1..4], &[0xFF, 0xFF, 0xFE]);
    assert_eq!(bytes.len(), 1 + 11 + 3);
}

#[test]
fn basic_header_takes_one_two_or_three_bytes() {
    let mut p = ChunkPacketizer::new();
    let mut u = ChunkUnpacketizer::new();
    let m = RtmpMessage::new(8, 1, 1, vec![9]);
    let b63 = p.write_message(63, &m).unwrap();
    let b64 = p.write_message(64, &m).unwrap();
    let b319 = p.write_message(319, &m).unwrap();
    let b320 = p.write_message(320, &m).unwrap();
    let bmax = p.write_message(65599, &m).unwrap();
    assert_eq!(b63[0], 63);
    assert_eq!(&b64[0..2], &[0, 0]);
    assert_eq!(&b319[0..2], &[0, 255]);
    assert_eq!(&b320[0..3], &[1, 0, 1]);
    assert_eq!(&bmax[0..3], &[1, 255, 255]);
    for b in [b63, b64, b319, b320, bmax] {
        u.extend_data(&b);
        assert_eq!(read_one(&mut u), m);
    }
}

#[test]
fn invalid_chunk_stream_ids_are_refused() {
    let mut p = ChunkPacketizer::new();
    let m = RtmpMessage::new(8, 1, 1, vec![9]);
    assert_eq!(p.write_message(0, &m), Err(PackError::InvalidChunkStreamId));
    assert_eq!(p.write_message(1, &m), Err(PackError::InvalidChunkStreamId));
    assert_eq!(p.write_message(65600, &m), Err(PackError::InvalidChunkStreamId));
    assert!(p.write_message(2, &m).is_ok());
}

#[test]
fn oversized_payload_is_refused() {
    let mut p = ChunkPacketizer::new();
    let m = RtmpMessage::new(9, 1, 1, vec![0u8; 0x100_0000]);
    assert_eq!(p.write_message(4, &m), Err(PackError::PayloadTooLarge));
    let m = RtmpMessage::new(9, 1, 1, vec![0u8; 0xFF_FFFF]);
    assert!(p.write_message(4, &m).is_ok());
}

#[test]
fn compressed_header_without_a_predecessor_is_malformed() {
    for first in [0x44u8, 0x84, 0xC4] {
        let mut u = ChunkUnpacketizer::new();
        u.extend_data(&[first, 0, 0, 0, 0, 0, 0, 0, 0, 0, 0, 0]);
        assert_eq!(u.read_chunk(), Err(UnpackError::MalformedChunk));
        assert_eq!(u.read_message(), Err(UnpackError::MalformedChunk));
        assert_eq!(u.buffered(), 12);
    }
}

#[test]
fn a_new_header_in_the_middle_of_a_message_is_malformed() {
    let mut p = ChunkPacketizer::new();
    let mut u = ChunkUnpacketizer::new();
    let m = RtmpMessage::new(9, 1, 1, payload(200));
    let bytes = p.write_message(4, &m).unwrap();
    u.extend_data(&bytes[..12 + 128]);
    assert_eq!(u.read_chunk(), Ok(UnpackResult::Chunk));
    let mut q = ChunkPacketizer::new();
    let again = q.write_message(4, &m).unwrap();
    u.extend_data(&again);
    assert_eq!(u.read_chunk(), Err(UnpackError::MalformedChunk));
}

#[test]
fn chunks_of_different_streams_may_interleave() {
    let mut p = ChunkPacketizer::new();
    let mut u = ChunkUnpacketizer::new();
    let video = RtmpMessage::new(9, 10, 1, payload(200));
    let audio = RtmpMessage::new(8, 11, 1, payload(20));
    let v = p.write_message(6, &video).unwrap();
    let a = p.write_message(4, &audio).unwrap();
    // first chunk of the video, the whole audio message, the rest of the video
    u.extend_data(&v[..12 + 128]);
    u.extend_data(&a);
    u.extend_data(&v[12 + 128..]);
    assert_eq!(u.read_chunk(), Ok(UnpackResult::Chunk));
    assert_eq!(u.read_chunk(), Ok(UnpackResult::Message(audio)));
    assert_eq!(u.read_chunk(), Ok(UnpackResult::Message(video)));
    assert_eq!(u.read_chunk(), Ok(UnpackResult::NotEnoughBytes));
}

#[test]
fn set_chunk_size_holds_from_the_next_message_on() {
    let mut p = ChunkPacketizer::new();
    let mut u = ChunkUnpacketizer::new();
    // a Set Chunk Size message that is itself longer than the new size
    let set = RtmpMessage::new(1, 0, 0, vec![0, 0, 0, 2, 9, 9]);
    let bytes = p.write_message(2, &set).unwrap();
    assert_eq!(bytes.len(), 12 + 6);
    assert_eq!(p.max_chunk_size(), 2);
    let m = RtmpMessage::new(8, 0, 1, payload(5));
    let after = p.write_message(4, &m).unwrap();
    assert_eq!(after.len(), 12 + 5 + 2);
    u.extend_data(&bytes);
    u.extend_data(&after);
    assert_eq!(u.max_chunk_size(), 128);
    assert_eq!(read_one(&mut u), set);
    assert_eq!(u.max_chunk_size(), 2);
    assert_eq!(read_one(&mut u), m);
}

#[test]
fn set_chunk_size_of_zero_or_with_the_top_bit_is_ignored() {
    let mut p = ChunkPacketizer::new();
    p.write_message(2, &RtmpMessage::new(1, 0, 0, vec![0, 0, 0, 0])).unwrap();
    assert_eq!(p.max_chunk_size(), 128);
    p.write_message(2, &RtmpMessage::new(1, 0, 0, vec![0x80, 0, 0, 1])).unwrap();
    assert_eq!(p.max_chunk_size(), 128);
    p.write_message(2, &RtmpMessage::new(1, 0, 0, vec![0x7F, 0xFF, 0xFF, 0xFF])).unwrap();
    assert_eq!(p.max_chunk_size(), 0x7FFF_FFFF);
}

#[test]
fn abort_drops_the_half_read_message() {
    let mut p = ChunkPacketizer::new();
    let mut u = ChunkUnpacketizer::new();
    let m = RtmpMessage::new(9, 1, 1, payload(200));
    let bytes = p.write_message(6, &m).unwrap();
    u.extend_data(&bytes[..12 + 128]);
    assert_eq!(u.read_chunk(), Ok(UnpackResult::Chunk));
    let abort = RtmpMessage::new(2, 0, 0, vec![0, 0, 0, 6]);
    u.extend_data(&p.write_message(2, &abort).unwrap());
    assert_eq!(read_one(&mut u), abort);
    // the stream starts over with a message of its own
    let next = RtmpMessage::new(9, 2, 1, payload(10));
    let mut q = ChunkPacketizer::new();
    u.extend_data(&q.write_message(6, &next).unwrap());
    assert_eq!(read_one(&mut u), next);
}

#[test]
fn format_two_is_understood() {
    let mut u = ChunkUnpacketizer::new();
    u.extend_data(&[0x04, 0, 0, 100, 0, 0, 1, 8, 1, 0, 0, 0, 0x55]);
    assert_eq!(read_one(&mut u), RtmpMessage::new(8, 100, 1, vec![0x55]));
    u.extend_data(&[0x84, 0, 0, 7, 0x66]);
    assert_eq!(read_one(&mut u), RtmpMessage::new(8, 107, 1, vec![0x66]));
    u.extend_data(&[0xC4, 0x77]);
    assert_eq!(read_one(&mut u), RtmpMessage::new(8, 114, 1, vec![0x77]));
}

#[test]
fn format_three_after_a_full_header_repeats_the_timestamp_as_delta() {
    let mut u = ChunkUnpacketizer::new();
    u.extend_data(&[0x04, 0, 0, 100, 0, 0, 1, 8, 1, 0, 0, 0, 0x55]);
    assert_eq!(read_one(&mut u), RtmpMessage::new(8, 100, 1, vec![0x55]));
    u.extend_data(&[0xC4, 0x77]);
    assert_eq!(read_one(&mut u), RtmpMessage::new(8, 200, 1, vec![0x77]));
}

#[test]
fn timestamps_roll_over() {
    let mut u = ChunkUnpacketizer::new();
    u.extend_data(&[0x04, 0xFF, 0xFF, 0xFF, 0, 0, 1, 8, 1, 0, 0, 0, 0xFF, 0xFF, 0xFF, 0xFF, 0x55]);
    assert_eq!(read_one(&mut u), RtmpMessage::new(8, 0xFFFF_FFFF, 1, vec![0x55]));
    u.extend_data(&[0x84, 0, 0, 3, 0x66]);
    assert_eq!(read_one(&mut u), RtmpMessage::new(8, 2, 1, vec![0x66]));
}

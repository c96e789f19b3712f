use common::rpc::packet::{
    fill_packet, header_fields, length_prefix, packet_buffer, parse_header, DEFAULT_MAX_LEN,
    PULL_MAX_LEN, PUSH_MAX_LEN,
};
use common::rpc::{get_code_maxlen, read_packet, write_packet, Error};

fn stream_of(len: u32, code: u8, body: usize) -> Vec<u8> {
    let mut stream = len.to_be_bytes().to_vec();
    stream.push(code);
    stream.resize(5 + body, 0x5a);
    stream
}

#[test]
fn ceilings_by_code() {
    assert_eq!(get_code_maxlen(0x0e), 50 * 1024 * 1024);
    assert_eq!(get_code_maxlen(0x10), 200 * 1024 * 1024);
    assert_eq!(get_code_maxlen(0x0a), 50 * 1024);
    assert_eq!(get_code_maxlen(0x0f), 50 * 1024);
    assert_eq!(get_code_maxlen(0x11), 50 * 1024);
    assert_eq!(get_code_maxlen(0xff), 50 * 1024);
    assert_eq!(DEFAULT_MAX_LEN, 51200);
    assert_eq!(PULL_MAX_LEN, 52428800);
    assert_eq!(PUSH_MAX_LEN, 209715200);
}

#[test]
fn header_with_accepted_length() {
    let header = parse_header(&[0, 0, 0, 4, 0x0b]).unwrap();
    assert_eq!(header.code(), 0x0b);
    assert_eq!(header.payload_len(), 4);
    assert_eq!(header.buffer_len(), 5);
}

#[test]
fn header_reads_length_big_endian() {
    let header = parse_header(&[0x00, 0x01, 0x02, 0x03, 0x10]).unwrap();
    assert_eq!(header.payload_len(), 0x010203);
    assert_eq!(header.code(), 0x10);
}

#[test]
fn length_floor() {
    for len in 0u8..4 {
        assert!(matches!(parse_header(&[0, 0, 0, len, 0x0b]), Err(Error::InvalidData)));
    }
    assert!(parse_header(&[0, 0, 0, 4, 0x0b]).is_ok());
}

#[test]
fn length_floor_reads_nothing_behind_the_header() {
    // Only the header is there: a reader that wanted the payload would
    // report the end of the stream instead.
    let stream = stream_of(3, 0x0b, 0);
    assert!(matches!(read_packet(&stream), Err(Error::InvalidData)));
}

#[test]
fn pull_ceiling_is_inclusive() {
    let over = stream_of(50 * 1024 * 1024 + 1, 0x0e, 0);
    assert!(matches!(read_packet(&over), Err(Error::InvalidData)));

    let at = stream_of(50 * 1024 * 1024, 0x0e, 50 * 1024 * 1024);
    let data = read_packet(&at).unwrap();
    assert_eq!(data.len(), 50 * 1024 * 1024 + 1);
    assert_eq!(data[0], 0x0e);
    assert_eq!(data[1], 0x5a);
    assert_eq!(data[50 * 1024 * 1024], 0x5a);
}

#[test]
fn push_ceiling_is_inclusive() {
    assert!(matches!(
        parse_header(&[0x0c, 0x80, 0x00, 0x01, 0x10]),
        Err(Error::InvalidData)
    ));
    let header = parse_header(&[0x0c, 0x80, 0x00, 0x00, 0x10]).unwrap();
    assert_eq!(header.payload_len(), 200 * 1024 * 1024);
}

#[test]
fn default_ceiling_is_inclusive() {
    let over = stream_of(50 * 1024 + 1, 0x0a, 50 * 1024 + 1);
    assert!(matches!(read_packet(&over), Err(Error::InvalidData)));

    let at = stream_of(50 * 1024, 0x0a, 50 * 1024);
    let data = read_packet(&at).unwrap();
    assert_eq!(data.len(), 50 * 1024 + 1);
    assert_eq!(data[0], 0x0a);
}

#[test]
fn result_messages_have_the_default_ceiling() {
    assert!(matches!(
        read_packet(&stream_of(50 * 1024 + 1, 0x0f, 0)),
        Err(Error::InvalidData)
    ));
    assert!(matches!(
        read_packet(&stream_of(50 * 1024 + 1, 0x11, 0)),
        Err(Error::InvalidData)
    ));
}

#[test]
fn largest_declared_length_is_refused() {
    for code in [0x0a, 0x0e, 0x10, 0xff] {
        assert!(matches!(
            parse_header(&[0xff, 0xff, 0xff, 0xff, code]),
            Err(Error::InvalidData)
        ));
    }
}

#[test]
fn buffer_is_code_then_zeros() {
    let header = parse_header(&[0, 0, 0, 6, 0x0d]).unwrap();
    let data = packet_buffer(&header).unwrap();
    assert_eq!(data, vec![0x0d, 0, 0, 0, 0, 0, 0]);
}

#[test]
fn short_header_is_end_of_stream() {
    assert!(matches!(read_packet(&[]), Err(Error::UnexpectedEof)));
    assert!(matches!(read_packet(&[0, 0, 0, 4]), Err(Error::UnexpectedEof)));
}

#[test]
fn short_payload_is_end_of_stream() {
    let stream = stream_of(8, 0x0b, 7);
    assert!(matches!(read_packet(&stream), Err(Error::UnexpectedEof)));
}

#[test]
fn read_takes_the_first_packet_only() {
    let mut stream = vec![0, 0, 0, 4, 0x0c, 1, 2, 3, 4];
    stream.extend_from_slice(&[0, 0, 0, 5, 0x0b, 9, 8, 7, 6, 5]);
    let first = read_packet(&stream).unwrap();
    assert_eq!(first, vec![0x0c, 1, 2, 3, 4]);
    let second = read_packet(&stream[first.len() + 4..]).unwrap();
    assert_eq!(second, vec![0x0b, 9, 8, 7, 6, 5]);
}

#[test]
fn length_prefix_leaves_the_code_out() {
    assert_eq!(length_prefix(&[0x0a]), [0, 0, 0, 0]);
    assert_eq!(length_prefix(&[0x0b, 1, 2, 3, 4]), [0, 0, 0, 4]);
    let long = vec![0u8; 0x01020304 + 1];
    assert_eq!(length_prefix(&long), [1, 2, 3, 4]);
}

#[test]
fn write_is_length_then_buffer() {
    let mut stream = vec![0xee];
    write_packet(&mut stream, &[0x0b, 1, 2, 3, 4, 5]);
    assert_eq!(stream, vec![0xee, 0, 0, 0, 5, 0x0b, 1, 2, 3, 4, 5]);
}

#[test]
fn frame_round_trip() {
    for len in [4usize, 5, 255, 256, 65536 % 51200, 51200] {
        let mut data = vec![0x0b];
        for i in 0..len {
            data.push((i % 251) as u8);
        }
        let mut stream = Vec::new();
        write_packet(&mut stream, &data);
        assert_eq!(stream.len(), data.len() + 4);
        assert_eq!(read_packet(&stream).unwrap(), data);
    }
}

#[test]
fn frame_round_trip_needs_four_bytes_of_payload() {
    let mut stream = Vec::new();
    write_packet(&mut stream, &[0x0a]);
    assert_eq!(stream, vec![0, 0, 0, 0, 0x0a]);
    assert!(matches!(read_packet(&stream), Err(Error::InvalidData)));
}

#[test]
fn header_fields_are_read_unchecked() {
    assert_eq!(header_fields(&[0, 0, 0, 3, 0xff]), (0xff, 3));
    assert_eq!(header_fields(&[0xff, 0xff, 0xff, 0xff, 0x0e]), (0x0e, u32::MAX));
    assert_eq!(header_fields(&[0x12, 0x34, 0x56, 0x78, 0x00]), (0x00, 0x12345678));
}

#[test]
fn fill_copies_the_payload_behind_the_code() {
    let filled = fill_packet(vec![0x0c, 0, 0, 0, 0], &[1, 2, 3, 4, 5, 6]).unwrap();
    assert_eq!(filled, vec![0x0c, 1, 2, 3, 4]);
    assert_eq!(fill_packet(vec![0x0c], &[]).unwrap(), vec![0x0c]);
}

#[test]
fn fill_from_a_short_source_is_end_of_stream() {
    assert!(matches!(
        fill_packet(vec![0x0c, 0, 0, 0, 0], &[1, 2, 3]),
        Err(Error::UnexpectedEof)
    ));
}

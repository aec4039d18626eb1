use crisp_status_local::chunk::decode;

#[test]
fn decode_single_chunk() {
    assert_eq!(decode(b"5\r\nhello\r\n0\r\n\r\n"), b"hello".to_vec());
}

#[test]
fn decode_multiple_chunks() {
    assert_eq!(decode(b"4\r\nWiki\r\n5\r\npedia\r\n0\r\n\r\n"), b"Wikipedia".to_vec());
}

#[test]
fn decode_hex_sizes_both_cases() {
    let mut stream = b"a\r\n0123456789\r\nB\r\nabcdefghijk\r\n0\r\n\r\n".to_vec();
    let decoded = decode(&stream);
    assert_eq!(decoded, b"0123456789abcdefghijk".to_vec());
    stream.truncate(0);
    assert_eq!(decode(&stream), Vec::<u8>::new());
}

#[test]
fn decode_ignores_chunk_extensions() {
    assert_eq!(decode(b"3;name=value\r\nabc\r\n0\r\n\r\n"), b"abc".to_vec());
}

#[test]
fn decode_ignores_trailers() {
    assert_eq!(decode(b"2\r\nok\r\n0\r\nExpires: never\r\n\r\n"), b"ok".to_vec());
}

#[test]
fn decode_empty_stream() {
    assert_eq!(decode(b"0\r\n\r\n"), Vec::<u8>::new());
    assert_eq!(decode(b""), Vec::<u8>::new());
}

#[test]
fn decode_missing_terminator_keeps_decoded_bytes() {
    assert_eq!(decode(b"4\r\nWiki\r\n5\r\npedia\r\n"), b"Wikipedia".to_vec());
}

#[test]
fn decode_truncated_chunk_keeps_what_arrived() {
    assert_eq!(decode(b"4\r\nWiki\r\n5\r\nped"), b"Wikiped".to_vec());
}

#[test]
fn decode_non_hex_size_stops() {
    assert_eq!(decode(b"4\r\nWiki\r\nzz\r\npedia\r\n0\r\n\r\n"), b"Wiki".to_vec());
    assert_eq!(decode(b"hello"), Vec::<u8>::new());
}

#[test]
fn decode_missing_crlf_after_data_stops() {
    assert_eq!(decode(b"4\r\nWikiXX5\r\npedia\r\n0\r\n\r\n"), b"Wiki".to_vec());
}

#[test]
fn decode_size_line_without_end() {
    assert_eq!(decode(b"4"), Vec::<u8>::new());
}

#[test]
fn decode_huge_size_takes_rest() {
    assert_eq!(decode(b"ffffffffffffffffffffffff\r\nabc"), b"abc".to_vec());
}

#[test]
fn decode_round_trip_of_encoded_bytes() {
    let data: Vec<u8> = (0..300u32).map(|i| (i * 7 % 256) as u8).collect();
    let mut stream = Vec::new();
    for chunk in data.chunks(37) {
        stream.extend_from_slice(format!("{:x}\r\n", chunk.len()).as_bytes());
        stream.extend_from_slice(chunk);
        stream.extend_from_slice(b"\r\n");
    }
    stream.extend_from_slice(b"0\r\n\r\n");
    assert_eq!(decode(&stream), data);
}

use tagdriver::eink::EInkResponse;
use tagdriver::protocol::{
    checksum, classify_reply, contains_bytes, frame_chunk, img_command, led_command,
    ready_command, reply_complete, show_command, split_chunks, CHUNK_SIZE,
};

#[test]
fn checksum_of_small_payload_is_its_sum() {
    assert_eq!(checksum(&[1, 2, 3]), 6);
}

#[test]
fn checksum_wraps_around() {
    assert_eq!(checksum(&[200, 100]), 44);
    assert_eq!(checksum(&[255, 1]), 0);
}

#[test]
fn checksum_of_empty_payload_is_zero() {
    assert_eq!(checksum(&[]), 0);
}

#[test]
fn checksum_matches_sum_mod_256() {
    let data: Vec<u8> = (0..5000u32).map(|i| (i * 37 % 251) as u8).collect();
    let sum: u64 = data.iter().map(|b| *b as u64).sum();
    assert_eq!(checksum(&data) as u64, sum % 256);
}

#[test]
fn payload_is_cut_into_pieces_of_chunk_size() {
    let data: Vec<u8> = (0..2500u32).map(|i| i as u8).collect();
    let chunks = split_chunks(&data, CHUNK_SIZE);
    assert_eq!(chunks.len(), 3);
    assert_eq!(chunks[0].len(), 1000);
    assert_eq!(chunks[1].len(), 1000);
    assert_eq!(chunks[2].len(), 500);
    assert_eq!(chunks[1][0], data[1000]);
}

#[test]
fn rechunked_payload_reassembles_exactly() {
    let data: Vec<u8> = (0..103u32).map(|i| (i * 7) as u8).collect();
    for size in [1usize, 7, 10, 103, 500] {
        let chunks = split_chunks(&data, size);
        assert_eq!(chunks.len(), (data.len() + size - 1) / size);
        let joined: Vec<u8> = chunks.concat();
        assert_eq!(joined, data);
        assert_eq!(checksum(&joined), checksum(&data));
    }
}

#[test]
fn empty_payload_has_no_pieces() {
    assert_eq!(split_chunks(&[], CHUNK_SIZE).len(), 0);
}

#[test]
fn exact_multiple_has_no_short_piece() {
    let data = vec![9u8; 2000];
    let chunks = split_chunks(&data, CHUNK_SIZE);
    assert_eq!(chunks.len(), 2);
    assert_eq!(chunks[1].len(), 1000);
}

#[test]
fn image_announcement_is_encoded() {
    assert_eq!(img_command(false, 0, 0, 250, 128, 44), b"AT+IMG=0 0 0 250 128 44\r\n".to_vec());
    assert_eq!(img_command(true, 12, 3, 4000000000, 7, 255), b"AT+IMG=1 12 3 4000000000 7 255\r\n".to_vec());
}

#[test]
fn show_command_is_encoded() {
    assert_eq!(show_command(true, false), b"AT+SHOW=1 0\r\n".to_vec());
    assert_eq!(show_command(false, true), b"AT+SHOW=0 1\r\n".to_vec());
}

#[test]
fn led_and_ready_commands_are_encoded() {
    assert_eq!(led_command(255), b"AT+LED=255\r\n".to_vec());
    assert_eq!(led_command(0), b"AT+LED=0\r\n".to_vec());
    assert_eq!(ready_command(), b"AT+READY=\r\n".to_vec());
}

#[test]
fn chunk_is_followed_by_terminator() {
    assert_eq!(frame_chunk(&[1, 2]), vec![1, 2, 13, 10]);
    assert_eq!(frame_chunk(&[]), vec![13, 10]);
}

#[test]
fn replies_are_classified() {
    assert_eq!(classify_reply(b"OK\r\n"), EInkResponse::OK);
    assert_eq!(classify_reply(b"+IMG: OK\r\n"), EInkResponse::OK);
    assert_eq!(classify_reply(b"BUSY\r\n"), EInkResponse::Busy);
    assert_eq!(classify_reply(b"ERROR\r\n"), EInkResponse::Error);
    assert_eq!(classify_reply(b""), EInkResponse::Error);
    assert_eq!(classify_reply(b"BUSY OK"), EInkResponse::OK);
    assert_eq!(classify_reply(b"BUS"), EInkResponse::Error);
}

#[test]
fn substring_search() {
    assert!(contains_bytes(b"abcd", b"cd"));
    assert!(contains_bytes(b"abcd", b""));
    assert!(!contains_bytes(b"ab", b"abc"));
    assert!(!contains_bytes(b"abcd", b"ce"));
}

#[test]
fn reply_is_complete_at_terminator() {
    assert!(reply_complete(b"OK\r\n"));
    assert!(!reply_complete(b"OK\r"));
    assert!(!reply_complete(b"\n"));
    assert!(reply_complete(b"\r\n"));
}

use lib::chunks::{chunk_len, iteration_count, BUFFER_SIZE};
use lib::decimal::{format_decimal, parse_bounded};
use lib::framing::{echo_confirms, frame, receive_payload, unframe};

#[test]
fn parse_plain_digits() {
    assert_eq!(parse_bounded(b"2121", 65535), Some(2121));
    assert_eq!(parse_bounded(b"0", 255), Some(0));
    assert_eq!(parse_bounded(b"007", 255), Some(7));
}

#[test]
fn parse_leading_plus() {
    assert_eq!(parse_bounded(b"+5", 255), Some(5));
    assert_eq!(parse_bounded(b"+", 255), None);
    assert_eq!(parse_bounded(b"++5", 255), None);
}

#[test]
fn parse_rejects_non_digits() {
    assert_eq!(parse_bounded(b"", 255), None);
    assert_eq!(parse_bounded(b"-5", 255), None);
    assert_eq!(parse_bounded(b"-", 255), None);
    assert_eq!(parse_bounded(b"1a", 255), None);
    assert_eq!(parse_bounded(b" 1", 255), None);
    assert_eq!(parse_bounded(b"1\n", 255), None);
}

#[test]
fn parse_respects_bound() {
    assert_eq!(parse_bounded(b"255", 255), Some(255));
    assert_eq!(parse_bounded(b"256", 255), None);
    assert_eq!(parse_bounded(b"65535", 65535), Some(65535));
    assert_eq!(parse_bounded(b"65536", 65535), None);
    assert_eq!(parse_bounded(b"18446744073709551615", u64::MAX), Some(u64::MAX));
    assert_eq!(parse_bounded(b"18446744073709551616", u64::MAX), None);
    assert_eq!(parse_bounded(b"99999999999999999999999", u64::MAX), None);
}

#[test]
fn parse_agrees_with_std() {
    for text in ["0", "12", "+7", "255", "256", "-1", "", "+", "1 ", "0001", "300"] {
        assert_eq!(parse_bounded(text.as_bytes(), 255).map(|v| v as u8), text.parse::<u8>().ok());
    }
}

#[test]
fn format_decimal_values() {
    assert_eq!(format_decimal(0), b"0".to_vec());
    assert_eq!(format_decimal(101), b"101".to_vec());
    assert_eq!(format_decimal(100000), b"100000".to_vec());
    assert_eq!(format_decimal(u64::MAX), u64::MAX.to_string().into_bytes());
}

#[test]
fn decimal_roundtrip_values() {
    for n in [0u64, 1, 9, 10, 99, 100, 101, 65535, 123456789, u64::MAX] {
        assert_eq!(parse_bounded(&format_decimal(n), u64::MAX), Some(n));
    }
}

#[test]
fn frame_appends_newline() {
    assert_eq!(frame(b"101"), b"101\n".to_vec());
    assert_eq!(frame(b""), b"\n".to_vec());
}

#[test]
fn unframe_drops_last_byte() {
    assert_eq!(unframe(b"101\n".to_vec()), b"101".to_vec());
    assert_eq!(unframe(b"abc".to_vec()), b"ab".to_vec());
    assert_eq!(unframe(Vec::new()), Vec::<u8>::new());
}

#[test]
fn unframe_of_frame_is_payload() {
    for p in [&b""[..], b"x", b"cat.png", b"a\nb"] {
        assert_eq!(unframe(frame(p)), p.to_vec());
    }
}

#[test]
fn echo_confirms_only_equal_bytes() {
    assert!(echo_confirms(b"101", b"101"));
    assert!(!echo_confirms(b"101", b"102"));
    assert!(!echo_confirms(b"101", b"10"));
    assert!(echo_confirms(b"", b""));
}

#[test]
fn receive_payload_answers_with_frame() {
    let r = receive_payload(b"cat.png".to_vec()).unwrap();
    assert_eq!(r.text, "cat.png");
    assert_eq!(r.answer, b"cat.png\n".to_vec());
    let r = receive_payload("k\u{e4}se".as_bytes().to_vec()).unwrap();
    assert_eq!(r.text, "k\u{e4}se");
}

#[test]
fn receive_payload_rejects_invalid_utf8() {
    assert!(receive_payload(vec![0xff, 0x41]).is_none());
    assert!(receive_payload(vec![0xc3]).is_none());
}

#[test]
fn header_exchange_scenario() {
    let sent = "holiday.jpg";
    let mut wire = frame(sent.as_bytes());
    wire.extend_from_slice(b"trailing");
    let end = wire.iter().position(|&b| b == b'\n').unwrap();
    let line = wire[..=end].to_vec();
    let got = receive_payload(unframe(line)).unwrap();
    assert_eq!(got.text, sent);
    let back = unframe(got.answer);
    assert!(echo_confirms(sent.as_bytes(), &back));
}

#[test]
fn iteration_counts() {
    assert_eq!(BUFFER_SIZE, 100000);
    assert_eq!(iteration_count(0), 1);
    assert_eq!(iteration_count(99999), 1);
    assert_eq!(iteration_count(100000), 2);
    assert_eq!(iteration_count(250000), 3);
    assert_eq!(iteration_count(u64::MAX), u64::MAX / 100000 + 1);
}

#[test]
fn chunk_lengths() {
    assert_eq!(chunk_len(250000, 2), 100000);
    assert_eq!(chunk_len(250000, 1), 100000);
    assert_eq!(chunk_len(250000, 0), 50000);
    assert_eq!(chunk_len(200000, 0), 0);
    assert_eq!(chunk_len(0, 0), 0);
}

#[test]
fn chunks_cover_file() {
    for size in [0u64, 1, 99999, 100000, 100001, 250000, 1234567] {
        let n = iteration_count(size);
        let mut total: u64 = 0;
        let mut remaining = n;
        while remaining != 0 {
            remaining -= 1;
            total += chunk_len(size, remaining) as u64;
        }
        assert_eq!(total, size);
    }
}

#[test]
fn receiver_gets_file_scenario() {
    let size: usize = 250001;
    let file: Vec<u8> = (0..size).map(|i| (i % 251) as u8 + 1).collect();
    let b = BUFFER_SIZE as usize;
    // the sender's side
    let mut wire: Vec<u8> = Vec::new();
    let mut offset = 0usize;
    let mut iteration = iteration_count(size as u64);
    let total = iteration;
    while iteration != 0 {
        iteration -= 1;
        let mut buffer = vec![0u8; b];
        let len = chunk_len(size as u64, iteration);
        buffer[..len].copy_from_slice(&file[offset..offset + len]);
        offset += len;
        wire.extend_from_slice(&buffer);
    }
    assert_eq!(wire.len() as u64, total * BUFFER_SIZE);
    // the receiver's side
    let mut saved: Vec<u8> = Vec::new();
    let mut iteration = iteration_count(size as u64);
    let mut at = 0usize;
    while iteration != 0 {
        iteration -= 1;
        let buffer = &wire[at..at + b];
        at += b;
        saved.extend_from_slice(&buffer[..chunk_len(size as u64, iteration)]);
    }
    assert_eq!(saved, file);
}

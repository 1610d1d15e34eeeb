//! Reply parsing primitives and the log-line splitter.

use evcore::log_display::LogDisplay;
use evcore::parse::{contains, find, parse_action, parse_len, parse_u32_digits, vec_eq};

#[test]
fn find_reports_first_occurrence() {
    let hay = b"abcabc".to_vec();
    assert_eq!(find(&hay, &b"abc".to_vec()), Some(0));
    assert_eq!(find(&hay, &b"bc".to_vec()), Some(1));
    assert_eq!(find(&hay, &b"cab".to_vec()), Some(2));
    assert_eq!(find(&hay, &b"x".to_vec()), None);
    assert_eq!(find(&hay, &b"".to_vec()), Some(0));
    assert_eq!(find(&b"".to_vec(), &b"a".to_vec()), None);
}

#[test]
fn contains_matches_substrings() {
    let hay = b"HTTPACTION: 0,200,8".to_vec();
    assert!(contains(&hay, &b"200".to_vec()));
    assert!(!contains(&hay, &b"404".to_vec()));
}

#[test]
fn vec_eq_is_exact() {
    assert!(vec_eq(&b"abc".to_vec(), &b"abc".to_vec()));
    assert!(!vec_eq(&b"abc".to_vec(), &b"abd".to_vec()));
    assert!(!vec_eq(&b"abc".to_vec(), &b"ab".to_vec()));
}

#[test]
fn digit_fields_parse_exactly() {
    assert_eq!(parse_u32_digits(&b"0".to_vec()), Some(0));
    assert_eq!(parse_u32_digits(&b"4294967295".to_vec()), Some(u32::MAX));
    assert_eq!(parse_u32_digits(&b"4294967296".to_vec()), None);
    assert_eq!(parse_u32_digits(&b"".to_vec()), None);
    assert_eq!(parse_u32_digits(&b"12a".to_vec()), None);
    assert_eq!(parse_u32_digits(&b"007".to_vec()), Some(7));
}

#[test]
fn action_reply_parses_status_and_length() {
    let buf = b"AT+HTTPACTION=0\r\r\n+HTTPACTION: 0,200,8\r\n".to_vec();
    assert_eq!(parse_action(&buf, &b"HTTPACTION:".to_vec()), Some((200, 8)));
    // Whitespace between the commas and the digits is tolerated.
    let spaced = b"+HTTPACTION: 0, 404, 13\r\n".to_vec();
    assert_eq!(parse_action(&spaced, &b"HTTPACTION:".to_vec()), Some((404, 13)));
}

#[test]
fn action_reply_rejects_incomplete_input() {
    let partial = b"AT+HTTPACTION=0\r\r\n+HTTPACTION: 0,200".to_vec();
    assert_eq!(parse_action(&partial, &b"HTTPACTION:".to_vec()), None);
    let missing = b"AT+HTTPACTION=0\r\r\nOK\r\n".to_vec();
    assert_eq!(parse_action(&missing, &b"HTTPACTION:".to_vec()), None);
}

#[test]
fn length_reply_parses_declared_length() {
    let buf = b"AT+HTTPREAD?\r\r\n+HTTPREAD: LEN,16\r\n\r\nOK\r\n".to_vec();
    assert_eq!(parse_len(&buf, &b"HTTPREAD: LEN,".to_vec()), Some(16));
    let zero = b"+HTTPREAD: LEN,0\r\n".to_vec();
    assert_eq!(parse_len(&zero, &b"HTTPREAD: LEN,".to_vec()), Some(0));
    let unterminated = b"+HTTPREAD: LEN,16".to_vec();
    assert_eq!(parse_len(&unterminated, &b"HTTPREAD: LEN,".to_vec()), None);
}

#[test]
fn log_lines_split_on_breaks() {
    let mut log = LogDisplay::new();
    log.append(&b"hello\nworld\r\n".to_vec());
    assert_eq!(log.lines.len(), 2);
    assert_eq!(log.lines[0], b"hello".to_vec());
    assert_eq!(log.lines[1], b"world".to_vec());
    log.append(&b"tail".to_vec());
    assert_eq!(log.lines.len(), 3);
    assert_eq!(log.lines[2], b"tail".to_vec());
}

#[test]
fn log_lines_wrap_at_display_width() {
    let mut log = LogDisplay::new();
    let long = vec![b'x'; 60];
    log.append(&long);
    assert_eq!(log.lines.len(), 2);
    assert_eq!(log.lines[0].len(), 53);
    assert_eq!(log.lines[1].len(), 7);
}

#[test]
fn log_keeps_only_last_screenful() {
    let mut log = LogDisplay::new();
    for i in 0..25u8 {
        log.append(&vec![b'a' + (i % 26)]);
    }
    assert_eq!(log.lines.len(), 19);
    // The oldest lines were dropped: the first kept line is the seventh fed.
    assert_eq!(log.lines[0], vec![b'a' + 6]);
    assert_eq!(log.lines[18], vec![b'a' + 24]);
}

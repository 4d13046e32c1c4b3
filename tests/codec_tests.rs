use matrix_client::{get_response_type, parse_field, parse_long, read_matrix, trim_line};
use matrix_client::{RequestType, ResponseType, Status, Writer};

#[test]
fn request_tokens_are_literal() {
    assert_eq!(RequestType::PostNewTask.token(), b"POST_NEW_TASK".to_vec());
    assert_eq!(RequestType::StartTask.token(), b"START_TASK".to_vec());
    assert_eq!(RequestType::GetTaskStatus.token(), b"GET_TASK_STATUS".to_vec());
    assert_eq!(RequestType::GetResult.token(), b"GET_RESULT".to_vec());
    assert_eq!(RequestType::Shutdown.token(), b"SHUTDOWN".to_vec());
    assert_eq!(ResponseType::OK.token(), b"OK".to_vec());
    assert_eq!(ResponseType::BadRequest.token(), b"BAD_REQUEST".to_vec());
}

#[test]
fn status_tokens_parse_exactly() {
    assert_eq!(Status::from_token(b"DONE"), Ok(Status::Done));
    assert_eq!(Status::from_token(b"RUNNING"), Ok(Status::Running));
    assert_eq!(Status::from_token(b"WAITING"), Ok(Status::Waiting));
    assert_eq!(Status::from_token(b"done"), Err(()));
    assert_eq!(Status::from_token(b"PAUSED"), Err(()));
    assert_eq!(Status::from_token(b""), Err(()));
}

#[test]
fn trimming_removes_surrounding_whitespace() {
    assert_eq!(trim_line(b"  OK \r\n"), b"OK".to_vec());
    assert_eq!(trim_line(b"\n"), Vec::<u8>::new());
    assert_eq!(trim_line(b"a b"), b"a b".to_vec());
}

#[test]
fn response_lines_are_classified() {
    assert_eq!(get_response_type(b"OK\n"), Some(ResponseType::OK));
    assert_eq!(get_response_type(b"  OK  \r\n"), Some(ResponseType::OK));
    assert_eq!(get_response_type(b"BAD_REQUEST\n"), Some(ResponseType::BadRequest));
    assert_eq!(get_response_type(b"OKAY\n"), Some(ResponseType::BadRequest));
    assert_eq!(get_response_type(b"whatever\n"), Some(ResponseType::BadRequest));
    assert_eq!(get_response_type(b"\n"), Some(ResponseType::BadRequest));
}

#[test]
fn end_of_input_is_no_response() {
    assert_eq!(get_response_type(b""), None);
}

#[test]
fn unicode_whitespace_is_trimmed() {
    assert_eq!(get_response_type("OK\u{a0}\n".as_bytes()), Some(ResponseType::OK));
    assert_eq!(get_response_type("\u{3000}OK\u{2028}\n".as_bytes()), Some(ResponseType::OK));
    assert_eq!(parse_long("id: 7\u{a0}\n".as_bytes(), b"id: "), 7);
    for ws in ['\u{85}', '\u{a0}', '\u{1680}', '\u{2000}', '\u{200a}', '\u{2028}', '\u{2029}', '\u{202f}', '\u{205f}', '\u{3000}'] {
        let line = format!("{ws}{ws}OK \u{a0}{ws}\n");
        assert_eq!(trim_line(line.as_bytes()), line.trim().as_bytes().to_vec());
        assert_eq!(trim_line(line.as_bytes()), b"OK".to_vec());
    }
    let inner = "a\u{a0}b\u{200b}";
    assert_eq!(trim_line(inner.as_bytes()), inner.trim().as_bytes().to_vec());
}

#[test]
fn integer_fields_parse() {
    assert_eq!(parse_long(b"id: 7\n", b"id: "), 7);
    assert_eq!(parse_long(b"execution-time: 1234\r\n", b"execution-time: "), 1234);
    assert_eq!(parse_long(b"id: -12\n", b"id: "), -12);
    assert_eq!(parse_long(b"id: +12\n", b"id: "), 12);
    assert_eq!(parse_long(b"id: id: 5\n", b"id: "), 5);
    assert_eq!(parse_field(b"id: 9223372036854775807", b"id: "), Some(i64::MAX));
    assert_eq!(parse_field(b"id: -9223372036854775808", b"id: "), Some(i64::MIN));
}

#[test]
fn malformed_integer_fields_give_sentinel() {
    assert_eq!(parse_long(b"id: abc\n", b"id: "), -1);
    assert_eq!(parse_long(b"id: \n", b"id: "), -1);
    assert_eq!(parse_long(b"\n", b"id: "), -1);
    assert_eq!(parse_long(b"id: 12x\n", b"id: "), -1);
    assert_eq!(parse_long(b"id: -\n", b"id: "), -1);
    assert_eq!(parse_field(b"id: 9223372036854775808", b"id: "), None);
    assert_eq!(parse_field(b"id: 99999999999999999999999", b"id: "), None);
}

#[test]
fn writer_frames_lines() {
    let mut w = Writer::new(Vec::new());
    w.println_request(RequestType::StartTask);
    w.println_field(b"id: ", 42);
    w.println_end();
    w.println_response(ResponseType::OK);
    w.println(b"x");
    assert_eq!(w.out, b"START_TASK\nid: 42\n\nOK\nx\n".to_vec());
}

#[test]
fn matrix_is_written_big_endian() {
    let mut w = Writer::new(Vec::new());
    let one = 1.0f64.to_bits();
    let two = 2.5f64.to_bits();
    w.write_matrix(&vec![vec![one, two], vec![0, u64::MAX]]);
    let mut expected = Vec::new();
    expected.extend_from_slice(&1.0f64.to_be_bytes());
    expected.extend_from_slice(&2.5f64.to_be_bytes());
    expected.extend_from_slice(&[0u8; 8]);
    expected.extend_from_slice(&[0xffu8; 8]);
    assert_eq!(w.out, expected);
    assert_eq!(&w.out[0..8], &[0x3f, 0xf0, 0, 0, 0, 0, 0, 0]);
}

#[test]
fn big_endian_round_trip_keeps_bits() {
    let cells: Vec<Vec<u64>> = vec![
        vec![3.25f64.to_bits(), (-0.0f64).to_bits(), f64::NAN.to_bits()],
        vec![0x0102030405060708, 1, 99.0f64.to_bits()],
        vec![u64::MAX, 0, f64::MIN_POSITIVE.to_bits()],
    ];
    let mut w = Writer::new(Vec::new());
    w.write_matrix(&cells);
    let m = read_matrix(&w.out, 3, false).unwrap();
    assert_eq!(m.size, 3);
    assert_eq!(m.data, cells);
    let swapped = read_matrix(&w.out, 3, true).unwrap();
    assert_eq!(swapped.data[1][0], 0x0807060504030201);
}

#[test]
fn matrix_is_read_little_endian() {
    let mut bytes = Vec::new();
    for v in [1.5f64, -2.0, 0.25, 1e10] {
        bytes.extend_from_slice(&v.to_le_bytes());
    }
    let m = read_matrix(&bytes, 2, true).unwrap();
    assert_eq!(m.data[0][0], 1.5f64.to_bits());
    assert_eq!(m.data[0][1], (-2.0f64).to_bits());
    assert_eq!(m.data[1][0], 0.25f64.to_bits());
    assert_eq!(m.data[1][1], 1e10f64.to_bits());
}

#[test]
fn short_matrix_body_is_refused() {
    let bytes = vec![0u8; 31];
    assert!(read_matrix(&bytes, 2, true).is_none());
    let empty = read_matrix(&[], 0, true).unwrap();
    assert_eq!(empty.size, 0);
    assert!(empty.data.is_empty());
}

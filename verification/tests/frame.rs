use lsp_client::frame::{
    frame_incomplete, frame_message, frame_reads_back, header_step, poll_message, read_message,
    scan_header_line, ByteReader, HeaderStep, TransportError,
};

#[test]
fn test_read_message() {
    let msg1 = b"content-length: 11\r\n\r\nhello world";
    let mut reader1 = ByteReader::new(msg1.to_vec());
    assert_eq!(read_message(&mut reader1).unwrap().unwrap(), b"hello world");

    let msg2 = b"content-length: 5\r\n\r\nhello world";
    let mut reader2 = ByteReader::new(msg2.to_vec());
    assert_eq!(read_message(&mut reader2).unwrap().unwrap(), b"hello");
}

#[test]
#[should_panic(expected = "failed to fill whole buffer")]
fn test_invalid_read_message() {
    let msg1 = b"content-length: 12\r\n\r\nhello world";
    let mut reader1 = ByteReader::new(msg1.to_vec());
    read_message(&mut reader1).map_err(|e| e.message()).unwrap();
}

#[test]
fn short_body_is_an_error_and_not_a_short_result() {
    let mut reader = ByteReader::new(b"Content-Length: 12\r\n\r\nhello world".to_vec());
    assert_eq!(read_message(&mut reader), Err(TransportError::UnexpectedEof));
    assert_eq!(reader.remaining(), 0);
}

#[test]
fn smaller_length_leaves_the_remainder_unread() {
    let mut reader = ByteReader::new(b"Content-Length: 5\r\n\r\nhello world".to_vec());
    assert_eq!(read_message(&mut reader), Ok(Some(b"hello".to_vec())));
    assert_eq!(reader.remaining(), 6);
    assert_eq!(reader.read_exact(6), Some(b" world".to_vec()));
}

#[test]
fn frames_back_to_back_come_out_in_order() {
    let mut stream = Vec::new();
    stream.extend_from_slice(b"Content-Length: 3\r\n\r\nabc");
    stream.extend_from_slice(b"X-Other: 1\r\nCONTENT-LENGTH: 4\r\nContent-Type: x\r\n\r\nde\nf");
    stream.extend_from_slice(b"content-LENGTH:\t 0\r\n\r\n");
    stream.extend_from_slice(b"CoNtEnT-lEnGtH: 2\r\n\r\n\r\n");
    let mut reader = ByteReader::new(stream);
    assert_eq!(read_message(&mut reader), Ok(Some(b"abc".to_vec())));
    assert_eq!(read_message(&mut reader), Ok(Some(b"de\nf".to_vec())));
    assert_eq!(read_message(&mut reader), Ok(Some(Vec::new())));
    assert_eq!(read_message(&mut reader), Ok(Some(b"\r\n".to_vec())));
    assert_eq!(read_message(&mut reader), Ok(None));
    assert_eq!(reader.remaining(), 0);
}

#[test]
fn end_of_stream_before_any_header_is_none() {
    let mut empty = ByteReader::new(Vec::new());
    assert_eq!(read_message(&mut empty), Ok(None));
    assert_eq!(read_message(&mut empty), Ok(None));
    let mut reader = ByteReader::new(b"Content-Length: 1\r\n\r\nx".to_vec());
    assert_eq!(read_message(&mut reader), Ok(Some(b"x".to_vec())));
    assert_eq!(read_message(&mut reader), Ok(None));
}

#[test]
fn end_of_stream_within_the_headers_is_an_error() {
    let mut no_blank = ByteReader::new(b"Content-Length: 5\r\n".to_vec());
    assert_eq!(read_message(&mut no_blank), Err(TransportError::UnexpectedEof));
    assert_eq!(no_blank.remaining(), 0);
    let mut partial = ByteReader::new(b"Content-Length: 5".to_vec());
    assert_eq!(read_message(&mut partial), Err(TransportError::UnexpectedEof));
    assert_eq!(partial.remaining(), 0);
    let mut other = ByteReader::new(b"X: y\r\n".to_vec());
    assert_eq!(read_message(&mut other), Err(TransportError::UnexpectedEof));
    let mut one_byte = ByteReader::new(b"\r".to_vec());
    assert_eq!(read_message(&mut one_byte), Err(TransportError::UnexpectedEof));
    let mut second = ByteReader::new(b"Content-Length: 1\r\n\r\nxContent-Length: 1\r\n".to_vec());
    assert_eq!(read_message(&mut second), Ok(Some(b"x".to_vec())));
    assert_eq!(read_message(&mut second), Err(TransportError::UnexpectedEof));
}

#[test]
fn poll_message_waits_for_the_whole_frame() {
    let whole = b"Content-Length: 5\r\nX: y\r\n\r\nhelloContent-Length: 1\r\n\r\n!".to_vec();
    let first = whole.len() - "Content-Length: 1\r\n\r\n!".len();
    let mut reader = ByteReader::new(Vec::new());
    let mut bodies = Vec::new();
    for (at, byte) in whole.iter().enumerate() {
        assert!(frame_incomplete(&reader));
        assert_eq!(poll_message(&mut reader), None);
        reader.extend(&[*byte]);
        if at + 1 == first || at + 1 == whole.len() {
            assert!(!frame_incomplete(&reader));
            bodies.push(poll_message(&mut reader));
            assert_eq!(reader.remaining(), 0);
        }
    }
    assert_eq!(bodies, vec![Some(Ok(b"hello".to_vec())), Some(Ok(b"!".to_vec()))]);
    assert_eq!(poll_message(&mut reader), None);
}

#[test]
fn poll_message_refuses_a_line_as_soon_as_it_is_whole() {
    let mut reader = ByteReader::new(b"Content-Length: 99999999999999999999999\r".to_vec());
    assert_eq!(poll_message(&mut reader), None);
    reader.extend(b"\n");
    assert!(!frame_incomplete(&reader));
    assert_eq!(poll_message(&mut reader), Some(Err(TransportError::InvalidContentLength)));
    let mut reader = ByteReader::new(b"A: \xff".to_vec());
    assert_eq!(poll_message(&mut reader), None);
    reader.extend(b"\r\nrest");
    assert_eq!(poll_message(&mut reader), Some(Err(TransportError::InvalidUtf8)));
    assert_eq!(reader.remaining(), 4);
}

#[test]
fn poll_message_leaves_what_follows() {
    let mut reader = ByteReader::new(b"Content-Length: 2\r\n\r\nabContent-Len".to_vec());
    assert_eq!(poll_message(&mut reader), Some(Ok(b"ab".to_vec())));
    assert_eq!(reader.remaining(), 11);
    assert_eq!(poll_message(&mut reader), None);
    assert_eq!(reader.remaining(), 11);
    reader.extend(b"gth: 0\r\n\r\n");
    assert_eq!(poll_message(&mut reader), Some(Ok(Vec::new())));
    assert_eq!(reader.remaining(), 0);
}

#[test]
fn extend_adds_behind_what_is_unread() {
    let mut reader = ByteReader::new(b"ab\ncd".to_vec());
    assert_eq!(reader.read_line(), b"ab\n".to_vec());
    reader.extend(b"ef\ngh");
    assert_eq!(reader.remaining(), 7);
    assert_eq!(reader.read_line(), b"cdef\n".to_vec());
    reader.extend(b"");
    assert_eq!(reader.read_exact(2), Some(b"gh".to_vec()));
    reader.extend(b"i");
    assert_eq!(reader.read_line(), b"i".to_vec());
}

#[test]
fn written_frames_read_back() {
    for body in ["", "{}", "h\u{e9}llo", "Content-Length: 3\r\n\r\nabc"] {
        assert!(frame_reads_back(body));
    }
    let long = "x".repeat(100_000);
    assert!(frame_reads_back(&long));
}

#[test]
fn last_content_length_wins() {
    let mut reader =
        ByteReader::new(b"Content-Length: 1\r\nContent-Length: 2\r\n\r\nabc".to_vec());
    assert_eq!(read_message(&mut reader), Ok(Some(b"ab".to_vec())));
    assert_eq!(reader.remaining(), 1);
}

#[test]
fn header_without_space_or_digits_is_ignored() {
    let mut reader = ByteReader::new(b"Content-Length:3\r\n\r\nabc".to_vec());
    assert_eq!(read_message(&mut reader), Ok(Some(Vec::new())));
    assert_eq!(reader.remaining(), 3);
    let mut reader = ByteReader::new(b" Content-Length: 3\r\n\r\nabc".to_vec());
    assert_eq!(read_message(&mut reader), Ok(Some(Vec::new())));
    let mut reader = ByteReader::new(b"Content-Length: x\r\n\r\nabc".to_vec());
    assert_eq!(read_message(&mut reader), Ok(Some(Vec::new())));
}

#[test]
fn bare_line_feed_does_not_end_the_headers() {
    let mut reader = ByteReader::new(b"Content-Length: 1\n\nContent-Length: 2\r\n\r\nabc".to_vec());
    assert_eq!(read_message(&mut reader), Ok(Some(b"ab".to_vec())));
}

#[test]
fn digits_followed_by_other_text_still_count() {
    let mut reader = ByteReader::new(b"Content-Length: 2abc\r\n\r\nxyz".to_vec());
    assert_eq!(read_message(&mut reader), Ok(Some(b"xy".to_vec())));
}

#[test]
fn header_that_is_not_utf8_is_refused() {
    let mut reader = ByteReader::new(b"X: \xff\r\n\r\n".to_vec());
    assert_eq!(read_message(&mut reader), Err(TransportError::InvalidUtf8));
    assert_eq!(reader.remaining(), 2);
}

#[test]
fn length_that_does_not_fit_is_refused() {
    let mut reader =
        ByteReader::new(b"Content-Length: 99999999999999999999999999\r\n\r\n".to_vec());
    assert_eq!(read_message(&mut reader), Err(TransportError::InvalidContentLength));
    assert_eq!(reader.remaining(), 2);
}

#[test]
fn digits_of_another_script_are_refused() {
    let line = "Content-Length: \u{0663}\r\n".as_bytes().to_vec();
    assert_eq!(scan_header_line(0, line), Err(TransportError::InvalidContentLength));
}

#[test]
fn leading_zeros_are_read() {
    let mut reader = ByteReader::new(b"Content-Length: 0000000000000000000003\r\n\r\nabc".to_vec());
    assert_eq!(read_message(&mut reader), Ok(Some(b"abc".to_vec())));
}

#[test]
fn scan_header_line_steps() {
    assert_eq!(scan_header_line(7, b"\r\n".to_vec()), Ok(HeaderStep::Done(7)));
    assert_eq!(scan_header_line(7, b"Foo: bar\r\n".to_vec()), Ok(HeaderStep::More(7)));
    assert_eq!(scan_header_line(7, b"content-length: 42\r\n".to_vec()), Ok(HeaderStep::More(42)));
    assert_eq!(scan_header_line(7, b"\n".to_vec()), Ok(HeaderStep::More(7)));
    assert_eq!(scan_header_line(7, b"\xc3\r\n".to_vec()), Err(TransportError::InvalidUtf8));
}

#[test]
fn header_step_cases() {
    assert_eq!(header_step(3, None, false), Ok(HeaderStep::More(3)));
    assert_eq!(header_step(3, None, true), Ok(HeaderStep::Done(3)));
    assert_eq!(header_step(3, Some("12".to_string()), false), Ok(HeaderStep::More(12)));
    assert_eq!(header_step(3, Some("12".to_string()), true), Ok(HeaderStep::Done(12)));
    assert_eq!(header_step(3, Some("".to_string()), false), Err(TransportError::InvalidContentLength));
    assert_eq!(header_step(3, Some("1x".to_string()), false), Err(TransportError::InvalidContentLength));
    assert_eq!(
        header_step(3, Some("340282366920938463463374607431768211456".to_string()), false),
        Err(TransportError::InvalidContentLength)
    );
}

#[test]
fn read_line_and_read_exact() {
    let mut reader = ByteReader::new(b"ab\ncd".to_vec());
    assert_eq!(reader.remaining(), 5);
    assert_eq!(reader.read_line(), b"ab\n".to_vec());
    assert_eq!(reader.remaining(), 2);
    assert_eq!(reader.read_exact(3), None);
    assert_eq!(reader.remaining(), 0);
    assert_eq!(reader.read_line(), Vec::<u8>::new());
    let mut reader = ByteReader::new(b"ab\ncd".to_vec());
    assert_eq!(reader.read_exact(0), Some(Vec::new()));
    assert_eq!(reader.read_exact(4), Some(b"ab\nc".to_vec()));
    assert_eq!(reader.read_line(), b"d".to_vec());
}

#[test]
fn frame_message_counts_bytes() {
    assert_eq!(frame_message("{}"), b"Content-Length: 2\r\n\r\n{}".to_vec());
    assert_eq!(frame_message(""), b"Content-Length: 0\r\n\r\n".to_vec());
    assert_eq!(frame_message("h\u{e9}llo w\u{f6}rld"), "Content-Length: 13\r\n\r\nh\u{e9}llo w\u{f6}rld".as_bytes().to_vec());
}

#[test]
fn written_frames_are_read_back() {
    let bodies = ["{\"a\":1}", "", "caf\u{e9}\r\n\r\n", "Content-Length: 3\r\n\r\nabc"];
    let mut stream = Vec::new();
    for body in bodies {
        stream.extend(frame_message(body));
    }
    let mut reader = ByteReader::new(stream);
    for body in bodies {
        assert_eq!(read_message(&mut reader), Ok(Some(body.as_bytes().to_vec())));
    }
    assert_eq!(read_message(&mut reader), Ok(None));
}

#[test]
fn transport_error_messages() {
    assert_eq!(TransportError::UnexpectedEof.message(), "failed to fill whole buffer");
    assert_eq!(TransportError::InvalidUtf8.message(), "stream did not contain valid UTF-8");
    assert_eq!(TransportError::InvalidContentLength.message(), "invalid content length");
}

/// Reads one frame from a buffered reader of the standard library, finding
/// the header with the pattern itself.
fn read_buffered<R: std::io::BufRead>(reader: &mut R) -> Result<Option<Vec<u8>>, String> {
    let pattern = regex::Regex::new(lsp_client::frame::CONTENT_LENGTH_PATTERN).unwrap();
    let mut content_length = 0_usize;
    let mut seen = false;
    loop {
        let mut buf = String::new();
        if reader.read_line(&mut buf).map_err(|e| e.to_string())? == 0 {
            if seen {
                return Err("stream ended within the header section".to_string());
            }
            return Ok(None);
        }
        seen = true;
        if let Some(captures) = pattern.captures(&buf) {
            let digits = captures.get(1).unwrap().as_str();
            content_length = digits.parse::<usize>().map_err(|e| e.to_string())?;
        }
        if buf == "\r\n" {
            break;
        }
    }
    let mut body = vec![0_u8; content_length];
    reader.read_exact(&mut body).map_err(|e| e.to_string())?;
    Ok(Some(body))
}

#[test]
fn decoding_agrees_with_buffered_reading() {
    let streams: Vec<Vec<u8>> = vec![
        b"Content-Length: 3\r\n\r\nabcContent-Length: 2\r\n\r\nde".to_vec(),
        b"content-length:   4\r\nX: y\r\n\r\nabcdrest".to_vec(),
        b"CONTENT-LENGTH:\t\t1\r\n\r\nzContent-Length: 9\r\n\r\nshort".to_vec(),
        "Content-Length:\u{a0}2\r\n\r\nab".as_bytes().to_vec(),
        "Content-Length:\u{2003}\u{3000} 2\r\n\r\nab".as_bytes().to_vec(),
        "Content-Length: \u{0662}\r\n\r\nab".as_bytes().to_vec(),
        "Content-Length: 1\u{0662}\r\n\r\nab".as_bytes().to_vec(),
        "C\u{f6}ntent-Length: 2\r\n\r\nab".as_bytes().to_vec(),
        "content-leng\u{0167}h: 2\r\n\r\nab".as_bytes().to_vec(),
        "\u{212a}ontent-Length: 2\r\n\r\nab".as_bytes().to_vec(),
        b"Content-Length: 2\r\nContent-Length: x\r\n\r\nab".to_vec(),
        b"Content-Length: 2\r\nContent-Length:\r\n\r\nab".to_vec(),
        b"Content-Length: +2\r\n\r\nab".to_vec(),
        b"Content-Length: -2\r\n\r\nab".to_vec(),
        b"Content-Length: 2 \r\n\r\nab".to_vec(),
        b"Content-Length: 2;q=1\r\n\r\nab".to_vec(),
        b"Content-Length: 00002\r\n\r\nab".to_vec(),
        b"Content-Length: 99999999999999999999999999999999999999999\r\n\r\nab".to_vec(),
        b"xContent-Length: 2\r\n\r\nab".to_vec(),
        b"Content-Length : 2\r\n\r\nab".to_vec(),
        b"Content-Length:\n2\r\n\r\nab".to_vec(),
        b"Content-Length:\r\n 2\r\n\r\nab".to_vec(),
        b"Content-Length: 2\n\r\nab".to_vec(),
        b"Content-Length: 2\r\n\nab\r\n\r\n".to_vec(),
        b"Content-Length: 2\r\r\n\r\nab".to_vec(),
        b"\r\n\r\nContent-Length: 1\r\n\r\nx".to_vec(),
        b"\r\n".to_vec(),
        b"\n".to_vec(),
        b"\r".to_vec(),
        b"".to_vec(),
        b"Content-Length: 2".to_vec(),
        b"Content-Length: 2\r\n".to_vec(),
        b"Content-Length: 2\r\n\r\n".to_vec(),
        b"Content-Length: 2\r\n\r\na".to_vec(),
        b"Content-Length: 0\r\n\r\nContent-Length: 0\r\n\r\n".to_vec(),
        b"A: \xff\xfe\r\nContent-Length: 2\r\n\r\nab".to_vec(),
        b"Content-Length: 2\xc3\r\n\r\nab".to_vec(),
        b"Content-Length: 3\r\n\r\n\xff\xfe\xfdContent-Length: 1\r\n\r\n\n".to_vec(),
    ];
    for stream in streams {
        let mut buffered = std::io::Cursor::new(stream.clone());
        let mut reader = ByteReader::new(stream.clone());
        loop {
            let expected = read_buffered(&mut buffered);
            let found = read_message(&mut reader);
            let shown = String::from_utf8_lossy(&stream).into_owned();
            match (&expected, &found) {
                (Ok(e), Ok(f)) => assert_eq!(e, f, "{:?}", shown),
                (Err(_), Err(_)) => {}
                _ => panic!("{:?}: {:?} and {:?}", shown, expected, found),
            }
            match found {
                Ok(Some(_)) => assert_eq!(
                    reader.remaining() as u64,
                    stream.len() as u64 - buffered.position(),
                    "{:?}",
                    shown
                ),
                _ => break,
            }
        }
    }
}

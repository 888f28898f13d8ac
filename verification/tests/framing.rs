use gemini_cli::mcp::framing::{frame_message, header_step, read_json_rpc_message, HeaderStep, ReadOutcome};
use gemini_cli::mcp::servers::protocol::{server_header_line, ServerHeader};

#[test]
fn frame_has_length_header_and_blank_line() {
    let framed = frame_message("{\"a\":1}", true);
    assert_eq!(framed, b"Content-Length: 7\r\n\r\n{\"a\":1}".to_vec());
    let framed_lf = frame_message("{}", false);
    assert_eq!(framed_lf, b"Content-Length: 2\n\n{}".to_vec());
}

#[test]
fn frame_counts_bytes_not_chars() {
    let framed = frame_message("\"é\"", true);
    assert_eq!(framed, "Content-Length: 4\r\n\r\n\"é\"".as_bytes().to_vec());
}

#[test]
fn framed_message_reads_back() {
    let body = "{\"jsonrpc\":\"2.0\",\"id\":1,\"method\":\"initialize\"}";
    for crlf in [true, false] {
        let framed = frame_message(body, crlf);
        match read_json_rpc_message(&framed) {
            ReadOutcome::Message(text, used) => {
                assert_eq!(text, body);
                assert_eq!(used, framed.len());
            },
            _ => panic!("the framed message was not read back"),
        }
    }
}

#[test]
fn two_framed_messages_read_one_after_the_other() {
    let mut stream = frame_message("[1]", true);
    stream.extend(frame_message("[2]", true));
    match read_json_rpc_message(&stream) {
        ReadOutcome::Message(text, used) => {
            assert_eq!(text, "[1]");
            match read_json_rpc_message(&stream[used..]) {
                ReadOutcome::Message(second, _) => assert_eq!(second, "[2]"),
                _ => panic!("second message lost"),
            }
        },
        _ => panic!("first message lost"),
    }
}

#[test]
fn empty_stream_is_closed() {
    assert!(matches!(read_json_rpc_message(b""), ReadOutcome::Closed));
}

#[test]
fn missing_length_is_invalid() {
    assert!(matches!(read_json_rpc_message(b"X-Other: 1\r\n\r\n{}"), ReadOutcome::Invalid(_)));
}

#[test]
fn short_body_is_truncated() {
    assert!(matches!(read_json_rpc_message(b"Content-Length: 10\r\n\r\n{}"), ReadOutcome::Truncated));
}

#[test]
fn header_step_reads_length() {
    assert!(matches!(header_step(None, b"Content-Length: 12\r\n"), HeaderStep::Next(Some(12))));
    assert!(matches!(header_step(Some(3), b"Content-Type: x\r\n"), HeaderStep::Next(Some(3))));
    assert!(matches!(header_step(Some(3), b"\r\n"), HeaderStep::End));
}

#[test]
fn header_step_rejects_bad_length() {
    match header_step(None, b"Content-Length: abc\r\n") {
        HeaderStep::Fail(m) => assert_eq!(m, "Invalid Content-Length value:  abc"),
        _ => panic!("a bad length was accepted"),
    }
}

#[test]
fn server_header_lines() {
    assert!(matches!(server_header_line("  \r\n"), ServerHeader::Blank));
    assert!(matches!(server_header_line("Content-Length: 42\r\n"), ServerHeader::Length(Some(42))));
    assert!(matches!(server_header_line("Content-Length: x"), ServerHeader::Length(None)));
    assert!(matches!(server_header_line("Accept: y"), ServerHeader::Other));
}

#[test]
fn end_of_input_inside_headers_is_an_error() {
    match read_json_rpc_message(b"Content-Length: 5\r\n") {
        ReadOutcome::Invalid(m) => assert_eq!(m, "Connection closed unexpectedly during headers"),
        _ => panic!("a stream that ends in its headers was not refused"),
    }
}

#[test]
fn frame_followed_by_other_bytes_takes_only_the_frame() {
    let mut stream = frame_message("{\"a\":1}", false);
    let frame_len = stream.len();
    stream.extend_from_slice(b"Content-Len");
    match read_json_rpc_message(&stream) {
        ReadOutcome::Message(text, used) => {
            assert_eq!(text, "{\"a\":1}");
            assert_eq!(used, frame_len);
            assert_eq!(&stream[used..], b"Content-Len");
        },
        _ => panic!("the first frame was not read"),
    }
}

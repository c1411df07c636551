use examproxy::encoder::Direction;
use examproxy::relay::Relay;

/// Feeds a whole stream to a relay, forwarding every byte successfully, and
/// returns the flushed transcript lines together with the bytes the driver
/// forwarded.
fn run_stream(direction: Direction, stream: &[u8]) -> (Vec<Vec<u8>>, Vec<u8>) {
    let mut relay = Relay::new(direction);
    let mut lines: Vec<Vec<u8>> = Vec::new();
    let mut forwarded: Vec<u8> = Vec::new();
    for &b in stream {
        let out = relay.accept_byte(b);
        if let Some(line) = out.line {
            lines.push(line);
        }
        forwarded.push(b);
        relay.byte_forwarded();
    }
    if let Some(line) = relay.stop_reading() {
        lines.push(line);
    }
    let marker = relay.closing_marker();
    lines.push(marker);
    (lines, forwarded)
}

#[test]
fn line_split_two_flushes() {
    // The stream A B \n C must flush exactly twice: once at the newline,
    // once for the trailing fragment at stream end.
    let (lines, _) = run_stream(Direction::Inbound, &[0x41, 0x42, 0x0A, 0x43]);
    assert_eq!(lines.len(), 3); // two data lines and the closing marker
    assert_eq!(lines[0], b"-> \"AB\"\n".to_vec());
    assert_eq!(lines[1], b"-> \"C\"\n".to_vec());
    assert_eq!(lines[2], b"** closed input\n".to_vec());
}

#[test]
fn no_trailing_fragment_no_extra_flush() {
    let (lines, _) = run_stream(Direction::Outbound, b"one\ntwo\n");
    assert_eq!(lines.len(), 3);
    assert_eq!(lines[0], b"<- \"one\"\n".to_vec());
    assert_eq!(lines[1], b"<- \"two\"\n".to_vec());
    assert_eq!(lines[2], b"** closed output\n".to_vec());
}

#[test]
fn empty_stream_only_closes() {
    let (lines, forwarded) = run_stream(Direction::Inbound, b"");
    assert_eq!(lines, vec![b"** closed input\n".to_vec()]);
    assert_eq!(forwarded, Vec::<u8>::new());
}

#[test]
fn forwarding_is_byte_for_byte() {
    let stream = b"abc\ndef";
    let (_, forwarded) = run_stream(Direction::Inbound, stream);
    assert_eq!(forwarded, stream.to_vec());
}

#[test]
fn first_byte_announced_once_inbound_only() {
    let mut relay = Relay::new(Direction::Inbound);
    let first = relay.accept_byte(0x61);
    assert!(first.announce_first);
    relay.byte_forwarded();
    let second = relay.accept_byte(0x62);
    assert!(!second.announce_first);
    relay.byte_forwarded();

    let mut out_relay = Relay::new(Direction::Outbound);
    let out_first = out_relay.accept_byte(0x61);
    assert!(!out_first.announce_first);
    out_relay.byte_forwarded();
}

#[test]
fn fault_truncates_but_keeps_transcript() {
    // A forwarding fault on the newline byte: the byte was read, so its line
    // is still flushed, and the relay then drains and closes.
    let mut relay = Relay::new(Direction::Inbound);
    let mut lines: Vec<Vec<u8>> = Vec::new();
    for &b in b"hi" {
        let out = relay.accept_byte(b);
        assert!(out.line.is_none());
        relay.byte_forwarded();
    }
    let out = relay.accept_byte(0x0A);
    lines.push(out.line.unwrap());
    relay.forward_failed();
    if let Some(line) = relay.stop_reading() {
        lines.push(line);
    }
    lines.push(relay.closing_marker());
    assert_eq!(lines.len(), 2);
    assert_eq!(lines[0], b"-> \"hi\"\n".to_vec());
    assert_eq!(lines[1], b"** closed input\n".to_vec());
}

#[test]
fn non_text_line_hex_fallback_end_to_end() {
    // Operator sends raw bytes 0xFF 0xFE 0x0A: one hex transcript line of
    // all three bytes, the newline included.
    let (lines, forwarded) = run_stream(Direction::Inbound, &[0xFF, 0xFE, 0x0A]);
    assert_eq!(lines.len(), 2);
    assert_eq!(lines[0], b"-> 0xfffe0a\n".to_vec());
    assert_eq!(lines[1], b"** closed input\n".to_vec());
    assert_eq!(forwarded, vec![0xFF, 0xFE, 0x0A]);
}

#[test]
fn echo_session_transcript_order() {
    // The operator sends "hello\n"; an upper-casing child answers
    // "HELLO\n". Each relay produces its line, and the bytes forwarded to
    // the child and back to the operator are unaltered.
    let (in_lines, to_child) = run_stream(Direction::Inbound, b"hello\n");
    let (out_lines, to_operator) = run_stream(Direction::Outbound, b"HELLO\n");
    assert_eq!(to_child, b"hello\n".to_vec());
    assert_eq!(to_operator, b"HELLO\n".to_vec());
    assert_eq!(in_lines[0], b"-> \"hello\"\n".to_vec());
    assert_eq!(out_lines[0], b"<- \"HELLO\"\n".to_vec());
}

#[test]
fn every_produced_line_is_complete_and_wellformed() {
    // Interleave the lines of both directions as a sink would append them:
    // every individual line is nonempty, ends in exactly one newline, and
    // holds none before it, so whole-line appends can never interleave
    // partial lines.
    let (in_lines, _) = run_stream(Direction::Inbound, b"alpha\nbeta");
    let (out_lines, _) = run_stream(Direction::Outbound, &[0xFF, 0x00, 0x0A, 0x41][..]);
    let mut sink: Vec<u8> = Vec::new();
    let mut all = Vec::new();
    all.extend(in_lines);
    all.extend(out_lines);
    for line in &all {
        assert!(!line.is_empty());
        assert_eq!(*line.last().unwrap(), 0x0A);
        for &b in &line[..line.len() - 1] {
            assert_ne!(b, 0x0A);
        }
        sink.extend_from_slice(line);
    }
    // Parsing the sink back line by line recovers exactly the appended lines.
    let mut parsed: Vec<Vec<u8>> = Vec::new();
    let mut current: Vec<u8> = Vec::new();
    for &b in &sink {
        current.push(b);
        if b == 0x0A {
            parsed.push(std::mem::take(&mut current));
        }
    }
    assert!(current.is_empty());
    assert_eq!(parsed, all);
}

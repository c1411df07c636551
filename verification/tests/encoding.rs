use examproxy::encoder::{render, Direction};
use examproxy::utf8::check_utf8;

#[test]
fn render_text_line() {
    let line = render(Direction::Inbound, &b"hello\n".to_vec());
    assert_eq!(line, b"-> \"hello\"\n".to_vec());
}

#[test]
fn render_outbound_text_line() {
    let line = render(Direction::Outbound, &b"HELLO\n".to_vec());
    assert_eq!(line, b"<- \"HELLO\"\n".to_vec());
}

#[test]
fn render_trims_all_trailing_newlines() {
    let line = render(Direction::Inbound, &b"abc\n\n\n".to_vec());
    assert_eq!(line, b"-> \"abc\"\n".to_vec());
}

#[test]
fn render_empty_line() {
    let line = render(Direction::Inbound, &b"\n".to_vec());
    assert_eq!(line, b"-> \"\"\n".to_vec());
}

#[test]
fn render_unterminated_fragment() {
    let line = render(Direction::Outbound, &b"C".to_vec());
    assert_eq!(line, b"<- \"C\"\n".to_vec());
}

#[test]
fn render_non_text_falls_back_to_hex() {
    let line = render(Direction::Inbound, &vec![0xFF, 0xFE, 0x0A]);
    assert_eq!(line, b"-> 0xfffe0a\n".to_vec());
}

#[test]
fn render_hex_judges_whole_line_before_trimming() {
    // The newline byte takes part in the text-vs-hex decision and in the
    // hex rendering; it is not trimmed first.
    let line = render(Direction::Outbound, &vec![0xC0, 0x80, 0x0A]);
    assert_eq!(line, b"<- 0xc0800a\n".to_vec());
}

#[test]
fn hex_fallback_decodes_back_to_the_input() {
    let input = vec![0xFFu8, 0xFE, 0x0A, 0x00, 0x41];
    let line = render(Direction::Inbound, &input);
    // Strip the `-> 0x` prefix and the final newline, then decode.
    let body = &line[5..line.len() - 1];
    let decoded = hex::decode(body).unwrap();
    assert_eq!(decoded, input);
}

#[test]
fn utf8_checker_agrees_with_std() {
    let cases: Vec<Vec<u8>> = vec![
        b"".to_vec(),
        b"plain ascii".to_vec(),
        vec![0xC3, 0xA9],                   // two-byte scalar
        vec![0xE2, 0x82, 0xAC],             // three-byte scalar
        vec![0xF0, 0x9F, 0x98, 0x80],       // four-byte scalar
        vec![0xF4, 0x8F, 0xBF, 0xBF],       // largest scalar value
        vec![0xC0, 0x80],                   // overlong
        vec![0xC2],                         // truncated
        vec![0xED, 0xA0, 0x80],             // surrogate
        vec![0xF4, 0x90, 0x80, 0x80],       // above U+10FFFF
        vec![0x80],                         // lone continuation
        vec![0xFF, 0xFE, 0x0A],
        vec![0x41, 0x0A, 0xC3, 0xA9, 0x0A],
    ];
    for bytes in cases {
        assert_eq!(
            check_utf8(&bytes),
            std::str::from_utf8(&bytes).is_ok(),
            "disagreement on {:?}",
            bytes
        );
    }
}

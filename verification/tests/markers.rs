use examproxy::envfilter::env_key_allowed;
use examproxy::marker::{first_byte_marker, first_byte_marker_now, status_marker, SessionStatus};

#[test]
fn status_marker_exit_code_seven() {
    let line = status_marker(SessionStatus::Exited(7));
    assert_eq!(line, b"** Terminated with status 7\n".to_vec());
}

#[test]
fn status_marker_exit_code_zero() {
    let line = status_marker(SessionStatus::Exited(0));
    assert_eq!(line, b"** Terminated with status 0\n".to_vec());
}

#[test]
fn status_marker_large_and_negative_codes() {
    assert_eq!(
        status_marker(SessionStatus::Exited(2147483647)),
        b"** Terminated with status 2147483647\n".to_vec()
    );
    assert_eq!(
        status_marker(SessionStatus::Exited(-2147483648)),
        b"** Terminated with status -2147483648\n".to_vec()
    );
}

#[test]
fn status_marker_signal() {
    let line = status_marker(SessionStatus::Signaled(11));
    assert_eq!(line, b"** Terminated with status signal 11\n".to_vec());
}

#[test]
fn first_byte_marker_wraps_timestamp() {
    let time = b"Tue, 1 Jul 2003 10:52:37 +0200".to_vec();
    let line = first_byte_marker(&time);
    assert_eq!(
        line,
        b"** First byte read at Tue, 1 Jul 2003 10:52:37 +0200\n".to_vec()
    );
}

#[test]
fn first_byte_marker_now_is_one_complete_line() {
    let line = first_byte_marker_now();
    let prefix = b"** First byte read at ";
    assert!(line.len() > prefix.len() + 1);
    assert_eq!(&line[..prefix.len()], prefix);
    assert_eq!(*line.last().unwrap(), 0x0A);
    for &b in &line[..line.len() - 1] {
        assert_ne!(b, 0x0A);
    }
    // The timestamp between prefix and newline is plain text.
    let text = String::from_utf8(line[prefix.len()..line.len() - 1].to_vec()).unwrap();
    assert!(text.contains(", "));
}

#[test]
fn env_allow_list() {
    for key in ["TERM", "LANG", "PATH", "LC_ALL", "LC_MESSAGES", "LC_"] {
        assert!(env_key_allowed(&key.as_bytes().to_vec()), "{key}");
    }
    for key in ["HOME", "USER", "TER", "TERMINFO", "LANGUAGE", "LC", "lc_all", ""] {
        assert!(!env_key_allowed(&key.as_bytes().to_vec()), "{key}");
    }
}

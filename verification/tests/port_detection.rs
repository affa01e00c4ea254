use devwatchman::port::{bytes_to_line, parse_port_from_stdout_line};

#[test]
fn plain_log_lines_yield_no_port() {
    assert_eq!(parse_port_from_stdout_line(""), None);
    assert_eq!(parse_port_from_stdout_line("listening on 5173"), None);
    assert_eq!(parse_port_from_stdout_line("DEVWATCHMAN_PORT"), None);
    assert_eq!(parse_port_from_stdout_line("PORT=5173"), None);
    assert_eq!(parse_port_from_stdout_line("devwatchman_port=5173"), None);
    assert_eq!(parse_port_from_stdout_line("   \t  "), None);
    assert_eq!(parse_port_from_stdout_line("x DEVWATCHMAN_PORT=5173"), None);
}

#[test]
fn port_line_yields_port() {
    assert_eq!(parse_port_from_stdout_line("DEVWATCHMAN_PORT=5173"), Some(5173));
    assert_eq!(parse_port_from_stdout_line("DEVWATCHMAN_PORT=1"), Some(1));
    assert_eq!(parse_port_from_stdout_line("DEVWATCHMAN_PORT=65535"), Some(65535));
}

#[test]
fn port_line_with_whitespace_yields_port() {
    assert_eq!(parse_port_from_stdout_line("  DEVWATCHMAN_PORT=8080  "), Some(8080));
    assert_eq!(parse_port_from_stdout_line("\tDEVWATCHMAN_PORT= 3000"), Some(3000));
    assert_eq!(parse_port_from_stdout_line("DEVWATCHMAN_PORT=\t9090\r"), Some(9090));
}

#[test]
fn port_zero_is_rejected() {
    assert_eq!(parse_port_from_stdout_line("DEVWATCHMAN_PORT=0"), None);
    assert_eq!(parse_port_from_stdout_line("DEVWATCHMAN_PORT=+0"), None);
}

#[test]
fn one_leading_plus_is_part_of_the_numeral() {
    assert_eq!(parse_port_from_stdout_line("DEVWATCHMAN_PORT=+5173"), Some(5173));
    assert_eq!(parse_port_from_stdout_line("DEVWATCHMAN_PORT= +80 "), Some(80));
    assert_eq!(parse_port_from_stdout_line("DEVWATCHMAN_PORT=++5173"), None);
    assert_eq!(parse_port_from_stdout_line("DEVWATCHMAN_PORT=+"), None);
}

#[test]
fn malformed_port_suffix_is_rejected() {
    assert_eq!(parse_port_from_stdout_line("DEVWATCHMAN_PORT="), None);
    assert_eq!(parse_port_from_stdout_line("DEVWATCHMAN_PORT=abc"), None);
    assert_eq!(parse_port_from_stdout_line("DEVWATCHMAN_PORT=51x3"), None);
    assert_eq!(parse_port_from_stdout_line("DEVWATCHMAN_PORT=-1"), None);
    assert_eq!(parse_port_from_stdout_line("DEVWATCHMAN_PORT=12 34"), None);
}

#[test]
fn port_above_u16_is_rejected() {
    assert_eq!(parse_port_from_stdout_line("DEVWATCHMAN_PORT=65536"), None);
    assert_eq!(parse_port_from_stdout_line("DEVWATCHMAN_PORT=99999999999999999999"), None);
}

#[test]
fn bytes_to_line_strips_line_endings() {
    assert_eq!(bytes_to_line(b"hello\r\n"), "hello");
    assert_eq!(bytes_to_line(b"hello\n"), "hello");
    assert_eq!(bytes_to_line(b"hello"), "hello");
    assert_eq!(bytes_to_line(b"\r\n"), "");
    assert_eq!(bytes_to_line(b""), "");
}

#[test]
fn bytes_to_line_decodes_utf8() {
    assert_eq!(bytes_to_line("caf\u{e9}\n".as_bytes()), "caf\u{e9}");
    // An invalid byte becomes the replacement character.
    assert_eq!(bytes_to_line(b"a\xffb\n"), "a\u{fffd}b");
}

#[test]
fn port_line_from_raw_bytes() {
    let line = bytes_to_line(b"DEVWATCHMAN_PORT=5173\r\n");
    assert_eq!(parse_port_from_stdout_line(&line), Some(5173));
}

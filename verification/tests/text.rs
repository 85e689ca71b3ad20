use signal_stream::text::{
    chars_of, contains_text, decimal, eq_ignore_ascii_case, first_line, host_port, same_text,
};

#[test]
fn decimals() {
    assert_eq!(decimal(0), "0");
    assert_eq!(decimal(9), "9");
    assert_eq!(decimal(10), "10");
    assert_eq!(decimal(443), "443");
    assert_eq!(decimal(7880), "7880");
    assert_eq!(decimal(u16::MAX), "65535");
}

#[test]
fn every_port_in_decimal() {
    for n in 0..=u16::MAX {
        assert_eq!(decimal(n), n.to_string());
    }
}

#[test]
fn host_and_port() {
    assert_eq!(host_port("example.com", 80), "example.com:80");
    assert_eq!(host_port("[::1]", 7880), "[::1]:7880");
    assert_eq!(host_port("", 1), ":1");
}

#[test]
fn ascii_case_is_ignored() {
    assert!(eq_ignore_ascii_case("True", "tRUE"));
    assert!(!eq_ignore_ascii_case("true", "trues"));
    assert!(!eq_ignore_ascii_case("@[`{", "`{@["));
    assert!(!eq_ignore_ascii_case("É", "é"));
    assert!(eq_ignore_ascii_case("", ""));
}

#[test]
fn lines() {
    for text in [
        "", "\n", "\r\n", "a", "a\n", "a\r\n", "a\r", "a\rb\n", "\r", "a\nb", "é\r\nb\r\n", "a\r\r\n",
    ] {
        assert_eq!(first_line(text), text.lines().next().map(str::to_owned), "{:?}", text);
    }
}

#[test]
fn contained_texts() {
    for (text, pattern) in [
        ("HTTP/1.1 200 OK", "200"),
        ("200", "200"),
        ("2200", "200"),
        ("20", "200"),
        ("2 0 0", "200"),
        ("", ""),
        ("", "a"),
        ("éaé", "aé"),
        ("aab", "ab"),
    ] {
        assert_eq!(contains_text(text, pattern), text.contains(pattern), "{:?}", text);
    }
}

#[test]
fn same_texts() {
    assert!(same_text("wss", "wss"));
    assert!(!same_text("wss", "ws"));
    assert_eq!(chars_of("aé"), vec!['a', 'é']);
}

#[test]
fn first_line_does_not_change_with_more_text() {
    let line = first_line("HTTP/1.1 200 OK\r\n");
    assert_eq!(line, Some("HTTP/1.1 200 OK".to_owned()));
    assert_eq!(first_line("HTTP/1.1 200 OK\r\nVia: x\r\n\r\nmore"), line);
}

use quadro::paths::{base_path, cln_socket_file, join_path, srv_socket_file};
use quadro::text::{parse_i32, trim};

#[test]
fn trim_drops_surrounding_white_space() {
    assert_eq!(trim(" 42\n"), "42");
    assert_eq!(trim("\u{3000}a b\t"), "a b");
    assert_eq!(trim(""), "");
    assert_eq!(trim(" \n\t "), "");
    assert_eq!(trim("x"), "x");
}

#[test]
fn trim_agrees_with_std() {
    for s in ["  a  ", "\u{a0}b\u{2028}", "\r\nc d\u{85}", "e\u{200b}", "\u{1680}"] {
        assert_eq!(trim(s), s.trim());
    }
}

#[test]
fn parse_i32_reads_signed_decimals() {
    assert_eq!(parse_i32("42"), Some(42));
    assert_eq!(parse_i32("+7"), Some(7));
    assert_eq!(parse_i32("-15"), Some(-15));
    assert_eq!(parse_i32("007"), Some(7));
    assert_eq!(parse_i32("-2147483648"), Some(i32::MIN));
    assert_eq!(parse_i32("2147483647"), Some(i32::MAX));
}

#[test]
fn parse_i32_refuses_other_text() {
    assert_eq!(parse_i32(""), None);
    assert_eq!(parse_i32("-"), None);
    assert_eq!(parse_i32("+"), None);
    assert_eq!(parse_i32("4a"), None);
    assert_eq!(parse_i32(" 4"), None);
    assert_eq!(parse_i32("2147483648"), None);
    assert_eq!(parse_i32("-2147483649"), None);
    assert_eq!(parse_i32("99999999999999999999"), None);
}

#[test]
fn parse_i32_agrees_with_std() {
    for s in ["0", "-0", "+0", "12a", "--1", "+-1", "123456789012", "-99", "2147483647"] {
        assert_eq!(parse_i32(s), s.parse::<i32>().ok(), "{}", s);
    }
}

#[test]
fn join_path_joins_like_path_buf() {
    assert_eq!(join_path("/home/u", ".quadro"), "/home/u/.quadro");
    assert_eq!(join_path("/home/u/", ".quadro"), "/home/u/.quadro");
    assert_eq!(join_path("", "x"), "x");
    assert_eq!(join_path("a", "/abs"), "/abs");
    for (b, p) in [("/a/b", "c"), ("/a/", "c"), ("", "c"), ("x", "/y")] {
        let expected = std::path::PathBuf::from(b).join(p);
        assert_eq!(join_path(b, p), expected.to_str().unwrap());
    }
}

#[test]
fn socket_files_lie_in_the_monitor_directory() {
    assert_eq!(base_path("/home/u"), "/home/u/.quadro");
    assert_eq!(srv_socket_file("/home/u"), "/home/u/.quadro/quadro.sock");
    assert_eq!(cln_socket_file("/home/u/"), "/home/u/.quadro/client.sock");
}

use http_server::header::Headers;
use http_server::header::TextMap;
use http_server::http_version::HttpVersion;
use http_server::method::Method;
use http_server::text::as_text;
use http_server::text::decimal_string;
use http_server::text::decode;
use http_server::text::eq_ignore_case;
use http_server::text::read_length;
use http_server::wire::byte_is_space;
use http_server::wire::find_byte;
use http_server::wire::find_separator;
use http_server::wire::is_blank_line;
use http_server::wire::next_line;
use http_server::wire::space_at;
use http_server::wire::space_before;
use http_server::wire::trimmed;

#[test]
fn method_tokens_are_read() {
    assert_eq!(Method::parse("GET"), Method::Get);
    assert_eq!(Method::parse("post"), Method::Post);
    assert_eq!(Method::parse("Put"), Method::Put);
    assert_eq!(Method::parse("pAtCh"), Method::Patch);
    assert_eq!(Method::parse("OPTIONS"), Method::Options);
    assert_eq!(Method::parse("delete"), Method::Delete);
    assert_eq!(Method::try_parse("get"), Some(Method::Get));
    assert_eq!(Method::try_parse("gets"), None);
    assert_eq!(Method::try_parse(""), None);
    assert_eq!(Method::try_parse("g\u{e9}t"), None);
    assert_eq!(Method::try_parse("HEAD"), None);
}

#[test]
fn methods_have_their_places() {
    let all = [
        Method::Get,
        Method::Post,
        Method::Put,
        Method::Patch,
        Method::Options,
        Method::Delete,
    ];
    for (i, m) in all.iter().enumerate() {
        assert_eq!(m.index(), i);
    }
    assert_eq!(Method::COUNT, 6);
}

#[test]
fn version_tokens_are_read() {
    assert_eq!(HttpVersion::parse("HTTP/1.1"), Some(HttpVersion::HTTP1_1));
    assert_eq!(HttpVersion::parse("http/1.1"), Some(HttpVersion::HTTP1_1));
    assert_eq!(HttpVersion::parse("HTTP/1.0"), None);
    assert_eq!(HttpVersion::parse("HTTP/2"), None);
    assert_eq!(HttpVersion::parse(""), None);
    assert_eq!(HttpVersion::HTTP1_1.as_str(), "HTTP/1.1");
    assert_eq!(HttpVersion::HTTP1_1.to_string(), "HTTP/1.1");
}

#[test]
fn comparison_ignores_ascii_case_only() {
    assert!(eq_ignore_case("Content-Type", "content-type"));
    assert!(eq_ignore_case("", ""));
    assert!(eq_ignore_case("\u{c9}t\u{e9}", "\u{c9}T\u{e9}"));
    assert!(!eq_ignore_case("\u{c9}t\u{e9}", "\u{e9}t\u{e9}"));
    assert!(!eq_ignore_case("abc", "abd"));
    assert!(!eq_ignore_case("abc", "ab"));
    assert!(!eq_ignore_case("a\u{e9}", "ae"));
    assert!(!eq_ignore_case("\u{e9}\u{e9}", "\u{e9}"));
    assert!(!eq_ignore_case("@", "`"));
    assert!(!eq_ignore_case("[", "{"));
}

#[test]
fn headers_fold_names_on_insert_and_lookup() {
    let mut headers = Headers::new();
    headers.insert("Content-Type", String::from("text/plain"));
    assert_eq!(headers.get("content-type").unwrap(), "text/plain");
    assert_eq!(headers.get("CONTENT-TYPE").unwrap(), "text/plain");
    headers.insert("CONTENT-type", String::from("text/html"));
    assert_eq!(headers.len(), 1);
    assert_eq!(headers.get("Content-Type").unwrap(), "text/html");
    headers.insert("\u{c9}tag", String::from("1"));
    assert!(headers.contains("\u{c9}TAG"));
    assert!(headers.contains("\u{e9}tag"));
    assert_eq!(headers.get("\u{e9}Tag").unwrap(), "1");
    headers.insert("\u{e9}TAG", String::from("2"));
    assert_eq!(headers.get("\u{c9}tag").unwrap(), "2");
    assert!(!headers.contains("etag"));
    assert_eq!(headers.len(), 2);
}

#[test]
fn text_map_keeps_the_last_value() {
    let mut map = TextMap::new();
    assert_eq!(map.len(), 0);
    map.insert(String::from("a"), String::from("1"));
    map.insert(String::from("A"), String::from("2"));
    map.insert(String::from("a"), String::from("3"));
    assert_eq!(map.len(), 2);
    assert_eq!(map.get("a").unwrap(), "3");
    assert_eq!(map.get("A").unwrap(), "2");
    assert!(map.contains_key("a"));
    assert!(!map.contains_key("b"));
}

#[test]
fn numbers_are_written_in_decimal() {
    assert_eq!(decimal_string(0), "0");
    assert_eq!(decimal_string(7), "7");
    assert_eq!(decimal_string(10), "10");
    assert_eq!(decimal_string(405), "405");
    assert_eq!(decimal_string(1234567890), "1234567890");
    assert_eq!(decimal_string(usize::MAX), usize::MAX.to_string());
}

#[test]
fn lengths_are_read() {
    assert_eq!(read_length("0"), Some(0));
    assert_eq!(read_length("5"), Some(5));
    assert_eq!(read_length("+5"), Some(5));
    assert_eq!(read_length("0012"), Some(12));
    assert_eq!(read_length(&usize::MAX.to_string()), Some(usize::MAX));
    assert_eq!(read_length(&format!("{}0", usize::MAX)), None);
    assert_eq!(read_length("18446744073709551616"), "18446744073709551616".parse::<usize>().ok());
    assert_eq!(read_length(""), None);
    assert_eq!(read_length("+"), None);
    assert_eq!(read_length("++1"), None);
    assert_eq!(read_length("-1"), None);
    assert_eq!(read_length("abc"), None);
    assert_eq!(read_length("1a"), None);
    assert_eq!(read_length(" 1"), None);
    assert_eq!(read_length("1 "), None);
    assert_eq!(read_length("\u{661}"), None);
    assert_eq!(read_length("1\u{e9}"), None);
}

#[test]
fn bytes_are_decoded_as_utf8() {
    assert_eq!(as_text(b"abc"), Some("abc"));
    assert_eq!(as_text(&[0xe2, 0x82, 0xac]), Some("\u{20ac}"));
    assert_eq!(as_text(&[0xe2, 0x82]), None);
    assert_eq!(as_text(&[0xff]), None);
    assert_eq!(decode(b""), Some(String::new()));
    assert_eq!(decode(&[0xc0, 0x80]), None);
    assert_eq!(decode(&[0xed, 0xa0, 0x80]), None);
    assert_eq!(decode("h\u{e9}llo".as_bytes()), Some(String::from("h\u{e9}llo")));
}

#[test]
fn whitespace_is_trimmed_at_both_ends() {
    assert_eq!(trimmed(b"  a b \r\n"), b"a b");
    assert_eq!(trimmed(b"\t\x0b\x0c a"), b"a");
    assert_eq!(trimmed(b" \r\n"), b"");
    assert_eq!(trimmed(b""), b"");
    assert_eq!(trimmed(b"a"), b"a");
    assert_eq!(trimmed(b"\x08a\x0e"), b"\x08a\x0e");
    for b in 0..=255u8 {
        assert_eq!(byte_is_space(b), b == b' ' || (9..=13).contains(&b));
    }
    assert!(is_blank_line(b"\r\n"));
    assert!(is_blank_line(b""));
    assert!(is_blank_line("\u{a0}\u{2003} \u{3000}\r\n".as_bytes()));
    assert!(!is_blank_line(b" . \r\n"));
}

#[test]
fn every_whitespace_character_is_trimmed() {
    let spaces = [
        '\u{9}', '\u{a}', '\u{b}', '\u{c}', '\u{d}', ' ', '\u{85}', '\u{a0}', '\u{1680}',
        '\u{2000}', '\u{2001}', '\u{2002}', '\u{2003}', '\u{2004}', '\u{2005}', '\u{2006}',
        '\u{2007}', '\u{2008}', '\u{2009}', '\u{200a}', '\u{2028}', '\u{2029}', '\u{202f}',
        '\u{205f}', '\u{3000}',
    ];
    for c in spaces {
        let text = format!("{c}{c}a{c}b{c}");
        assert_eq!(trimmed(text.as_bytes()), format!("a{c}b").as_bytes());
        assert_eq!(space_at(text.as_bytes(), 0), c.len_utf8());
        assert_eq!(space_before(text.as_bytes(), 0, text.len()), c.len_utf8());
        assert_eq!(space_before(text.as_bytes(), text.len(), text.len()), 0);
    }
    assert_eq!(space_at(b"a ", 0), 0);
    assert_eq!(space_at(b"a ", 2), 0);
    assert_eq!(space_at(&[0xc2], 0), 0);
    assert_eq!(space_at(&[0xe2, 0x80], 0), 0);
    assert_eq!(space_before(&[0x80, 0xa8], 0, 2), 0);
    assert_eq!(space_before(&[0xe2, 0x80, 0xa8], 1, 3), 0);
}

#[test]
fn trimming_agrees_with_the_standard_library() {
    for code in 0..=0x10ffffu32 {
        if let Some(c) = char::from_u32(code) {
            let text = format!("{c} {c}x{c}y {c}");
            assert_eq!(trimmed(text.as_bytes()), text.trim().as_bytes());
        }
    }
}

#[test]
fn separators_are_found() {
    assert_eq!(find_byte(b"a/b/c", b'/', 0), 1);
    assert_eq!(find_byte(b"a/b/c", b'/', 1), 1);
    assert_eq!(find_byte(b"a/b/c", b'/', 2), 3);
    assert_eq!(find_byte(b"a/b/c", b'/', 4), 5);
    assert_eq!(find_byte(b"a/b/c", b'/', 5), 5);
    assert_eq!(find_byte(b"", b'/', 0), 0);
    assert_eq!(find_separator(b"a: b"), 1);
    assert_eq!(find_separator(b"a:b: c"), 3);
    assert_eq!(find_separator(b": "), 0);
    assert_eq!(find_separator(b"a:"), 2);
    assert_eq!(find_separator(b"a :b"), 4);
    assert_eq!(find_separator(b""), 0);
    assert_eq!(find_separator(b":"), 1);
    assert_eq!(next_line(b"ab\ncd", 0), 3);
    assert_eq!(next_line(b"ab\ncd", 3), 5);
    assert_eq!(next_line(b"ab\ncd", 5), 5);
    assert_eq!(next_line(b"\n\n", 0), 1);
}

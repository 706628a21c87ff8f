use thin_edge::json::parse;
use thin_edge::json::Json;
use thin_edge::text::bytes_of;
use thin_edge::text::contains;
use thin_edge::text::decimal_text;
use thin_edge::text::find_byte;
use thin_edge::text::parse_decimal;
use thin_edge::text::split_fields;
use thin_edge::text::split_words;
use thin_edge::text::starts_with;
use thin_edge::text::strip_prefix;
use thin_edge::text::trimmed;

#[test]
fn decimal_text_of_numbers() {
    assert_eq!(decimal_text(0), b"0".to_vec());
    assert_eq!(decimal_text(7), b"7".to_vec());
    assert_eq!(decimal_text(20480), b"20480".to_vec());
    assert_eq!(decimal_text(u64::MAX), b"18446744073709551615".to_vec());
}

#[test]
fn decimal_digits_are_parsed() {
    assert_eq!(parse_decimal(b"0"), Some(0));
    assert_eq!(parse_decimal(b"0042"), Some(42));
    assert_eq!(parse_decimal(b"18446744073709551615"), Some(u64::MAX));
    assert_eq!(parse_decimal(b"18446744073709551616"), None);
    assert_eq!(parse_decimal(b""), None);
    assert_eq!(parse_decimal(b"-1"), None);
    assert_eq!(parse_decimal(b"1.5"), None);
    assert_eq!(parse_decimal(decimal_text(123456789).as_slice()), Some(123456789));
}

#[test]
fn fields_are_split_at_each_separator() {
    assert_eq!(split_fields(b"a,b,,c", b','), vec![b"a".to_vec(), b"b".to_vec(), vec![], b"c".to_vec()]);
    assert_eq!(split_fields(b"", b','), vec![Vec::<u8>::new()]);
    assert_eq!(split_fields(b",", b','), vec![Vec::<u8>::new(), Vec::<u8>::new()]);
    assert_eq!(split_fields(b"abc", b','), vec![b"abc".to_vec()]);
}

#[test]
fn words_are_split_at_white_space() {
    assert_eq!(
        split_words(b"  install --quiet\t--yes\n curl=7 "),
        vec![b"install".to_vec(), b"--quiet".to_vec(), b"--yes".to_vec(), b"curl=7".to_vec()]
    );
    assert!(split_words(b"").is_empty());
    assert!(split_words(b" \n\t").is_empty());
    assert_eq!(split_words(b"one"), vec![b"one".to_vec()]);
}

#[test]
fn prefixes_and_searches() {
    assert!(starts_with(b"local/alarms/x", b"local/alarms"));
    assert!(!starts_with(b"local", b"local/alarms"));
    assert!(starts_with(b"x", b""));
    assert_eq!(strip_prefix(b"local/alarms/x", b"local/alarms/"), Some(b"x".to_vec()));
    assert_eq!(strip_prefix(b"local/alarms/", b"local/alarms/"), Some(vec![]));
    assert_eq!(strip_prefix(b"local/alarm", b"local/alarms/"), None);
    assert_eq!(find_byte(b"a=b=c", b'=', 0), Some(1));
    assert_eq!(find_byte(b"a=b=c", b'=', 2), Some(3));
    assert_eq!(find_byte(b"a=b=c", b'=', 4), None);
    assert!(contains(b"Package: curl\nVersion: 7", b"Version: 7"));
    assert!(!contains(b"Package: curl", b"Version"));
    assert!(contains(b"abc", b""));
    assert!(!contains(b"ab", b"abc"));
    assert_eq!(trimmed(b" \t a b \r\n"), b"a b".to_vec());
    assert_eq!(trimmed(b"   "), Vec::<u8>::new());
    assert_eq!(bytes_of("h\u{e9}"), vec![b'h', 0xc3, 0xa9]);
}

#[test]
fn json_is_read_and_written() {
    let text = r#" { "b" : [1, 2.50, -3, true, null], "a" : {"x":"q\"\\\n\u0001é"} } "#;
    let tree = parse(text.as_bytes()).unwrap();
    assert_eq!(
        String::from_utf8(tree.to_text()).unwrap(),
        "{\"b\":[1,2.5,-3,true,null],\"a\":{\"x\":\"q\\\"\\\\\\n\\u0001é\"}}"
    );
    assert!(tree.get(b"a").is_some());
    assert!(tree.get(b"c").is_none());
    match tree.get(b"b") {
        Some(Json::Array(items)) => assert_eq!(items.len(), 5),
        _ => panic!("an array was expected"),
    }
    assert!(parse(b"{").is_none());
    assert!(parse(b"").is_none());
    assert!(parse(b"{} {}").is_none());
    assert!(parse(&[b'"', 0xff, b'"']).is_none());
}

#[test]
fn json_strings_are_escaped() {
    let tree = Json::text(b"a\"b\\c\n\t\x01\x7f/");
    assert_eq!(
        String::from_utf8(tree.to_text()).unwrap(),
        "\"a\\\"b\\\\c\\n\\t\\u0001\x7f/\""
    );
    assert_eq!(Json::number(77).to_text(), b"77".to_vec());
    assert_eq!(Json::Number(b"2.50".to_vec()).to_text(), b"2.5".to_vec());
    assert_eq!(Json::Number(b"nonsense".to_vec()).to_text(), b"null".to_vec());
    assert_eq!(Json::Null.to_text(), b"null".to_vec());
    assert_eq!(Json::Bool(true).to_text(), b"true".to_vec());
    assert_eq!(Json::array(vec![Json::Bool(false), Json::number(1)]).to_text(), b"[false,1]".to_vec());
}

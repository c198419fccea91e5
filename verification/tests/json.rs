use inkbox_channel::json::{parse_json, parse_json_bytes, render_json, Json};
use inkbox_channel::text::{
    decimal, first_word, is_blank, is_white_space, same_text, trim_end_slashes,
};

#[test]
fn json_texts_are_read_into_plain_data() {
    let json = parse_json(r#" {"a": [null, true, 1.50, -3, "x\né"], "b": {}, "a2": 1e3} "#)
        .unwrap();
    let items = json.get_items("a").unwrap();
    assert_eq!(items.len(), 5);
    assert!(matches!(items[0], Json::Null));
    assert!(matches!(items[1], Json::Bool(true)));
    assert!(matches!(&items[2], Json::Number(n) if n == "1.5"));
    assert!(matches!(&items[3], Json::Number(n) if n == "-3"));
    assert!(matches!(&items[4], Json::Text(t) if t == "x\n\u{e9}"));
    assert!(matches!(json.get("b"), Some(Json::Object(members)) if members.is_empty()));
    assert!(json.get("c").is_none());
    assert!(json.get_text("a").is_none());
    assert!(json.get_items("b").is_none());
    assert!(items[0].get("a").is_none());
}

#[test]
fn texts_that_are_not_json_are_refused() {
    for text in ["", "nul", "{\"a\":}", "[1,]", "1 2", "'x'"] {
        assert!(parse_json(text).is_none());
    }
    assert!(parse_json(&"[".repeat(200)).is_none());
}

#[test]
fn bytes_are_read_as_the_text_that_they_encode() {
    let text = "{\"k\": \"\u{e9}\"}";
    let json = parse_json_bytes(text.as_bytes()).unwrap();
    assert_eq!(json.get_text("k").unwrap(), "\u{e9}");
    assert!(parse_json_bytes(b"\"\xe9\"").is_none());
    assert!(parse_json_bytes(b"\xef\xbb\xbf1").is_none());
    assert!(parse_json_bytes(b"").is_none());
}

#[test]
fn members_are_written_in_their_order_and_read_back() {
    let json = Json::Object(vec![
        ("z".to_string(), Json::Number("0".to_string())),
        ("a".to_string(), Json::Array(vec![Json::Null, Json::Bool(false)])),
        ("m".to_string(), Json::Text("q\"\\\u{1}\u{1f600}".to_string())),
        ("n".to_string(), Json::Number("9999999999999999999".to_string())),
        ("e".to_string(), Json::Object(vec![])),
    ]);
    let text = render_json(&json);
    assert_eq!(
        text,
        "{\"z\":0,\"a\":[null,false],\"m\":\"q\\\"\\\\\\u0001\u{1f600}\",\"n\":9999999999999999999,\"e\":{}}"
    );
    assert_eq!(render_json(&parse_json(&text).unwrap()), text);
}

#[test]
fn plain_numbers_are_written_as_they_are() {
    for whole in 0..10 {
        for tenth in 1..10 {
            let digits = format!("{whole}.{tenth}");
            let text = render_json(&Json::Number(digits.clone()));
            assert_eq!(text, digits);
            assert!(matches!(parse_json(&text), Some(Json::Number(n)) if n == digits));
        }
    }
    for digits in ["0", "7", "10", "300", "1234567890123456789"] {
        assert_eq!(render_json(&Json::Number(digits.to_string())), digits);
    }
}

#[test]
fn texts_nested_to_the_limit_are_read_back() {
    let mut json = Json::Text("x".to_string());
    for _ in 0..100 {
        json = Json::Array(vec![json]);
    }
    let text = render_json(&json);
    assert_eq!(render_json(&parse_json(&text).unwrap()), text);
}

#[test]
fn white_space_is_what_unicode_says() {
    for code in 0..=0x10ffff_u32 {
        if let Some(c) = char::from_u32(code) {
            assert_eq!(is_white_space(c), c.is_whitespace());
        }
    }
}

#[test]
fn words_and_blanks_agree_with_the_standard_library() {
    for text in ["", " ", "a", " a", "a b", "\u{2003}a\u{a0}b", "\t\n", "\u{e9} x", "ab "] {
        assert_eq!(is_blank(text), text.trim().is_empty());
        assert_eq!(first_word(text).as_deref(), text.split_whitespace().next());
    }
}

#[test]
fn trailing_slashes_are_cut_off() {
    for text in ["", "/", "//", "a", "a/", "a//", "/a/b///", "\u{e9}/"] {
        assert_eq!(trim_end_slashes(text), text.trim_end_matches('/'));
    }
}

#[test]
fn decimals_have_no_leading_zeros() {
    for n in [0, 1, 9, 10, 19, 100, 12345, u64::MAX] {
        assert_eq!(decimal(n), n.to_string());
    }
    assert!(same_text("a", "a"));
    assert!(!same_text("a", "A"));
}

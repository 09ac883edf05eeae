use pixie_cli::json::Json;
use pixie_cli::money::{copy_price, no_price, price_json};
use pixie_cli::text::{
    decimal_string, is_blank, is_white_space, join_strings, same, split_words, trim,
};
use pixie_cli::types::{
    AssistantMessage, ContentBlock, Cost, ToolResultContent, Usage, UserMessage,
};

fn strings(items: &[&str]) -> Vec<String> {
    items.iter().map(|s| s.to_string()).collect()
}

#[test]
fn white_space_is_that_of_the_standard_library() {
    for code in 0..0x11_0000u32 {
        if let Some(c) = char::from_u32(code) {
            assert_eq!(is_white_space(c), c.is_whitespace(), "{code:x}");
        }
    }
}

#[test]
fn trimming_agrees_with_the_standard_library() {
    for s in ["", " ", "a", " a ", "\u{3000}a b\u{85}\n", "\t\n", "é ", "a\u{200b} "] {
        assert_eq!(trim(s), s.trim());
        assert_eq!(is_blank(s), s.trim().is_empty());
        assert_eq!(
            split_words(s),
            s.split_whitespace().map(|w| w.to_string()).collect::<Vec<_>>()
        );
    }
    assert_eq!(split_words(" a  bc\td "), strings(&["a", "bc", "d"]));
}

#[test]
fn joining_puts_the_separator_between() {
    assert_eq!(join_strings(&Vec::new(), ", "), "");
    assert_eq!(join_strings(&strings(&["a"]), ", "), "a");
    assert_eq!(join_strings(&strings(&["a", "", "b"]), ", "), "a, , b");
    assert!(same("é", "é"));
    assert!(!same("e", "é"));
}

#[test]
fn numbers_are_written_in_decimal() {
    assert_eq!(decimal_string(0), "0");
    assert_eq!(decimal_string(9), "9");
    assert_eq!(decimal_string(10), "10");
    assert_eq!(decimal_string(u64::MAX), "18446744073709551615");
}

#[test]
fn prices_are_written_as_they_are() {
    assert_eq!(price_json(&no_price()).to_text(), "0.0");
    assert_eq!(price_json(&serde_json::Number::from_f64(0.0123)).to_text(), "0.0123");
    assert_eq!(price_json(&None).to_text(), "null");
    let price = serde_json::Number::from_f64(2.5);
    assert_eq!(copy_price(&price), price);
}

#[test]
fn documents_read_back() {
    let text = "{\"b\":[1,-2,2.5,1e300,true,null],\"a\":{\"x\":\"\\u00e9\\n\"}}";
    let j = Json::parse(text).unwrap();
    let written = j.to_text();
    assert_eq!(written, "{\"b\":[1,-2,2.5,1e+300,true,null],\"a\":{\"x\":\"é\\n\"}}");
    assert_eq!(Json::parse(&written).unwrap().to_text(), written);
    assert_eq!(j.clone().to_text(), written);
    assert_eq!(j.get("a").unwrap().get_str("x"), Some("é\n"));
    assert_eq!(j.get("b").unwrap().as_array().unwrap().len(), 6);
    assert!(j.get("c").is_none());
    assert!(j.as_str().is_none());
}

#[test]
fn other_texts_are_no_documents() {
    assert!(Json::parse("").is_none());
    assert!(Json::parse("{").is_none());
    assert!(Json::parse("{} {}").is_none());
    assert!(Json::parse(&"[".repeat(200)).is_none());
}

#[test]
fn nesting_is_read_up_to_the_limit() {
    let deep = |n: usize| format!("{}{}", "[".repeat(n), "]".repeat(n));
    assert_eq!(Json::parse(&deep(127)).unwrap().to_text(), deep(127));
    assert!(Json::parse(&deep(128)).is_none());
}

#[test]
fn repeated_keys_are_settled() {
    let j = Json::parse("{\"a\":1,\"b\":2,\"a\":3}").unwrap();
    assert_eq!(j.to_text(), "{\"a\":3,\"b\":2}");
    let built = Json::Object(vec![
        ("a".to_string(), Json::Bool(true)),
        ("b".to_string(), Json::Null),
        ("a".to_string(), Json::text("last")),
    ]);
    assert_eq!(built.get_str("a"), Some("last"));
    assert_eq!(built.to_text(), "{\"a\":\"last\",\"b\":null}");
    assert_eq!(Json::uint(u64::MAX).to_text(), "18446744073709551615");
}

#[test]
fn usage_is_added_field_by_field() {
    let price = |dollars: f64| serde_json::Number::from_f64(dollars);
    let mut total = Usage {
        input: 1,
        output: 2,
        cache_read: 3,
        cache_write: 4,
        cost: Cost { total: price(0.25), so_far: price(0.25) },
    };
    let mut other = total.clone();
    other.cost.so_far = price(0.5);
    assert!(total.can_add(&other));
    total.add(&other);
    assert_eq!(
        total,
        Usage {
            input: 2,
            output: 4,
            cache_read: 6,
            cache_write: 8,
            cost: Cost { total: price(0.5), so_far: price(0.5) },
        }
    );
    total.cache_write = u64::MAX;
    assert!(!total.can_add(&other));
    assert!(total.can_add(&Usage::default()));
    assert_eq!(Cost::default().total, price(0.0));
}

#[test]
fn messages_hold_their_text() {
    let mut a = AssistantMessage::empty();
    assert_eq!(a.text_content(), "");
    a.content.push(ContentBlock::Text { text: "a".to_string() });
    a.content.push(ContentBlock::Thinking {
        thinking: "hm".to_string(),
        signature: None,
        redacted: false,
    });
    a.content.push(ContentBlock::Text { text: "b".to_string() });
    assert_eq!(a.text_content(), "");
    a.text = "ab".to_string();
    assert_eq!(a.text_content(), "ab");
    assert_eq!(UserMessage::text("x".to_string()).text_content(), "x");
    assert!(matches!(ToolResultContent::text("x"), ToolResultContent::Text { text } if text == "x"));
}

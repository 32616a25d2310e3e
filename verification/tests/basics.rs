use job_hunter::chance::{pause_millis, random_pause};
use job_hunter::clock::stamp_millis;
use job_hunter::decimal::{parse_signed, parse_unsigned, push_decimal};
use job_hunter::error::AppError;
use job_hunter::json::{text_array, Entry, Json, ObjectBuilder, Real};
use job_hunter::text::{
    contains_text, is_blank, is_white, list_contains, split_after_last,
    split_before_first, split_once, take_chars, take_first_word, trim,
};

#[test]
fn numbers_are_written_and_read_back() {
    for n in [0, 7, 10, 99, 100, u64::MAX] {
        let mut text = String::from("n");
        push_decimal(&mut text, n);
        assert_eq!(text, format!("n{n}"));
        assert_eq!(parse_unsigned(&text[1..], u64::MAX), Some(n));
    }
    assert_eq!(parse_unsigned("+7", 9), Some(7));
    assert_eq!(parse_unsigned("10", 9), None);
    assert_eq!(parse_unsigned("18446744073709551616", u64::MAX), None);
    assert_eq!(parse_unsigned("", 9), None);
    assert_eq!(parse_unsigned("+", 9), None);
    assert_eq!(parse_unsigned("1 ", 9), None);
    assert_eq!(parse_signed("-9223372036854775808"), Some(i64::MIN));
    assert_eq!(parse_signed("9223372036854775808"), None);
    assert_eq!(parse_signed("-"), None);
}

#[test]
fn texts_are_cut_and_searched() {
    assert_eq!(trim(" \u{a0}a b\n"), "a b");
    assert!(is_white('\u{2003}') && !is_white('x'));
    assert!(is_blank("") && is_blank(" \t") && !is_blank("a"));
    assert!(contains_text("months", "month") && !contains_text("mont", "month"));
    assert_eq!(split_before_first("a?b?c", '?'), "a");
    assert_eq!(split_after_last("a:b:c", ':'), "c");
    assert_eq!(split_once("a:b:c", ':'), Some(("a".to_string(), "b:c".to_string())));
    assert_eq!(split_once("abc", ':'), None);
    assert_eq!(take_first_word("  two words"), "two");
    assert_eq!(take_chars("äöü", 2), "äö");
    assert!(list_contains(&vec!["a".to_string()], "a"));
}

#[test]
fn objects_read_their_last_entry() {
    let object = Json::Object(vec![
        Entry { key: "a".into(), value: Json::Unsigned(1) },
        Entry { key: "a".into(), value: Json::Unsigned(2) },
    ]);
    assert_eq!(object.u64_at("a"), Some(2));
    assert_eq!(object.get("b"), None);
    assert_eq!(Json::Null.get("a"), None);
}

#[test]
fn values_are_parsed_and_written() {
    let text = r#"{"b":[true,null,-3,4,2.5],"t":"x\ny"}"#;
    let value = Json::parse(text).unwrap();
    assert_eq!(value.to_text(), text);
    let list = value.get("b").unwrap().as_array().unwrap();
    assert_eq!(list[2], Json::Negative(-3));
    assert_eq!(list[4], Json::Real(Real { text: "2.5".into() }));
    assert_eq!(value.str_at("t"), Some("x\ny"));
    assert_eq!(Json::parse("{"), None);
    assert_eq!(Json::Real(Real { text: "50.0".into() }).to_text(), "50.0");
    for text in ["93.33333333333333", "0.1", "-0.0", "1e+300", "2.2250738585072014e-308"] {
        assert_eq!(Json::Real(Real { text: text.into() }).to_text(), text);
    }
    assert_eq!(Json::Real(Real { text: "no number".into() }).to_text(), "null");
    let score = serde_json::Value::from(93.33333333333333);
    assert_eq!(Json::from_value(&score), Json::Real(Real { text: "93.33333333333333".into() }));
    assert_eq!(Json::from_value(&score).to_value(), score);
}

#[test]
fn objects_are_built_in_order() {
    let object = ObjectBuilder::new()
        .with_text("a", "x")
        .with_bool("b", true)
        .with_i64("c", -1)
        .with_i64("d", 1)
        .with_opt_text("e", &None)
        .with_opt_u64("f", Some(6))
        .with("g", text_array(&vec!["y".to_string()]))
        .build();
    assert_eq!(object.to_text(), r#"{"a":"x","b":true,"c":-1,"d":1,"f":6,"g":["y"]}"#);
}

#[test]
fn errors_say_their_text() {
    assert_eq!(AppError::Validation("v".into()).to_string(), "v");
    assert_eq!(AppError::Config("c".into()).to_string(), "c");
    assert_eq!(AppError::RateLimited("r".into()).to_string(), "r");
}

#[test]
fn pauses_have_a_base_and_a_random_rest() {
    assert_eq!(pause_millis(300, 300, 0), 300);
    assert_eq!(pause_millis(300, 300, 299), 599);
    assert_eq!(pause_millis(500, 500, 1_250), 750);
    let pauses: Vec<u64> = (0..200).map(|_| random_pause(500, 500)).collect();
    assert!(pauses.iter().all(|p| (500..1000).contains(p)));
    assert!(pauses.iter().any(|p| *p != pauses[0]));
}

#[test]
fn records_are_stamped_with_what_is_after_the_epoch() {
    assert_eq!(stamp_millis(-1), 0);
    assert_eq!(stamp_millis(0), 0);
    assert_eq!(stamp_millis(1_767_225_600_000), 1_767_225_600_000);
}

use account_registry::account::ROLE_USER;
use account_registry::json::JsonValue;
use account_registry::reply::{BAD_REQUEST, INVALID_PAYLOAD};
use account_registry::service::username_check;
use account_registry::username::{
    contains_letter, is_valid_username, letter, validate, Rejection, MAX_LENGTH, MIN_LENGTH,
    USERNAME_PATTERN,
};
use serde_json::{to_value, Value};

fn body(value: &Value) -> JsonValue {
    match value {
        Value::Null => JsonValue::Null,
        Value::Bool(b) => JsonValue::Bool(*b),
        Value::Number(n) => JsonValue::Number(n.to_string()),
        Value::String(s) => JsonValue::String(s.clone()),
        Value::Array(items) => JsonValue::Array(items.iter().map(body).collect()),
        Value::Object(members) => {
            JsonValue::Object(members.iter().map(|(k, v)| (k.clone(), body(v))).collect())
        }
    }
}

fn text(s: &str) -> JsonValue {
    JsonValue::String(s.to_string())
}

#[test]
fn test_valid_user_api_post_value() {
    let json = to_value("Water_Bottle".to_string()).unwrap();
    let result = username_check(Some(&body(&json)));
    assert!(result.is_ok());
    let json = to_value("Water_Bottle123".to_string()).unwrap();
    let result = username_check(Some(&body(&json)));
    assert!(result.is_ok());
    let json = to_value("123Water_Bottle".to_string()).unwrap();
    let result = username_check(Some(&body(&json)));
    assert!(result.is_ok());
    let json = to_value("1234f".to_string()).unwrap();
    let result = username_check(Some(&body(&json)));
    assert!(result.is_ok());
}

#[test]
fn test_invalid_user_api_post_type() {
    let json = to_value(true).unwrap();
    let result = username_check(Some(&body(&json)));
    assert!(result.is_err());
    let json = to_value(1).unwrap();
    let result = username_check(Some(&body(&json)));
    assert!(result.is_err());
    let json = to_value([1, 5]).unwrap();
    let result = username_check(Some(&body(&json)));
    assert!(result.is_err());
    let json = to_value(["test", "test_string_vec"]).unwrap();
    let result = username_check(Some(&body(&json)));
    assert!(result.is_err());
}

#[test]
fn test_invalid_user_api_post_name() {
    let json = to_value("  f".to_string()).unwrap();
    let result = username_check(Some(&body(&json)));
    assert!(result.is_err());
    let json = to_value("f  ".to_string()).unwrap();
    let result = username_check(Some(&body(&json)));
    assert!(result.is_err());
    let json = to_value("   ".to_string()).unwrap();
    let result = username_check(Some(&body(&json)));
    assert!(result.is_err());
    let json = to_value("DELETE * FROM user_table WHERE 1=1;".to_string()).unwrap();
    let result = username_check(Some(&body(&json)));
    assert!(result.is_err());
    let json = to_value("1234".to_string()).unwrap();
    let result = username_check(Some(&body(&json)));
    assert!(result.is_err());
}

#[test]
fn username_check_creates_an_ordinary_account() {
    let user = username_check(Some(&text("Water_Bottle"))).unwrap();
    assert_eq!(user.username(), "Water_Bottle");
    assert_eq!(user.role(), ROLE_USER);
    assert_eq!(user.role(), 2);
    assert_eq!(user.created(), user.last_online());
    assert!(!user.created().is_empty());
}

#[test]
fn username_check_tells_why_it_refused() {
    let told = username_check(Some(&text("1234"))).unwrap_err();
    assert_eq!(told.0, BAD_REQUEST);
    assert_eq!(told.0, 400);
    assert_eq!(told.1, INVALID_PAYLOAD);
    assert_eq!(told.1, "JSON payload structure invalid.");
    let told = username_check(None).unwrap_err();
    assert_eq!(told, (400, "JSON payload structure invalid.".to_string()));
    let told = username_check(Some(&JsonValue::Null)).unwrap_err();
    assert_eq!(told, (400, "JSON payload structure invalid.".to_string()));
}

#[test]
fn validate_hands_back_the_name_unchanged() {
    assert_eq!(validate(Some(&text("Water_Bottle"))), Ok("Water_Bottle".to_string()));
    assert_eq!(validate(Some(&text("1234f"))), Ok("1234f".to_string()));
    assert_eq!(validate(Some(&text("_a___"))), Ok("_a___".to_string()));
}

#[test]
fn validate_rejects_short_names() {
    assert_eq!(validate(Some(&text(""))), Err(Rejection::InvalidFormat));
    assert_eq!(validate(Some(&text("a"))), Err(Rejection::InvalidFormat));
    assert_eq!(validate(Some(&text("1234"))), Err(Rejection::InvalidFormat));
    assert_eq!(validate(Some(&text("abcd"))), Err(Rejection::InvalidFormat));
    assert_eq!(validate(Some(&text("abcde"))), Ok("abcde".to_string()));
}

#[test]
fn validate_rejects_long_names() {
    let longest = "a".repeat(32);
    let too_long = "a".repeat(33);
    assert_eq!(validate(Some(&text(&longest))), Ok(longest.clone()));
    assert_eq!(validate(Some(&text(&too_long))), Err(Rejection::InvalidFormat));
    assert_eq!(validate(Some(&text(&"b".repeat(1000)))), Err(Rejection::InvalidFormat));
    assert_eq!(MIN_LENGTH, 5);
    assert_eq!(MAX_LENGTH, 32);
}

#[test]
fn validate_needs_a_letter() {
    assert_eq!(validate(Some(&text("12345"))), Err(Rejection::InvalidFormat));
    assert_eq!(validate(Some(&text("1234f"))), Ok("1234f".to_string()));
    assert_eq!(validate(Some(&text("_____"))), Err(Rejection::InvalidFormat));
    assert_eq!(validate(Some(&text("1_2_3_4_5"))), Err(Rejection::InvalidFormat));
    assert_eq!(validate(Some(&text("1_2_3_4_Z"))), Ok("1_2_3_4_Z".to_string()));
}

#[test]
fn validate_rejects_characters_outside_the_alphabet() {
    assert_eq!(validate(Some(&text("DELETE * FROM accounts;"))), Err(Rejection::InvalidFormat));
    assert_eq!(validate(Some(&text("alice-12"))), Err(Rejection::InvalidFormat));
    assert_eq!(validate(Some(&text("alice.12"))), Err(Rejection::InvalidFormat));
    assert_eq!(validate(Some(&text("alice 12"))), Err(Rejection::InvalidFormat));
    assert_eq!(validate(Some(&text("h\u{e9}llo1"))), Err(Rejection::InvalidFormat));
    assert_eq!(validate(Some(&text("alice\u{661}\u{662}"))), Err(Rejection::InvalidFormat));
    assert_eq!(validate(Some(&text("\u{430}\u{431}\u{432}\u{433}\u{434}"))), Err(Rejection::InvalidFormat));
}

#[test]
fn validate_does_not_trim() {
    assert_eq!(validate(Some(&text(" alice12"))), Err(Rejection::InvalidFormat));
    assert_eq!(validate(Some(&text("alice12 "))), Err(Rejection::InvalidFormat));
    assert_eq!(validate(Some(&text("  alice12  "))), Err(Rejection::InvalidFormat));
    assert_eq!(validate(Some(&text("alice12\n"))), Err(Rejection::InvalidFormat));
    assert_eq!(validate(Some(&text("\nalice12"))), Err(Rejection::InvalidFormat));
    assert_eq!(validate(Some(&text("alice\n12345"))), Err(Rejection::InvalidFormat));
    assert_eq!(validate(Some(&text("alice12\t"))), Err(Rejection::InvalidFormat));
}

#[test]
fn validate_calls_other_values_malformed() {
    assert_eq!(validate(None), Err(Rejection::MalformedPayload));
    assert_eq!(validate(Some(&JsonValue::Null)), Err(Rejection::MalformedPayload));
    assert_eq!(validate(Some(&JsonValue::Bool(true))), Err(Rejection::MalformedPayload));
    assert_eq!(
        validate(Some(&JsonValue::Number("1".to_string()))),
        Err(Rejection::MalformedPayload)
    );
    assert_eq!(
        validate(Some(&JsonValue::Array(vec![text("alice12")]))),
        Err(Rejection::MalformedPayload)
    );
    assert_eq!(
        validate(Some(&JsonValue::Object(vec![("username".to_string(), text("alice12"))]))),
        Err(Rejection::MalformedPayload)
    );
}

#[test]
fn every_length_is_judged_by_the_bounds() {
    for len in 0..80usize {
        let name = "x".repeat(len);
        let verdict = validate(Some(&text(&name)));
        if (5..=32).contains(&len) {
            assert_eq!(verdict, Ok(name));
        } else {
            assert_eq!(verdict, Err(Rejection::InvalidFormat));
        }
    }
}

#[test]
fn every_ascii_character_is_judged_by_the_alphabet() {
    for code in 0u8..128 {
        let c = code as char;
        let name = format!("abcd{}", c);
        let allowed = c.is_ascii_alphanumeric() || c == '_';
        assert_eq!(is_valid_username(&name), allowed);
        assert_eq!(letter(c), c.is_ascii_alphabetic());
    }
}

#[test]
fn contains_letter_looks_at_every_position() {
    assert!(!contains_letter(""));
    assert!(!contains_letter("0123456789_"));
    assert!(contains_letter("a0000"));
    assert!(contains_letter("0000z"));
    assert!(contains_letter("00A00"));
    assert!(contains_letter("00Z00"));
    assert!(!contains_letter("@[`{"));
    assert!(!contains_letter("\u{e9}\u{430}"));
}

#[test]
fn the_pattern_is_the_documented_one() {
    assert_eq!(USERNAME_PATTERN, "^[_a-zA-Z0-9]{5,32}$");
    let compiled = regex::Regex::new(USERNAME_PATTERN).unwrap();
    for name in ["abcde", "abcd", "12345", "a b c d", "abcde\n", "_____"] {
        let shaped = compiled.is_match(name);
        let lettered = name.chars().any(|c| c.is_ascii_alphabetic());
        assert_eq!(is_valid_username(name), shaped && lettered);
    }
}

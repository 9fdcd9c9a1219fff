use sconny::extract::extract;
use sconny::extract::extract_first_output_text;
use sconny::extract::extract_message_content;
use sconny::extract::json_escape;
use sconny::extract::ExtractError;

#[test]
fn message_content_simple() {
    let raw = r#"{"model":"m","message":{"role":"assistant","content":"hello"},"done":true}"#;
    assert_eq!(extract_message_content(raw), Some("hello".to_string()));
}

#[test]
fn output_text_simple() {
    let raw = r#"{"output":[{"type":"output_text","text":"the answer"}]}"#;
    assert_eq!(extract_first_output_text(raw), Some("the answer".to_string()));
}

#[test]
fn simple_escapes_are_reversed() {
    let raw = "{\"message\":{\"content\":\"a\\\"b\\\\c\\/d\\be\\ff\\ng\\rh\\ti\"}}";
    assert_eq!(
        extract_message_content(raw),
        Some("a\"b\\c/d\u{8}e\u{c}f\ng\rh\ti".to_string())
    );
}

#[test]
fn unicode_escape_is_decoded() {
    let raw = r#"{"message":{"content":"ABC é €"}}"#;
    assert_eq!(extract_message_content(raw), Some("ABC \u{e9} \u{20ac}".to_string()));
}

#[test]
fn missing_marker_is_not_found() {
    let raw = r#"{"no_envelope_here":"content":"x"}"#;
    assert_eq!(
        extract(raw, "\"message\"", "content"),
        Err(ExtractError::NotFound)
    );
}

#[test]
fn missing_key_is_not_found() {
    let raw = r#"{"message":{"role":"assistant"}}"#;
    assert_eq!(
        extract(raw, "\"message\"", "content"),
        Err(ExtractError::NotFound)
    );
}

#[test]
fn unterminated_value_is_malformed() {
    let raw = r#"{"message":{"content":"never closed"#;
    assert_eq!(
        extract(raw, "\"message\"", "content"),
        Err(ExtractError::Malformed)
    );
}

#[test]
fn dangling_backslash_is_malformed() {
    let raw = "{\"message\":{\"content\":\"oops\\";
    assert_eq!(
        extract(raw, "\"message\"", "content"),
        Err(ExtractError::Malformed)
    );
}

#[test]
fn truncated_unicode_escape_is_malformed() {
    let raw = "{\"message\":{\"content\":\"x\\u00";
    assert_eq!(
        extract(raw, "\"message\"", "content"),
        Err(ExtractError::Malformed)
    );
}

#[test]
fn unpaired_surrogate_is_skipped() {
    let raw = r#"{"message":{"content":"a\uD800b"}}"#;
    assert_eq!(extract_message_content(raw), Some("ab".to_string()));
}

#[test]
fn invalid_hex_digits_are_skipped() {
    let raw = r#"{"message":{"content":"a\uZZZZb"}}"#;
    assert_eq!(extract_message_content(raw), Some("ab".to_string()));
}

#[test]
fn unknown_escape_is_copied_verbatim() {
    let raw = r#"{"message":{"content":"a\qb"}}"#;
    assert_eq!(extract_message_content(raw), Some("aqb".to_string()));
}

#[test]
fn first_marker_occurrence_wins() {
    let raw = r#"{"message":{"content":"first"},"echo":{"message":{"content":"second"}}}"#;
    assert_eq!(extract_message_content(raw), Some("first".to_string()));
}

#[test]
fn json_escape_simple() {
    assert_eq!(json_escape("plain"), "plain");
    assert_eq!(json_escape("a\"b"), "a\\\"b");
    assert_eq!(json_escape("a\\b"), "a\\\\b");
    assert_eq!(json_escape("a\nb\rc\td"), "a\\nb\\rc\\td");
    assert_eq!(json_escape("bell\u{7}"), "bell\\u0007");
    assert_eq!(json_escape("esc\u{1b}!"), "esc\\u001b!");
}

#[test]
fn escape_then_extract_round_trip() {
    let cases = [
        "hello world",
        "quotes \" and backslashes \\ and slashes /",
        "control\u{1}\u{2}\u{1f} chars",
        "newline\nand tab\t and cr\r",
        "unicode \u{e9}\u{20ac}\u{1f600}",
        "",
    ];
    for original in cases {
        let mut envelope = String::from("{\"message\":{\"role\":\"a\",\"content\":\"");
        envelope.push_str(&json_escape(original));
        envelope.push_str("\"}}");
        assert_eq!(
            extract_message_content(&envelope).as_deref(),
            Some(original),
            "round trip failed"
        );
    }
}

#[test]
fn empty_value_extracts_empty() {
    let raw = r#"{"message":{"content":""}}"#;
    assert_eq!(extract_message_content(raw), Some(String::new()));
}

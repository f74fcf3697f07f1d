use growcli_chat::json::clone_json;
use growcli_chat::json::get_string_member;
use growcli_chat::json::JsonValue;
use growcli_chat::text::chars_of;
use growcli_chat::text::push_decimal;
use growcli_chat::text::str_contains;
use growcli_chat::text::str_eq_ignore_ascii_case;
use growcli_chat::text::str_is_blank;
use growcli_chat::text::trimmed_equals;

#[test]
fn trimming_follows_unicode_whitespace() {
    assert!(trimmed_equals("\u{2003}[DONE]\u{85}\r\n", "[DONE]"));
    assert!(trimmed_equals("[DONE]", "[DONE]"));
    assert!(!trimmed_equals("[DONE] x", "[DONE]"));
    assert!(!trimmed_equals("[done]", "[DONE]"));
    assert!(str_is_blank(""));
    assert!(str_is_blank(" \t\u{a0}\u{3000}"));
    assert!(!str_is_blank(" a "));
    assert!(!str_is_blank("\u{200b}"));
}

#[test]
fn ascii_case_and_substrings() {
    assert!(str_eq_ignore_ascii_case("GROWTHcircle", "growthCIRCLE"));
    assert!(!str_eq_ignore_ascii_case("growthcircl", "growthcircle"));
    assert!(!str_eq_ignore_ascii_case("ÉCOLE", "école"));
    assert!(str_contains("https://ai.growthcircle.id/v1", "ai.growthcircle.id"));
    assert!(str_contains("abc", ""));
    assert!(!str_contains("ai.growthcircle.i", "ai.growthcircle.id"));
}

#[test]
fn decimal_and_string_building() {
    let mut s = "n=".to_string();
    push_decimal(&mut s, 0);
    push_decimal(&mut s, 4_294_967_295);
    assert_eq!(s, "n=04294967295");
    assert_eq!(chars_of("héllo"), vec!['h', 'é', 'l', 'l', 'o']);
}

#[test]
fn json_members_and_copies() {
    let v = JsonValue::Object(vec![
        ("name".to_string(), JsonValue::String("shell".to_string())),
        ("name".to_string(), JsonValue::String("second".to_string())),
        ("n".to_string(), JsonValue::Number("1.5".to_string())),
        (
            "list".to_string(),
            JsonValue::Array(vec![JsonValue::Null, JsonValue::Bool(false)]),
        ),
    ]);
    assert_eq!(get_string_member(&v, "name"), Some("shell".to_string()));
    assert_eq!(get_string_member(&v, "n"), None);
    assert_eq!(get_string_member(&v, "missing"), None);
    assert_eq!(get_string_member(&JsonValue::String("name".to_string()), "name"), None);
    assert_eq!(clone_json(&v), v);
}

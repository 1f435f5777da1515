use wa_sync::contact::Contact;
use wa_sync::json::JsonValue;
use wa_sync::json::json_to_string;
use wa_sync::text::contains_str;
use wa_sync::text::i64_to_string;
use wa_sync::text::prefix_before;
use wa_sync::text::str_eq;
use wa_sync::text::u64_to_string;

fn contact_with_mute(mute_end_time: i64) -> Contact {
    Contact {
        jid: "a@s.whatsapp.net".to_string(),
        name: "Ann".to_string(),
        last_message: None,
        last_message_time: None,
        unread_count: 0,
        conversation_timestamp: 0,
        is_group: false,
        archived: false,
        pinned: 0,
        mute_end_time,
        profile_picture_url: None,
    }
}

#[test]
fn display_name_returns_name() {
    assert_eq!(contact_with_mute(0).display_name(), "Ann");
}

#[test]
fn mute_semantics() {
    let c = contact_with_mute(0);
    assert!(!c.is_muted_at(0));
    assert!(!c.is_muted());

    let muted = contact_with_mute(2_000_000);
    assert!(muted.is_muted_at(1_999_999));
    assert!(!muted.is_muted_at(2_000_000));

    let muted_forever = contact_with_mute(i64::MAX);
    assert!(muted_forever.is_muted());
}

#[test]
fn string_utilities() {
    assert!(str_eq("abc", "abc"));
    assert!(!str_eq("abc", "abd"));
    assert!(!str_eq("abc", "ab"));
    assert!(str_eq("", ""));

    assert_eq!(prefix_before("446@s.whatsapp.net", '@'), "446");
    assert_eq!(prefix_before("no-domain", '@'), "no-domain");
    assert_eq!(prefix_before("@starts", '@'), "");

    assert!(contains_str("12345@g.us", "@g.us"));
    assert!(contains_str("abc", ""));
    assert!(!contains_str("ab", "abc"));
}

#[test]
fn decimal_rendering() {
    assert_eq!(u64_to_string(0), "0");
    assert_eq!(u64_to_string(907), "907");
    assert_eq!(u64_to_string(u64::MAX), "18446744073709551615");
    assert_eq!(i64_to_string(-45), "-45");
    assert_eq!(i64_to_string(i64::MIN), "-9223372036854775808");
    assert_eq!(i64_to_string(7), "7");
}

#[test]
fn printer_renders_documents_compactly() {
    let j = JsonValue::Obj(vec![
        ("a".to_string(), JsonValue::Int(1)),
        (
            "b".to_string(),
            JsonValue::Arr(vec![
                JsonValue::Bool(true),
                JsonValue::Null,
                JsonValue::Str("x".to_string()),
            ]),
        ),
    ]);
    assert_eq!(json_to_string(&j), r#"{"a":1,"b":[true,null,"x"]}"#);
}

#[test]
fn printer_escapes_strings() {
    let j = JsonValue::Str("a\"b\\c\nd\te\r".to_string());
    assert_eq!(json_to_string(&j), "\"a\\\"b\\\\c\\nd\\te\\r\"");
    let control = JsonValue::Str("\u{0001}".to_string());
    assert_eq!(json_to_string(&control), "\"\\u0001\"");
}

#[test]
fn printer_renders_numbers_and_nesting() {
    let j = JsonValue::Arr(vec![
        JsonValue::Int(-3),
        JsonValue::Obj(vec![("k".to_string(), JsonValue::Bool(false))]),
        JsonValue::Arr(Vec::new()),
    ]);
    assert_eq!(json_to_string(&j), r#"[-3,{"k":false},[]]"#);
}

#[test]
fn json_field_accessors() {
    let j = JsonValue::Obj(vec![
        ("arr".to_string(), JsonValue::Arr(vec![JsonValue::Int(1)])),
        ("b".to_string(), JsonValue::Bool(true)),
        ("n".to_string(), JsonValue::Int(12)),
        ("s".to_string(), JsonValue::Str("txt".to_string())),
    ]);
    assert_eq!(j.str_field("s").as_deref(), Some("txt"));
    assert_eq!(j.str_field("n"), None);
    assert_eq!(j.i64_field("n", 0), 12);
    assert_eq!(j.i64_field("missing", 9), 9);
    assert_eq!(j.i64_field("s", 9), 9);
    assert!(j.bool_field("b", false));
    assert!(!j.bool_field("missing", false));
    assert!(j.has_field("arr"));
    assert!(!j.has_field("zzz"));
}

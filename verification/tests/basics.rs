use engram_core::document::{Member, Value};
use engram_core::text;
use engram_core::text_map::{is_before, TextMap};
use engram_core::time::{Duration, Timestamp};

#[test]
fn texts_are_cut_and_trimmed() {
    assert_eq!(
        text::split_once("a=b=c", '='),
        Some(("a".into(), "b=c".into()))
    );
    assert_eq!(text::split_once("abc", '='), None);
    assert_eq!(text::trim(" \u{a0}a b\u{3000}\n"), "a b");
    assert_eq!(text::trim(" \t"), "");
    assert!(text::is_blank(" \u{2003}"));
    assert!(!text::is_blank(" x "));
    assert_eq!(text::strip_prefix("abc", "ab"), Some("c".into()));
    assert_eq!(text::strip_prefix("abc", "b"), None);
    assert_eq!(text::strip_suffix("abc", "bc"), Some("a".into()));
    assert!(text::contains_part("a/../b", '/', ".."));
    assert!(!text::contains_part("a/..b", '/', ".."));
}

#[test]
fn white_space_is_what_unicode_says() {
    for c in '\0'..=char::MAX {
        assert_eq!(text::is_blank(&c.to_string()), c.is_whitespace(), "{c:?}");
    }
}

#[test]
fn numbers_are_written() {
    for (n, s) in [(0, "0"), (7, "7"), (120, "120"), (u64::MAX, "18446744073709551615")] {
        let mut t = String::new();
        text::push_decimal(&mut t, n);
        assert_eq!(t, s);
    }
}

#[test]
fn maps_keep_their_keys_in_order() {
    let mut m = TextMap::new();
    assert!(m.is_empty());
    for (k, v) in [("b", "1"), ("a", "2"), ("c", "3"), ("a", "4")] {
        m.insert(k.into(), v.into());
    }
    assert_eq!(m.len(), 3);
    assert_eq!(m.get("a"), Some("4"));
    assert_eq!(m.get("d"), None);
    assert_eq!((m.key_at(0), m.value_at(0)), ("a", "4"));
    assert_eq!((m.key_at(2), m.value_at(2)), ("c", "3"));
    assert_eq!(m.clone(), m);
    for (a, b) in [("", "a"), ("a", "ab"), ("ab", "b"), ("Z", "a"), ("z", "\u{e9}")] {
        assert!(is_before(a, b) && a < b);
        assert!(!is_before(b, a));
    }
}

#[test]
fn time_is_shifted_by_milliseconds() {
    let t = Timestamp { secs: 10, nanos: 999_000_000 };
    assert_eq!(t.plus_millis(1), Timestamp { secs: 11, nanos: 0 });
    assert_eq!(t.plus_millis(-1000), Timestamp { secs: 9, nanos: 999_000_000 });
    assert_eq!(t.plus_millis(-10_999), Timestamp { secs: 0, nanos: 0 });
    assert!(t.at_or_before(&t));
    assert!(!t.plus_millis(1).at_or_before(&t));
    assert_eq!(Duration::from_millis(1_500).as_millis(), 1_500);
    assert_eq!(Duration::from_millis(1_500).nanos, 500_000_000);
    assert_eq!(Duration::from_secs(2).as_millis(), 2_000);
}

#[test]
fn documents_give_out_their_members() {
    let doc = Value::Table(vec![
        Member { key: "a".into(), value: Value::Integer(1) },
        Member { key: "b".into(), value: Value::Text("x".into()) },
    ]);
    assert_eq!(doc.get("b"), Some(&Value::Text("x".into())));
    assert_eq!(doc.get("c"), None);
    assert_eq!(doc.need_u32("a"), Ok(1));
    assert!(doc.need_u32("b").is_err());
    assert_eq!(doc.opt_u64("c"), Ok(None));
    assert_eq!(doc.need_text("c").unwrap_err(), "missing field `c`");
    assert_eq!(doc.need_text("a").unwrap_err(), "`a` must be a text");
    assert_eq!(
        doc.check_table("doc", &["a"]).unwrap_err(),
        "unknown field `b`"
    );
    assert!(Value::Null.check_kind("doc").is_err());
    let set = doc.with_member("a", Value::Bool(true));
    assert_eq!(set.get("a"), Some(&Value::Bool(true)));
    assert_eq!(set.get("b"), Some(&Value::Text("x".into())));
}

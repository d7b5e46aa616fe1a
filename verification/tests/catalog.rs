use json_gettext::{
    JSONGetText, JSONGetTextBuildError, JSONGetTextBuilder, JSONGetTextValue, Key, LocaleMap,
    Pattern, TextMap,
};

const EN: &str = r#"{"hello": "Hello, world!", "rust": "Rust!", "hi": "Hi!"}"#;
const ZH: &str = r#"{"hello": "哈囉，世界！"}"#;

fn two_locales() -> JSONGetText<'static> {
    let mut builder = JSONGetTextBuilder::new("en_US");
    builder.add_json_owned("en_US", EN).unwrap();
    builder.add_json_owned("zh_TW", ZH).unwrap();
    builder.build(false).unwrap()
}

#[test]
fn missing_texts_are_filled_from_the_default_locale() {
    let ctx = two_locales();
    let zh = ctx.get("zh_TW");
    assert_eq!(3, zh.len());
    assert!(zh.get("hello").unwrap().eq_str("哈囉，世界！"));
    assert!(zh.get("rust").unwrap().eq_str("Rust!"));
    assert!(zh.get("hi").unwrap().eq_str("Hi!"));
    let en = ctx.get("en_US");
    assert_eq!(3, en.len());
    assert!(en.get("hello").unwrap().eq_str("Hello, world!"));
}

#[test]
fn filled_values_of_any_kind_are_copied() {
    let mut builder = JSONGetTextBuilder::new("en");
    builder.add_json("en", r#"{"n": 3, "list": ["a", {"b": true}], "s": "x"}"#).unwrap();
    builder.add_json("fr", r#"{"s": "y"}"#).unwrap();
    let ctx = builder.build(false).unwrap();
    assert_eq!("3", ctx.get_text_with_key("fr", "n").unwrap().to_json_string());
    assert_eq!(
        "[\"a\",{\"b\":true}]",
        ctx.get_text_with_key("fr", "list").unwrap().to_json_string()
    );
    assert_eq!(Some("y"), ctx.get_text_with_key("fr", "s").unwrap().as_str());
    assert_eq!(None, ctx.get_text_with_key("fr", "n").unwrap().as_str());
}

#[test]
fn strict_build_names_the_locale_and_the_extra_text() {
    let mut builder = JSONGetTextBuilder::new("en_US");
    builder.add_json("en_US", EN).unwrap();
    builder.add_json("zh_TW", r#"{"hello": "哈囉", "goodbye": "再見"}"#).unwrap();
    let err = builder.build(false).unwrap_err();
    match &err {
        JSONGetTextBuildError::TextInKeyNotInDefaultKey { key, text } => {
            assert_eq!(&Key::new("zh_TW"), key);
            assert_eq!("goodbye", text);
        },
        other => panic!("unexpected error {:?}", other),
    }
    assert_eq!(
        "The text `goodbye` in the key `zh_TW` is not found in the default key.",
        err.to_string()
    );
}

#[test]
fn lenient_build_drops_the_extra_text() {
    let mut builder = JSONGetTextBuilder::new("en_US");
    builder.add_json("en_US", EN).unwrap();
    builder.add_json("zh_TW", r#"{"hello": "哈囉", "goodbye": "再見"}"#).unwrap();
    let ctx = builder.build(true).unwrap();
    let zh = ctx.get("zh_TW");
    assert!(zh.get("goodbye").is_none());
    assert!(!zh.contains_key("goodbye"));
    assert!(zh.get("hello").unwrap().eq_str("哈囉"));
    assert!(zh.get("rust").unwrap().eq_str("Rust!"));
    assert_eq!(3, zh.len());
    assert!(ctx.get_text_with_key("zh_TW", "goodbye").is_none());
}

#[test]
fn build_needs_the_default_locale() {
    let mut builder = JSONGetTextBuilder::new("en_US");
    builder.add_json("zh_TW", ZH).unwrap();
    let err = builder.build(false).unwrap_err();
    assert!(matches!(err, JSONGetTextBuildError::DefaultKeyNotFound));
    assert_eq!("The default key is not found.", err.to_string());
    let empty = JSONGetTextBuilder::new("en_US");
    assert!(matches!(empty.build(true), Err(JSONGetTextBuildError::DefaultKeyNotFound)));
}

#[test]
fn unknown_locale_reads_the_default_locale() {
    let ctx = two_locales();
    for text in ["hello", "rust", "hi", "absent"] {
        assert_eq!(
            ctx.get_text_with_key("en_US", text),
            ctx.get_text_with_key("de", text)
        );
        assert_eq!(ctx.get_text(text), ctx.get_text_with_key("", text));
    }
    assert!(ctx.get_text_with_key("de", "hello").unwrap().eq_str("Hello, world!"));
    assert!(ctx.get_text("absent").is_none());
    assert!(ctx.get_text_with_key("zh_TW", "absent").is_none());
}

#[test]
fn batch_lookup_is_all_or_nothing() {
    let ctx = two_locales();
    assert!(ctx.get_multiple_text(&["hello", "absent"]).is_none());
    assert!(ctx.get_multiple_text(&["absent", "hello"]).is_none());
    assert!(ctx.get_multiple_text_with_key("zh_TW", &["hello", "absent"]).is_none());
    assert!(ctx.get_multiple_text_with_key("de", &["hello", "rust", "nope"]).is_none());
    let both = ctx.get_multiple_text(&["hello", "rust"]).unwrap();
    assert_eq!(2, both.len());
    assert!(both.get("hello").unwrap().eq_str("Hello, world!"));
    assert!(both.get("rust").unwrap().eq_str("Rust!"));
    assert!(both.get("hi").is_none());
    let twice = ctx.get_multiple_text(&["hello", "hello"]).unwrap();
    assert_eq!(1, twice.len());
    let none: LocaleMap = ctx.get_multiple_text(&[]).unwrap();
    assert_eq!(0, none.len());
}

#[test]
fn filtered_lookup_keeps_the_matching_keys() {
    let ctx = two_locales();
    let h = Pattern::new("^h").unwrap();
    assert_eq!("^h", h.as_str());
    let map = ctx.get_filtered_text(&h).unwrap();
    assert_eq!(2, map.len());
    assert!(map.get("hello").unwrap().eq_str("Hello, world!"));
    assert!(map.get("hi").unwrap().eq_str("Hi!"));
    assert!(map.get("rust").is_none());
    let zh = ctx.get_filtered_text_with_key("zh_TW", &h).unwrap();
    assert_eq!(2, zh.len());
    assert!(zh.get("hello").unwrap().eq_str("哈囉，世界！"));
    assert!(zh.get("hi").unwrap().eq_str("Hi!"));
    let de = ctx.get_filtered_text_with_key("de", &Pattern::new("st$").unwrap()).unwrap();
    assert_eq!(1, de.len());
    assert!(de.get("rust").unwrap().eq_str("Rust!"));
    let nothing = ctx.get_filtered_text(&Pattern::new("^zzz$").unwrap()).unwrap();
    assert_eq!(0, nothing.len());
    assert!(h.is_match("hello"));
    assert!(!h.is_match("oh"));
}

#[test]
fn malformed_patterns_are_refused() {
    assert!(Pattern::new("foo(bar").is_none());
    assert!(Pattern::new("[a-").is_none());
    assert!(Pattern::new("").is_some());
}

#[test]
fn keys_of_the_catalog() {
    let ctx = two_locales();
    let mut keys = ctx.get_keys();
    keys.sort();
    assert_eq!(vec!["en_US", "zh_TW"], keys);
    assert_eq!("en_US", ctx.get_default_key());
    assert!(ctx.contains_key("zh_TW"));
    assert!(ctx.contains_key("en_US"));
    assert!(!ctx.contains_key("de"));
    assert!(!ctx.contains_key("en_U"));
    assert!(!ctx.contains_key("en_US "));
}

#[test]
fn concrete_scenario() {
    let mut builder = JSONGetTextBuilder::new("en_US");
    builder.add_json("en_US", r#"{"hello":"Hello, world!","rust":"Rust!"}"#).unwrap();
    builder.add_json("zh_TW", r#"{"hello":"哈囉，世界！"}"#).unwrap();
    let ctx = builder.build(false).unwrap();
    assert!(ctx.get_text("hello").unwrap().eq_str("Hello, world!"));
    assert!(ctx.get_text_with_key("zh_TW", "hello").unwrap().eq_str("哈囉，世界！"));
    assert!(ctx.get_text_with_key("zh_TW", "rust").unwrap().eq_str("Rust!"));
    assert!(ctx.get_text_with_key("de", "hello").unwrap().eq_str("Hello, world!"));
}

#[test]
fn catalog_from_prebuilt_maps() {
    let mut en: LocaleMap = TextMap::new();
    assert!(en.insert("hello".to_string(), JSONGetTextValue::from_str("Hello")).is_none());
    assert!(en.insert("n".to_string(), JSONGetTextValue::from_i64(1)).is_none());
    let replaced = en.insert("n".to_string(), JSONGetTextValue::from_i64(2));
    assert_eq!(Some(JSONGetTextValue::from_i64(1)), replaced);
    assert_eq!(2, en.len());
    let mut fr: LocaleMap = TextMap::new();
    fr.insert("hello".to_string(), JSONGetTextValue::from_str("Bonjour"));
    let mut builder = JSONGetTextBuilder::new("en");
    builder.add_map("en", en).unwrap();
    builder.add_map("fr", fr).unwrap();
    let ctx = builder.build(false).unwrap();
    assert_eq!("2", ctx.get_text_with_key("fr", "n").unwrap().to_json_string());
    assert!(ctx.get_text_with_key("fr", "hello").unwrap().eq_str("Bonjour"));
    assert!(ctx.get_text("hello").unwrap().eq_str("Hello"));
}

#[test]
fn set_replaces_one_locale_or_nothing() {
    let mut ctx = two_locales();
    let mut zh: LocaleMap = TextMap::new();
    zh.insert("rust".to_string(), JSONGetTextValue::from_str("鏽！"));
    ctx.set("zh_TW", zh, false).unwrap();
    assert!(ctx.get_text_with_key("zh_TW", "rust").unwrap().eq_str("鏽！"));
    assert!(ctx.get_text_with_key("zh_TW", "hello").unwrap().eq_str("Hello, world!"));
    assert_eq!(3, ctx.get("zh_TW").len());

    let mut bad: LocaleMap = TextMap::new();
    bad.insert("goodbye".to_string(), JSONGetTextValue::from_str("再見"));
    let err = ctx.set("zh_TW", bad, false).unwrap_err();
    match err {
        JSONGetTextBuildError::TextInKeyNotInDefaultKey { key, text } => {
            assert_eq!("zh_TW", key.as_str());
            assert_eq!("goodbye", text);
        },
        other => panic!("unexpected error {:?}", other),
    }
    assert!(ctx.get_text_with_key("zh_TW", "rust").unwrap().eq_str("鏽！"));
    assert!(ctx.get_text_with_key("zh_TW", "goodbye").is_none());

    let mut lenient: LocaleMap = TextMap::new();
    lenient.insert("goodbye".to_string(), JSONGetTextValue::from_str("再見"));
    lenient.insert("hi".to_string(), JSONGetTextValue::from_str("嗨"));
    ctx.set("zh_TW", lenient, true).unwrap();
    assert!(ctx.get_text_with_key("zh_TW", "goodbye").is_none());
    assert!(ctx.get_text_with_key("zh_TW", "hi").unwrap().eq_str("嗨"));
    assert!(ctx.get_text_with_key("zh_TW", "rust").unwrap().eq_str("Rust!"));

    let mut fr: LocaleMap = TextMap::new();
    fr.insert("hello".to_string(), JSONGetTextValue::from_str("Bonjour"));
    ctx.set("fr", fr, false).unwrap();
    assert!(ctx.contains_key("fr"));
    assert!(ctx.get_text_with_key("fr", "hello").unwrap().eq_str("Bonjour"));
    assert!(ctx.get_text_with_key("fr", "rust").unwrap().eq_str("Rust!"));
    assert_eq!(3, ctx.get_keys().len());
}

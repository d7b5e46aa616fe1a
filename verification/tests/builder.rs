use json_gettext::{Json, JSONGetTextBuildError, JSONGetTextBuilder, JSONGetTextValue, Key, TextMap};

#[test]
fn second_addition_under_a_key_is_refused() {
    let mut builder = JSONGetTextBuilder::new("en");
    builder.add_json("en", r#"{"a": "first"}"#).unwrap();
    let err = builder.add_json("en", r#"{"a": "second", "b": "more"}"#).unwrap_err();
    match &err {
        JSONGetTextBuildError::DuplicatedKey(key) => assert_eq!(&Key::new("en"), key),
        other => panic!("unexpected error {:?}", other),
    }
    assert_eq!("en", err.to_string());
    assert!(matches!(
        builder.add_json_owned("en", r#"{}"#),
        Err(JSONGetTextBuildError::DuplicatedKey(_))
    ));
    assert!(matches!(
        builder.add_map("en", TextMap::new()),
        Err(JSONGetTextBuildError::DuplicatedKey(_))
    ));
    assert!(matches!(
        builder.add_json_file("en", "en.json", Some(1), r#"{}"#),
        Err(JSONGetTextBuildError::DuplicatedKey(_))
    ));
    assert!(matches!(
        builder.add_serialize("en", &Json::parse("{}").unwrap()),
        Err(JSONGetTextBuildError::DuplicatedKey(_))
    ));
    assert!(builder.files().is_empty());
    let ctx = builder.build(false).unwrap();
    assert_eq!(1, ctx.get("en").len());
    assert!(ctx.get_text("a").unwrap().eq_str("first"));
    assert!(ctx.get_text("b").is_none());
}

#[test]
fn duplicate_wins_over_malformed_text() {
    let mut builder = JSONGetTextBuilder::new("en");
    builder.add_json("en", r#"{"a": "first"}"#).unwrap();
    assert!(matches!(
        builder.add_json("en", "not json"),
        Err(JSONGetTextBuildError::DuplicatedKey(_))
    ));
}

#[test]
fn source_must_be_a_json_object() {
    let mut builder = JSONGetTextBuilder::new("en");
    for bad in ["[1, 2]", "\"text\"", "3", "null", "{\"a\": ", "", "{\"a\": 1} trailing"] {
        let err = builder.add_json("en", bad).unwrap_err();
        assert!(matches!(err, JSONGetTextBuildError::SerdeJSONError(_)));
        assert!(!err.to_string().is_empty());
        assert!(matches!(
            builder.add_json_owned("en", bad),
            Err(JSONGetTextBuildError::SerdeJSONError(_))
        ));
        assert!(matches!(
            builder.add_json_file("en", "en.json", None, bad),
            Err(JSONGetTextBuildError::SerdeJSONError(_))
        ));
    }
    assert!(builder.files().is_empty());
    builder.add_json("en", "{}").unwrap();
    let ctx = builder.build(false).unwrap();
    assert_eq!(0, ctx.get("en").len());
}

#[test]
fn repeated_member_keeps_its_last_value() {
    let mut builder = JSONGetTextBuilder::new("en");
    builder.add_json("en", r#"{"a": "one", "b": "x", "a": "two"}"#).unwrap();
    let ctx = builder.build(false).unwrap();
    assert_eq!(2, ctx.get("en").len());
    assert!(ctx.get_text("a").unwrap().eq_str("two"));
}

#[test]
fn serialized_value_must_be_an_object() {
    let mut builder = JSONGetTextBuilder::new("en");
    assert!(matches!(
        builder.add_serialize("en", &Json::from_string("MagicLen".to_string())),
        Err(JSONGetTextBuildError::SerdeJSONError(_))
    ));
    assert!(matches!(
        builder.add_serialize("en", &Json::from_integer(3).unwrap()),
        Err(JSONGetTextBuildError::SerdeJSONError(_))
    ));
    builder.add_serialize("en", &Json::parse(r#"{"a": "b", "n": [1]}"#).unwrap()).unwrap();
    let ctx = builder.build(false).unwrap();
    assert!(ctx.get_text("a").unwrap().eq_str("b"));
    assert_eq!("[1]", ctx.get_text("n").unwrap().to_json_string());
}

#[test]
fn files_are_recorded_in_order() {
    let mut builder = JSONGetTextBuilder::new("en");
    builder.add_json_file("en", "langs/en.json", Some(10), r#"{"a": "b"}"#).unwrap();
    builder.add_json("de", r#"{"a": "c"}"#).unwrap();
    builder.add_json_file("fr", "langs/fr.json", None, r#"{"a": "d"}"#).unwrap();
    let files = builder.files();
    assert_eq!(2, files.len());
    assert_eq!("en", files[0].key);
    assert_eq!("langs/en.json", files[0].path);
    assert_eq!(Some(10), files[0].modified);
    assert_eq!("fr", files[1].key);
    assert_eq!("langs/fr.json", files[1].path);
    assert_eq!(None, files[1].modified);
    let ctx = builder.build(false).unwrap();
    assert!(ctx.get_text_with_key("fr", "a").unwrap().eq_str("d"));
    assert!(ctx.get_text_with_key("de", "a").unwrap().eq_str("c"));
}

#[test]
fn text_map_keeps_one_value_per_key() {
    let mut map: TextMap<JSONGetTextValue> = TextMap::new();
    assert_eq!(0, map.len());
    assert!(map.get("a").is_none());
    assert!(map.insert("a".to_string(), JSONGetTextValue::from_str("1")).is_none());
    assert!(map.insert("ab".to_string(), JSONGetTextValue::from_str("2")).is_none());
    assert_eq!(Some(JSONGetTextValue::from_str("1")), map.insert("a".to_string(), JSONGetTextValue::from_str("3")));
    assert_eq!(2, map.len());
    assert_eq!(Some(0), map.position("a"));
    assert_eq!(Some(1), map.position("ab"));
    assert_eq!(None, map.position("b"));
    assert_eq!("a", map.key_at(0));
    assert!(map.value_at(0).eq_str("3"));
    assert!(map.contains_key("ab"));
    assert!(!map.contains_key("abc"));
    assert!(!map.contains_key(""));
}

#[test]
fn keys_are_their_text() {
    let key = Key::new("en_US");
    assert_eq!("en_US", key.as_str());
    assert_eq!("en_US", key.to_string());
    assert!(key.eq_str("en_US"));
    assert!(!key.eq_str("en"));
    assert_eq!(Key("en_US".to_string()), key);
    assert_eq!(key, Key::from_string("en_US".to_string()));
    assert_eq!(key, Key::from_language_region("en", Some("US")));
    assert_eq!(Key::new("zh"), Key::from_language_region("zh", None));
    assert_eq!(Key::new("_"), Key::from_language_region("", Some("")));
}

#[test]
fn members_become_the_texts_of_a_locale() {
    let members = Json::parse_object(r#"{"b": 1, "a": "x"}"#).unwrap();
    assert_eq!(2, members.len());
    let map = json_gettext::builder::locale_from_members(&members);
    assert_eq!(2, map.len());
    assert_eq!("x", map.get("a").unwrap());
    assert_eq!("1", map.get("b").unwrap().to_json_string());
    let twice = vec![
        ("k".to_string(), Json::from_bool(true)),
        ("k".to_string(), Json::from_bool(false)),
    ];
    let map = json_gettext::builder::locale_from_members(&twice);
    assert_eq!(1, map.len());
    assert_eq!("false", map.get("k").unwrap().to_json_string());
}

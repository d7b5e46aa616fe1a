use json_gettext::{JSONGetText, JSONGetTextBuilder};

/// The text of a language file, by its path.
fn key_string_single_file(path: &str) -> &'static str {
    match path {
        "langs/en_US.json" => r#"{"hello": "Hello, world!", "rust": "Rust!"}"#,
        "langs/zh_TW.json" => r#"{"hello": "哈囉，世界！"}"#,
        "langs/zh_TW_extra_key.json" => r#"{"hello": "哈囉，世界！", "goodbye": "再見！"}"#,
        _ => panic!("no such language file: {}", path),
    }
}

fn key_string_single_catalog() -> JSONGetText<'static> {
    let mut builder = JSONGetText::build("en_US");
    builder.add_json("en_US", key_string_single_file("langs/en_US.json")).unwrap();
    builder.add_json("zh_TW", key_string_single_file("langs/zh_TW.json")).unwrap();
    builder.build(false).unwrap()
}

#[test]
fn key_string_single_single_get() {
    let ctx = key_string_single_catalog();

    assert_eq!("Hello, world!", ctx.get_text("hello").unwrap());
    assert_eq!("Hello, world!", ctx.get_text_with_key("en_US", "hello").unwrap());
    assert_eq!("Hello, world!", ctx.get_text_with_key("de", "hello").unwrap());
    assert_eq!("Rust!", ctx.get_text_with_key("en_US", "rust").unwrap());
    assert_eq!("哈囉，世界！", ctx.get_text_with_key("zh_TW", "hello").unwrap());
    assert_eq!("Rust!", ctx.get_text_with_key("zh_TW", "rust").unwrap());
}

#[test]
fn key_string_single_map_get() {
    let ctx = key_string_single_catalog();

    let map = ctx.get("en_US");

    assert_eq!("Hello, world!", map.get("hello").unwrap());
    assert_eq!("Rust!", map.get("rust").unwrap());

    let map = ctx.get("de");

    assert_eq!("Hello, world!", map.get("hello").unwrap());
    assert_eq!("Rust!", map.get("rust").unwrap());

    let map = ctx.get("zh_TW");

    assert_eq!("哈囉，世界！", map.get("hello").unwrap());
    assert_eq!("Rust!", map.get("rust").unwrap());
}

#[test]
fn extra_keys() {
    let mut builder = JSONGetTextBuilder::new("en_US");
    let en_us = key_string_single_file("langs/en_US.json");
    let zh_tw = key_string_single_file("langs/zh_TW_extra_key.json");
    builder.add_json_file("en_US", "langs/en_US.json", None, en_us).unwrap();
    builder.add_json_file("zh_TW", "langs/zh_TW_extra_key.json", None, zh_tw).unwrap();
    let ctx = builder.build(true).unwrap();

    let map = ctx.get("zh_TW");
    assert_eq!("哈囉，世界！", map.get("hello").unwrap());
    assert_eq!(None, map.get("goodbye"));
}

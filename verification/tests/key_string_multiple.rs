use json_gettext::{JSONGetText, LocaleMap};

/// The text of a language file, by its path.
fn key_string_multiple_file(path: &str) -> &'static str {
    match path {
        "langs/en_US.json" => r#"{"hello": "Hello, world!", "rust": "Rust!"}"#,
        "langs/zh_TW.json" => r#"{"hello": "哈囉，世界！"}"#,
        _ => panic!("no such language file: {}", path),
    }
}

fn key_string_multiple_catalog() -> JSONGetText<'static> {
    let mut builder = JSONGetText::build("en_US");
    builder.add_json("en_US", key_string_multiple_file("langs/en_US.json")).unwrap();
    builder.add_json("zh_TW", key_string_multiple_file("langs/zh_TW.json")).unwrap();
    builder.build(false).unwrap()
}

#[test]
fn multiple_get() {
    let ctx = key_string_multiple_catalog();

    let map_en: LocaleMap = ctx.get_multiple_text_with_key("en_US", &["hello", "rust"]).unwrap();

    assert_eq!(&"Hello, world!", map_en.get("hello").unwrap());
    assert_eq!(&"Rust!", map_en.get("rust").unwrap());

    let map_de: LocaleMap = ctx.get_multiple_text_with_key("de", &["hello", "rust"]).unwrap();

    assert_eq!(&"Hello, world!", map_de.get("hello").unwrap());
    assert_eq!(&"Rust!", map_de.get("rust").unwrap());

    let map_zh: LocaleMap = ctx.get_multiple_text_with_key("zh_TW", &["hello", "rust"]).unwrap();

    assert_eq!(&"哈囉，世界！", map_zh.get("hello").unwrap());
    assert_eq!(&"Rust!", map_zh.get("rust").unwrap());
}

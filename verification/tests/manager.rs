use std::io::{Error, ErrorKind};

use json_gettext::{JSONGetTextBuildError, JSONGetTextManager, LoadedFile};

const EN: &str = r#"{"hello": "Hello, world!", "rust": "Rust!"}"#;
const ZH: &str = r#"{"hello": "哈囉，世界！"}"#;

fn loaded(key: &str, path: &str, modified: Option<u64>, contents: &str) -> LoadedFile {
    LoadedFile {
        key: key.to_string(),
        path: path.to_string(),
        modified,
        contents: contents.to_string(),
    }
}

fn two_files() -> JSONGetTextManager {
    JSONGetTextManager::from_files(
        "en_US",
        vec![
            loaded("en_US", "langs/en_US.json", Some(100), EN),
            loaded("zh_TW", "langs/zh_TW.json", Some(200), ZH),
        ],
    )
    .unwrap()
}

fn texts(en: &str, zh: &str) -> Vec<Result<String, Error>> {
    vec![Ok(en.to_string()), Ok(zh.to_string())]
}

#[test]
fn manager_serves_the_catalog_of_its_files() {
    let manager = two_files();
    assert!(!manager.reloading());
    assert_eq!(2, manager.file_count());
    assert_eq!("langs/zh_TW.json", manager.file(1).path);
    assert_eq!("zh_TW", manager.file(1).key);
    assert_eq!(Some(200), manager.file(1).modified);
    let ctx = manager.deref();
    assert_eq!("en_US", ctx.get_default_key());
    assert!(ctx.get_text("hello").unwrap().eq_str("Hello, world!"));
    assert!(ctx.get_text_with_key("zh_TW", "rust").unwrap().eq_str("Rust!"));
}

#[test]
fn unchanged_files_are_not_read_again() {
    let mut manager = two_files();
    let r = manager.reload_if_needed(
        vec![Ok(Some(100)), Ok(Some(150))],
        texts(r#"{"hello": "changed"}"#, "{}"),
    );
    assert!(r.is_ok());
    assert!(!manager.reloading());
    assert!(manager.deref().get_text("hello").unwrap().eq_str("Hello, world!"));
    assert_eq!(Some(100), manager.file(0).modified);
    assert_eq!(Some(200), manager.file(1).modified);
}

#[test]
fn later_modification_rebuilds_from_every_file() {
    let mut manager = two_files();
    let r = manager.reload_if_needed(
        vec![Ok(Some(100)), Ok(Some(201))],
        texts(r#"{"hello": "Hello again!", "new": "New"}"#, r#"{"hello": "哈囉"}"#),
    );
    assert!(r.is_ok());
    assert!(!manager.reloading());
    assert_eq!(Some(100), manager.file(0).modified);
    assert_eq!(Some(201), manager.file(1).modified);
    let ctx = manager.deref();
    assert!(ctx.get_text("hello").unwrap().eq_str("Hello again!"));
    assert!(ctx.get_text_with_key("zh_TW", "hello").unwrap().eq_str("哈囉"));
    assert!(ctx.get_text_with_key("zh_TW", "new").unwrap().eq_str("New"));
    assert!(ctx.get_text("rust").is_none());
}

#[test]
fn unknown_modification_time_always_reloads() {
    let mut manager = two_files();
    assert!(manager.begin_reload());
    assert_eq!(Ok(true), manager.check_files(vec![Ok(Some(100)), Ok(None)]).map_err(|_| ()));
    assert!(manager.reloading());
    assert_eq!(None, manager.file(1).modified);
    manager.finish_reload(texts(EN, ZH)).unwrap();
    assert!(manager.begin_reload());
    assert_eq!(Ok(true), manager.check_files(vec![Ok(Some(100)), Ok(Some(1))]).map_err(|_| ()));
    assert_eq!(Some(1), manager.file(1).modified);
    manager.finish_reload(texts(EN, ZH)).unwrap();
    assert!(manager.begin_reload());
    assert_eq!(Ok(false), manager.check_files(vec![Ok(Some(99)), Ok(Some(1))]).map_err(|_| ()));
    assert!(!manager.reloading());
    assert_eq!(Some(100), manager.file(0).modified);
}

#[test]
fn invalid_json_leaves_the_live_catalog_in_place() {
    let mut manager = two_files();
    let r = manager.reload_if_needed(
        vec![Ok(Some(101)), Ok(Some(200))],
        texts("{\"hello\": \"broken", ZH),
    );
    assert!(matches!(r, Err(JSONGetTextBuildError::SerdeJSONError(_))));
    assert!(!manager.reloading());
    let ctx = manager.deref();
    assert!(ctx.get_text("hello").unwrap().eq_str("Hello, world!"));
    assert!(ctx.get_text_with_key("zh_TW", "hello").unwrap().eq_str("哈囉，世界！"));
    assert!(manager.reload_if_needed(vec![Ok(Some(102)), Ok(Some(200))], texts(EN, ZH)).is_ok());
    assert!(manager.deref().get_text("rust").unwrap().eq_str("Rust!"));
}

#[test]
fn rebuild_errors_leave_the_live_catalog_in_place() {
    let mut manager = two_files();
    let r = manager.reload_if_needed(
        vec![Ok(Some(101)), Ok(Some(200))],
        texts(EN, r#"{"hello": "x", "extra": "y"}"#),
    );
    match r {
        Err(JSONGetTextBuildError::TextInKeyNotInDefaultKey { key, text }) => {
            assert_eq!("zh_TW", key.as_str());
            assert_eq!("extra", text);
        },
        other => panic!("unexpected result {:?}", other),
    }
    assert!(manager.deref().get_text_with_key("zh_TW", "hello").unwrap().eq_str("哈囉，世界！"));
    let r = manager.reload_if_needed(
        vec![Ok(Some(500)), Ok(Some(500))],
        vec![Ok(EN.to_string()), Err(Error::new(ErrorKind::PermissionDenied, "denied"))],
    );
    match r {
        Err(JSONGetTextBuildError::IOError(e)) => assert_eq!(ErrorKind::PermissionDenied, e.kind()),
        other => panic!("unexpected result {:?}", other),
    }
    assert!(!manager.reloading());
    assert!(manager.deref().get_text("hello").unwrap().eq_str("Hello, world!"));
}

#[test]
fn failed_look_ends_the_cycle_with_its_error() {
    let mut manager = two_files();
    let r = manager.reload_if_needed(
        vec![Ok(Some(300)), Err(Error::new(ErrorKind::NotFound, "gone"))],
        texts("{}", "{}"),
    );
    match r {
        Err(e @ JSONGetTextBuildError::IOError(_)) => assert!(e.to_string().contains("gone")),
        other => panic!("unexpected result {:?}", other),
    }
    assert!(!manager.reloading());
    assert_eq!(Some(300), manager.file(0).modified);
    assert_eq!(Some(200), manager.file(1).modified);
    assert!(manager.deref().get_text("hello").unwrap().eq_str("Hello, world!"));
}

#[test]
fn readers_during_a_cycle_see_the_empty_stand_in() {
    let mut manager = two_files();
    assert!(manager.begin_reload());
    assert!(manager.reloading());
    assert!(!manager.begin_reload());
    {
        let ctx = manager.deref();
        assert_eq!("en_US", ctx.get_default_key());
        assert_eq!(vec!["en_US"], ctx.get_keys());
        assert!(ctx.get_text("hello").is_none());
        assert_eq!(0, ctx.get("zh_TW").len());
    }
    let r = manager.reload_if_needed(vec![Ok(Some(900)), Ok(Some(900))], texts("{}", "{}"));
    assert!(r.is_ok());
    assert!(manager.reloading());
    assert_eq!(Some(100), manager.file(0).modified);
    assert_eq!(Ok(false), manager.check_files(vec![Ok(Some(100)), Ok(Some(200))]).map_err(|_| ()));
    assert!(!manager.reloading());
    assert!(manager.deref().get_text("hello").unwrap().eq_str("Hello, world!"));
}

#[test]
fn manager_from_files_reports_build_errors() {
    let r = JSONGetTextManager::from_files("en_US", vec![loaded("zh_TW", "zh.json", None, ZH)]);
    assert!(matches!(r, Err(JSONGetTextBuildError::DefaultKeyNotFound)));
    let r = JSONGetTextManager::from_files(
        "en_US",
        vec![loaded("en_US", "a.json", None, EN), loaded("en_US", "b.json", None, EN)],
    );
    assert!(matches!(r, Err(JSONGetTextBuildError::DuplicatedKey(_))));
    let r = JSONGetTextManager::from_files("en_US", vec![loaded("en_US", "a.json", None, "[]")]);
    assert!(matches!(r, Err(JSONGetTextBuildError::SerdeJSONError(_))));
    let r = JSONGetTextManager::from_files(
        "en_US",
        vec![loaded("en_US", "a.json", None, "{}"), loaded("zh_TW", "b.json", None, ZH)],
    );
    assert!(matches!(r, Err(JSONGetTextBuildError::TextInKeyNotInDefaultKey { .. })));
}

#[test]
fn manager_from_jsons_watches_no_file() {
    let mut manager =
        JSONGetTextManager::from_jsons("en_US", vec![("en_US", EN), ("zh_TW", ZH)]).unwrap();
    assert_eq!(0, manager.file_count());
    assert!(manager.deref().get_text_with_key("zh_TW", "hello").unwrap().eq_str("哈囉，世界！"));
    assert!(manager.reload_if_needed(vec![], vec![]).is_ok());
    assert!(manager.deref().get_text("rust").unwrap().eq_str("Rust!"));
    assert!(matches!(
        JSONGetTextManager::from_jsons("de", vec![("en_US", EN)]),
        Err(JSONGetTextBuildError::DefaultKeyNotFound)
    ));
}

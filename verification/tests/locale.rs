use i18n_hunt::error::I18nError;
use i18n_hunt::exclude::build_exclude_globset;
use i18n_hunt::locale::{
    derive_namespace, find_locales_base, flatten_into, is_json_file, resolve_locale_roots, should_load_locale,
    JsonValue, LocaleFile,
};

fn obj(members: Vec<(&str, JsonValue)>) -> JsonValue {
    JsonValue::Object(members.into_iter().map(|(k, v)| (k.to_string(), v)).collect())
}

fn text(s: &str) -> JsonValue {
    JsonValue::String(s.to_string())
}

#[test]
fn from_json_flattens_string_values_into_dotted_keys() {
    let json = obj(vec![
        ("auth", obj(vec![("login", obj(vec![("title", text("Log in")), ("count", JsonValue::Other)])), ("logout", text("Bye"))])),
        ("", text("root")),
        ("list", JsonValue::Other),
        ("a.b", text("x")),
        ("a", obj(vec![("b", text("y"))])),
    ]);
    let file = LocaleFile::from_json(&json, "locales/en/common.json", "locales").ok().expect("namespace should derive");
    assert_eq!(file.keys, vec!["auth.login.title", "auth.logout", "a.b"]);
    assert_eq!(file.namespace, "en/common");
    assert_eq!(file.path, "locales/en/common.json");
}

#[test]
fn from_json_of_a_bare_string_has_no_key() {
    let file = LocaleFile::from_json(&text("hello"), "locales/x.json", "locales").ok().expect("namespace should derive");
    assert!(file.keys.is_empty());
    assert_eq!(file.namespace, "x");
}

#[test]
fn from_json_outside_the_base_is_an_invalid_path() {
    match LocaleFile::from_json(&obj(vec![]), "elsewhere/x.json", "locales") {
        Err(I18nError::InvalidPath { path, message }) => {
            assert_eq!(path, "elsewhere/x.json");
            assert_eq!(message, "could not strip base prefix 'locales'");
        }
        Ok(_) => panic!("expected an invalid path"),
        Err(other) => panic!("unexpected error: {}", other.to_string()),
    }
}

#[test]
fn flatten_into_extends_the_path_in_the_buffer() {
    let mut buf: Vec<char> = "pre".chars().collect();
    let mut out: Vec<String> = vec!["pre.x".to_string()];
    flatten_into(&obj(vec![("x", text("1")), ("y", obj(vec![("z", text("2"))]))]), &mut buf, &mut out);
    assert_eq!(out, vec!["pre.x", "pre.y.z"]);
    assert_eq!(buf.iter().collect::<String>(), "pre");
}

#[test]
fn derive_namespace_strips_base_and_extension() {
    assert_eq!(derive_namespace("public/locales", "public/locales/en/auth/login.json").ok(), Some("en/auth/login".to_string()));
    assert_eq!(derive_namespace("base", "base/x\\y.json").ok(), Some("x/y".to_string()));
    assert_eq!(derive_namespace("base", "base/notes.txt").ok(), Some("notes.txt".to_string()));
    assert_eq!(derive_namespace("base", "base/a.json.json").ok(), Some("a.json".to_string()));
}

#[test]
fn derive_namespace_reports_a_file_outside_the_base() {
    match derive_namespace("other", "public/locales/a.json") {
        Err(I18nError::InvalidPath { path, message }) => {
            assert_eq!(path, "public/locales/a.json");
            assert_eq!(message, "could not strip base prefix 'other'");
        }
        Ok(ns) => panic!("expected an error, got {}", ns),
        Err(other) => panic!("unexpected error: {}", other.to_string()),
    }
}

#[test]
fn is_json_file_checks_the_extension() {
    assert!(is_json_file("a/b.json"));
    assert!(is_json_file("b.json"));
    assert!(!is_json_file("a/b.JSON"));
    assert!(!is_json_file("a/b.json.bak"));
    assert!(!is_json_file("a/.json"));
    assert!(!is_json_file("json"));
}

#[test]
fn find_locales_base_finds_the_nearest_locales_directory() {
    assert_eq!(find_locales_base("public/locales/en/common.json"), Some("public/locales".to_string()));
    assert_eq!(find_locales_base("a/locales/b/locales/c"), Some("a/locales/b/locales".to_string()));
    assert_eq!(find_locales_base("locales"), Some("locales".to_string()));
    assert_eq!(find_locales_base("translations/en"), None);
}

#[test]
fn resolve_locale_roots_for_a_file_and_a_directory() {
    assert_eq!(
        resolve_locale_roots("public/locales/en/common.json", true),
        (
            "public/locales/en".to_string(),
            "public/locales".to_string(),
            Some("public/locales/en/common.json".to_string())
        )
    );
    assert_eq!(
        resolve_locale_roots("public/locales/en", false),
        ("public/locales/en".to_string(), "public/locales".to_string(), None)
    );
    assert_eq!(
        resolve_locale_roots("translations/en", false),
        ("translations/en".to_string(), "translations/en".to_string(), None)
    );
    assert_eq!(resolve_locale_roots("/", true), (".".to_string(), ".".to_string(), Some("/".to_string())));
}

#[test]
fn should_load_locale_filters_by_file_exclusion_and_extension() {
    let excludes = build_exclude_globset(&vec!["Legacy/**".to_string()], "locales_exclude").ok().expect("valid patterns");
    assert!(should_load_locale("locales/en/a.json", "locales", &None, &excludes));
    assert!(!should_load_locale("locales/Legacy/a.json", "locales", &None, &excludes));
    assert!(!should_load_locale("locales/en/a.txt", "locales", &None, &excludes));
    let only = Some("locales/en/b.json".to_string());
    assert!(!should_load_locale("locales/en/a.json", "locales/en", &only, &excludes));
    assert!(should_load_locale("locales/en/b.json", "locales/en", &only, &excludes));
    assert!(should_load_locale("locales/en/./b.json", "locales/en", &only, &excludes));
}

#[test]
fn locale_from_text_parses_and_flattens() {
    let text = r#"{"b": {"y": "Y", "x": "X"}, "a": "A", "n": 3, "list": ["s"]}"#;
    let file = i18n_hunt::locale::locale_from_text(text, "locales/en/app.json", "locales").ok().expect("valid locale");
    assert_eq!(file.keys, vec!["a", "b.x", "b.y"]);
    assert_eq!(file.namespace, "en/app");
}

#[test]
fn locale_from_text_reports_invalid_json() {
    match i18n_hunt::locale::locale_from_text("{ not json", "locales/en/app.json", "locales") {
        Err(I18nError::Json(_)) => {}
        Ok(_) => panic!("expected a json error"),
        Err(other) => panic!("unexpected error: {}", other.to_string()),
    }
}

#[test]
fn json_document_keeps_strings_and_objects() {
    match i18n_hunt::json::json_document(r#"{"k": "v", "o": {}}"#) {
        Ok(JsonValue::Object(members)) => {
            assert_eq!(members.len(), 2);
            assert_eq!(members[0].0, "k");
            assert!(matches!(&members[0].1, JsonValue::String(s) if s == "v"));
            assert!(matches!(&members[1].1, JsonValue::Object(m) if m.is_empty()));
        }
        _ => panic!("expected an object"),
    }
    assert!(matches!(i18n_hunt::json::json_document("[1]"), Ok(JsonValue::Other)));
    assert!(i18n_hunt::json::json_document("").is_err());
}

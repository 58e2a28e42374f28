use i18n_hunt::error::I18nError;

#[test]
fn error_messages_name_their_kind() {
    assert_eq!(I18nError::Config("bad".to_string()).to_string(), "config error: bad");
    assert_eq!(I18nError::WalkDir("loop".to_string()).to_string(), "walkdir error: loop");
    assert_eq!(
        I18nError::InvalidPath { path: "a/b.json".to_string(), message: "m".to_string() }.to_string(),
        "invalid path 'a/b.json': m"
    );
    assert_eq!(
        I18nError::SourceParse { path: "x.ts".to_string(), message: "oops".to_string() }.to_string(),
        "failed to parse source file 'x.ts': oops"
    );
}

#[test]
fn io_errors_convert_and_describe() {
    let err: I18nError = std::io::Error::new(std::io::ErrorKind::NotFound, "gone").into();
    assert!(matches!(err, I18nError::Io(_)));
    assert_eq!(err.to_string(), "io error: gone");
}

#[test]
fn json_errors_convert_and_describe() {
    let parse: Result<serde_json::Value, serde_json::Error> = serde_json::from_str("{");
    let err: I18nError = parse.err().expect("invalid json").into();
    assert!(matches!(err, I18nError::Json(_)));
    assert!(err.to_string().starts_with("json error: "));
}

#[test]
fn walk_errors_keep_the_walk_description() {
    let walk = ignore::Error::UnrecognizedFileType("weird".to_string());
    match I18nError::from_walk(walk) {
        I18nError::WalkDir(message) => assert_eq!(message, "unrecognized file type: weird"),
        other => panic!("unexpected error: {}", other.to_string()),
    }
}

use i18n_hunt::cli::{config_file_path, config_parse_error, Args, FileConfig};
use i18n_hunt::error::I18nError;

fn some(s: &str) -> Option<String> {
    Some(s.to_string())
}

fn config_message(r: Result<i18n_hunt::cli::Config, I18nError>) -> String {
    match r {
        Err(I18nError::Config(message)) => message,
        Ok(_) => panic!("expected config error but got config"),
        Err(other) => panic!("expected config error, got: {}", other.to_string()),
    }
}

#[test]
fn into_config_reads_explicit_config_and_applies_excludes() {
    let args = Args { locales: None, src: None, config: some("i18n-hunt.toml") };
    let file_config = FileConfig {
        locales: some("."),
        src: some(".."),
        src_exclude: Some(vec!["**/*.spec.ts".to_string()]),
        locales_exclude: Some(vec!["Legacy/**".to_string()]),
    };

    let config = args.into_config(file_config).expect("config should parse");
    assert_eq!(config.locales, ".");
    assert_eq!(config.src, "..");
    assert_eq!(config.src_exclude, vec!["**/*.spec.ts"]);
    assert_eq!(config.locales_exclude, vec!["Legacy/**"]);
}

#[test]
fn into_config_returns_error_for_missing_inputs() {
    let args = Args { locales: None, src: None, config: None };

    match args.into_config(FileConfig::default()) {
        Err(I18nError::Config(message)) => assert!(message.contains("missing locales path")),
        Ok(_) => panic!("expected config error but got config"),
        Err(other) => panic!("expected config error, got: {}", other.to_string()),
    }
}

#[test]
fn into_config_rejects_a_locales_path_that_does_not_exist() {
    let args = Args { locales: some("no/such/locales/dir"), src: some("."), config: None };
    let message = config_message(args.into_config(FileConfig::default()));
    assert_eq!(message, "locales path must be a directory or file: 'no/such/locales/dir'");
}

#[test]
fn into_config_rejects_a_src_path_that_does_not_exist() {
    let args = Args { locales: some("."), src: some("no/such/src/dir"), config: None };
    let message = config_message(args.into_config(FileConfig::default()));
    assert_eq!(message, "src path must be a directory or file: 'no/such/src/dir'");
}

#[test]
fn into_config_without_excludes_gives_empty_lists() {
    let args = Args { locales: some("."), src: some("."), config: None };
    let config = args.into_config(FileConfig::default()).expect("config should settle");
    assert!(config.src_exclude.is_empty());
    assert!(config.locales_exclude.is_empty());
}

#[test]
fn settle_prefers_the_command_line_over_the_file() {
    let args = Args { locales: some("cli/locales"), src: some("cli/src"), config: None };
    let file_config = FileConfig {
        locales: some("file/locales"),
        src: some("file/src"),
        src_exclude: None,
        locales_exclude: Some(vec!["x/**".to_string()]),
    };
    let config = args.settle(file_config, true, true).expect("config should settle");
    assert_eq!(config.locales, "cli/locales");
    assert_eq!(config.src, "cli/src");
    assert!(config.src_exclude.is_empty());
    assert_eq!(config.locales_exclude, vec!["x/**"]);
}

#[test]
fn settle_takes_paths_from_the_file_when_the_command_line_has_none() {
    let args = Args { locales: None, src: None, config: None };
    let file_config = FileConfig { locales: some("f/l"), src: some("f/s"), src_exclude: None, locales_exclude: None };
    let config = args.settle(file_config, true, true).expect("config should settle");
    assert_eq!(config.locales, "f/l");
    assert_eq!(config.src, "f/s");
}

#[test]
fn settle_reports_each_error_in_turn() {
    let missing_src = Args { locales: some("l"), src: None, config: None };
    assert_eq!(
        config_message(missing_src.settle(FileConfig::default(), true, true)),
        "missing src path (use --src or i18n-hunt.toml)"
    );
    let bad_locales = Args { locales: some("l"), src: None, config: None };
    assert_eq!(
        config_message(bad_locales.settle(FileConfig::default(), false, true)),
        "locales path must be a directory or file: 'l'"
    );
    let bad_src = Args { locales: some("l"), src: some("s"), config: None };
    assert_eq!(
        config_message(bad_src.settle(FileConfig::default(), true, false)),
        "src path must be a directory or file: 's'"
    );
    let missing_locales = Args { locales: None, src: some("s"), config: None };
    assert_eq!(
        config_message(missing_locales.settle(FileConfig::default(), false, false)),
        "missing locales path (use --locales or i18n-hunt.toml)"
    );
}

#[test]
fn config_file_path_prefers_the_explicit_file() {
    assert_eq!(config_file_path(some("my.toml"), true), some("my.toml"));
    assert_eq!(config_file_path(some("my.toml"), false), some("my.toml"));
    assert_eq!(config_file_path(None, true), some("i18n-hunt.toml"));
    assert_eq!(config_file_path(None, false), None);
}

#[test]
fn config_parse_error_names_the_file() {
    match config_parse_error("conf/i18n-hunt.toml", "expected `=`") {
        I18nError::Config(message) => {
            assert_eq!(message, "failed to parse 'conf/i18n-hunt.toml': expected `=`")
        }
        other => panic!("unexpected error: {}", other.to_string()),
    }
}

use i18n_hunt::collector::classify_template_literal;
use i18n_hunt::error::I18nError;
use i18n_hunt::exclude::{build_exclude_globset, is_excluded, matches_relative};
use i18n_hunt::source::{
    collect_line_starts, is_supported_source_file, line_for_offset, resolve_walk_target, should_scan_source,
    source_parse_error, source_type_of, split_colon_namespace, UsageKind,
};
use i18n_hunt::syntax::Template;

fn pair(a: &str, b: &str) -> Option<(String, String)> {
    Some((a.to_string(), b.to_string()))
}

fn template(head: Option<&str>, has_expressions: bool) -> Template {
    Template { head: head.map(|h| h.to_string()), has_expressions }
}

fn kind_text(k: &UsageKind) -> String {
    match k {
        UsageKind::Static(s) => format!("static:{}", s),
        UsageKind::Prefix(p) => format!("prefix:{}", p),
        UsageKind::Dynamic => "dynamic".to_string(),
    }
}

#[test]
fn supported_source_files_are_ts_tsx_js_jsx() {
    assert!(is_supported_source_file("src/a.ts"));
    assert!(is_supported_source_file("src/a.tsx"));
    assert!(is_supported_source_file("src/a.js"));
    assert!(is_supported_source_file("src/a.jsx"));
    assert!(!is_supported_source_file("src/a.mjs"));
    assert!(!is_supported_source_file("src/a.json"));
    assert!(!is_supported_source_file("src/ts"));
}

#[test]
fn resolve_walk_target_of_a_file_walks_its_directory() {
    assert_eq!(resolve_walk_target("src/app/page.tsx", true), ("src/app".to_string(), Some("src/app/page.tsx".to_string())));
    assert_eq!(resolve_walk_target("src", false), ("src".to_string(), None));
    assert_eq!(resolve_walk_target("/", true), (".".to_string(), Some("/".to_string())));
}

#[test]
fn split_colon_namespace_splits_at_the_first_colon() {
    assert_eq!(split_colon_namespace("common:title"), pair("common", "title"));
    assert_eq!(split_colon_namespace("a:b:c"), pair("a", "b:c"));
    assert_eq!(split_colon_namespace(":title"), None);
    assert_eq!(split_colon_namespace("common:"), None);
    assert_eq!(split_colon_namespace("plain.key"), None);
    assert_eq!(split_colon_namespace(""), None);
}

#[test]
fn line_starts_follow_newlines() {
    assert_eq!(collect_line_starts("a\nbc\n"), vec![0, 2, 5]);
    assert_eq!(collect_line_starts(""), vec![0]);
    assert_eq!(collect_line_starts("é\nx"), vec![0, 3]);
}

#[test]
fn line_for_offset_counts_lines_from_one() {
    let starts = collect_line_starts("a\nbc\n");
    assert_eq!(line_for_offset(&starts, 0), 1);
    assert_eq!(line_for_offset(&starts, 1), 1);
    assert_eq!(line_for_offset(&starts, 2), 2);
    assert_eq!(line_for_offset(&starts, 4), 2);
    assert_eq!(line_for_offset(&starts, 5), 3);
    assert_eq!(line_for_offset(&starts, 100), 3);
    assert_eq!(line_for_offset(&vec![], 7), 1);
}

#[test]
fn classify_template_literal_by_leading_text() {
    assert_eq!(kind_text(&classify_template_literal(&template(Some("form.email"), false))), "static:form.email");
    assert_eq!(kind_text(&classify_template_literal(&template(Some("form."), true))), "prefix:form.");
    assert_eq!(kind_text(&classify_template_literal(&template(Some(""), true))), "dynamic");
    assert_eq!(kind_text(&classify_template_literal(&template(None, true))), "dynamic");
    assert_eq!(kind_text(&classify_template_literal(&template(None, false))), "static:");
}

#[test]
fn source_type_of_known_and_unknown_extensions() {
    assert!(source_type_of("src/a.ts").is_ok());
    assert!(source_type_of("src/a.mjs").is_ok());
    assert!(source_type_of("src/a.d.ts").is_ok());
    match source_type_of("src/a.txt") {
        Err(I18nError::SourceParse { path, message }) => {
            assert_eq!(path, "src/a.txt");
            assert_eq!(message, "failed to infer source type");
        }
        _ => panic!("expected a source parse error"),
    }
    assert!(source_type_of("src/noext").is_err());
}

#[test]
fn source_parse_error_joins_messages() {
    let messages = vec!["Unexpected token".to_string(), "Expected `;`".to_string()];
    match source_parse_error("src/a.ts", &messages) {
        I18nError::SourceParse { path, message } => {
            assert_eq!(path, "src/a.ts");
            assert_eq!(message, "Unexpected token, Expected `;`");
        }
        _ => panic!("expected a source parse error"),
    }
    match source_parse_error("b.ts", &vec![]) {
        I18nError::SourceParse { message, .. } => assert_eq!(message, ""),
        _ => panic!("expected a source parse error"),
    }
}

#[test]
fn exclusion_patterns_match_relative_to_the_root() {
    let set = build_exclude_globset(&vec!["**/*.spec.ts".to_string(), "legacy/**".to_string()], "src_exclude")
        .ok()
        .expect("valid patterns");
    assert!(is_excluded("src/a/b.spec.ts", "src", &set));
    assert!(is_excluded("src/legacy/x.ts", "src", &set));
    assert!(!is_excluded("src/a/b.ts", "src", &set));
    assert!(!is_excluded("other/legacy/x.ts", "src", &set));
    assert!(matches_relative("legacy\\x.ts", &set));
    assert!(!matches_relative("modern/x.ts", &set));
}

#[test]
fn exclusion_pattern_errors_name_the_setting() {
    match build_exclude_globset(&vec!["ok/**".to_string(), "a[".to_string()], "src_exclude") {
        Err(I18nError::Config(message)) => {
            assert_eq!(message, "invalid src_exclude pattern 'a[': error parsing glob 'a[': unclosed character class; missing ']'")
        }
        _ => panic!("expected a config error"),
    }
    match build_exclude_globset(&vec!["{".to_string()], "locales_exclude") {
        Err(I18nError::Config(message)) => assert!(message.starts_with("invalid locales_exclude pattern '{': ")),
        _ => panic!("expected a config error"),
    }
}

#[test]
fn should_scan_source_filters_by_file_extension_and_exclusion() {
    let set = build_exclude_globset(&vec!["**/*.spec.ts".to_string()], "src_exclude").ok().expect("valid patterns");
    assert!(should_scan_source("src/a.ts", "src", &None, &set));
    assert!(!should_scan_source("src/a.spec.ts", "src", &None, &set));
    assert!(!should_scan_source("src/a.css", "src", &None, &set));
    let only = Some("src/b.tsx".to_string());
    assert!(!should_scan_source("src/a.ts", "src", &only, &set));
    assert!(should_scan_source("src/b.tsx", "src", &only, &set));
}

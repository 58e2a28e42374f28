use i18n_hunt::analysis::{analyze, counts_fit, NamespaceAnalysis};
use i18n_hunt::locale::LocaleFile;
use i18n_hunt::source::{Usage, UsageKind};

fn strings(v: &[&str]) -> Vec<String> {
    v.iter().map(|s| s.to_string()).collect()
}

fn locale(namespace: &str, path: &str, keys: &[&str]) -> LocaleFile {
    LocaleFile { namespace: namespace.to_string(), path: path.to_string(), keys: strings(keys) }
}

fn usage(namespaces: &[&str], kind: UsageKind, line: usize) -> Usage {
    Usage { namespaces: strings(namespaces), kind, path: "src/app.tsx".to_string(), line }
}

fn unused_list(locales: &Vec<LocaleFile>, usages: &Vec<Usage>) -> Vec<String> {
    analyze(locales, usages)
        .unused_keys
        .iter()
        .map(|k| format!("{}|{}|{}", k.namespace, k.key, k.path))
        .collect()
}

#[test]
fn analyze_reports_keys_no_usage_covers() {
    let locales = vec![
        locale("common", "locales/en/common.json", &["form.email", "form.name", "legacy.old", "title"]),
        locale("auth", "locales/en/auth.json", &["login.title", "login.button", "logout"]),
    ];
    let usages = vec![
        usage(&["common"], UsageKind::Static("form.email".to_string()), 3),
        usage(&["other"], UsageKind::Prefix("form.".to_string()), 4),
        usage(&["common"], UsageKind::Dynamic, 5),
        usage(&["common", "auth"], UsageKind::Static("title".to_string()), 6),
        usage(&["auth"], UsageKind::Prefix("login.".to_string()), 7),
    ];
    assert_eq!(
        unused_list(&locales, &usages),
        vec![
            "common|form.name|locales/en/common.json",
            "common|legacy.old|locales/en/common.json",
            "auth|logout|locales/en/auth.json",
        ]
    );
    let result = analyze(&locales, &usages);
    assert_eq!(result.total_keys, 7);
    assert_eq!(result.used_count(), 4);
    assert_eq!(result.dynamic_usages.len(), 1);
    assert_eq!(result.dynamic_usages[0].line, 5);
    assert_eq!(result.dynamic_usages[0].namespaces, vec!["common"]);
}

#[test]
fn analyze_without_usages_reports_every_key() {
    let locales = vec![locale("ns", "ns.json", &["a", "b"])];
    let usages: Vec<Usage> = vec![];
    assert_eq!(unused_list(&locales, &usages), vec!["ns|a|ns.json", "ns|b|ns.json"]);
    let result = analyze(&locales, &usages);
    assert_eq!(result.used_count(), 0);
    assert!(result.dynamic_usages.is_empty());
}

#[test]
fn analyze_of_a_usage_in_another_namespace_protects_nothing() {
    let locales = vec![locale("a", "a.json", &["k"])];
    let usages = vec![usage(&["b"], UsageKind::Static("k".to_string()), 1)];
    assert_eq!(unused_list(&locales, &usages), vec!["a|k|a.json"]);
}

#[test]
fn analyze_dynamic_usage_changes_no_verdict() {
    let locales = vec![locale("ns", "ns.json", &["a", "b.c"])];
    let before = vec![usage(&["ns"], UsageKind::Static("a".to_string()), 1)];
    let mut after = vec![usage(&["ns"], UsageKind::Static("a".to_string()), 1)];
    after.push(usage(&["ns"], UsageKind::Dynamic, 2));
    assert_eq!(unused_list(&locales, &before), unused_list(&locales, &after));
    assert_eq!(unused_list(&locales, &after), vec!["ns|b.c|ns.json"]);
}

#[test]
fn analyze_more_usages_never_report_more_keys() {
    let locales = vec![locale("ns", "ns.json", &["a", "b.c", "b.d"])];
    let fewer = vec![usage(&["ns"], UsageKind::Static("a".to_string()), 1)];
    let more = vec![
        usage(&["ns"], UsageKind::Static("a".to_string()), 1),
        usage(&["ns"], UsageKind::Prefix("b.".to_string()), 2),
    ];
    let with_fewer = unused_list(&locales, &fewer);
    let with_more = unused_list(&locales, &more);
    assert_eq!(with_fewer, vec!["ns|b.c|ns.json", "ns|b.d|ns.json"]);
    assert!(with_more.is_empty());
    assert!(with_more.iter().all(|k| with_fewer.contains(k)));
}

#[test]
fn used_count_never_goes_below_zero() {
    let locales = vec![locale("ns", "ns.json", &["a"])];
    let usages: Vec<Usage> = vec![];
    let mut result = analyze(&locales, &usages);
    result.total_keys = 0;
    assert_eq!(result.used_count(), 0);
}

#[test]
fn namespace_analysis_protects_static_keys_and_prefixes() {
    let mut facts = NamespaceAnalysis::new();
    assert!(!facts.protects_key("a"));
    facts.record_usage(&UsageKind::Static("a".to_string()));
    facts.record_usage(&UsageKind::Prefix("b.".to_string()));
    facts.record_usage(&UsageKind::Dynamic);
    assert!(facts.protects_key("a"));
    assert!(facts.protects_key("b.c"));
    assert!(facts.protects_key("b."));
    assert!(!facts.protects_key("b"));
    assert!(!facts.protects_key("a.b"));
    assert!(!facts.protects_key("c"));
}

#[test]
fn counts_fit_for_ordinary_inputs() {
    let locales = vec![locale("ns", "ns.json", &["a", "b"])];
    let usages = vec![usage(&["ns", "other"], UsageKind::Dynamic, 1)];
    assert!(counts_fit(&locales, &usages));
    assert!(counts_fit(&vec![], &vec![]));
}

#[test]
fn analyze_usages_among_others_in_any_order_cover_no_more() {
    let locales = vec![locale("ns", "ns.json", &["a", "b", "c"])];
    let fewer = vec![usage(&["ns"], UsageKind::Static("b".to_string()), 1)];
    let more = vec![
        usage(&["ns"], UsageKind::Static("c".to_string()), 2),
        usage(&["ns"], UsageKind::Static("b".to_string()), 1),
    ];
    let with_fewer = unused_list(&locales, &fewer);
    let with_more = unused_list(&locales, &more);
    assert_eq!(with_more, vec!["ns|a|ns.json"]);
    assert!(with_more.iter().all(|k| with_fewer.contains(k)));
}

#[test]
fn analyze_usage_without_namespace_covers_nothing() {
    let locales = vec![locale("ns", "ns.json", &["a"])];
    let usages = vec![usage(&[], UsageKind::Static("a".to_string()), 1)];
    assert_eq!(unused_list(&locales, &usages), vec!["ns|a|ns.json"]);
}

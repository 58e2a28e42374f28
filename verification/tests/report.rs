use i18n_hunt::analysis::{AnalysisResult, UnusedKey};
use i18n_hunt::report::{report_lines, Tone};
use i18n_hunt::source::{Usage, UsageKind};

fn shown(result: &AnalysisResult) -> Vec<String> {
    report_lines(result)
        .into_iter()
        .map(|l| {
            let tone = match l.tone {
                Tone::Plain => "",
                Tone::Summary => "summary:",
                Tone::Unused => "unused:",
                Tone::Dynamic => "dynamic:",
                Tone::Success => "success:",
            };
            format!("{}{}", tone, l.text)
        })
        .collect()
}

#[test]
fn report_of_nothing_found_prints_the_success_message() {
    let result = AnalysisResult { unused_keys: vec![], total_keys: 3, dynamic_usages: vec![] };
    assert_eq!(
        shown(&result),
        vec![
            "summary:Summary",
            "  Used keys:          3",
            "  Unused keys:        0",
            "  Dynamic usages:     0",
            "",
            "success:No unused keys or dynamic usages found.",
        ]
    );
}

#[test]
fn report_lists_unused_keys_and_dynamic_usages() {
    let result = AnalysisResult {
        unused_keys: vec![UnusedKey {
            namespace: "Auth/Login".to_string(),
            key: "legacy.oldLoginMessage".to_string(),
            path: "locales/en/Auth/Login.json".to_string(),
        }],
        total_keys: 123456,
        dynamic_usages: vec![
            Usage { namespaces: vec![], kind: UsageKind::Dynamic, path: "src/a.ts".to_string(), line: 12 },
            Usage {
                namespaces: vec!["a".to_string(), "b".to_string()],
                kind: UsageKind::Dynamic,
                path: "src/b.tsx".to_string(),
                line: 7,
            },
        ],
    };
    assert_eq!(
        shown(&result),
        vec![
            "summary:Summary",
            "  Used keys:      123455",
            "  Unused keys:        1",
            "  Dynamic usages:     2",
            "",
            "unused:Unused keys",
            "  [Auth/Login] -> legacy.oldLoginMessage",
            "",
            "dynamic:Dynamic usages",
            "  src/a.ts:12 -> (no namespace)",
            "  src/b.tsx:7 -> [a, b]",
        ]
    );
}

#[test]
fn report_without_unused_keys_shows_only_dynamic_usages() {
    let result = AnalysisResult {
        unused_keys: vec![],
        total_keys: 0,
        dynamic_usages: vec![Usage { namespaces: vec!["n".to_string()], kind: UsageKind::Dynamic, path: "x.js".to_string(), line: 1 }],
    };
    let lines = shown(&result);
    assert_eq!(lines[4..].to_vec(), vec!["", "dynamic:Dynamic usages", "  x.js:1 -> [n]"]);
}

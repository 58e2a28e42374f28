use i18n_hunt::inferred::InferredValue;
use i18n_hunt::source::UsageKind;

fn describe(kinds: &[UsageKind]) -> Vec<String> {
    kinds
        .iter()
        .map(|k| match k {
            UsageKind::Static(s) => format!("static:{}", s),
            UsageKind::Prefix(p) => format!("prefix:{}", p),
            UsageKind::Dynamic => "dynamic".to_string(),
        })
        .collect()
}

fn of_static(s: &str) -> InferredValue {
    InferredValue::from_usage_kind(UsageKind::Static(s.to_string()))
}

fn of_prefix(s: &str) -> InferredValue {
    InferredValue::from_usage_kind(UsageKind::Prefix(s.to_string()))
}

#[test]
fn from_usage_kind_round_trips_each_kind() {
    assert_eq!(describe(&of_static("a.b").into_usage_kinds()), vec!["static:a.b"]);
    assert_eq!(describe(&of_prefix("a.").into_usage_kinds()), vec!["prefix:a."]);
    assert_eq!(
        describe(&InferredValue::from_usage_kind(UsageKind::Dynamic).into_usage_kinds()),
        vec!["dynamic"]
    );
}

#[test]
fn merge_keeps_keys_ordered_and_unique() {
    let mut v = of_static("b");
    v.merge(of_static("a"));
    v.merge(of_static("b"));
    v.merge(of_prefix("z."));
    v.merge(of_prefix("m."));
    assert_eq!(v.statics(), &vec!["a".to_string(), "b".to_string()]);
    assert!(!v.is_dynamic());
    assert_eq!(describe(&v.into_usage_kinds()), vec!["static:a", "static:b", "prefix:m.", "prefix:z."]);
}

#[test]
fn merge_is_commutative_on_values() {
    let mut left = of_static("x");
    left.merge(of_prefix("p."));
    let mut right = of_prefix("p.");
    right.merge(of_static("x"));
    assert_eq!(describe(&left.into_usage_kinds()), describe(&right.into_usage_kinds()));
}

#[test]
fn merge_with_dynamic_adds_a_dynamic_usage() {
    let mut v = of_static("k");
    v.merge(InferredValue::dynamic());
    assert!(v.is_dynamic());
    assert_eq!(describe(&v.into_usage_kinds()), vec!["static:k", "dynamic"]);
}

#[test]
fn empty_value_stands_for_a_dynamic_usage() {
    let v = InferredValue::empty();
    assert!(v.statics_empty());
    assert!(v.prefixes_empty());
    assert!(!v.is_dynamic());
    assert_eq!(describe(&v.into_usage_kinds()), vec!["dynamic"]);
}

#[test]
fn merge_with_empty_changes_nothing() {
    let mut v = of_prefix("q.");
    v.merge(InferredValue::empty());
    assert_eq!(describe(&v.into_usage_kinds()), vec!["prefix:q."]);
}

#[test]
fn default_value_is_the_empty_value() {
    let v = InferredValue::default();
    assert!(v.statics_empty() && v.prefixes_empty() && !v.is_dynamic());
    assert_eq!(describe(&v.into_usage_kinds()), vec!["dynamic"]);
}

use i18n_hunt::collector::{extract_namespaces, file_usages};
use i18n_hunt::source::{Usage, UsageKind};
use i18n_hunt::syntax::{
    Arg, ArrayElement, CallSite, Declarator, Event, Expr, FunctionDecl, JsxAttr, JsxOpening, JsxValue, LogicalOp,
    ObjectItem, PropKey, Property, SourceFile, Stmt, Template, VarDecl,
};

fn s(x: &str) -> String {
    x.to_string()
}

fn ident(x: &str) -> Expr {
    Expr::Ident(s(x))
}

fn lit(x: &str) -> Expr {
    Expr::Str(s(x))
}

fn call(callee: Expr, args: Vec<Expr>, start: u32) -> Event {
    Event::CallStart(CallSite { callee, args: args.into_iter().map(Arg::Expr).collect(), start })
}

fn use_translation(ns: &str) -> Vec<Event> {
    vec![call(ident("useTranslation"), vec![lit(ns)], 0), Event::CallEnd]
}

fn t(arg: Expr, start: u32) -> Vec<Event> {
    vec![call(ident("t"), vec![arg], start), Event::CallEnd]
}

fn const_decl(name: &str, init: Expr) -> Event {
    Event::Declaration(VarDecl { is_const: true, declarators: vec![Declarator { binding: Some(s(name)), init: Some(init) }] })
}

fn describe(u: &Usage) -> String {
    let kind = match &u.kind {
        UsageKind::Static(k) => format!("static:{}", k),
        UsageKind::Prefix(p) => format!("prefix:{}", p),
        UsageKind::Dynamic => "dynamic".to_string(),
    };
    format!("{}|{}|{}|{}", u.namespaces.join(","), kind, u.path, u.line)
}

fn scan(functions: Vec<FunctionDecl>, events: Vec<Vec<Event>>, text: &str) -> Vec<String> {
    let file = SourceFile { functions, events: events.into_iter().flatten().collect() };
    file_usages(&file, s("app.ts"), text).iter().map(describe).collect()
}

#[test]
fn scan_static_key_in_the_translation_namespace() {
    let text = "useTranslation('common')\nt('form.email')\n";
    let usages = scan(vec![], vec![use_translation("common"), t(lit("form.email"), 25)], text);
    assert_eq!(usages, vec!["common|static:form.email|app.ts|2"]);
}

#[test]
fn scan_key_with_namespace_prefix() {
    let usages = scan(vec![], vec![use_translation("common"), t(lit("auth:title"), 0)], "");
    assert_eq!(usages, vec!["auth|static:title|app.ts|1"]);
}

#[test]
fn scan_template_with_expressions_is_a_prefix() {
    let tpl = Expr::Template(Template { head: Some(s("form.")), has_expressions: true });
    let usages = scan(vec![], vec![use_translation("common"), t(tpl, 0)], "");
    assert_eq!(usages, vec!["common|prefix:form.|app.ts|1"]);
}

#[test]
fn scan_unknown_name_is_dynamic() {
    let usages = scan(vec![], vec![use_translation("common"), t(ident("key"), 0)], "");
    assert_eq!(usages, vec!["common|dynamic|app.ts|1"]);
}

#[test]
fn scan_const_binding_resolves_to_its_value() {
    let usages = scan(vec![], vec![vec![const_decl("k", lit("a.b"))], t(ident("k"), 0)], "");
    assert_eq!(usages, vec!["|static:a.b|app.ts|1"]);
}

#[test]
fn scan_ns_option_overrides_the_namespace() {
    let options = Expr::Object(vec![ObjectItem::Property(Property {
        key: PropKey::Static(s("ns")),
        value: lit("other"),
        computed: false,
        method: false,
    })]);
    let events = vec![use_translation("common"), vec![call(ident("t"), vec![lit("x"), options], 0), Event::CallEnd]];
    assert_eq!(scan(vec![], events, ""), vec!["other|static:x|app.ts|1"]);
}

#[test]
fn scan_trans_element_with_key_and_namespace() {
    let element = JsxOpening {
        name: Some(s("Trans")),
        attributes: vec![
            JsxAttr::Attribute(Some(s("i18nKey")), Some(JsxValue::Str(s("hello")))),
            JsxAttr::Attribute(Some(s("ns")), Some(JsxValue::Str(s("greet")))),
        ],
        start: 3,
    };
    let usages = scan(vec![], vec![vec![Event::JsxOpen(element)]], "ab\ncd");
    assert_eq!(usages, vec!["greet|static:hello|app.ts|2"]);
}

#[test]
fn scan_call_of_a_function_uses_what_it_returns() {
    let label = FunctionDecl { name: Some(s("label")), body: Some(vec![Stmt::Return(Some(lit("menu.open")))]) };
    let usages = scan(vec![label], vec![t(Expr::Call(Box::new(ident("label")), vec![]), 0)], "");
    assert_eq!(usages, vec!["|static:menu.open|app.ts|1"]);
}

#[test]
fn scan_iteration_binds_the_callback_parameter() {
    let array = Expr::Array(vec![ArrayElement::Str(s("b")), ArrayElement::Str(s("a"))]);
    let events = vec![
        use_translation("ns"),
        vec![
            call(Expr::Member(Box::new(array), s("forEach")), vec![Expr::Function(Some(s("k")))], 0),
            Event::EnterScope,
        ],
        t(ident("k"), 0),
        vec![Event::ExitScope, Event::CallEnd],
        t(ident("k"), 0),
    ];
    assert_eq!(scan(vec![], events, ""), vec!["ns|static:a|app.ts|1", "ns|static:b|app.ts|1", "ns|dynamic|app.ts|1"]);
}

#[test]
fn scan_bindings_end_with_their_block() {
    let events = vec![vec![Event::EnterScope, const_decl("k", lit("inner")), Event::ExitScope], t(ident("k"), 0)];
    assert_eq!(scan(vec![], events, ""), vec!["|dynamic|app.ts|1"]);
}

#[test]
fn scan_server_translator_carries_its_namespace() {
    let get = Expr::Await(Box::new(Expr::Call(Box::new(ident("getServerTranslate")), vec![Arg::Expr(lit("srv"))])));
    let events = vec![vec![const_decl("tr", get)], vec![call(ident("tr"), vec![lit("x")], 0), Event::CallEnd]];
    assert_eq!(scan(vec![], events, ""), vec!["srv|static:x|app.ts|1"]);
}

#[test]
fn scan_i18next_t_member_call() {
    let callee = Expr::Member(Box::new(ident("i18next")), s("t"));
    let events = vec![use_translation("c"), vec![call(callee, vec![lit("k")], 0), Event::CallEnd]];
    assert_eq!(scan(vec![], events, ""), vec!["c|static:k|app.ts|1"]);
}

#[test]
fn scan_const_map_lookups() {
    let map = Expr::Object(vec![
        ObjectItem::Property(Property { key: PropKey::Static(s("a")), value: lit("x.a"), computed: false, method: false }),
        ObjectItem::Property(Property { key: PropKey::Static(s("b")), value: lit("x.b"), computed: false, method: false }),
    ]);
    let events = vec![
        vec![const_decl("M", map)],
        t(Expr::Member(Box::new(ident("M")), s("a")), 0),
        t(Expr::Computed(Box::new(ident("M")), Box::new(ident("unknown"))), 0),
        t(Expr::Member(Box::new(ident("M")), s("missing")), 0),
    ];
    assert_eq!(
        scan(vec![], events, ""),
        vec!["|static:x.a|app.ts|1", "|static:x.a|app.ts|1", "|static:x.b|app.ts|1", "|dynamic|app.ts|1", "|dynamic|app.ts|1"]
    );
}

#[test]
fn scan_conditional_and_logical_arguments() {
    let events = vec![
        t(Expr::Conditional(Box::new(lit("b")), Box::new(lit("a"))), 0),
        t(Expr::Logical(LogicalOp::Or, Box::new(ident("x")), Box::new(lit("c"))), 0),
        t(Expr::Logical(LogicalOp::And, Box::new(ident("x")), Box::new(lit("d"))), 0),
    ];
    assert_eq!(
        scan(vec![], events, ""),
        vec!["|static:a|app.ts|1", "|static:b|app.ts|1", "|static:c|app.ts|1", "|dynamic|app.ts|1", "|dynamic|app.ts|1"]
    );
}

#[test]
fn scan_t_without_arguments_records_nothing() {
    let events = vec![use_translation("c"), vec![call(ident("t"), vec![], 0), Event::CallEnd]];
    assert!(scan(vec![], events, "").is_empty());
}

#[test]
fn extract_namespaces_from_literals_only() {
    let list = CallSite {
        callee: ident("useTranslation"),
        args: vec![Arg::Expr(Expr::Array(vec![ArrayElement::Str(s("a")), ArrayElement::Other, ArrayElement::Str(s("b"))]))],
        start: 0,
    };
    assert_eq!(extract_namespaces(&list), vec!["a", "b"]);
    let dynamic = CallSite { callee: ident("useTranslation"), args: vec![Arg::Expr(ident("ns"))], start: 0 };
    assert!(extract_namespaces(&dynamic).is_empty());
    let none = CallSite { callee: ident("useTranslation"), args: vec![], start: 0 };
    assert!(extract_namespaces(&none).is_empty());
}

fn scan_text(path: &str, text: &str) -> Vec<String> {
    i18n_hunt::collector::source_usages(path, text).ok().expect("source should parse").iter().map(describe).collect()
}

#[test]
fn source_usages_of_a_component() {
    let text = "import { useTranslation } from 'react-i18next';\n\
function Form() {\n\
  const { t } = useTranslation('common');\n\
  const field = 'email';\n\
  return <div title={t('form.title')}>{t(`form.${field}`)}<Trans i18nKey=\"auth:welcome\" /></div>;\n\
}\n";
    assert_eq!(
        scan_text("src/Form.tsx", text),
        vec!["common|static:form.title|src/Form.tsx|5", "common|prefix:form.|src/Form.tsx|5", "auth|static:welcome|src/Form.tsx|5"]
    );
}

#[test]
fn source_usages_follow_constants_and_functions() {
    let text = "function label(x) { if (x) { return 'menu.open'; } return 'menu.close'; }\n\
const KEYS = { a: 'k.a', b: 'k.b' };\n\
i18next.t(label(1));\n\
['x', 'y'].forEach((k) => t(k));\n\
t(KEYS.b, { ns: 'other' });\n";
    assert_eq!(
        scan_text("src/util.js", text),
        vec![
            "|static:menu.close|src/util.js|3",
            "|static:menu.open|src/util.js|3",
            "|static:x|src/util.js|4",
            "|static:y|src/util.js|4",
            "other|static:k.b|src/util.js|5",
        ]
    );
}

#[test]
fn source_usages_report_parse_errors_and_unknown_types() {
    match i18n_hunt::collector::source_usages("src/bad.ts", "const = ;") {
        Err(i18n_hunt::error::I18nError::SourceParse { path, message }) => {
            assert_eq!(path, "src/bad.ts");
            assert!(!message.is_empty());
        }
        _ => panic!("expected a parse error"),
    }
    match i18n_hunt::collector::source_usages("notes.txt", "t('a')") {
        Err(i18n_hunt::error::I18nError::SourceParse { message, .. }) => assert_eq!(message, "failed to infer source type"),
        _ => panic!("expected a source type error"),
    }
}

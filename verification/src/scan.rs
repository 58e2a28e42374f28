//! What the usage scan of one source file computes, stated over plain
//! values: the state the walk carries, how each expression's possible key
//! values follow from that state, and how each traversal event changes it.
use vstd::prelude::*;
use crate::inferred::{iv_dynamic, iv_empty, iv_merge, iv_of_kind, kinds_of, InferredView};
use crate::source::{spec_line_of, spec_split_colon, KeyUse, UsageView};
use crate::syntax::{Arg, ArrayElement, CallSite, Declarator, Event, Expr, JsxAttr, JsxOpening, JsxValue, LogicalOp, ObjectItem, PropKey, Property, Template, VarDecl};

verus! {

/// The state of the scan of one file.
pub struct ScanState {
    /// Namespaces named by the last `useTranslation(...)` call.
    pub namespaces: Seq<Seq<char>>,
    /// Usages recorded so far.
    pub usages: Seq<UsageView>,
    /// Values returned by the file's top-level functions.
    pub functions: Map<Seq<char>, InferredView>,
    /// Constant bindings, one map per open scope, innermost last.
    pub scopes: Seq<Map<Seq<char>, InferredView>>,
    /// Names bound to a server-side translator, with its namespace.
    pub translators: Seq<Map<Seq<char>, Seq<char>>>,
    /// Constant object literals, by name, as maps from key to value.
    pub maps: Seq<Map<Seq<char>, Map<Seq<char>, InferredView>>>,
    /// For each call the walk is inside, whether it opened a scope.
    pub frames: Seq<bool>,
    /// The file being scanned.
    pub path: Seq<char>,
    /// Byte offsets where its lines start.
    pub line_starts: Seq<usize>,
}

/// The state before the walk starts.
pub open spec fn initial_state(
    functions: Map<Seq<char>, InferredView>,
    path: Seq<char>,
    line_starts: Seq<usize>,
) -> ScanState {
    ScanState {
        namespaces: Seq::empty(),
        usages: Seq::empty(),
        functions,
        scopes: seq![Map::empty()],
        translators: seq![Map::empty()],
        maps: seq![Map::empty()],
        frames: Seq::empty(),
        path,
        line_starts,
    }
}

/// The innermost binding of `k` in a stack of scopes.
pub open spec fn resolve<V>(stack: Seq<Map<Seq<char>, V>>, k: Seq<char>) -> Option<V>
    decreases stack.len(),
{
    if stack.len() == 0 {
        None
    } else if stack.last().dom().contains(k) {
        Some(stack.last()[k])
    } else {
        resolve(stack.drop_last(), k)
    }
}

/// Binds `k` in the innermost scope of a stack, if there is one.
pub open spec fn bind<V>(stack: Seq<Map<Seq<char>, V>>, k: Seq<char>, v: V) -> Seq<Map<Seq<char>, V>> {
    if stack.len() == 0 {
        stack
    } else {
        stack.update(stack.len() - 1, stack.last().insert(k, v))
    }
}

/// Drops the innermost scope of a stack, if there is one.
pub open spec fn drop_scope<V>(stack: Seq<Map<Seq<char>, V>>) -> Seq<Map<Seq<char>, V>> {
    if stack.len() == 0 {
        stack
    } else {
        stack.drop_last()
    }
}

/// Opens a scope.
pub open spec fn push_scope(s: ScanState) -> ScanState {
    ScanState {
        scopes: s.scopes.push(Map::empty()),
        translators: s.translators.push(Map::empty()),
        maps: s.maps.push(Map::empty()),
        ..s
    }
}

/// Closes the innermost scope.
pub open spec fn pop_scope(s: ScanState) -> ScanState {
    ScanState {
        scopes: drop_scope(s.scopes),
        translators: drop_scope(s.translators),
        maps: drop_scope(s.maps),
        ..s
    }
}

/// The text of a template literal's first part, or the empty text.
pub open spec fn head_or_empty(t: Template) -> Seq<char> {
    match t.head {
        Some(h) => h@,
        None => Seq::empty(),
    }
}

/// The text of a template literal's first part.
pub open spec fn head_text(t: Template) -> Option<Seq<char>> {
    match t.head {
        Some(h) => Some(h@),
        None => None,
    }
}

/// A template without expressions is an exact key; one with expressions
/// and a non-empty leading text is a prefix; otherwise it is dynamic.
pub open spec fn template_kind(t: Template) -> KeyUse {
    if !t.has_expressions {
        KeyUse::Static(head_or_empty(t))
    } else if head_or_empty(t).len() == 0 {
        KeyUse::Dynamic
    } else {
        KeyUse::Prefix(head_or_empty(t))
    }
}

/// The exact key an array element stands for, if it is a literal.
pub open spec fn array_element_key(e: ArrayElement) -> Option<Seq<char>> {
    match e {
        ArrayElement::Str(s) => Some(s@),
        ArrayElement::Template(t) => if !t.has_expressions {
            Some(head_or_empty(t))
        } else {
            None
        },
        ArrayElement::Other => None,
    }
}

/// The literal keys of the elements, and whether some element is not a
/// literal.
pub open spec fn array_elements_value(elems: Seq<ArrayElement>) -> InferredView
    decreases elems.len(),
{
    if elems.len() == 0 {
        iv_empty()
    } else {
        let v = array_elements_value(elems.drop_last());
        match array_element_key(elems.last()) {
            Some(k) => InferredView { statics: v.statics.insert(k), ..v },
            None => InferredView { dynamic: true, ..v },
        }
    }
}

/// The value of an array literal: its literal keys, dynamic when some
/// element is not a literal or when there is no element at all.
pub open spec fn spec_infer_array(elems: Seq<ArrayElement>) -> InferredView {
    let v = array_elements_value(elems);
    if v.statics.is_empty() && !v.dynamic {
        iv_dynamic()
    } else {
        v
    }
}

/// The union of the values that `m` gives to the keys in `keys`, dynamic
/// when some key is missing from `m`.
pub open spec fn lookup_value(m: Map<Seq<char>, InferredView>, keys: Set<Seq<char>>) -> InferredView {
    InferredView {
        statics: Set::new(
            |x: Seq<char>| exists|k: Seq<char>| #[trigger] keys.contains(k) && m.dom().contains(k) && m[k].statics.contains(x),
        ),
        prefixes: Set::new(
            |x: Seq<char>| exists|k: Seq<char>| #[trigger] keys.contains(k) && m.dom().contains(k) && m[k].prefixes.contains(x),
        ),
        dynamic: exists|k: Seq<char>| #[trigger] keys.contains(k) && (!m.dom().contains(k) || m[k].dynamic),
    }
}

/// Looking up no key gives the empty value.
pub proof fn lemma_lookup_empty(m: Map<Seq<char>, InferredView>)
    ensures
        lookup_value(m, Set::empty()) == iv_empty(),
{
    assert(lookup_value(m, Set::empty()) =~= iv_empty());
}

/// Looking up one more key adds that key's value, or makes the result
/// dynamic when the key is missing.
pub proof fn lemma_lookup_insert(m: Map<Seq<char>, InferredView>, keys: Set<Seq<char>>, k: Seq<char>)
    ensures
        lookup_value(m, keys.insert(k)) == (if m.dom().contains(k) {
            iv_merge(lookup_value(m, keys), m[k])
        } else {
            InferredView { dynamic: true, ..lookup_value(m, keys) }
        }),
{
    let a = lookup_value(m, keys.insert(k));
    let b = lookup_value(m, keys);
    if m.dom().contains(k) {
        let c = iv_merge(b, m[k]);
        assert forall|x: Seq<char>| a.statics.contains(x) <==> c.statics.contains(x) by {
            if a.statics.contains(x) {
                let j = choose|j: Seq<char>| #[trigger] keys.insert(k).contains(j) && m.dom().contains(j) && m[j].statics.contains(x);
                if j != k {
                    assert(keys.contains(j));
                }
            }
            if c.statics.contains(x) && !m[k].statics.contains(x) {
                let j = choose|j: Seq<char>| #[trigger] keys.contains(j) && m.dom().contains(j) && m[j].statics.contains(x);
                assert(keys.insert(k).contains(j));
            }
            if m[k].statics.contains(x) {
                assert(keys.insert(k).contains(k));
            }
        }
        assert forall|x: Seq<char>| a.prefixes.contains(x) <==> c.prefixes.contains(x) by {
            if a.prefixes.contains(x) {
                let j = choose|j: Seq<char>| #[trigger] keys.insert(k).contains(j) && m.dom().contains(j) && m[j].prefixes.contains(x);
                if j != k {
                    assert(keys.contains(j));
                }
            }
            if c.prefixes.contains(x) && !m[k].prefixes.contains(x) {
                let j = choose|j: Seq<char>| #[trigger] keys.contains(j) && m.dom().contains(j) && m[j].prefixes.contains(x);
                assert(keys.insert(k).contains(j));
            }
            if m[k].prefixes.contains(x) {
                assert(keys.insert(k).contains(k));
            }
        }
        if a.dynamic {
            let j = choose|j: Seq<char>| #[trigger] keys.insert(k).contains(j) && (!m.dom().contains(j) || m[j].dynamic);
            if j != k {
                assert(keys.contains(j));
            }
        }
        if b.dynamic {
            let j = choose|j: Seq<char>| #[trigger] keys.contains(j) && (!m.dom().contains(j) || m[j].dynamic);
            assert(keys.insert(k).contains(j));
        }
        if m[k].dynamic {
            assert(keys.insert(k).contains(k));
        }
        assert(a =~= c);
    } else {
        let c = InferredView { dynamic: true, ..b };
        assert forall|x: Seq<char>| a.statics.contains(x) <==> c.statics.contains(x) by {
            if a.statics.contains(x) {
                let j = choose|j: Seq<char>| #[trigger] keys.insert(k).contains(j) && m.dom().contains(j) && m[j].statics.contains(x);
                assert(keys.contains(j));
            }
            if c.statics.contains(x) {
                let j = choose|j: Seq<char>| #[trigger] keys.contains(j) && m.dom().contains(j) && m[j].statics.contains(x);
                assert(keys.insert(k).contains(j));
            }
        }
        assert forall|x: Seq<char>| a.prefixes.contains(x) <==> c.prefixes.contains(x) by {
            if a.prefixes.contains(x) {
                let j = choose|j: Seq<char>| #[trigger] keys.insert(k).contains(j) && m.dom().contains(j) && m[j].prefixes.contains(x);
                assert(keys.contains(j));
            }
            if c.prefixes.contains(x) {
                let j = choose|j: Seq<char>| #[trigger] keys.contains(j) && m.dom().contains(j) && m[j].prefixes.contains(x);
                assert(keys.insert(k).contains(j));
            }
        }
        assert(keys.insert(k).contains(k));
        assert(a =~= c);
    }
}

/// The value of `map[index]` for a constant map: the values of the exact
/// keys the index may take; every value of the map, and dynamic, when the
/// index may be anything or takes no exact key.
pub open spec fn spec_computed(m: Map<Seq<char>, InferredView>, index: InferredView) -> InferredView {
    let keyed = lookup_value(m, index.statics);
    if index.dynamic || index.statics.is_empty() {
        InferredView { dynamic: true, ..iv_merge(keyed, lookup_value(m, m.dom())) }
    } else {
        keyed
    }
}

/// The possible key values of an expression in state `s`.
pub open spec fn spec_infer(s: ScanState, e: Expr) -> InferredView
    decreases e,
{
    match e {
        Expr::Str(v) => iv_of_kind(KeyUse::Static(v@)),
        Expr::Template(t) => iv_of_kind(template_kind(t)),
        Expr::Array(el) => spec_infer_array(el@),
        Expr::Ident(n) => match resolve(s.scopes, n@) {
            Some(v) => v,
            None => iv_dynamic(),
        },
        Expr::Computed(o, p) => match *o {
            Expr::Ident(n) => match resolve(s.maps, n@) {
                Some(m) => spec_computed(m, spec_infer(s, *p)),
                None => iv_dynamic(),
            },
            _ => iv_dynamic(),
        },
        Expr::Member(o, name) => match *o {
            Expr::Ident(n) => match resolve(s.maps, n@) {
                Some(m) => if m.dom().contains(name@) {
                    m[name@]
                } else {
                    iv_dynamic()
                },
                None => iv_dynamic(),
            },
            _ => iv_dynamic(),
        },
        Expr::Call(c, _) => match *c {
            Expr::Ident(n) => if s.functions.dom().contains(n@) {
                s.functions[n@]
            } else {
                iv_dynamic()
            },
            _ => iv_dynamic(),
        },
        Expr::Conditional(a, b) => iv_merge(spec_infer(s, *a), spec_infer(s, *b)),
        Expr::Logical(op, l, r) => match op {
            LogicalOp::And => iv_dynamic(),
            _ => iv_merge(spec_infer(s, *l), spec_infer(s, *r)),
        },
        Expr::TsWrapper(x) => spec_infer(s, *x),
        _ => iv_dynamic(),
    }
}

/// The possible key values of a call argument: as for an expression,
/// except that a TypeScript wrapper or a spread is dynamic.
pub open spec fn spec_infer_arg(s: ScanState, a: Arg) -> InferredView {
    match a {
        Arg::Expr(e) => match e {
            Expr::TsWrapper(_) => iv_dynamic(),
            _ => spec_infer(s, e),
        },
        Arg::Spread => iv_dynamic(),
    }
}

/// The text of a literal that a namespace option may hold.
pub open spec fn literal_text(e: Expr) -> Option<Seq<char>> {
    match e {
        Expr::Str(v) => Some(v@),
        Expr::Template(t) => if !t.has_expressions {
            Some(head_or_empty(t))
        } else {
            None
        },
        _ => None,
    }
}

/// Whether a property key is `ns`.
pub open spec fn key_is_ns(k: PropKey) -> bool {
    match k {
        PropKey::Static(n) => n@ == "ns"@,
        PropKey::Expr(b) => match *b {
            Expr::Str(v) => v@ == "ns"@,
            _ => false,
        },
        PropKey::Private => false,
    }
}

/// The value of the first plain `ns` property, if it is a literal.
pub open spec fn ns_in_items(items: Seq<ObjectItem>) -> Option<Seq<char>>
    decreases items.len(),
{
    if items.len() == 0 {
        None
    } else {
        match items[0] {
            ObjectItem::Property(p) => if !p.computed && !p.method && key_is_ns(p.key) {
                literal_text(p.value)
            } else {
                ns_in_items(items.drop_first())
            },
            ObjectItem::Spread => ns_in_items(items.drop_first()),
        }
    }
}

/// The namespace an options argument `{ ns: "..." }` selects.
pub open spec fn spec_ns_override(a: Arg) -> Option<Seq<char>> {
    match a {
        Arg::Expr(Expr::Object(items)) => ns_in_items(items@),
        _ => None,
    }
}

/// A usage of file `s.path` at `line`.
pub open spec fn usage_at(s: ScanState, namespaces: Seq<Seq<char>>, kind: KeyUse, line: int) -> UsageView {
    UsageView { namespaces, kind, path: s.path, line }
}

/// The usage recorded for `kind`: a `ns:key` key names its own namespace,
/// otherwise an override namespace applies, otherwise the namespaces in
/// scope.
pub open spec fn resolved_usage(s: ScanState, kind: KeyUse, ns: Option<Seq<char>>, line: int) -> UsageView {
    match kind {
        KeyUse::Static(key) => match spec_split_colon(key) {
            Some((n, raw)) => usage_at(s, seq![n], KeyUse::Static(raw), line),
            None => match ns {
                Some(o) => usage_at(s, seq![o], KeyUse::Static(key), line),
                None => usage_at(s, s.namespaces, KeyUse::Static(key), line),
            },
        },
        KeyUse::Prefix(prefix) => match spec_split_colon(prefix) {
            Some((n, raw)) => usage_at(s, seq![n], KeyUse::Prefix(raw), line),
            None => match ns {
                Some(o) => usage_at(s, seq![o], KeyUse::Prefix(prefix), line),
                None => usage_at(s, s.namespaces, KeyUse::Prefix(prefix), line),
            },
        },
        KeyUse::Dynamic => match ns {
            Some(o) => usage_at(s, seq![o], KeyUse::Dynamic, line),
            None => usage_at(s, s.namespaces, KeyUse::Dynamic, line),
        },
    }
}

/// Records the usages of a translation call: one per kind its first
/// argument stands for.
pub open spec fn spec_t_call(s: ScanState, call: CallSite, base: Option<Seq<char>>) -> ScanState {
    if call.args@.len() == 0 {
        s
    } else {
        let ns = match (if call.args@.len() > 1 {
            spec_ns_override(call.args@[1])
        } else {
            None
        }) {
            Some(o) => Some(o),
            None => base,
        };
        let line = spec_line_of(s.line_starts, call.start as int);
        let kinds = kinds_of(spec_infer_arg(s, call.args@[0]));
        ScanState { usages: s.usages + kinds.map_values(|k: KeyUse| resolved_usage(s, k, ns, line)), ..s }
    }
}

/// The string literal elements of an array literal, in order.
pub open spec fn string_elements(el: Seq<ArrayElement>) -> Seq<Seq<char>>
    decreases el.len(),
{
    if el.len() == 0 {
        Seq::empty()
    } else {
        let rest = string_elements(el.drop_last());
        match el.last() {
            ArrayElement::Str(v) => rest.push(v@),
            _ => rest,
        }
    }
}

/// The namespaces a `useTranslation(...)` call names: a string, or the
/// strings of an array; none for anything else.
pub open spec fn spec_namespaces(call: CallSite) -> Seq<Seq<char>> {
    if call.args@.len() == 0 {
        Seq::empty()
    } else {
        match call.args@[0] {
            Arg::Expr(Expr::Str(v)) => seq![v@],
            Arg::Expr(Expr::Array(el)) => string_elements(el@),
            _ => Seq::empty(),
        }
    }
}

/// The expression under any TypeScript wrappers.
pub open spec fn strip_ts(e: Expr) -> Expr
    decreases e,
{
    match e {
        Expr::TsWrapper(x) => strip_ts(*x),
        _ => e,
    }
}

/// The values an iterated expression yields: those of an array literal, or
/// those bound to a name.
pub open spec fn spec_iter_values(s: ScanState, e: Expr) -> Option<InferredView> {
    match strip_ts(e) {
        Expr::Array(el) => Some(spec_infer_array(el@)),
        Expr::Ident(n) => resolve(s.scopes, n@),
        _ => None,
    }
}

/// For `xs.map(x => ...)` or `xs.forEach(x => ...)`, the callback's
/// parameter and the values it takes.
pub open spec fn iterator_binding(s: ScanState, call: CallSite) -> Option<(Seq<char>, InferredView)> {
    match call.callee {
        Expr::Member(obj, method) => if method@ == "map"@ || method@ == "forEach"@ {
            match spec_iter_values(s, *obj) {
                Some(v) => if call.args@.len() > 0 {
                    match call.args@[0] {
                        Arg::Expr(Expr::Function(Some(p))) => Some((p@, v)),
                        _ => None,
                    }
                } else {
                    None
                },
                None => None,
            }
        } else {
            None
        },
        _ => None,
    }
}

/// Binds a constant in the innermost scope.
pub open spec fn bind_local(s: ScanState, k: Seq<char>, v: InferredView) -> ScanState {
    ScanState { scopes: bind(s.scopes, k, v), ..s }
}

/// How a call that is not an iteration changes the state.
pub open spec fn handle_call(s: ScanState, call: CallSite) -> ScanState {
    match call.callee {
        Expr::Ident(n) => if n@ == "useTranslation"@ {
            ScanState { namespaces: spec_namespaces(call), ..s }
        } else if n@ == "t"@ {
            spec_t_call(s, call, resolve(s.translators, "t"@))
        } else {
            match resolve(s.translators, n@) {
                Some(ns) => spec_t_call(s, call, Some(ns)),
                None => s,
            }
        },
        Expr::Member(obj, prop) => if prop@ == "t"@ && (match *obj {
            Expr::Ident(o) => o@ == "i18next"@,
            _ => false,
        }) {
            spec_t_call(s, call, None)
        } else {
            s
        },
        _ => s,
    }
}

/// The namespace of a `getServerTranslate("...")` call, possibly awaited.
pub open spec fn server_namespace(e: Expr) -> Option<Seq<char>>
    decreases e,
{
    match e {
        Expr::Call(c, args) => match *c {
            Expr::Ident(n) => if n@ == "getServerTranslate"@ && args@.len() > 0 {
                match args@[0] {
                    Arg::Expr(Expr::Str(v)) => Some(v@),
                    Arg::Expr(Expr::Template(t)) => if !t.has_expressions {
                        head_text(t)
                    } else {
                        None
                    },
                    _ => None,
                }
            } else {
                None
            },
            _ => None,
        },
        Expr::Await(x) => server_namespace(*x),
        _ => None,
    }
}

/// Records the translator bindings of a declaration, in order.
pub open spec fn track_translators(s: ScanState, ds: Seq<Declarator>) -> ScanState
    decreases ds.len(),
{
    if ds.len() == 0 {
        s
    } else {
        let s1 = track_translators(s, ds.drop_last());
        let d = ds.last();
        match (d.init, d.binding) {
            (Some(e), Some(name)) => match server_namespace(e) {
                Some(ns) => ScanState { translators: bind(s1.translators, name@, ns), ..s1 },
                None => s1,
            },
            _ => s1,
        }
    }
}

/// The text of a property key that is not written in brackets.
pub open spec fn key_text(k: PropKey) -> Option<Seq<char>> {
    match k {
        PropKey::Static(n) => Some(n@),
        PropKey::Expr(b) => match *b {
            Expr::Str(v) => Some(v@),
            Expr::Template(t) => if !t.has_expressions {
                head_text(t)
            } else {
                None
            },
            _ => None,
        },
        PropKey::Private => None,
    }
}

/// The keys a property defines.
pub open spec fn property_keys(s: ScanState, p: Property) -> Set<Seq<char>> {
    if !p.computed {
        match key_text(p.key) {
            Some(k) => set![k],
            None => Set::empty(),
        }
    } else {
        match p.key {
            PropKey::Expr(b) => spec_infer(s, *b).statics,
            _ => Set::empty(),
        }
    }
}

/// `m` with every key of `keys` set to `v`.
pub open spec fn set_keys(
    m: Map<Seq<char>, InferredView>,
    keys: Set<Seq<char>>,
    v: InferredView,
) -> Map<Seq<char>, InferredView> {
    Map::new(
        |k: Seq<char>| m.dom().contains(k) || keys.contains(k),
        |k: Seq<char>| if keys.contains(k) {
            v
        } else {
            m[k]
        },
    )
}

/// The map an object literal describes: each non-method property's keys
/// mapped to its value, later properties replacing earlier ones.
pub open spec fn object_map(s: ScanState, items: Seq<ObjectItem>) -> Map<Seq<char>, InferredView>
    decreases items.len(),
{
    if items.len() == 0 {
        Map::empty()
    } else {
        let m = object_map(s, items.drop_last());
        match items.last() {
            ObjectItem::Property(p) => if p.method {
                m
            } else {
                set_keys(m, property_keys(s, p), spec_infer(s, p.value))
            },
            ObjectItem::Spread => m,
        }
    }
}

/// Records the constant object literals of a `const` declaration, in order.
pub open spec fn track_maps(s: ScanState, ds: Seq<Declarator>) -> ScanState
    decreases ds.len(),
{
    if ds.len() == 0 {
        s
    } else {
        let s1 = track_maps(s, ds.drop_last());
        let d = ds.last();
        match (d.init, d.binding) {
            (Some(e), Some(name)) => match strip_ts(e) {
                Expr::Object(items) => {
                    let m = object_map(s1, items@);
                    if m.dom().is_empty() {
                        s1
                    } else {
                        ScanState { maps: bind(s1.maps, name@, m), ..s1 }
                    }
                },
                _ => s1,
            },
            _ => s1,
        }
    }
}

/// Records the constant bindings of a `const` declaration, in order.
pub open spec fn track_consts(s: ScanState, ds: Seq<Declarator>) -> ScanState
    decreases ds.len(),
{
    if ds.len() == 0 {
        s
    } else {
        let s1 = track_consts(s, ds.drop_last());
        let d = ds.last();
        match (d.init, d.binding) {
            (Some(e), Some(name)) => bind_local(s1, name@, spec_infer(s1, e)),
            _ => s1,
        }
    }
}

/// How a variable declaration changes the state.
pub open spec fn spec_declaration(s: ScanState, d: VarDecl) -> ScanState {
    let s1 = track_translators(s, d.declarators@);
    if d.is_const {
        track_consts(track_maps(s1, d.declarators@), d.declarators@)
    } else {
        s1
    }
}

/// The text of a JSX attribute value, when it is a literal.
pub open spec fn jsx_value_text(v: JsxValue) -> Option<Seq<char>> {
    match v {
        JsxValue::Str(x) => Some(x@),
        JsxValue::Expr(e) => match e {
            Expr::Str(x) => Some(x@),
            Expr::Template(t) => if !t.has_expressions {
                head_text(t)
            } else {
                None
            },
            _ => None,
        },
        JsxValue::Other => None,
    }
}

/// The literal text of the first attribute named `name`.
pub open spec fn jsx_attr_text(attrs: Seq<JsxAttr>, name: Seq<char>) -> Option<Seq<char>>
    decreases attrs.len(),
{
    if attrs.len() == 0 {
        None
    } else {
        match attrs[0] {
            JsxAttr::Attribute(Some(n), v) => if n@ == name {
                match v {
                    Some(val) => jsx_value_text(val),
                    None => None,
                }
            } else {
                jsx_attr_text(attrs.drop_first(), name)
            },
            _ => jsx_attr_text(attrs.drop_first(), name),
        }
    }
}

/// How a JSX opening element changes the state: a `<Trans i18nKey="...">`
/// element records a usage of its key.
pub open spec fn spec_jsx(s: ScanState, el: JsxOpening) -> ScanState {
    if el.name matches Some(n) && n@ == "Trans"@ {
        match jsx_attr_text(el.attributes@, "i18nKey"@) {
            Some(k) => ScanState {
                usages: s.usages.push(
                    resolved_usage(
                        s,
                        KeyUse::Static(k),
                        jsx_attr_text(el.attributes@, "ns"@),
                        spec_line_of(s.line_starts, el.start as int),
                    ),
                ),
                ..s
            },
            None => s,
        }
    } else {
        s
    }
}

/// How one event changes the state.
pub open spec fn spec_step(s: ScanState, e: Event) -> ScanState {
    match e {
        Event::EnterScope => push_scope(s),
        Event::ExitScope => pop_scope(s),
        Event::Declaration(d) => spec_declaration(s, d),
        Event::CallStart(call) => match iterator_binding(s, call) {
            Some((p, v)) => {
                let s1 = bind_local(push_scope(s), p, v);
                ScanState { frames: s1.frames.push(true), ..s1 }
            },
            None => {
                let s1 = handle_call(s, call);
                ScanState { frames: s1.frames.push(false), ..s1 }
            },
        },
        Event::CallEnd => if s.frames.len() == 0 {
            s
        } else {
            let s1 = ScanState { frames: s.frames.drop_last(), ..s };
            if s.frames.last() {
                pop_scope(s1)
            } else {
                s1
            }
        },
        Event::JsxOpen(el) => spec_jsx(s, el),
    }
}

/// The state after a sequence of events.
pub open spec fn spec_run(s: ScanState, events: Seq<Event>) -> ScanState
    decreases events.len(),
{
    if events.len() == 0 {
        s
    } else {
        spec_step(spec_run(s, events.drop_last()), events.last())
    }
}

/// A name bound in the innermost scope resolves to the value bound, and
/// binding it leaves every other name resolving as before.
pub proof fn law_bind_then_resolve<V>(stack: Seq<Map<Seq<char>, V>>, k: Seq<char>, v: V, other: Seq<char>)
    requires
        stack.len() > 0,
    ensures
        resolve(bind(stack, k, v), k) == Some(v),
        other != k ==> resolve(bind(stack, k, v), other) == resolve(stack, other),
{
    let b = bind(stack, k, v);
    assert(b.last() == stack.last().insert(k, v));
    assert(b.drop_last() =~= stack.drop_last());
}

/// Closing a scope that was just opened gives back the state before it was
/// opened.
pub proof fn law_pop_undoes_push(s: ScanState)
    ensures
        pop_scope(push_scope(s)) == s,
{
    assert(s.scopes.push(Map::empty()).drop_last() =~= s.scopes);
    assert(s.translators.push(Map::empty()).drop_last() =~= s.translators);
    assert(s.maps.push(Map::empty()).drop_last() =~= s.maps);
}

/// A binding made inside a scope is gone once the scope closes: names then
/// resolve as they did before the scope was opened.
pub proof fn law_scope_bindings_end_with_scope<V>(stack: Seq<Map<Seq<char>, V>>, k: Seq<char>, v: V, name: Seq<char>)
    ensures
        resolve(drop_scope(bind(stack.push(Map::empty()), k, v)), name) == resolve(stack, name),
{
    let inner = stack.push(Map::<Seq<char>, V>::empty());
    let b = bind(inner, k, v);
    assert(b.drop_last() =~= stack);
}

/// A binding in an inner scope hides one of the same name further out.
pub proof fn law_inner_binding_shadows<V>(stack: Seq<Map<Seq<char>, V>>, k: Seq<char>, outer: V, inner: V)
    requires
        stack.len() > 0,
    ensures
        resolve(bind(bind(stack, k, outer).push(Map::empty()), k, inner), k) == Some(inner),
{
    let s = bind(stack, k, outer).push(Map::<Seq<char>, V>::empty());
    assert(bind(s, k, inner).last() == Map::<Seq<char>, V>::empty().insert(k, inner));
}

/// The scan's constant bindings follow the scopes: a bound name resolves
/// to its value; bound again in a scope opened after, it resolves to the
/// new value; once that scope closes, to the first value again.
pub proof fn law_scan_bindings_shadow_and_restore(s: ScanState, n: Seq<char>, v: InferredView, w: InferredView)
    requires
        s.scopes.len() > 0,
    ensures
        resolve(bind_local(s, n, v).scopes, n) == Some(v),
        resolve(bind_local(push_scope(bind_local(s, n, v)), n, w).scopes, n) == Some(w),
        resolve(pop_scope(bind_local(push_scope(bind_local(s, n, v)), n, w)).scopes, n) == Some(v),
{
    let s1 = bind_local(s, n, v);
    law_bind_then_resolve(s.scopes, n, v, n);
    let s2 = push_scope(s1);
    law_bind_then_resolve(s2.scopes, n, w, n);
    law_scope_bindings_end_with_scope(s1.scopes, n, w, n);
}

/// Every literal key of an array literal is among the keys of its value.
proof fn lemma_array_keys(elems: Seq<ArrayElement>)
    ensures
        forall|i: int|
            0 <= i < elems.len() && (#[trigger] array_element_key(elems[i])) is Some ==> array_elements_value(elems).statics.contains(
                array_element_key(elems[i])->0,
            ),
    decreases elems.len(),
{
    if elems.len() > 0 {
        let d = elems.drop_last();
        lemma_array_keys(d);
        assert forall|i: int|
            0 <= i < elems.len() && (#[trigger] array_element_key(elems[i])) is Some implies array_elements_value(elems).statics.contains(
                array_element_key(elems[i])->0,
            ) by {
            if i < d.len() {
                assert(elems[i] == d[i]);
                assert(array_element_key(d[i]) is Some);
            }
        }
    }
}

/// Iterating over an array literal with `map` or `forEach` and a callback
/// whose first parameter is a plain name opens a scope in which that name
/// stands for the array's keys: each string literal of the array is among
/// its values. The call itself records no usage.
pub proof fn law_iteration_binds_callback_parameter(
    s: ScanState,
    call: CallSite,
    elems: Vec<ArrayElement>,
    method: String,
    param: String,
)
    requires
        method@ == "map"@ || method@ == "forEach"@,
        call.callee == Expr::Member(Box::new(Expr::Array(elems)), method),
        call.args@.len() > 0,
        call.args@[0] == Arg::Expr(Expr::Function(Some(param))),
    ensures
        spec_step(s, Event::CallStart(call)).usages == s.usages,
        resolve(spec_step(s, Event::CallStart(call)).scopes, param@) matches Some(v) && forall|i: int|
            0 <= i < elems@.len() ==> (#[trigger] elems@[i] matches ArrayElement::Str(k) ==> v.statics.contains(k@)),
{
    let v = spec_infer_array(elems@);
    assert(iterator_binding(s, call) == Some((param@, v)));
    let s1 = bind_local(push_scope(s), param@, v);
    law_bind_then_resolve(push_scope(s).scopes, param@, v, param@);
    lemma_array_keys(elems@);
    assert forall|i: int| 0 <= i < elems@.len() implies (#[trigger] elems@[i] matches ArrayElement::Str(k) ==> v.statics.contains(k@)) by {
        if let ArrayElement::Str(k) = elems@[i] {
            assert(array_element_key(elems@[i]) == Some(k@));
            assert(array_elements_value(elems@).statics.contains(k@));
        }
    }
}

/// A translator bound by `const name = getServerTranslate(ns)`, awaited or
/// not, is bound to `ns` afterwards, whatever the name, `t` included.
pub proof fn law_server_translator_is_bound(s: ScanState, decl: VarDecl, name: String, init: Expr, callee: String, args: Vec<Arg>, ns: String)
    requires
        s.translators.len() > 0,
        decl.declarators@.len() == 1,
        decl.declarators@[0] == (Declarator { binding: Some(name), init: Some(init) }),
        callee@ == "getServerTranslate"@,
        args@.len() > 0,
        args@[0] == Arg::Expr(Expr::Str(ns)),
        init == Expr::Call(Box::new(Expr::Ident(callee)), args) || init == Expr::Await(
            Box::new(Expr::Call(Box::new(Expr::Ident(callee)), args)),
        ),
    ensures
        resolve(spec_step(s, Event::Declaration(decl)).translators, name@) == Some(ns@),
{
    let ds = decl.declarators@;
    assert(ds.drop_last() =~= Seq::<Declarator>::empty());
    assert(ds.last() == decl.declarators@[0]);
    let inner = Expr::Call(Box::new(Expr::Ident(callee)), args);
    assert(server_namespace(inner) == Some(ns@));
    if init != inner {
        assert(server_namespace(init) == server_namespace(inner));
    }
    assert(track_translators(s, ds.drop_last()) == s);
    let s1 = track_translators(s, ds);
    assert(s1.translators == bind(s.translators, name@, ns@));
    law_bind_then_resolve(s.translators, name@, ns@, name@);
    assert(track_maps(s1, ds.drop_last()) == s1);
    assert(strip_ts(init) == init);
    let s2 = track_maps(s1, ds);
    assert(s2.translators == s1.translators);
    assert(track_consts(s2, ds.drop_last()) == s2);
    assert(track_consts(s2, ds).translators == s1.translators);
}

/// A call of a name bound to a translator, with one plain key and no `ns`
/// option, records one usage of that key in the translator's namespace,
/// whatever the name, `t` included.
pub proof fn law_translator_call_uses_its_namespace(s: ScanState, call: CallSite, name: String, key: String, ns: Seq<char>)
    requires
        resolve(s.translators, name@) == Some(ns),
        name@ != "useTranslation"@,
        call.callee == Expr::Ident(name),
        call.args@ == seq![Arg::Expr(Expr::Str(key))],
        !key@.contains(':'),
    ensures
        spec_step(s, Event::CallStart(call)).usages == s.usages.push(
            UsageView {
                namespaces: seq![ns],
                kind: KeyUse::Static(key@),
                path: s.path,
                line: spec_line_of(s.line_starts, call.start as int),
            },
        ),
{
    assert(iterator_binding(s, call) is None);
    crate::source::law_split_colon_rejoins(key@);
    crate::inferred::law_kind_round_trip(KeyUse::Static(key@));
    assert(spec_infer_arg(s, call.args@[0]) == iv_of_kind(KeyUse::Static(key@)));
    let line = spec_line_of(s.line_starts, call.start as int);
    let kinds = kinds_of(iv_of_kind(KeyUse::Static(key@)));
    assert(kinds == seq![KeyUse::Static(key@)]);
    let u = UsageView { namespaces: seq![ns], kind: KeyUse::Static(key@), path: s.path, line };
    assert(resolved_usage(s, KeyUse::Static(key@), Some(ns), line) == u);
    assert(kinds.map_values(|k: KeyUse| resolved_usage(s, k, Some(ns), line)) =~= seq![u]);
    assert(spec_t_call(s, call, Some(ns)).usages =~= s.usages.push(u));
}

} // verus!

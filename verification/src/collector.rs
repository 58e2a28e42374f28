//! The usage scan of one source file: it walks the file's events and
//! records every translation usage it meets, following `scan`.
use vstd::prelude::*;
use crate::inferred::{iv_dynamic, iv_merge, iv_of_kind, kinds_of, InferredValue, InferredView};
use crate::scan::{
    array_element_key, array_elements_value, bind, bind_local, drop_scope, head_or_empty, initial_state,
    lemma_lookup_empty, lemma_lookup_insert, lookup_value, pop_scope, push_scope, resolve, spec_computed,
    spec_infer, spec_infer_arg, spec_infer_array, strip_ts, template_kind, usage_at, ScanState,
    resolved_usage, spec_t_call, spec_ns_override, ns_in_items, key_is_ns, literal_text, spec_namespaces,
    string_elements, spec_iter_values, iterator_binding, handle_call, server_namespace, head_text,
    track_translators, track_maps, track_consts, object_map, property_keys, key_text, set_keys,
    spec_declaration, spec_jsx, jsx_attr_text, jsx_value_text, spec_step, spec_run,
};
use crate::syntax::{
    Arg, ArrayElement, CallSite, Declarator, Event, Expr, JsxAttr, JsxOpening, JsxValue, LogicalOp, ObjectItem,
    PropKey, Property, SourceFile, Template, VarDecl,
};
use crate::table::{keys_of, lemma_to_map_dom, lemma_to_map_index, to_map};
use crate::source::{
    collect_line_starts, increasing, line_for_offset, spec_line_of, spec_line_starts, split_colon_namespace,
    usage_views, KeyUse, Usage, UsageKind, UsageView,
};
use crate::strings::{copy_strings, strs};
use crate::error::I18nError;
use crate::parser::{parse_source, spec_parsed_source};
use crate::paths::{spec_path_extension, spec_path_file_name};
use crate::source::{is_parser_extension, join, source_parse_error, source_type_of};

use crate::table::Table;
use crate::functions::{infer_function_values, spec_function_values};
use crate::text::{opt_view, owned, str_eq};
use vstd::string::StringSliceAdditionalSpecFns;

verus! {

broadcast use vstd::string::group_string_axioms;

/// The views of the values of a map.
pub open spec fn iv_map(m: Map<Seq<char>, InferredValue>) -> Map<Seq<char>, InferredView> {
    m.map_values(|v: InferredValue| v@)
}

/// The views of a stack of value scopes.
pub open spec fn value_scopes(s: Seq<Table<InferredValue>>) -> Seq<Map<Seq<char>, InferredView>> {
    s.map_values(|t: Table<InferredValue>| iv_map(t.contents()))
}

/// The views of a stack of translator scopes.
pub open spec fn translator_scopes(s: Seq<Table<String>>) -> Seq<Map<Seq<char>, Seq<char>>> {
    s.map_values(|t: Table<String>| t.contents().map_values(|v: String| v@))
}

/// The view of a constant map.
pub open spec fn const_map(t: Table<InferredValue>) -> Map<Seq<char>, InferredView> {
    iv_map(t.contents())
}

/// The views of a stack of constant-map scopes.
pub open spec fn map_scopes(s: Seq<Table<Table<InferredValue>>>) -> Seq<
    Map<Seq<char>, Map<Seq<char>, InferredView>>,
> {
    s.map_values(|t: Table<Table<InferredValue>>| t.contents().map_values(|m: Table<InferredValue>| const_map(m)))
}

/// The optional view of an optional value.
pub open spec fn opt_iv(o: Option<InferredValue>) -> Option<InferredView> {
    match o {
        Some(v) => Some(v@),
        None => None,
    }
}

/// Empty tables have empty views.
proof fn lemma_empty_views()
    ensures
        iv_map(Map::<Seq<char>, InferredValue>::empty()) == Map::<Seq<char>, InferredView>::empty(),
        Map::<Seq<char>, String>::empty().map_values(|v: String| v@) == Map::<Seq<char>, Seq<char>>::empty(),
        Map::<Seq<char>, Table<InferredValue>>::empty().map_values(|m: Table<InferredValue>| const_map(m))
            == Map::<Seq<char>, Map<Seq<char>, InferredView>>::empty(),
{
    assert(iv_map(Map::<Seq<char>, InferredValue>::empty()) =~= Map::<Seq<char>, InferredView>::empty());
    assert(Map::<Seq<char>, String>::empty().map_values(|v: String| v@) =~= Map::<Seq<char>, Seq<char>>::empty());
    assert(Map::<Seq<char>, Table<InferredValue>>::empty().map_values(|m: Table<InferredValue>| const_map(m))
        =~= Map::<Seq<char>, Map<Seq<char>, InferredView>>::empty());
}

/// Walks one file's events and records the translation usages met.
pub struct CallCollector {
    namespaces: Vec<String>,
    usages: Vec<Usage>,
    function_values: Table<InferredValue>,
    scopes: Vec<Table<InferredValue>>,
    translator_scopes: Vec<Table<String>>,
    map_scopes: Vec<Table<Table<InferredValue>>>,
    frames: Vec<bool>,
    file_path: String,
    line_starts: Vec<usize>,
}

impl CallCollector {
    /// The state of the scan.
    pub closed spec fn state(&self) -> ScanState {
        ScanState {
            namespaces: strs(self.namespaces@),
            usages: usage_views(self.usages@),
            functions: iv_map(self.function_values.contents()),
            scopes: value_scopes(self.scopes@),
            translators: translator_scopes(self.translator_scopes@),
            maps: map_scopes(self.map_scopes@),
            frames: self.frames@,
            path: self.file_path@,
            line_starts: self.line_starts@,
        }
    }

    /// The line starts are increasing.
    pub closed spec fn inv(&self) -> bool {
        increasing(self.line_starts@)
    }

    /// A collector for the file `file_path` with text `source_text`.
    pub fn new(function_values: Table<InferredValue>, file_path: String, source_text: &str) -> (c: Self)
        ensures
            c.inv(),
            c.state() == initial_state(
                iv_map(function_values.contents()),
                file_path@,
                spec_line_starts(source_text.spec_bytes()),
            ),
    {
        let mut scopes = Vec::new();
        scopes.push(Table::new());
        let mut translator_scopes = Vec::new();
        translator_scopes.push(Table::new());
        let mut map_scopes = Vec::new();
        map_scopes.push(Table::new());
        let c = CallCollector {
            namespaces: Vec::new(),
            usages: Vec::new(),
            function_values,
            scopes,
            translator_scopes,
            map_scopes,
            frames: Vec::new(),
            file_path,
            line_starts: collect_line_starts(source_text),
        };
        proof {
            lemma_empty_views();
        }
        assert(c.state().namespaces =~= Seq::empty());
        assert(c.state().usages =~= Seq::empty());
        assert(c.state().scopes =~= seq![Map::empty()]);
        assert(c.state().translators =~= seq![Map::empty()]);
        assert(c.state().maps =~= seq![Map::empty()]);
        c
    }

    /// The usages recorded, consuming the collector.
    pub fn into_usages(self) -> (r: Vec<Usage>)
        ensures
            usage_views(r@) == self.state().usages,
    {
        self.usages
    }

    /// Records a usage with the namespaces in scope.
    fn push_usage(&mut self, kind: UsageKind, line: usize)
        ensures
            final(self).inv() == old(self).inv(),
            final(self).state() == (ScanState {
                usages: old(self).state().usages.push(
                    usage_at(old(self).state(), old(self).state().namespaces, kind@, line as int),
                ),
                ..old(self).state()
            }),
    {
        let usage = Usage {
            namespaces: copy_strings(&self.namespaces),
            kind,
            path: self.file_path.clone(),
            line,
        };
        self.usages.push(usage);
        assert(self.state().usages =~= old(self).state().usages.push(
            usage_at(old(self).state(), old(self).state().namespaces, kind@, line as int),
        ));
    }

    /// Records a usage with the given namespaces.
    fn push_usage_with_namespaces(&mut self, namespaces: Vec<String>, kind: UsageKind, line: usize)
        ensures
            final(self).inv() == old(self).inv(),
            final(self).state() == (ScanState {
                usages: old(self).state().usages.push(
                    usage_at(old(self).state(), strs(namespaces@), kind@, line as int),
                ),
                ..old(self).state()
            }),
    {
        let usage = Usage { namespaces, kind, path: self.file_path.clone(), line };
        self.usages.push(usage);
        assert(self.state().usages =~= old(self).state().usages.push(
            usage_at(old(self).state(), strs(namespaces@), kind@, line as int),
        ));
    }

    /// Opens a scope.
    fn push_scope(&mut self)
        ensures
            final(self).inv() == old(self).inv(),
            final(self).state() == push_scope(old(self).state()),
    {
        self.scopes.push(Table::new());
        self.translator_scopes.push(Table::new());
        self.map_scopes.push(Table::new());
        proof {
            lemma_empty_views();
        }
        assert(self.state().scopes =~= old(self).state().scopes.push(Map::empty()));
        assert(self.state().translators =~= old(self).state().translators.push(Map::empty()));
        assert(self.state().maps =~= old(self).state().maps.push(Map::empty()));
    }

    /// Closes the innermost scope.
    fn pop_scope(&mut self)
        ensures
            final(self).inv() == old(self).inv(),
            final(self).state() == pop_scope(old(self).state()),
    {
        let _ = self.scopes.pop();
        let _ = self.translator_scopes.pop();
        let _ = self.map_scopes.pop();
        assert(self.state().scopes =~= drop_scope(old(self).state().scopes));
        assert(self.state().translators =~= drop_scope(old(self).state().translators));
        assert(self.state().maps =~= drop_scope(old(self).state().maps));
    }

    /// Binds a constant in the innermost scope.
    fn bind_local(&mut self, name: String, value: InferredValue)
        ensures
            final(self).inv() == old(self).inv(),
            final(self).state() == bind_local(old(self).state(), name@, value@),
    {
        match self.scopes.pop() {
            Some(scope) => {
                let ghost t = scope;
                self.scopes.push(scope.inserted(name, value));
                assert(iv_map(t.contents().insert(name@, value)) =~= iv_map(t.contents()).insert(
                    name@,
                    value@,
                ));
                assert(self.state().scopes =~= bind(old(self).state().scopes, name@, value@));
            },
            None => {},
        }
    }

    /// The innermost constant binding of `name`.
    fn resolve_local(&self, name: &str) -> (r: Option<InferredValue>)
        ensures
            opt_iv(r) == resolve(self.state().scopes, name@),
    {
        let ghost vs = self.state().scopes;
        let mut i = self.scopes.len();
        assert(vs.take(i as int) =~= vs);
        while i > 0
            invariant
                i <= self.scopes@.len(),
                vs == value_scopes(self.scopes@),
                resolve(vs, name@) == resolve(vs.take(i as int), name@),
            decreases i,
        {
            i -= 1;
            assert(vs.take(i + 1).drop_last() =~= vs.take(i as int));
            match self.scopes[i].get(name) {
                Some(v) => {
                    return Some(v.duplicate());
                },
                None => {},
            }
        }
        None
    }

    /// Binds a translator name in the innermost scope.
    fn bind_translator_namespace(&mut self, name: String, namespace: String)
        ensures
            final(self).inv() == old(self).inv(),
            final(self).state() == (ScanState {
                translators: bind(old(self).state().translators, name@, namespace@),
                ..old(self).state()
            }),
    {
        match self.translator_scopes.pop() {
            Some(scope) => {
                let ghost t = scope;
                self.translator_scopes.push(scope.inserted(name, namespace));
                assert(t.contents().insert(name@, namespace).map_values(|v: String| v@) =~= t.contents().map_values(
                    |v: String| v@,
                ).insert(name@, namespace@));
                assert(self.state().translators =~= bind(old(self).state().translators, name@, namespace@));
            },
            None => {},
        }
    }

    /// The namespace of the innermost translator binding of `name`.
    fn resolve_translator_namespace(&self, name: &str) -> (r: Option<String>)
        ensures
            opt_view(r) == resolve(self.state().translators, name@),
    {
        let ghost vs = self.state().translators;
        let mut i = self.translator_scopes.len();
        assert(vs.take(i as int) =~= vs);
        while i > 0
            invariant
                i <= self.translator_scopes@.len(),
                vs == translator_scopes(self.translator_scopes@),
                resolve(vs, name@) == resolve(vs.take(i as int), name@),
            decreases i,
        {
            i -= 1;
            assert(vs.take(i + 1).drop_last() =~= vs.take(i as int));
            match self.translator_scopes[i].get(name) {
                Some(v) => {
                    return Some(v.clone());
                },
                None => {},
            }
        }
        None
    }

    /// Binds a constant map in the innermost scope.
    fn bind_map(&mut self, name: String, map: Table<InferredValue>)
        ensures
            final(self).inv() == old(self).inv(),
            final(self).state() == (ScanState {
                maps: bind(old(self).state().maps, name@, const_map(map)),
                ..old(self).state()
            }),
    {
        match self.map_scopes.pop() {
            Some(scope) => {
                let ghost t = scope;
                let ghost m = map;
                self.map_scopes.push(scope.inserted(name, map));
                assert(t.contents().insert(name@, m).map_values(|x: Table<InferredValue>| const_map(x)) =~= t.contents().map_values(
                    |x: Table<InferredValue>| const_map(x),
                ).insert(name@, const_map(m)));
                assert(self.state().maps =~= bind(old(self).state().maps, name@, const_map(m)));
            },
            None => {},
        }
    }

    /// The innermost constant map bound to `name`.
    fn resolve_map(&self, name: &str) -> (r: Option<&Table<InferredValue>>)
        ensures
            match r {
                Some(t) => resolve(self.state().maps, name@) == Some(const_map(*t)),
                None => resolve(self.state().maps, name@) is None,
            },
    {
        let ghost vs = self.state().maps;
        let mut i = self.map_scopes.len();
        assert(vs.take(i as int) =~= vs);
        while i > 0
            invariant
                i <= self.map_scopes@.len(),
                vs == map_scopes(self.map_scopes@),
                resolve(vs, name@) == resolve(vs.take(i as int), name@),
            decreases i,
        {
            i -= 1;
            assert(vs.take(i + 1).drop_last() =~= vs.take(i as int));
            match self.map_scopes[i].get(name) {
                Some(v) => {
                    return Some(v);
                },
                None => {},
            }
        }
        None
    }

    /// The 1-based line of a byte offset of the file.
    fn line_for_offset(&self, offset: u32) -> (line: usize)
        requires
            self.inv(),
        ensures
            line == spec_line_of(self.state().line_starts, offset as int),
    {
        line_for_offset(&self.line_starts, offset)
    }
}

/// Classifies a template literal into an exact key, a prefix, or a dynamic
/// usage.
pub fn classify_template_literal(tpl: &Template) -> (k: UsageKind)
    ensures
        k@ == template_kind(*tpl),
{
    let prefix = match &tpl.head {
        Some(h) => h.clone(),
        None => String::new(),
    };
    if !tpl.has_expressions {
        UsageKind::Static(prefix)
    } else if prefix.as_str().is_empty() {
        UsageKind::Dynamic
    } else {
        UsageKind::Prefix(prefix)
    }
}

/// The expression under any TypeScript wrappers.
pub fn strip_ts_expression_wrappers(expression: &Expr) -> (r: &Expr)
    ensures
        *r == strip_ts(*expression),
    decreases expression,
{
    match expression {
        Expr::TsWrapper(inner) => strip_ts_expression_wrappers(inner),
        _ => expression,
    }
}

/// The value of an array literal.
pub fn infer_array_expression(elements: &Vec<ArrayElement>) -> (r: InferredValue)
    ensures
        r@ == spec_infer_array(elements@),
{
    let mut inferred = InferredValue::empty();
    let mut i: usize = 0;
    assert(elements@.take(0) =~= Seq::<ArrayElement>::empty());
    while i < elements.len()
        invariant
            i <= elements@.len(),
            inferred@ == array_elements_value(elements@.take(i as int)),
        decreases elements@.len() - i,
    {
        assert(elements@.take(i + 1).drop_last() =~= elements@.take(i as int));
        match &elements[i] {
            ArrayElement::Str(s) => {
                inferred.insert_static(s.clone());
            },
            ArrayElement::Template(tpl) => {
                if !tpl.has_expressions {
                    let value = match &tpl.head {
                        Some(h) => h.clone(),
                        None => String::new(),
                    };
                    inferred.insert_static(value);
                } else {
                    inferred.set_dynamic();
                }
            },
            ArrayElement::Other => {
                inferred.set_dynamic();
            },
        }
        i += 1;
    }
    assert(elements@.take(i as int) =~= elements@);
    let statics = inferred.statics();
    if statics.len() == 0 && !inferred.is_dynamic() {
        proof {
            assert(inferred@.statics =~= Set::empty());
        }
        InferredValue::dynamic()
    } else {
        proof {
            if inferred@.statics.is_empty() && statics@.len() > 0 {
                assert(inferred@.statics.contains(strs(statics@)[0]));
            }
        }
        inferred
    }
}

impl CallCollector {
    /// The value of `object[property]`.
    fn infer_computed_member(&self, object: &Expr, property: &Expr) -> (r: InferredValue)
        ensures
            r@ == (match *object {
                Expr::Ident(n) => match resolve(self.state().maps, n@) {
                    Some(m) => spec_computed(m, spec_infer(self.state(), *property)),
                    None => iv_dynamic(),
                },
                _ => iv_dynamic(),
            }),
        decreases property, 2int,
    {
        let name = match object {
            Expr::Ident(n) => n,
            _ => {
                return InferredValue::dynamic();
            },
        };
        let map = match self.resolve_map(name.as_str()) {
            Some(m) => m,
            None => {
                return InferredValue::dynamic();
            },
        };
        let ghost mv = const_map(*map);
        let property = self.infer_expression(property);
        let statics = property.statics();
        let mut out = InferredValue::empty();
        let mut i: usize = 0;
        proof {
            lemma_lookup_empty(mv);
            assert(strs(statics@).take(0).to_set() =~= Set::empty());
        }
        while i < statics.len()
            invariant
                i <= statics@.len(),
                mv == const_map(*map),
                out@ == lookup_value(mv, strs(statics@).take(i as int).to_set()),
            decreases statics@.len() - i,
        {
            let ghost before = strs(statics@).take(i as int).to_set();
            let key = statics[i].as_str();
            proof {
                lemma_lookup_insert(mv, before, key@);
                assert(strs(statics@).take(i + 1) =~= strs(statics@).take(i as int).push(key@));
                crate::strings::lemma_push_to_set(strs(statics@).take(i as int), key@);
            }
            match map.get(key) {
                Some(v) => {
                    out.merge(v.duplicate());
                },
                None => {
                    out.set_dynamic();
                },
            }
            i += 1;
            assert(out@ =~= lookup_value(mv, strs(statics@).take(i as int).to_set()));
        }
        assert(strs(statics@).take(i as int) =~= strs(statics@));
        let ghost keyed = out@;
        if property.is_dynamic() || statics.len() == 0 {
            let entries = map.entries();
            let mut j: usize = 0;
            proof {
                lemma_lookup_empty(mv);
                assert(keys_of(entries@).take(0).to_set() =~= Set::empty());
                assert(keyed =~= iv_merge(keyed, lookup_value(mv, keys_of(entries@).take(0).to_set())));
            }
            while j < entries.len()
                invariant
                    j <= entries@.len(),
                    mv == iv_map(to_map(entries@)),
                    crate::strings::distinct(keys_of(entries@)),
                    out@ == iv_merge(keyed, lookup_value(mv, keys_of(entries@).take(j as int).to_set())),
                decreases entries@.len() - j,
            {
                let ghost before = keys_of(entries@).take(j as int).to_set();
                let ghost k = entries@[j as int].0@;
                proof {
                    lemma_to_map_index(entries@, j as int);
                    lemma_lookup_insert(mv, before, k);
                    assert(keys_of(entries@).take(j + 1) =~= keys_of(entries@).take(j as int).push(k));
                    crate::strings::lemma_push_to_set(keys_of(entries@).take(j as int), k);
                }
                out.merge(entries[j].1.duplicate());
                j += 1;
                assert(out@ =~= iv_merge(keyed, lookup_value(mv, keys_of(entries@).take(j as int).to_set())));
            }
            proof {
                assert(keys_of(entries@).take(j as int) =~= keys_of(entries@));
                lemma_to_map_dom(entries@);
                assert(mv.dom() =~= keys_of(entries@).to_set());
                if statics@.len() == 0 {
                    assert(property@.statics =~= Set::empty());
                }
            }
            out.set_dynamic();
            return out;
        }
        proof {
            if property@.statics.is_empty() {
                assert(!property@.statics.contains(strs(statics@)[0]));
            }
        }
        out
    }

    /// The value of `object.name`.
    fn infer_static_member(&self, object: &Expr, name: &String) -> (r: InferredValue)
        ensures
            r@ == (match *object {
                Expr::Ident(n) => match resolve(self.state().maps, n@) {
                    Some(m) => if m.dom().contains(name@) {
                        m[name@]
                    } else {
                        iv_dynamic()
                    },
                    None => iv_dynamic(),
                },
                _ => iv_dynamic(),
            }),
    {
        let object_name = match object {
            Expr::Ident(n) => n,
            _ => {
                return InferredValue::dynamic();
            },
        };
        let map = match self.resolve_map(object_name.as_str()) {
            Some(m) => m,
            None => {
                return InferredValue::dynamic();
            },
        };
        match map.get(name.as_str()) {
            Some(v) => v.duplicate(),
            None => InferredValue::dynamic(),
        }
    }

    /// The value a call returns, when the callee is a top-level function.
    fn infer_call(&self, callee: &Expr) -> (r: InferredValue)
        ensures
            r@ == (match *callee {
                Expr::Ident(n) => if self.state().functions.dom().contains(n@) {
                    self.state().functions[n@]
                } else {
                    iv_dynamic()
                },
                _ => iv_dynamic(),
            }),
    {
        let name = match callee {
            Expr::Ident(n) => n,
            _ => {
                return InferredValue::dynamic();
            },
        };
        match self.function_values.get(name.as_str()) {
            Some(v) => v.duplicate(),
            None => InferredValue::dynamic(),
        }
    }

    /// The value of `test ? consequent : alternate`: either branch.
    fn infer_conditional(&self, expr: &Expr) -> (r: InferredValue)
        ensures
            r@ == (match *expr {
                Expr::Conditional(a, b) => iv_merge(spec_infer(self.state(), *a), spec_infer(self.state(), *b)),
                _ => iv_dynamic(),
            }),
        decreases expr, 0int,
    {
        match expr {
            Expr::Conditional(consequent, alternate) => {
                let mut inferred = self.infer_expression(consequent);
                inferred.merge(self.infer_expression(alternate));
                inferred
            },
            _ => InferredValue::dynamic(),
        }
    }

    /// The value of a logical expression: either side for `||` and `??`,
    /// dynamic for `&&`.
    fn infer_logical(&self, expr: &Expr) -> (r: InferredValue)
        ensures
            r@ == (match *expr {
                Expr::Logical(op, l, r) => match op {
                    LogicalOp::And => iv_dynamic(),
                    _ => iv_merge(spec_infer(self.state(), *l), spec_infer(self.state(), *r)),
                },
                _ => iv_dynamic(),
            }),
        decreases expr, 0int,
    {
        match expr {
            Expr::Logical(op, left, right) => {
                let left_value = self.infer_expression(left);
                let right_value = self.infer_expression(right);
                match op {
                    LogicalOp::And => InferredValue::dynamic(),
                    _ => {
                        let mut inferred = left_value;
                        inferred.merge(right_value);
                        inferred
                    },
                }
            },
            _ => InferredValue::dynamic(),
        }
    }

    /// The possible key values of an expression.
    fn infer_expression(&self, expr: &Expr) -> (r: InferredValue)
        ensures
            r@ == spec_infer(self.state(), *expr),
        decreases expr, 1int,
    {
        match expr {
            Expr::Str(s) => InferredValue::from_usage_kind(UsageKind::Static(s.clone())),
            Expr::Template(tpl) => InferredValue::from_usage_kind(classify_template_literal(tpl)),
            Expr::Array(elements) => infer_array_expression(elements),
            Expr::Ident(name) => match self.resolve_local(name.as_str()) {
                Some(v) => v,
                None => InferredValue::dynamic(),
            },
            Expr::Computed(object, property) => self.infer_computed_member(object, property),
            Expr::Member(object, name) => self.infer_static_member(object, name),
            Expr::Call(callee, _) => self.infer_call(callee),
            Expr::Conditional(_, _) => self.infer_conditional(expr),
            Expr::Logical(_, _, _) => self.infer_logical(expr),
            Expr::TsWrapper(inner) => self.infer_expression(inner),
            _ => InferredValue::dynamic(),
        }
    }

    /// The possible key values of a call argument.
    fn infer_argument(&self, arg: &Arg) -> (r: InferredValue)
        ensures
            r@ == spec_infer_arg(self.state(), *arg),
    {
        match arg {
            Arg::Expr(expr) => match expr {
                Expr::TsWrapper(_) => InferredValue::dynamic(),
                _ => self.infer_expression(expr),
            },
            Arg::Spread => InferredValue::dynamic(),
        }
    }
}

/// A string with the characters of an optional view, when there is one.
spec fn opt_str(o: Option<&str>) -> Option<Seq<char>> {
    match o {
        Some(s) => Some(s@),
        None => None,
    }
}

/// Whether a property key is `ns`.
pub fn property_key_is_ns(key: &PropKey) -> (r: bool)
    ensures
        r == key_is_ns(*key),
{
    match key {
        PropKey::Static(name) => str_eq(name.as_str(), "ns"),
        PropKey::Expr(e) => match &**e {
            Expr::Str(v) => str_eq(v.as_str(), "ns"),
            _ => false,
        },
        PropKey::Private => false,
    }
}

/// The text of a string or expression-free template literal.
fn literal_string(e: &Expr) -> (r: Option<String>)
    ensures
        opt_view(r) == literal_text(*e),
{
    match e {
        Expr::Str(v) => Some(v.clone()),
        Expr::Template(tpl) => if !tpl.has_expressions {
            match &tpl.head {
                Some(h) => Some(h.clone()),
                None => Some(String::new()),
            }
        } else {
            None
        },
        _ => None,
    }
}

/// The namespace an options argument `{ ns: "..." }` selects.
pub fn extract_ns_override(arg: &Arg) -> (r: Option<String>)
    ensures
        opt_view(r) == spec_ns_override(*arg),
{
    let items = match arg {
        Arg::Expr(Expr::Object(items)) => items,
        _ => {
            return None;
        },
    };
    let mut i: usize = 0;
    assert(items@.skip(0) =~= items@);
    while i < items.len()
        invariant
            i <= items@.len(),
            ns_in_items(items@) == ns_in_items(items@.skip(i as int)),
            spec_ns_override(*arg) == ns_in_items(items@),
        decreases items@.len() - i,
    {
        assert(items@.skip(i as int).drop_first() =~= items@.skip(i + 1));
        assert(items@.skip(i as int)[0] == items@[i as int]);
        match &items[i] {
            ObjectItem::Property(prop) => {
                if !prop.computed && !prop.method && property_key_is_ns(&prop.key) {
                    return literal_string(&prop.value);
                }
            },
            ObjectItem::Spread => {},
        }
        i += 1;
    }
    None
}

/// The namespaces a `useTranslation(...)` call names.
pub fn extract_namespaces(call: &CallSite) -> (r: Vec<String>)
    ensures
        strs(r@) == spec_namespaces(*call),
{
    if call.args.len() == 0 {
        let r: Vec<String> = Vec::new();
        assert(strs(r@) =~= Seq::empty());
        return r;
    }
    match &call.args[0] {
        Arg::Expr(Expr::Str(v)) => {
            let mut r: Vec<String> = Vec::new();
            r.push(v.clone());
            assert(strs(r@) =~= seq![v@]);
            r
        },
        Arg::Expr(Expr::Array(elements)) => {
            let mut r: Vec<String> = Vec::new();
            let mut i: usize = 0;
            assert(elements@.take(0) =~= Seq::<ArrayElement>::empty());
            assert(strs(r@) =~= Seq::empty());
            while i < elements.len()
                invariant
                    i <= elements@.len(),
                    strs(r@) == string_elements(elements@.take(i as int)),
                decreases elements@.len() - i,
            {
                assert(elements@.take(i + 1).drop_last() =~= elements@.take(i as int));
                match &elements[i] {
                    ArrayElement::Str(v) => {
                        r.push(v.clone());
                    },
                    _ => {},
                }
                i += 1;
                assert(strs(r@) =~= string_elements(elements@.take(i as int)));
            }
            assert(elements@.take(i as int) =~= elements@);
            r
        },
        _ => {
            let r: Vec<String> = Vec::new();
            assert(strs(r@) =~= Seq::empty());
            r
        },
    }
}

impl CallCollector {
    /// Records the usage of `kind`, giving it the namespace a `ns:key` key
    /// names, or else `ns_override`, or else the namespaces in scope.
    fn push_resolved_usage(&mut self, kind: UsageKind, ns_override: Option<&str>, line: usize)
        ensures
            final(self).inv() == old(self).inv(),
            final(self).state() == (ScanState {
                usages: old(self).state().usages.push(
                    resolved_usage(old(self).state(), kind@, opt_str(ns_override), line as int),
                ),
                ..old(self).state()
            }),
    {
        match kind {
            UsageKind::Static(key) => {
                if let Some((ns, raw_key)) = split_colon_namespace(key.as_str()) {
                    let mut v = Vec::new();
                    v.push(ns);
                    assert(strs(v@) =~= seq![ns@]);
                    self.push_usage_with_namespaces(v, UsageKind::Static(raw_key), line);
                } else if let Some(override_ns) = ns_override {
                    let mut v = Vec::new();
                    v.push(owned(override_ns));
                    assert(strs(v@) =~= seq![override_ns@]);
                    self.push_usage_with_namespaces(v, UsageKind::Static(key), line);
                } else {
                    self.push_usage(UsageKind::Static(key), line);
                }
            },
            UsageKind::Prefix(prefix) => {
                if let Some((ns, raw_prefix)) = split_colon_namespace(prefix.as_str()) {
                    let mut v = Vec::new();
                    v.push(ns);
                    assert(strs(v@) =~= seq![ns@]);
                    self.push_usage_with_namespaces(v, UsageKind::Prefix(raw_prefix), line);
                } else if let Some(override_ns) = ns_override {
                    let mut v = Vec::new();
                    v.push(owned(override_ns));
                    assert(strs(v@) =~= seq![override_ns@]);
                    self.push_usage_with_namespaces(v, UsageKind::Prefix(prefix), line);
                } else {
                    self.push_usage(UsageKind::Prefix(prefix), line);
                }
            },
            UsageKind::Dynamic => {
                if let Some(override_ns) = ns_override {
                    let mut v = Vec::new();
                    v.push(owned(override_ns));
                    assert(strs(v@) =~= seq![override_ns@]);
                    self.push_usage_with_namespaces(v, UsageKind::Dynamic, line);
                } else {
                    self.push_usage(UsageKind::Dynamic, line);
                }
            },
        }
    }

    /// Records the usages of a translation call, with `base_ns` as the
    /// namespace when the call's options name none.
    fn handle_t_call_with_base_ns(&mut self, call: &CallSite, base_ns: Option<&str>)
        requires
            old(self).inv(),
        ensures
            final(self).inv(),
            final(self).state() == spec_t_call(old(self).state(), *call, opt_str(base_ns)),
    {
        if call.args.len() == 0 {
            return;
        }
        let ns_from_options = if call.args.len() > 1 {
            extract_ns_override(&call.args[1])
        } else {
            None
        };
        let ns_override: Option<String> = match ns_from_options {
            Some(o) => Some(o),
            None => match base_ns {
                Some(b) => Some(owned(b)),
                None => None,
            },
        };
        let line = self.line_for_offset(call.start);
        let inferred = self.infer_argument(&call.args[0]);
        let kinds = inferred.into_usage_kinds();
        let ghost s0 = self.state();
        let ghost ns = opt_view(ns_override);
        let mut i: usize = 0;
        assert(s0.usages + kinds@.map_values(|k: UsageKind| k@).take(0).map_values(
            |k: KeyUse| resolved_usage(s0, k, ns, line as int),
        ) =~= s0.usages);
        while i < kinds.len()
            invariant
                i <= kinds@.len(),
                self.inv(),
                self.state() == (ScanState {
                    usages: s0.usages + kinds@.map_values(|k: UsageKind| k@).take(i as int).map_values(
                        |k: KeyUse| resolved_usage(s0, k, ns, line as int),
                    ),
                    ..s0
                }),
                ns == opt_view(ns_override),
            decreases kinds@.len() - i,
        {
            let kind = kinds[i].duplicate();
            let ghost before = self.state();
            let o = match &ns_override {
                Some(n) => Some(n.as_str()),
                None => None,
            };
            assert(opt_str(o) == ns);
            self.push_resolved_usage(kind, o, line);
            proof {
                assert(resolved_usage(before, kinds@[i as int]@, ns, line as int) == resolved_usage(
                    s0,
                    kinds@[i as int]@,
                    ns,
                    line as int,
                ));
            }
            i += 1;
            assert(self.state().usages =~= s0.usages + kinds@.map_values(|k: UsageKind| k@).take(
                i as int,
            ).map_values(|k: KeyUse| resolved_usage(s0, k, ns, line as int)));
        }
        assert(kinds@.map_values(|k: UsageKind| k@).take(i as int) =~= kinds@.map_values(|k: UsageKind| k@));
    }
}

/// The namespace of a `getServerTranslate("...")` call.
pub fn extract_server_translator_namespace_from_call(callee: &Expr, args: &Vec<Arg>) -> (r: Option<String>)
    ensures
        opt_view(r) == server_namespace(Expr::Call(Box::new(*callee), *args)),
{
    let name = match callee {
        Expr::Ident(n) => n,
        _ => {
            return None;
        },
    };
    if !str_eq(name.as_str(), "getServerTranslate") {
        return None;
    }
    if args.len() == 0 {
        return None;
    }
    match &args[0] {
        Arg::Expr(Expr::Str(v)) => Some(v.clone()),
        Arg::Expr(Expr::Template(tpl)) => if !tpl.has_expressions {
            match &tpl.head {
                Some(h) => Some(h.clone()),
                None => None,
            }
        } else {
            None
        },
        _ => None,
    }
}

/// The namespace of a possibly awaited `getServerTranslate("...")` call.
pub fn extract_server_translator_namespace_from_expression(expression: &Expr) -> (r: Option<String>)
    ensures
        opt_view(r) == server_namespace(*expression),
    decreases expression,
{
    match expression {
        Expr::Call(callee, args) => extract_server_translator_namespace_from_call(callee, args),
        Expr::Await(inner) => extract_server_translator_namespace_from_expression(inner),
        _ => None,
    }
}

/// The text of a property key that is not written in brackets.
pub fn object_property_key_to_string(key: &PropKey) -> (r: Option<String>)
    ensures
        opt_view(r) == key_text(*key),
{
    match key {
        PropKey::Static(n) => Some(n.clone()),
        PropKey::Expr(e) => match &**e {
            Expr::Str(v) => Some(v.clone()),
            Expr::Template(tpl) => if !tpl.has_expressions {
                match &tpl.head {
                    Some(h) => Some(h.clone()),
                    None => None,
                }
            } else {
                None
            },
            _ => None,
        },
        PropKey::Private => None,
    }
}

/// Setting one more key is inserting it.
proof fn lemma_set_keys_insert(
    m: Map<Seq<char>, InferredView>,
    keys: Set<Seq<char>>,
    k: Seq<char>,
    v: InferredView,
)
    ensures
        set_keys(m, keys.insert(k), v) == set_keys(m, keys, v).insert(k, v),
        set_keys(m, Set::empty(), v) == m,
{
    assert(set_keys(m, keys.insert(k), v) =~= set_keys(m, keys, v).insert(k, v));
    assert(set_keys(m, Set::empty(), v) =~= m);
}

impl CallCollector {
    /// Records the translator bindings of a declaration.
    fn track_server_translator_bindings(&mut self, declarators: &Vec<Declarator>)
        ensures
            final(self).inv() == old(self).inv(),
            final(self).state() == track_translators(old(self).state(), declarators@),
    {
        let ghost s0 = self.state();
        let mut i: usize = 0;
        assert(declarators@.take(0) =~= Seq::<Declarator>::empty());
        while i < declarators.len()
            invariant
                i <= declarators@.len(),
                self.inv() == old(self).inv(),
                self.state() == track_translators(s0, declarators@.take(i as int)),
            decreases declarators@.len() - i,
        {
            assert(declarators@.take(i + 1).drop_last() =~= declarators@.take(i as int));
            let declarator = &declarators[i];
            match &declarator.init {
                Some(init) => match extract_server_translator_namespace_from_expression(init) {
                    Some(namespace) => match &declarator.binding {
                        Some(name) => {
                            self.bind_translator_namespace(name.clone(), namespace);
                        },
                        None => {},
                    },
                    None => {},
                },
                None => {},
            }
            i += 1;
        }
        assert(declarators@.take(i as int) =~= declarators@);
    }

    /// The keys a property defines.
    fn infer_object_property_keys(&self, property: &Property) -> (r: Vec<String>)
        ensures
            strs(r@).to_set() == property_keys(self.state(), *property),
    {
        if !property.computed {
            let mut r: Vec<String> = Vec::new();
            match object_property_key_to_string(&property.key) {
                Some(k) => {
                    r.push(k);
                    assert(strs(r@) =~= seq![k@]);
                    assert(seq![k@].to_set() =~= set![k@]) by {
                        assert(seq![k@][0] == k@);
                    }
                },
                None => {
                    assert(strs(r@).to_set() =~= Set::empty());
                },
            }
            return r;
        }
        match &property.key {
            PropKey::Expr(key_expr) => {
                let value = self.infer_expression(key_expr);
                copy_strings(value.statics())
            },
            _ => {
                let r: Vec<String> = Vec::new();
                assert(strs(r@).to_set() =~= Set::empty());
                r
            },
        }
    }

    /// The map an object literal describes.
    fn build_const_map(&self, items: &Vec<ObjectItem>) -> (r: Table<InferredValue>)
        ensures
            const_map(r) == object_map(self.state(), items@),
    {
        let mut map: Table<InferredValue> = Table::new();
        let mut i: usize = 0;
        assert(items@.take(0) =~= Seq::<ObjectItem>::empty());
        proof {
            lemma_empty_views();
        }
        while i < items.len()
            invariant
                i <= items@.len(),
                const_map(map) == object_map(self.state(), items@.take(i as int)),
            decreases items@.len() - i,
        {
            assert(items@.take(i + 1).drop_last() =~= items@.take(i as int));
            match &items[i] {
                ObjectItem::Property(prop) => {
                    if !prop.method {
                        let value = self.infer_expression(&prop.value);
                        let keys = self.infer_object_property_keys(prop);
                        let ghost m0 = const_map(map);
                        let mut j: usize = 0;
                        proof {
                            lemma_set_keys_insert(m0, Set::empty(), Seq::empty(), value@);
                            assert(strs(keys@).take(0).to_set() =~= Set::empty());
                        }
                        while j < keys.len()
                            invariant
                                j <= keys@.len(),
                                const_map(map) == set_keys(m0, strs(keys@).take(j as int).to_set(), value@),
                            decreases keys@.len() - j,
                        {
                            let ghost t = map;
                            let ghost k = keys@[j as int]@;
                            map = map.inserted(keys[j].clone(), value.duplicate());
                            proof {
                                assert(iv_map(t.contents().insert(k, map.contents()[k])) =~= iv_map(
                                    t.contents(),
                                ).insert(k, value@));
                                lemma_set_keys_insert(m0, strs(keys@).take(j as int).to_set(), k, value@);
                                assert(strs(keys@).take(j + 1) =~= strs(keys@).take(j as int).push(k));
                                crate::strings::lemma_push_to_set(strs(keys@).take(j as int), k);
                            }
                            j += 1;
                        }
                        assert(strs(keys@).take(j as int) =~= strs(keys@));
                    }
                },
                ObjectItem::Spread => {},
            }
            i += 1;
        }
        assert(items@.take(i as int) =~= items@);
        map
    }

    /// Records the constant object literals of a `const` declaration.
    fn track_const_map_bindings(&mut self, declarators: &Vec<Declarator>)
        ensures
            final(self).inv() == old(self).inv(),
            final(self).state() == track_maps(old(self).state(), declarators@),
    {
        let ghost s0 = self.state();
        let mut i: usize = 0;
        assert(declarators@.take(0) =~= Seq::<Declarator>::empty());
        while i < declarators.len()
            invariant
                i <= declarators@.len(),
                self.inv() == old(self).inv(),
                self.state() == track_maps(s0, declarators@.take(i as int)),
            decreases declarators@.len() - i,
        {
            assert(declarators@.take(i + 1).drop_last() =~= declarators@.take(i as int));
            let declarator = &declarators[i];
            match &declarator.init {
                Some(init) => match &declarator.binding {
                    Some(name) => match strip_ts_expression_wrappers(init) {
                        Expr::Object(items) => {
                            let map = self.build_const_map(items);
                            assert(const_map(map).dom() =~= map.contents().dom());
                            if !map.is_empty() {
                                self.bind_map(name.clone(), map);
                            }
                        },
                        _ => {},
                    },
                    None => {},
                },
                None => {},
            }
            i += 1;
        }
        assert(declarators@.take(i as int) =~= declarators@);
    }

    /// Records the constant bindings of a `const` declaration.
    fn track_const_bindings(&mut self, declarators: &Vec<Declarator>)
        ensures
            final(self).inv() == old(self).inv(),
            final(self).state() == track_consts(old(self).state(), declarators@),
    {
        let ghost s0 = self.state();
        let mut i: usize = 0;
        assert(declarators@.take(0) =~= Seq::<Declarator>::empty());
        while i < declarators.len()
            invariant
                i <= declarators@.len(),
                self.inv() == old(self).inv(),
                self.state() == track_consts(s0, declarators@.take(i as int)),
            decreases declarators@.len() - i,
        {
            assert(declarators@.take(i + 1).drop_last() =~= declarators@.take(i as int));
            let declarator = &declarators[i];
            match &declarator.init {
                Some(init) => match &declarator.binding {
                    Some(name) => {
                        let inferred = self.infer_expression(init);
                        self.bind_local(name.clone(), inferred);
                    },
                    None => {},
                },
                None => {},
            }
            i += 1;
        }
        assert(declarators@.take(i as int) =~= declarators@);
    }

    /// Reacts to a variable declaration.
    fn visit_variable_declaration(&mut self, decl: &VarDecl)
        ensures
            final(self).inv() == old(self).inv(),
            final(self).state() == spec_declaration(old(self).state(), *decl),
    {
        self.track_server_translator_bindings(&decl.declarators);
        if decl.is_const {
            self.track_const_map_bindings(&decl.declarators);
            self.track_const_bindings(&decl.declarators);
        }
    }
}

/// The callback's first parameter name, for a function argument.
pub fn extract_callback_first_param_name(argument: &Arg) -> (r: Option<String>)
    ensures
        opt_view(r) == (match *argument {
            Arg::Expr(Expr::Function(Some(p))) => Some(p@),
            _ => None,
        }),
{
    match argument {
        Arg::Expr(Expr::Function(Some(p))) => Some(p.clone()),
        _ => None,
    }
}

/// Whether the callee `object.prop` is `i18next.t`.
pub fn is_i18next_t_member_call(object: &Expr, prop: &String) -> (r: bool)
    ensures
        r == (prop@ == "t"@ && (match *object {
            Expr::Ident(o) => o@ == "i18next"@,
            _ => false,
        })),
{
    str_eq(prop.as_str(), "t") && match object {
        Expr::Ident(o) => str_eq(o.as_str(), "i18next"),
        _ => false,
    }
}

/// Whether a JSX element is named `Trans`.
pub fn is_trans_element(element: &JsxOpening) -> (r: bool)
    ensures
        r == (element.name matches Some(n) && n@ == "Trans"@),
{
    match &element.name {
        Some(n) => str_eq(n.as_str(), "Trans"),
        None => false,
    }
}

/// The text of a JSX expression that is a literal.
pub fn jsx_expression_to_static_string(expression: &Expr) -> (r: Option<String>)
    ensures
        opt_view(r) == jsx_value_text(JsxValue::Expr(*expression)),
{
    match expression {
        Expr::Str(v) => Some(v.clone()),
        Expr::Template(tpl) => if !tpl.has_expressions {
            match &tpl.head {
                Some(h) => Some(h.clone()),
                None => None,
            }
        } else {
            None
        },
        _ => None,
    }
}

/// The text of a JSX attribute value that is a literal.
pub fn jsx_attribute_value_to_string(value: &JsxValue) -> (r: Option<String>)
    ensures
        opt_view(r) == jsx_value_text(*value),
{
    match value {
        JsxValue::Str(v) => Some(v.clone()),
        JsxValue::Expr(e) => jsx_expression_to_static_string(e),
        JsxValue::Other => None,
    }
}

/// The literal text of the first attribute named `name`.
pub fn extract_jsx_string_attr(attributes: &Vec<JsxAttr>, name: &str) -> (r: Option<String>)
    ensures
        opt_view(r) == jsx_attr_text(attributes@, name@),
{
    let mut i: usize = 0;
    assert(attributes@.skip(0) =~= attributes@);
    while i < attributes.len()
        invariant
            i <= attributes@.len(),
            jsx_attr_text(attributes@, name@) == jsx_attr_text(attributes@.skip(i as int), name@),
        decreases attributes@.len() - i,
    {
        assert(attributes@.skip(i as int).drop_first() =~= attributes@.skip(i + 1));
        assert(attributes@.skip(i as int)[0] == attributes@[i as int]);
        match &attributes[i] {
            JsxAttr::Attribute(Some(attr_name), value) => {
                if str_eq(attr_name.as_str(), name) {
                    return match value {
                        Some(v) => jsx_attribute_value_to_string(v),
                        None => None,
                    };
                }
            },
            _ => {},
        }
        i += 1;
    }
    None
}

impl CallCollector {
    /// The values an iterated expression yields.
    fn infer_iterator_values(&self, expression: &Expr) -> (r: Option<InferredValue>)
        ensures
            opt_iv(r) == spec_iter_values(self.state(), *expression),
    {
        match strip_ts_expression_wrappers(expression) {
            Expr::Array(elements) => Some(infer_array_expression(elements)),
            Expr::Ident(name) => self.resolve_local(name.as_str()),
            _ => None,
        }
    }

    /// For `xs.map(x => ...)` or `xs.forEach(x => ...)`, the callback's
    /// parameter and the values it takes.
    fn iterator_callback_binding(&self, call: &CallSite) -> (r: Option<(String, InferredValue)>)
        ensures
            match r {
                Some((p, v)) => iterator_binding(self.state(), *call) == Some((p@, v@)),
                None => iterator_binding(self.state(), *call) is None,
            },
    {
        let (object, method) = match &call.callee {
            Expr::Member(object, method) => (object, method),
            _ => {
                return None;
            },
        };
        if !str_eq(method.as_str(), "map") && !str_eq(method.as_str(), "forEach") {
            return None;
        }
        let iterable_values = match self.infer_iterator_values(object) {
            Some(v) => v,
            None => {
                return None;
            },
        };
        if call.args.len() == 0 {
            return None;
        }
        match extract_callback_first_param_name(&call.args[0]) {
            Some(param_name) => Some((param_name, iterable_values)),
            None => None,
        }
    }

    /// Reacts to a `useTranslation(...)` call.
    fn handle_use_translation(&mut self, call: &CallSite)
        ensures
            final(self).inv() == old(self).inv(),
            final(self).state() == (ScanState { namespaces: spec_namespaces(*call), ..old(self).state() }),
    {
        self.namespaces = extract_namespaces(call);
    }

    /// Records the usages of a translation call without a base namespace.
    fn handle_t_call(&mut self, call: &CallSite)
        requires
            old(self).inv(),
        ensures
            final(self).inv(),
            final(self).state() == spec_t_call(old(self).state(), *call, None),
    {
        self.handle_t_call_with_base_ns(call, None);
    }

    /// Reacts to the start of a call expression.
    fn visit_call_expression(&mut self, call: &CallSite)
        requires
            old(self).inv(),
        ensures
            final(self).inv(),
            final(self).state() == spec_step(old(self).state(), Event::CallStart(*call)),
    {
        if let Some((param_name, values)) = self.iterator_callback_binding(call) {
            self.push_scope();
            self.bind_local(param_name, values);
            self.frames.push(true);
            return;
        }
        match &call.callee {
            Expr::Ident(ident) => {
                if str_eq(ident.as_str(), "useTranslation") {
                    self.handle_use_translation(call);
                } else if str_eq(ident.as_str(), "t") {
                    let ns = self.resolve_translator_namespace("t");
                    let base = match &ns {
                        Some(n) => Some(n.as_str()),
                        None => None,
                    };
                    self.handle_t_call_with_base_ns(call, base);
                } else {
                    if let Some(namespace) = self.resolve_translator_namespace(ident.as_str()) {
                        self.handle_t_call_with_base_ns(call, Some(namespace.as_str()));
                    }
                }
            },
            Expr::Member(object, prop) => {
                if is_i18next_t_member_call(object, prop) {
                    self.handle_t_call(call);
                }
            },
            _ => {},
        }
        self.frames.push(false);
    }

    /// Reacts to the end of a call expression.
    fn visit_call_end(&mut self)
        ensures
            final(self).inv() == old(self).inv(),
            final(self).state() == spec_step(old(self).state(), Event::CallEnd),
    {
        match self.frames.pop() {
            Some(opened_scope) => {
                if opened_scope {
                    self.pop_scope();
                }
            },
            None => {},
        }
    }

    /// Reacts to a JSX opening element.
    fn visit_jsx_opening_element(&mut self, element: &JsxOpening)
        requires
            old(self).inv(),
        ensures
            final(self).inv(),
            final(self).state() == spec_jsx(old(self).state(), *element),
    {
        if !is_trans_element(element) {
            return;
        }
        let i18n_key = match extract_jsx_string_attr(&element.attributes, "i18nKey") {
            Some(k) => k,
            None => {
                return;
            },
        };
        let ns_override = extract_jsx_string_attr(&element.attributes, "ns");
        let line = self.line_for_offset(element.start);
        let o = match &ns_override {
            Some(n) => Some(n.as_str()),
            None => None,
        };
        self.push_resolved_usage(UsageKind::Static(i18n_key), o, line);
    }

    /// Reacts to one event of the walk.
    fn visit_event(&mut self, event: &Event)
        requires
            old(self).inv(),
        ensures
            final(self).inv(),
            final(self).state() == spec_step(old(self).state(), *event),
    {
        match event {
            Event::EnterScope => self.push_scope(),
            Event::ExitScope => self.pop_scope(),
            Event::Declaration(decl) => self.visit_variable_declaration(decl),
            Event::CallStart(call) => self.visit_call_expression(call),
            Event::CallEnd => self.visit_call_end(),
            Event::JsxOpen(element) => self.visit_jsx_opening_element(element),
        }
    }

    /// Reacts to each event in order.
    fn visit_events(&mut self, events: &Vec<Event>)
        requires
            old(self).inv(),
        ensures
            final(self).inv(),
            final(self).state() == spec_run(old(self).state(), events@),
    {
        let ghost s0 = self.state();
        let mut i: usize = 0;
        assert(events@.take(0) =~= Seq::<Event>::empty());
        while i < events.len()
            invariant
                i <= events@.len(),
                self.inv(),
                self.state() == spec_run(s0, events@.take(i as int)),
            decreases events@.len() - i,
        {
            assert(events@.take(i + 1).drop_last() =~= events@.take(i as int));
            self.visit_event(&events[i]);
            i += 1;
        }
        assert(events@.take(i as int) =~= events@);
    }
}

/// The usages recorded by walking the events of the file `path` whose
/// text is `source_text`, given the values its top-level functions return.
pub fn scan_events(
    function_values: Table<InferredValue>,
    events: &Vec<Event>,
    path: String,
    source_text: &str,
) -> (usages: Vec<Usage>)
    ensures
        usage_views(usages@) == spec_run(
            initial_state(iv_map(function_values.contents()), path@, spec_line_starts(source_text.spec_bytes())),
            events@,
        ).usages,
{
    let mut collector = CallCollector::new(function_values, path, source_text);
    collector.visit_events(events);
    collector.into_usages()
}

/// The usages in a file, as the scan of its events records them.
pub open spec fn spec_file_usages(file: SourceFile, path: Seq<char>, text: Seq<u8>) -> Seq<UsageView> {
    spec_run(
        initial_state(spec_function_values(file.functions@), path, spec_line_starts(text)),
        file.events@,
    ).usages
}

/// The translation usages in the parsed file `path`, whose text is
/// `source_text`.
pub fn file_usages(file: &SourceFile, path: String, source_text: &str) -> (usages: Vec<Usage>)
    ensures
        usage_views(usages@) == spec_file_usages(*file, path@, source_text.spec_bytes()),
{
    let function_values = infer_function_values(&file.functions);
    scan_events(function_values, &file.events, path, source_text)
}

/// The translation usages in the source file `path`, whose text is `text`:
/// the error for a file whose source type cannot be told, else the error
/// listing the parser's messages when it reports any, else the usages the
/// scan of the parsed file records.
pub fn source_usages(path: &str, text: &str) -> (r: Result<Vec<Usage>, I18nError>)
    ensures
        !(spec_path_file_name(path@) is Some && (spec_path_extension(path@) matches Some(e) && is_parser_extension(e)))
            ==> (r matches Err(I18nError::SourceParse { path: p, message: m }) && p@ == path@ && m@
            == "failed to infer source type"@),
        (spec_path_file_name(path@) is Some && (spec_path_extension(path@) matches Some(e) && is_parser_extension(e)))
            ==> match spec_parsed_source(path@, text@) {
            Err(messages) => r matches Err(I18nError::SourceParse { path: p, message: m }) && p@ == path@ && m@
                == join(messages, ", "@),
            Ok(file) => r matches Ok(usages) && usage_views(usages@) == spec_file_usages(file, path@, text.spec_bytes()),
        },
{
    let source_type = match source_type_of(path) {
        Ok(t) => t,
        Err(e) => {
            return Err(e);
        },
    };
    match parse_source(path, text, source_type) {
        Ok(file) => Ok(file_usages(&file, owned(path), text)),
        Err(messages) => Err(source_parse_error(path, &messages)),
    }
}

} // verus!

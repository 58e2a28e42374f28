//! The key values that a file's top-level functions return.
//!
//! A function's value is the union of the values of its `return`
//! statements (in blocks and `if` branches), a call to another top-level
//! function contributing that function's value. A function that returns
//! nothing known is dynamic, and so is a call that would recurse into a
//! function already being evaluated. Values are cached as they are
//! computed, and the functions are evaluated in order of first declaration.
use vstd::prelude::*;
use crate::inferred::{iv_dynamic, iv_empty, iv_merge, iv_of_kind, InferredValue, InferredView};
use crate::scan::template_kind;
use crate::source::KeyUse;
use crate::syntax::{Expr, FunctionDecl, Stmt};
use crate::table::Table;
use crate::collector::{classify_template_literal, iv_map};
use crate::source::UsageKind;
use crate::strings::{contains_str, strs};
use crate::text::owned;

verus! {

/// The declaration each name refers to: the last one with that name.
pub open spec fn decl_map(fs: Seq<FunctionDecl>) -> Map<Seq<char>, FunctionDecl>
    decreases fs.len(),
{
    if fs.len() == 0 {
        Map::empty()
    } else {
        match fs.last().name {
            Some(n) => decl_map(fs.drop_last()).insert(n@, fs.last()),
            None => decl_map(fs.drop_last()),
        }
    }
}

/// The declared names in order of first declaration.
pub open spec fn decl_order(fs: Seq<FunctionDecl>) -> Seq<Seq<char>>
    decreases fs.len(),
{
    if fs.len() == 0 {
        Seq::empty()
    } else {
        let rest = decl_order(fs.drop_last());
        match fs.last().name {
            Some(n) => if rest.contains(n@) {
                rest
            } else {
                rest.push(n@)
            },
            None => rest,
        }
    }
}

/// How many declared functions are not being evaluated.
pub open spec fn remaining(fns: Map<Seq<char>, FunctionDecl>, visiting: Set<Seq<char>>) -> nat {
    fns.dom().difference(visiting).len()
}

pub proof fn lemma_remaining_decreases(fns: Map<Seq<char>, FunctionDecl>, visiting: Set<Seq<char>>, n: Seq<char>)
    requires
        fns.dom().finite(),
        fns.dom().contains(n),
        !visiting.contains(n),
    ensures
        remaining(fns, visiting.insert(n)) < remaining(fns, visiting),
{
    let a = fns.dom().difference(visiting);
    let b = fns.dom().difference(visiting.insert(n));
    assert(b =~= a.remove(n));
    assert(a.contains(n));
}

/// The value of a function called `name` and the cache after evaluating
/// it, when `visiting` are the functions being evaluated.
pub open spec fn by_name(
    fns: Map<Seq<char>, FunctionDecl>,
    name: Seq<char>,
    visiting: Set<Seq<char>>,
    cache: Map<Seq<char>, InferredView>,
) -> (InferredView, Map<Seq<char>, InferredView>)
    decreases remaining(fns, visiting), 0nat, 0nat,
    when fns.dom().finite()
{
    if cache.dom().contains(name) {
        (cache[name], cache)
    } else if visiting.contains(name) {
        (iv_dynamic(), cache)
    } else if fns.dom().contains(name) {
        proof {
            lemma_remaining_decreases(fns, visiting, name);
        }
        function_returns(fns, fns[name], visiting.insert(name), cache)
    } else {
        (iv_dynamic(), cache)
    }
}

/// The value a function returns and the cache afterwards.
pub open spec fn function_returns(
    fns: Map<Seq<char>, FunctionDecl>,
    f: FunctionDecl,
    visiting: Set<Seq<char>>,
    cache: Map<Seq<char>, InferredView>,
) -> (InferredView, Map<Seq<char>, InferredView>)
    decreases remaining(fns, visiting), 3nat, 0nat,
    when fns.dom().finite()
{
    match f.body {
        None => (iv_dynamic(), cache),
        Some(body) => {
            let (out, c) = statements_returns(fns, body@, visiting, cache, iv_empty());
            if out.statics.is_empty() && out.prefixes.is_empty() && !out.dynamic {
                (InferredView { dynamic: true, ..out }, c)
            } else {
                (out, c)
            }
        },
    }
}

/// The height of an expression, as far as returned values go.
pub open spec fn expr_height(e: Expr) -> nat
    decreases e,
{
    match e {
        Expr::Conditional(a, b) => {
            let ha = expr_height(*a);
            let hb = expr_height(*b);
            (if ha > hb { ha } else { hb }) + 1
        },
        _ => 1,
    }
}

/// The height of a statement.
pub open spec fn stmt_height(s: Stmt) -> nat
    decreases s,
{
    match s {
        Stmt::Block(v) => statements_height(v@) + 1,
        Stmt::If(c, a) => {
            let hc = stmt_height(*c);
            let ha = match a {
                Some(x) => stmt_height(*x),
                None => 0,
            };
            (if hc > ha { hc } else { ha }) + 1
        },
        _ => 1,
    }
}

/// The height of a statement list.
pub open spec fn statements_height(ss: Seq<Stmt>) -> nat
    decreases ss,
{
    if ss.len() == 0 {
        0
    } else {
        let a = statements_height(ss.subrange(0, ss.len() - 1));
        let b = stmt_height(ss[ss.len() - 1]);
        (if a > b { a } else { b }) + 1
    }
}

/// The values returned by statements, added to `out`.
pub open spec fn statements_returns(
    fns: Map<Seq<char>, FunctionDecl>,
    ss: Seq<Stmt>,
    visiting: Set<Seq<char>>,
    cache: Map<Seq<char>, InferredView>,
    out: InferredView,
) -> (InferredView, Map<Seq<char>, InferredView>)
    decreases remaining(fns, visiting), 2nat, statements_height(ss),
    when fns.dom().finite()
{
    if ss.len() == 0 {
        (out, cache)
    } else {
        let (o, c) = statements_returns(fns, ss.subrange(0, ss.len() - 1), visiting, cache, out);
        statement_returns(fns, ss[ss.len() - 1], visiting, c, o)
    }
}

/// The values returned by a statement, added to `out`.
pub open spec fn statement_returns(
    fns: Map<Seq<char>, FunctionDecl>,
    s: Stmt,
    visiting: Set<Seq<char>>,
    cache: Map<Seq<char>, InferredView>,
    out: InferredView,
) -> (InferredView, Map<Seq<char>, InferredView>)
    decreases remaining(fns, visiting), 2nat, stmt_height(s),
    when fns.dom().finite()
{
    match s {
        Stmt::Return(Some(e)) => {
            let (v, c) = expression_value(fns, e, visiting, cache);
            (iv_merge(out, v), c)
        },
        Stmt::Block(v) => statements_returns(fns, v@, visiting, cache, out),
        Stmt::If(cons, alt) => {
            let (o1, c1) = statement_returns(fns, *cons, visiting, cache, out);
            match alt {
                Some(a) => statement_returns(fns, *a, visiting, c1, o1),
                None => (o1, c1),
            }
        },
        _ => (out, cache),
    }
}

/// The value of a returned expression, and the cache afterwards: a call to
/// a named function caches that name's value.
pub open spec fn expression_value(
    fns: Map<Seq<char>, FunctionDecl>,
    e: Expr,
    visiting: Set<Seq<char>>,
    cache: Map<Seq<char>, InferredView>,
) -> (InferredView, Map<Seq<char>, InferredView>)
    decreases remaining(fns, visiting), 1nat, expr_height(e),
    when fns.dom().finite()
{
    match e {
        Expr::Str(v) => (iv_of_kind(KeyUse::Static(v@)), cache),
        Expr::Template(t) => (iv_of_kind(template_kind(t)), cache),
        Expr::Conditional(a, b) => {
            let (va, ca) = expression_value(fns, *a, visiting, cache);
            let (vb, cb) = expression_value(fns, *b, visiting, ca);
            (iv_merge(va, vb), cb)
        },
        Expr::Call(callee, _) => match *callee {
            Expr::Ident(n) => {
                let (v, c) = by_name(fns, n@, visiting, cache);
                (v, c.insert(n@, v))
            },
            _ => (iv_dynamic(), cache),
        },
        _ => (iv_dynamic(), cache),
    }
}

/// The cache after evaluating each of `names` in order, each value being
/// cached under its name.
pub open spec fn values_in_order(
    fns: Map<Seq<char>, FunctionDecl>,
    names: Seq<Seq<char>>,
) -> Map<Seq<char>, InferredView>
    decreases names.len(),
{
    if names.len() == 0 {
        Map::empty()
    } else {
        let c = values_in_order(fns, names.drop_last());
        let (v, c1) = by_name(fns, names.last(), Set::empty(), c);
        c1.insert(names.last(), v)
    }
}

/// The values of the top-level functions of a file.
pub open spec fn spec_function_values(fs: Seq<FunctionDecl>) -> Map<Seq<char>, InferredView> {
    values_in_order(decl_map(fs), decl_order(fs))
}

/// A table of declarations by name, holding for each name the position of
/// the declaration `decl_map` gives it, keyed in first-declaration order.
pub open spec fn decls_ok(fs: Seq<FunctionDecl>, t: Table<usize>) -> bool {
    &&& t.contents().dom() == decl_map(fs).dom()
    &&& forall|n: Seq<char>| #[trigger] t.contents().dom().contains(n) ==> t.contents()[n] < fs.len()
        && fs[t.contents()[n] as int] == decl_map(fs)[n]
    &&& t.key_order() == decl_order(fs)
    &&& decl_map(fs).dom().finite()
}

proof fn lemma_decl_order_keys(fs: Seq<FunctionDecl>)
    ensures
        forall|n: Seq<char>| decl_order(fs).contains(n) <==> decl_map(fs).dom().contains(n),
        decl_map(fs).dom().finite(),
    decreases fs.len(),
{
    if fs.len() > 0 {
        let d = fs.drop_last();
        lemma_decl_order_keys(d);
        let rest = decl_order(d);
        match fs.last().name {
            Some(n) => {
                if !rest.contains(n@) {
                    assert forall|m: Seq<char>| rest.push(n@).contains(m) <==> (rest.contains(m) || m == n@) by {
                        if rest.push(n@).contains(m) {
                            let k = choose|k: int| 0 <= k < rest.push(n@).len() && rest.push(n@)[k] == m;
                            if k < rest.len() {
                                assert(rest[k] == m);
                            }
                        }
                        if rest.contains(m) {
                            let k = choose|k: int| 0 <= k < rest.len() && rest[k] == m;
                            assert(rest.push(n@)[k] == m);
                        }
                        if m == n@ {
                            assert(rest.push(n@)[rest.len() as int] == m);
                        }
                    }
                }
            },
            None => {},
        }
        assert forall|m: Seq<char>| decl_order(fs).contains(m) <==> decl_map(fs).dom().contains(m) by {
            assert(rest.contains(m) <==> decl_map(d).dom().contains(m));
            match fs.last().name {
                Some(n) => {
                    if rest.contains(n@) {
                        assert(rest.contains(n@) <==> decl_map(d).dom().contains(n@));
                    }
                },
                None => {},
            }
        }
    }
}

/// The top-level function declarations by name.
pub fn collect_function_declarations(fs: &Vec<FunctionDecl>) -> (t: Table<usize>)
    ensures
        decls_ok(fs@, t),
{
    let mut t: Table<usize> = Table::new();
    let mut i: usize = 0;
    assert(fs@.take(0) =~= Seq::<FunctionDecl>::empty());
    assert(t.contents().dom() =~= decl_map(fs@.take(0)).dom());
    while i < fs.len()
        invariant
            i <= fs@.len(),
            t.contents().dom() == decl_map(fs@.take(i as int)).dom(),
            forall|n: Seq<char>| #[trigger] t.contents().dom().contains(n) ==> t.contents()[n] < i
                && fs@[t.contents()[n] as int] == decl_map(fs@.take(i as int))[n],
            t.key_order() == decl_order(fs@.take(i as int)),
        decreases fs@.len() - i,
    {
        assert(fs@.take(i + 1).drop_last() =~= fs@.take(i as int));
        assert(fs@.take(i + 1).last() == fs@[i as int]);
        match &fs[i].name {
            Some(n) => {
                t.insert(n.clone(), i);
                assert(t.contents().dom() =~= decl_map(fs@.take(i + 1)).dom());
            },
            None => {},
        }
        i += 1;
    }
    assert(fs@.take(i as int) =~= fs@);
    proof {
        lemma_decl_order_keys(fs@);
    }
    t
}

/// The value of the function called `name`, evaluating it when it is not
/// cached and not being evaluated already.
fn infer_function_by_name(
    name: &str,
    fs: &Vec<FunctionDecl>,
    decls: &Table<usize>,
    cache: &mut Table<InferredValue>,
    visiting: &mut Vec<String>,
) -> (r: InferredValue)
    requires
        decls_ok(fs@, *decls),
    ensures
        (r@, iv_map(final(cache).contents())) == by_name(
            decl_map(fs@),
            name@,
            strs(old(visiting)@).to_set(),
            iv_map(old(cache).contents()),
        ),
        final(visiting)@ == old(visiting)@,
    decreases remaining(decl_map(fs@), strs(old(visiting)@).to_set()), 0nat, 0nat,
{
    let ghost fns = decl_map(fs@);
    match cache.get(name) {
        Some(v) => {
            return v.duplicate();
        },
        None => {},
    }
    if contains_str(visiting, name) {
        return InferredValue::dynamic();
    }
    match decls.get(name) {
        Some(index) => {
            let ghost v0 = strs(visiting@).to_set();
            visiting.push(owned(name));
            proof {
                assert(strs(visiting@) =~= strs(old(visiting)@).push(name@));
                crate::strings::lemma_push_to_set(strs(old(visiting)@), name@);
                lemma_remaining_decreases(fns, v0, name@);
            }
            let inferred = infer_function_returns(&fs[*index], fs, decls, cache, visiting);
            visiting.pop();
            assert(visiting@ =~= old(visiting)@);
            inferred
        },
        None => InferredValue::dynamic(),
    }
}

/// The value a function returns.
fn infer_function_returns(
    function: &FunctionDecl,
    fs: &Vec<FunctionDecl>,
    decls: &Table<usize>,
    cache: &mut Table<InferredValue>,
    visiting: &mut Vec<String>,
) -> (r: InferredValue)
    requires
        decls_ok(fs@, *decls),
    ensures
        (r@, iv_map(final(cache).contents())) == function_returns(
            decl_map(fs@),
            *function,
            strs(old(visiting)@).to_set(),
            iv_map(old(cache).contents()),
        ),
        final(visiting)@ == old(visiting)@,
    decreases remaining(decl_map(fs@), strs(old(visiting)@).to_set()), 3nat, 0nat,
{
    let body = match &function.body {
        Some(b) => b,
        None => {
            return InferredValue::dynamic();
        },
    };
    let mut out = InferredValue::empty();
    infer_returns_from_statements(body, fs, decls, cache, visiting, &mut out);
    if out.statics_empty() && out.prefixes_empty() && !out.is_dynamic() {
        out.set_dynamic();
    }
    out
}

/// Adds the values returned by the statements to `out`.
fn infer_returns_from_statements(
    statements: &Vec<Stmt>,
    fs: &Vec<FunctionDecl>,
    decls: &Table<usize>,
    cache: &mut Table<InferredValue>,
    visiting: &mut Vec<String>,
    out: &mut InferredValue,
)
    requires
        decls_ok(fs@, *decls),
    ensures
        (final(out)@, iv_map(final(cache).contents())) == statements_returns(
            decl_map(fs@),
            statements@,
            strs(old(visiting)@).to_set(),
            iv_map(old(cache).contents()),
            old(out)@,
        ),
        final(visiting)@ == old(visiting)@,
    decreases remaining(decl_map(fs@), strs(old(visiting)@).to_set()), 2nat, statements_height(statements@),
{
    let ghost fns = decl_map(fs@);
    let ghost vs = strs(visiting@).to_set();
    let ghost c0 = iv_map(cache.contents());
    let ghost o0 = out@;
    let mut i: usize = 0;
    assert(statements@.subrange(0, 0) =~= Seq::<Stmt>::empty());
    while i < statements.len()
        invariant
            i <= statements@.len(),
            decls_ok(fs@, *decls),
            fns == decl_map(fs@),
            visiting@ == old(visiting)@,
            vs == strs(visiting@).to_set(),
            (out@, iv_map(cache.contents())) == statements_returns(fns, statements@.subrange(0, i as int), vs, c0, o0),
        decreases statements@.len() - i,
    {
        let ghost prefix = statements@.subrange(0, i + 1);
        assert(prefix.subrange(0, prefix.len() - 1) =~= statements@.subrange(0, i as int));
        assert(prefix[prefix.len() - 1] == statements@[i as int]);
        proof {
            lemma_statement_height_bound(statements@, i as int);
        }
        infer_returns_from_statement(&statements[i], fs, decls, cache, visiting, out);
        i += 1;
    }
    assert(statements@.subrange(0, i as int) =~= statements@);
}

/// A statement of a list is lower than the list.
proof fn lemma_statement_height_bound(ss: Seq<Stmt>, i: int)
    requires
        0 <= i < ss.len(),
    ensures
        stmt_height(ss[i]) < statements_height(ss),
    decreases ss.len(),
{
    if i < ss.len() - 1 {
        let d = ss.subrange(0, ss.len() - 1);
        assert(d[i] == ss[i]);
        lemma_statement_height_bound(d, i);
    }
}

/// Adds the values returned by a statement to `out`.
fn infer_returns_from_statement(
    statement: &Stmt,
    fs: &Vec<FunctionDecl>,
    decls: &Table<usize>,
    cache: &mut Table<InferredValue>,
    visiting: &mut Vec<String>,
    out: &mut InferredValue,
)
    requires
        decls_ok(fs@, *decls),
    ensures
        (final(out)@, iv_map(final(cache).contents())) == statement_returns(
            decl_map(fs@),
            *statement,
            strs(old(visiting)@).to_set(),
            iv_map(old(cache).contents()),
            old(out)@,
        ),
        final(visiting)@ == old(visiting)@,
    decreases remaining(decl_map(fs@), strs(old(visiting)@).to_set()), 2nat, stmt_height(*statement),
{
    match statement {
        Stmt::Return(Some(argument)) => {
            let value = infer_expression_with_functions(argument, fs, decls, cache, visiting);
            out.merge(value);
        },
        Stmt::Block(body) => {
            infer_returns_from_statements(body, fs, decls, cache, visiting, out);
        },
        Stmt::If(consequent, alternate) => {
            infer_returns_from_statement(consequent, fs, decls, cache, visiting, out);
            match alternate {
                Some(a) => {
                    infer_returns_from_statement(a, fs, decls, cache, visiting, out);
                },
                None => {},
            }
        },
        _ => {},
    }
}

/// The value of a returned expression.
fn infer_expression_with_functions(
    expression: &Expr,
    fs: &Vec<FunctionDecl>,
    decls: &Table<usize>,
    cache: &mut Table<InferredValue>,
    visiting: &mut Vec<String>,
) -> (r: InferredValue)
    requires
        decls_ok(fs@, *decls),
    ensures
        (r@, iv_map(final(cache).contents())) == expression_value(
            decl_map(fs@),
            *expression,
            strs(old(visiting)@).to_set(),
            iv_map(old(cache).contents()),
        ),
        final(visiting)@ == old(visiting)@,
    decreases remaining(decl_map(fs@), strs(old(visiting)@).to_set()), 1nat, expr_height(*expression),
{
    match expression {
        Expr::Str(s) => InferredValue::from_usage_kind(UsageKind::Static(s.clone())),
        Expr::Template(tpl) => InferredValue::from_usage_kind(classify_template_literal(tpl)),
        Expr::Conditional(consequent, alternate) => {
            let mut out = infer_expression_with_functions(consequent, fs, decls, cache, visiting);
            let other = infer_expression_with_functions(alternate, fs, decls, cache, visiting);
            out.merge(other);
            out
        },
        Expr::Call(callee, _) => {
            let name = match &**callee {
                Expr::Ident(n) => n,
                _ => {
                    return InferredValue::dynamic();
                },
            };
            let inferred = infer_function_by_name(name.as_str(), fs, decls, cache, visiting);
            let ghost c = cache.contents();
            cache.insert(name.clone(), inferred.duplicate());
            assert(iv_map(cache.contents()) =~= iv_map(c).insert(name@, inferred@));
            inferred
        },
        _ => InferredValue::dynamic(),
    }
}

/// The values of the file's top-level functions, evaluated in order of
/// first declaration.
pub fn infer_function_values(fs: &Vec<FunctionDecl>) -> (values: Table<InferredValue>)
    ensures
        iv_map(values.contents()) == spec_function_values(fs@),
{
    let decls = collect_function_declarations(fs);
    let mut cache: Table<InferredValue> = Table::new();
    let mut visiting: Vec<String> = Vec::new();
    let names = decls.entries();
    let ghost fns = decl_map(fs@);
    let ghost order = decl_order(fs@);
    let mut i: usize = 0;
    assert(iv_map(cache.contents()) =~= Map::empty());
    assert(crate::table::keys_of(names@).take(0) =~= Seq::<Seq<char>>::empty());
    while i < names.len()
        invariant
            i <= names@.len(),
            decls_ok(fs@, decls),
            fns == decl_map(fs@),
            crate::table::keys_of(names@) == order,
            visiting@.len() == 0,
            iv_map(cache.contents()) == values_in_order(fns, order.take(i as int)),
        decreases names@.len() - i,
    {
        let name = &names[i].0;
        assert(order.take(i + 1).drop_last() =~= order.take(i as int));
        assert(order.take(i + 1).last() == name@);
        assert(strs(visiting@).to_set() =~= Set::empty());
        let inferred = infer_function_by_name(name.as_str(), fs, &decls, &mut cache, &mut visiting);
        let ghost c = cache.contents();
        cache.insert(name.clone(), inferred.duplicate());
        assert(iv_map(cache.contents()) =~= iv_map(c).insert(name@, inferred@));
        i += 1;
    }
    assert(order.take(i as int) =~= order);
    cache
}

/// The string literals that `return` statements of `s` return, in blocks
/// and in both branches of an `if`.
pub open spec fn literal_returns(s: Stmt) -> Set<Seq<char>>
    decreases s,
{
    match s {
        Stmt::Return(Some(Expr::Str(k))) => set![k@],
        Stmt::Block(v) => literal_returns_all(v@),
        Stmt::If(c, a) => literal_returns(*c).union(
            match a {
                Some(x) => literal_returns(*x),
                None => Set::empty(),
            },
        ),
        _ => Set::empty(),
    }
}

/// The string literals that `return` statements of a statement list
/// return.
pub open spec fn literal_returns_all(ss: Seq<Stmt>) -> Set<Seq<char>>
    decreases ss,
{
    if ss.len() == 0 {
        Set::empty()
    } else {
        literal_returns_all(ss.subrange(0, ss.len() - 1)).union(literal_returns(ss[ss.len() - 1]))
    }
}

/// The keys a statement adds: what was there stays, and every string
/// literal that a `return` of the statement returns, in either branch of
/// an `if`, is among the keys afterwards.
pub proof fn law_statement_returns_keep_literals(
    fns: Map<Seq<char>, FunctionDecl>,
    s: Stmt,
    visiting: Set<Seq<char>>,
    cache: Map<Seq<char>, InferredView>,
    out: InferredView,
)
    requires
        fns.dom().finite(),
    ensures
        out.statics.union(literal_returns(s)).subset_of(statement_returns(fns, s, visiting, cache, out).0.statics),
    decreases s, 1nat,
{
    let r = statement_returns(fns, s, visiting, cache, out).0;
    match s {
        Stmt::Return(Some(e)) => {
            let (v, c) = expression_value(fns, e, visiting, cache);
            assert(r == iv_merge(out, v));
            match e {
                Expr::Str(k) => {
                    assert(v == iv_of_kind(KeyUse::Static(k@)));
                    assert(literal_returns(s) == set![k@]);
                    assert(v.statics.contains(k@));
                },
                _ => {
                    assert(literal_returns(s) =~= Set::<Seq<char>>::empty());
                },
            }
        },
        Stmt::Block(v) => {
            assert(decreases_to!(s => s->Block_0));
            lemma_statements_returns_keep_literals(fns, v@, visiting, cache, out);
        },
        Stmt::If(c, a) => {
            law_statement_returns_keep_literals(fns, *c, visiting, cache, out);
            let (o1, c1) = statement_returns(fns, *c, visiting, cache, out);
            match a {
                Some(x) => {
                    law_statement_returns_keep_literals(fns, *x, visiting, c1, o1);
                },
                None => {
                    assert(literal_returns(s) =~= literal_returns(*c));
                },
            }
        },
        _ => {
            assert(literal_returns(s) =~= Set::<Seq<char>>::empty());
            assert(r == out);
        },
    }
}

/// The keys a statement list adds keep what was there and every string
/// literal returned in it.
proof fn lemma_statements_returns_keep_literals(
    fns: Map<Seq<char>, FunctionDecl>,
    ss: Seq<Stmt>,
    visiting: Set<Seq<char>>,
    cache: Map<Seq<char>, InferredView>,
    out: InferredView,
)
    requires
        fns.dom().finite(),
    ensures
        out.statics.union(literal_returns_all(ss)).subset_of(statements_returns(fns, ss, visiting, cache, out).0.statics),
    decreases ss, 0nat,
{
    if ss.len() > 0 {
        let init = ss.subrange(0, ss.len() - 1);
        assert(decreases_to!(ss => init));
        lemma_statements_returns_keep_literals(fns, init, visiting, cache, out);
        let (o, c) = statements_returns(fns, init, visiting, cache, out);
        assert(decreases_to!(ss => ss[ss.len() - 1]));
        law_statement_returns_keep_literals(fns, ss[ss.len() - 1], visiting, c, o);
    }
}

/// A function's value holds every string literal that a `return` of its
/// body returns, in blocks and in both branches of every `if`.
pub proof fn law_function_returns_hold_literals(
    fns: Map<Seq<char>, FunctionDecl>,
    f: FunctionDecl,
    body: Vec<Stmt>,
    visiting: Set<Seq<char>>,
    cache: Map<Seq<char>, InferredView>,
)
    requires
        fns.dom().finite(),
        f.body == Some(body),
    ensures
        literal_returns_all(body@).subset_of(function_returns(fns, f, visiting, cache).0.statics),
{
    lemma_statements_returns_keep_literals(fns, body@, visiting, cache, iv_empty());
}

} // verus!

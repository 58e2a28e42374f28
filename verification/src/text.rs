//! Character-level string helpers used by the analysis.
//!
//! Strings are reasoned about through their view, the sequence of their
//! characters. The ordering of strings is the one `str` documents for `Ord`:
//! lexicographic over bytes, which for UTF-8 text is lexicographic over
//! characters ordered by their scalar value.
use vstd::prelude::*;

verus! {

broadcast use vstd::string::group_string_axioms;

/// The characters of an optional string.
pub open spec fn opt_view(o: Option<String>) -> Option<Seq<char>> {
    match o {
        Some(s) => Some(s@),
        None => None,
    }
}

/// `p` is a prefix of `s`.
pub open spec fn has_prefix(s: Seq<char>, p: Seq<char>) -> bool {
    p.len() <= s.len() && s.subrange(0, p.len() as int) == p
}

/// `p` is a suffix of `s`.
pub open spec fn has_suffix(s: Seq<char>, p: Seq<char>) -> bool {
    p.len() <= s.len() && s.subrange(s.len() - p.len(), s.len() as int) == p
}

/// Strict lexicographic order on character sequences.
pub open spec fn seq_lt(a: Seq<char>, b: Seq<char>) -> bool
    decreases a.len(),
{
    if a.len() == 0 {
        b.len() > 0
    } else if b.len() == 0 {
        false
    } else if a[0] < b[0] {
        true
    } else if a[0] == b[0] {
        seq_lt(a.drop_first(), b.drop_first())
    } else {
        false
    }
}

/// No sequence is smaller than itself.
pub proof fn lemma_lt_irreflexive(a: Seq<char>)
    ensures
        !seq_lt(a, a),
    decreases a.len(),
{
    if a.len() > 0 {
        lemma_lt_irreflexive(a.drop_first());
    }
}

/// Two distinct sequences are ordered one way or the other, never both.
pub proof fn lemma_lt_total(a: Seq<char>, b: Seq<char>)
    ensures
        a != b ==> (seq_lt(a, b) || seq_lt(b, a)),
        !(seq_lt(a, b) && seq_lt(b, a)),
    decreases a.len(),
{
    if a.len() > 0 && b.len() > 0 {
        lemma_lt_total(a.drop_first(), b.drop_first());
        if a != b && a[0] == b[0] {
            assert(a =~= seq![a[0]] + a.drop_first());
            assert(b =~= seq![b[0]] + b.drop_first());
        }
    } else if a.len() == 0 && b.len() == 0 {
        assert(a =~= b);
    }
}

/// The order is transitive.
pub proof fn lemma_lt_transitive(a: Seq<char>, b: Seq<char>, c: Seq<char>)
    requires
        seq_lt(a, b),
        seq_lt(b, c),
    ensures
        seq_lt(a, c),
    decreases a.len(),
{
    if a.len() > 0 && b.len() > 0 && c.len() > 0 {
        if a[0] == b[0] && b[0] == c[0] {
            lemma_lt_transitive(a.drop_first(), b.drop_first(), c.drop_first());
        }
    }
}

/// Appends one character to a string.
///
/// Trusted: calls `String::push`, whose documentation says it appends the
/// given `char` to the end of the string.
#[verifier::external_body]
pub(crate) fn push_char(s: &mut String, c: char)
    ensures
        final(s)@ == old(s)@.push(c),
{
    s.push(c);
}

/// The characters of `s`, in order.
pub fn chars_of(s: &str) -> (v: Vec<char>)
    ensures
        v@ == s@,
{
    let mut v: Vec<char> = Vec::new();
    for c in it: s.chars()
        invariant
            v@ == it.seq().take(it.index()),
    {
        v.push(c);
    }
    v
}

/// Appends the characters `v[from..to]` to `s`.
pub(crate) fn push_chars(s: &mut String, v: &Vec<char>, from: usize, to: usize)
    requires
        from <= to <= v@.len(),
    ensures
        final(s)@ == old(s)@ + v@.subrange(from as int, to as int),
{
    let mut i = from;
    while i < to
        invariant
            from <= i <= to <= v@.len(),
            s@ == old(s)@ + v@.subrange(from as int, i as int),
        decreases to - i,
    {
        push_char(s, v[i]);
        i += 1;
        assert(v@.subrange(from as int, i as int) =~= v@.subrange(from as int, (i - 1) as int).push(
            v@[i - 1],
        ));
    }
}

/// A new string holding the characters `v[from..to]`.
pub fn string_of(v: &Vec<char>, from: usize, to: usize) -> (s: String)
    requires
        from <= to <= v@.len(),
    ensures
        s@ == v@.subrange(from as int, to as int),
{
    let mut s = String::new();
    push_chars(&mut s, v, from, to);
    assert(Seq::<char>::empty() + v@.subrange(from as int, to as int) =~= v@.subrange(
        from as int,
        to as int,
    ));
    s
}

/// Appends the characters of `t` to `s`.
pub fn push_str(s: &mut String, t: &str)
    ensures
        final(s)@ == old(s)@ + t@,
{
    let v = chars_of(t);
    push_chars(s, &v, 0, v.len());
    assert(v@.subrange(0, v@.len() as int) =~= v@);
}

/// A copy of `t` as an owned string.
pub fn owned(t: &str) -> (s: String)
    ensures
        s@ == t@,
{
    let mut s = String::new();
    push_str(&mut s, t);
    assert(Seq::<char>::empty() + t@ =~= t@);
    s
}

/// Whether `a` and `b` hold the same characters.
pub fn str_eq(a: &str, b: &str) -> (r: bool)
    ensures
        r == (a@ == b@),
{
    let x = chars_of(a);
    let y = chars_of(b);
    if x.len() != y.len() {
        return false;
    }
    let mut i: usize = 0;
    while i < x.len()
        invariant
            x@ == a@,
            y@ == b@,
            x@.len() == y@.len(),
            i <= x@.len(),
            x@.subrange(0, i as int) == y@.subrange(0, i as int),
        decreases x@.len() - i,
    {
        if x[i] != y[i] {
            assert(x@[i as int] != y@[i as int]);
            assert(x@ != y@);
            return false;
        }
        i += 1;
        assert(x@.subrange(0, i as int) =~= x@.subrange(0, (i - 1) as int).push(x@[i - 1]));
        assert(y@.subrange(0, i as int) =~= y@.subrange(0, (i - 1) as int).push(y@[i - 1]));
    }
    assert(x@ =~= x@.subrange(0, i as int));
    assert(y@ =~= y@.subrange(0, i as int));
    true
}

/// Whether `s` starts with `p`.
pub fn starts_with(s: &str, p: &str) -> (r: bool)
    ensures
        r == has_prefix(s@, p@),
{
    let x = chars_of(s);
    let y = chars_of(p);
    if y.len() > x.len() {
        return false;
    }
    let mut i: usize = 0;
    while i < y.len()
        invariant
            x@ == s@,
            y@ == p@,
            y@.len() <= x@.len(),
            i <= y@.len(),
            x@.subrange(0, i as int) == y@.subrange(0, i as int),
        decreases y@.len() - i,
    {
        if x[i] != y[i] {
            assert(x@.subrange(0, y@.len() as int)[i as int] != y@[i as int]);
            assert(x@.subrange(0, y@.len() as int) != y@);
            return false;
        }
        i += 1;
        assert(x@.subrange(0, i as int) =~= x@.subrange(0, (i - 1) as int).push(x@[i - 1]));
        assert(y@.subrange(0, i as int) =~= y@.subrange(0, (i - 1) as int).push(y@[i - 1]));
    }
    assert(y@ =~= y@.subrange(0, i as int));
    true
}

/// Whether `s` ends with `p`.
pub fn ends_with(s: &str, p: &str) -> (r: bool)
    ensures
        r == has_suffix(s@, p@),
{
    let x = chars_of(s);
    let y = chars_of(p);
    if y.len() > x.len() {
        return false;
    }
    let offset = x.len() - y.len();
    let mut i: usize = 0;
    while i < y.len()
        invariant
            x@ == s@,
            y@ == p@,
            y@.len() <= x@.len(),
            offset == x@.len() - y@.len(),
            x@.len() <= usize::MAX,
            i <= y@.len(),
            x@.subrange(offset as int, offset + i) == y@.subrange(0, i as int),
        decreases y@.len() - i,
    {
        if x[offset + i] != y[i] {
            assert(x@.subrange(offset as int, x@.len() as int)[i as int] != y@[i as int]);
            assert(x@.subrange(offset as int, x@.len() as int) != y@);
            return false;
        }
        i += 1;
        assert(x@.subrange(offset as int, offset + i) =~= x@.subrange(offset as int, offset + i - 1).push(
            x@[offset + i - 1],
        ));
        assert(y@.subrange(0, i as int) =~= y@.subrange(0, (i - 1) as int).push(y@[i - 1]));
    }
    assert(y@ =~= y@.subrange(0, i as int));
    true
}

/// Whether `a` comes strictly before `b`.
pub fn str_lt(a: &str, b: &str) -> (r: bool)
    ensures
        r == seq_lt(a@, b@),
{
    let x = chars_of(a);
    let y = chars_of(b);
    let mut i: usize = 0;
    assert(x@.skip(0) =~= x@);
    assert(y@.skip(0) =~= y@);
    while i < x.len() && i < y.len() && x[i] == y[i]
        invariant
            i <= x@.len(),
            i <= y@.len(),
            seq_lt(x@, y@) == seq_lt(x@.skip(i as int), y@.skip(i as int)),
        decreases x@.len() - i,
    {
        assert(x@.skip(i as int).drop_first() =~= x@.skip(i + 1));
        assert(y@.skip(i as int).drop_first() =~= y@.skip(i + 1));
        i += 1;
    }
    if i == x.len() {
        i < y.len()
    } else if i == y.len() {
        false
    } else {
        x[i] < y[i]
    }
}

/// `s` with every `from` replaced by `to`.
pub open spec fn replace_char(s: Seq<char>, from: char, to: char) -> Seq<char> {
    s.map_values(|c: char| if c == from { to } else { c })
}

/// Replaces every backslash of `s` with a forward slash.
pub fn backslashes_to_slashes(s: &str) -> (r: String)
    ensures
        r@ == replace_char(s@, '\\', '/'),
{
    let v = chars_of(s);
    let mut r = String::new();
    let mut i: usize = 0;
    while i < v.len()
        invariant
            i <= v@.len(),
            r@ == replace_char(v@.subrange(0, i as int), '\\', '/'),
        decreases v@.len() - i,
    {
        let c = v[i];
        if c == '\\' {
            push_char(&mut r, '/');
        } else {
            push_char(&mut r, c);
        }
        i += 1;
        assert(replace_char(v@.subrange(0, i as int), '\\', '/') =~= replace_char(
            v@.subrange(0, (i - 1) as int),
            '\\',
            '/',
        ).push(if c == '\\' { '/' } else { c }));
    }
    assert(v@.subrange(0, i as int) =~= v@);
    r
}

} // verus!

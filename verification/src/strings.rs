//! Vectors of strings used as sets: sorted sets (ordered like a `BTreeSet`)
//! and sets that keep the order of first insertion (like a `HashSet` whose
//! walk order nobody relies on).
use vstd::prelude::*;
use crate::text::{lemma_lt_irreflexive, lemma_lt_total, lemma_lt_transitive, seq_lt, str_eq, str_lt};

verus! {

/// The character sequences of a sequence of strings.
pub open spec fn strs(v: Seq<String>) -> Seq<Seq<char>> {
    v.map_values(|s: String| s@)
}

/// `q` is strictly increasing, hence free of repetitions.
pub open spec fn sorted(q: Seq<Seq<char>>) -> bool {
    forall|i: int, j: int| 0 <= i < j < q.len() ==> seq_lt(#[trigger] q[i], #[trigger] q[j])
}

/// `q` holds no element twice.
pub open spec fn distinct(q: Seq<Seq<char>>) -> bool {
    forall|i: int, j: int| 0 <= i < j < q.len() ==> #[trigger] q[i] != #[trigger] q[j]
}

/// The unique strictly increasing arrangement of a finite set.
pub open spec fn sorted_of(s: Set<Seq<char>>) -> Seq<Seq<char>> {
    choose|q: Seq<Seq<char>>| sorted(q) && q.to_set() == s
}

/// Two strictly increasing sequences with the same elements are equal.
pub proof fn lemma_sorted_unique(a: Seq<Seq<char>>, b: Seq<Seq<char>>)
    requires
        sorted(a),
        sorted(b),
        a.to_set() == b.to_set(),
    ensures
        a == b,
    decreases a.len(),
{
    if a.len() == 0 {
        if b.len() > 0 {
            assert(b.to_set().contains(b[0]));
            assert(!a.to_set().contains(b[0]));
        }
        assert(a =~= b);
    } else if b.len() == 0 {
        assert(a.to_set().contains(a[0]));
    } else {
        // the first elements are both the least element of the set
        assert(a.to_set().contains(b[0]));
        assert(b.to_set().contains(a[0]));
        let ia = choose|i: int| 0 <= i < a.len() && a[i] == b[0];
        let ib = choose|i: int| 0 <= i < b.len() && b[i] == a[0];
        if a[0] != b[0] {
            assert(ia > 0);
            assert(ib > 0);
            assert(seq_lt(a[0], b[0]));
            assert(seq_lt(b[0], a[0]));
            lemma_lt_total(a[0], b[0]);
        }
        let ra = a.drop_first();
        let rb = b.drop_first();
        assert forall|x: Seq<char>| ra.to_set().contains(x) <==> rb.to_set().contains(x) by {
            if ra.to_set().contains(x) {
                let k = choose|k: int| 0 <= k < ra.len() && ra[k] == x;
                assert(a[k + 1] == x);
                assert(seq_lt(a[0], x));
                lemma_lt_irreflexive(x);
                assert(b.to_set().contains(x));
                let m = choose|m: int| 0 <= m < b.len() && b[m] == x;
                assert(m != 0);
                assert(rb[m - 1] == x);
            }
            if rb.to_set().contains(x) {
                let k = choose|k: int| 0 <= k < rb.len() && rb[k] == x;
                assert(b[k + 1] == x);
                assert(seq_lt(b[0], x));
                lemma_lt_irreflexive(x);
                assert(a.to_set().contains(x));
                let m = choose|m: int| 0 <= m < a.len() && a[m] == x;
                assert(m != 0);
                assert(ra[m - 1] == x);
            }
        }
        assert(ra.to_set() =~= rb.to_set());
        lemma_sorted_unique(ra, rb);
        assert(a =~= seq![a[0]] + ra);
        assert(b =~= seq![b[0]] + rb);
    }
}

/// A strictly increasing sequence is the arrangement `sorted_of` names.
pub proof fn lemma_sorted_of(q: Seq<Seq<char>>)
    requires
        sorted(q),
    ensures
        sorted_of(q.to_set()) == q,
{
    let r = sorted_of(q.to_set());
    assert(sorted(q) && q.to_set() == q.to_set());
    lemma_sorted_unique(r, q);
}

/// A finite non-empty set of strings has a greatest element.
proof fn lemma_greatest(s: Set<Seq<char>>) -> (m: Seq<char>)
    requires
        s.finite(),
        s.len() > 0,
    ensures
        s.contains(m),
        forall|x: Seq<char>| s.contains(x) && x != m ==> seq_lt(x, m),
    decreases s.len(),
{
    let a = s.choose();
    let rest = s.remove(a);
    if rest.len() == 0 {
        assert forall|x: Seq<char>| s.contains(x) && x != a implies seq_lt(x, a) by {
            assert(rest.contains(x));
        }
        a
    } else {
        let m2 = lemma_greatest(rest);
        lemma_lt_total(m2, a);
        if seq_lt(m2, a) {
            assert forall|x: Seq<char>| s.contains(x) && x != a implies seq_lt(x, a) by {
                assert(rest.contains(x));
                if x != m2 {
                    lemma_lt_transitive(x, m2, a);
                }
            }
            a
        } else {
            assert forall|x: Seq<char>| s.contains(x) && x != m2 implies seq_lt(x, m2) by {
                if x != a {
                    assert(rest.contains(x));
                }
            }
            m2
        }
    }
}

/// Every finite set of strings has an increasing arrangement, which
/// `sorted_of` names.
pub proof fn lemma_sorted_of_exists(s: Set<Seq<char>>)
    requires
        s.finite(),
    ensures
        sorted(sorted_of(s)),
        sorted_of(s).to_set() == s,
    decreases s.len(),
{
    if s.len() == 0 {
        s.lemma_len0_is_empty();
        let q = Seq::<Seq<char>>::empty();
        assert(q.to_set() =~= s);
        assert(sorted(q) && q.to_set() == s);
    } else {
        let m = lemma_greatest(s);
        let rest = s.remove(m);
        lemma_sorted_of_exists(rest);
        let r = sorted_of(rest);
        let q = r.push(m);
        lemma_push_to_set(r, m);
        assert(rest.insert(m) =~= s);
        assert forall|i: int, j: int| 0 <= i < j < q.len() implies seq_lt(#[trigger] q[i], #[trigger] q[j]) by {
            if j == q.len() - 1 {
                assert(r.to_set().contains(r[i]));
                assert(q[i] == r[i]);
            } else {
                assert(q[i] == r[i] && q[j] == r[j]);
            }
        }
        assert(sorted(q) && q.to_set() == s);
    }
}

/// Appending an element adds it to the set of elements.
pub proof fn lemma_push_to_set(s: Seq<Seq<char>>, x: Seq<char>)
    ensures
        s.push(x).to_set() == s.to_set().insert(x),
{
    assert forall|y: Seq<char>| s.push(x).to_set().contains(y) implies s.to_set().insert(x).contains(y) by {
        let k = choose|k: int| 0 <= k < s.push(x).len() && s.push(x)[k] == y;
        if k < s.len() {
            assert(s[k] == y);
        }
    }
    assert forall|y: Seq<char>| s.to_set().insert(x).contains(y) implies s.push(x).to_set().contains(y) by {
        if y == x {
            assert(s.push(x)[s.len() as int] == y);
        } else {
            let k = choose|k: int| 0 <= k < s.len() && s[k] == y;
            assert(s.push(x)[k] == y);
        }
    }
    assert(s.push(x).to_set() =~= s.to_set().insert(x));
}

/// A copy of a vector of strings.
pub fn copy_strings(v: &Vec<String>) -> (r: Vec<String>)
    ensures
        r@ == v@,
{
    let mut r: Vec<String> = Vec::new();
    let mut i: usize = 0;
    while i < v.len()
        invariant
            i <= v@.len(),
            r@ == v@.subrange(0, i as int),
        decreases v@.len() - i,
    {
        r.push(v[i].clone());
        i += 1;
        assert(r@ =~= v@.subrange(0, i as int));
    }
    assert(v@.subrange(0, i as int) =~= v@);
    r
}

/// Whether some element of `v` has the characters of `s`.
pub fn contains_str(v: &Vec<String>, s: &str) -> (r: bool)
    ensures
        r == strs(v@).contains(s@),
{
    let mut i: usize = 0;
    while i < v.len()
        invariant
            i <= v@.len(),
            forall|j: int| 0 <= j < i ==> v@[j]@ != s@,
        decreases v@.len() - i,
    {
        if str_eq(v[i].as_str(), s) {
            assert(strs(v@)[i as int] == s@);
            return true;
        }
        i += 1;
    }
    assert forall|j: int| 0 <= j < strs(v@).len() implies strs(v@)[j] != s@ by {}
    false
}

/// Inserts `s` into the strictly increasing vector `v`, unless it is
/// already there.
pub fn insert_sorted(v: &mut Vec<String>, s: String)
    requires
        sorted(strs(old(v)@)),
    ensures
        sorted(strs(final(v)@)),
        strs(final(v)@).to_set() == strs(old(v)@).to_set().insert(s@),
{
    let ghost old_q = strs(v@);
    let mut i: usize = 0;
    while i < v.len() && str_lt(v[i].as_str(), s.as_str())
        invariant
            i <= v@.len(),
            strs(v@) == old_q,
            sorted(old_q),
            forall|j: int| 0 <= j < i ==> seq_lt(#[trigger] old_q[j], s@),
        decreases v@.len() - i,
    {
        i += 1;
    }
    if i < v.len() && str_eq(v[i].as_str(), s.as_str()) {
        assert(old_q[i as int] == s@);
        assert(old_q.to_set().insert(s@) =~= old_q.to_set());
        return;
    }
    let ghost sv = s@;
    v.insert(i, s);
    let ghost q = strs(v@);
    assert(q =~= old_q.insert(i as int, sv));
    assert forall|a: int, b: int| 0 <= a < b < q.len() implies seq_lt(#[trigger] q[a], #[trigger] q[b]) by {
        if i < old_q.len() {
            // `s` comes before the element it was inserted in front of
            lemma_lt_total(old_q[i as int], sv);
            assert(seq_lt(sv, old_q[i as int]));
        }
        if a < i && b == i {
        } else if a < i && b > i {
            assert(q[b] == old_q[b - 1]);
            if b - 1 > a {
                assert(seq_lt(old_q[a], old_q[b - 1]));
            } else {
                assert(a == i - 1 && b - 1 == i);
            }
            if i < old_q.len() && b - 1 > i {
                lemma_lt_transitive(sv, old_q[i as int], old_q[b - 1]);
            }
            if i < old_q.len() {
                if b - 1 == i {
                    lemma_lt_transitive(old_q[a], sv, old_q[i as int]);
                } else {
                    lemma_lt_transitive(old_q[a], sv, old_q[b - 1]);
                }
            }
        } else if a == i {
            assert(q[b] == old_q[b - 1]);
            if b - 1 > i {
                lemma_lt_transitive(sv, old_q[i as int], old_q[b - 1]);
            }
        } else if b < i {
            assert(q[a] == old_q[a]);
            assert(q[b] == old_q[b]);
        } else {
            assert(q[a] == old_q[a - 1]);
            assert(q[b] == old_q[b - 1]);
        }
    }
    assert(q.to_set() =~= old_q.to_set().insert(sv)) by {
        assert forall|x: Seq<char>| q.to_set().contains(x) implies old_q.to_set().insert(sv).contains(x) by {
            let k = choose|k: int| 0 <= k < q.len() && q[k] == x;
            if k < i {
                assert(old_q[k] == x);
            } else if k > i {
                assert(old_q[k - 1] == x);
            }
        }
        assert forall|x: Seq<char>| old_q.to_set().insert(sv).contains(x) implies q.to_set().contains(x) by {
            if x == sv {
                assert(q[i as int] == x);
            } else {
                let k = choose|k: int| 0 <= k < old_q.len() && old_q[k] == x;
                if k < i {
                    assert(q[k] == x);
                } else {
                    assert(q[k + 1] == x);
                }
            }
        }
    }
}

/// Inserts `s` at the end of `v` unless `v` already holds it.
pub fn insert_distinct(v: &mut Vec<String>, s: String)
    requires
        distinct(strs(old(v)@)),
    ensures
        distinct(strs(final(v)@)),
        strs(final(v)@) == if strs(old(v)@).contains(s@) {
            strs(old(v)@)
        } else {
            strs(old(v)@).push(s@)
        },
{
    if contains_str(v, s.as_str()) {
        return;
    }
    let ghost sv = s@;
    v.push(s);
    assert(strs(v@) =~= strs(old(v)@).push(sv));
}

} // verus!

//! What an expression may evaluate to, as far as translation keys go: exact
//! keys, key prefixes, and whether anything else is possible.
use vstd::prelude::*;
use crate::source::{KeyUse, UsageKind};
use crate::strings::{copy_strings, insert_sorted, lemma_push_to_set, lemma_sorted_of, sorted, sorted_of, strs};

verus! {

/// The possible key values of an expression, as sets.
#[verifier::ext_equal]
pub struct InferredView {
    pub statics: Set<Seq<char>>,
    pub prefixes: Set<Seq<char>>,
    pub dynamic: bool,
}

/// An expression that may be anything at all.
pub open spec fn iv_dynamic() -> InferredView {
    InferredView { statics: Set::empty(), prefixes: Set::empty(), dynamic: true }
}

/// An expression about which nothing is known yet.
pub open spec fn iv_empty() -> InferredView {
    InferredView { statics: Set::empty(), prefixes: Set::empty(), dynamic: false }
}

/// The value of a single usage kind.
pub open spec fn iv_of_kind(k: KeyUse) -> InferredView {
    match k {
        KeyUse::Static(s) => InferredView { statics: set![s], prefixes: Set::empty(), dynamic: false },
        KeyUse::Prefix(p) => InferredView { statics: Set::empty(), prefixes: set![p], dynamic: false },
        KeyUse::Dynamic => iv_dynamic(),
    }
}

/// An expression that may evaluate to what either `a` or `b` may.
pub open spec fn iv_merge(a: InferredView, b: InferredView) -> InferredView {
    InferredView {
        statics: a.statics.union(b.statics),
        prefixes: a.prefixes.union(b.prefixes),
        dynamic: a.dynamic || b.dynamic,
    }
}

/// The usages one value stands for: each exact key in increasing order,
/// then each prefix in increasing order, then a dynamic usage when the
/// value may be anything or nothing else is known.
pub open spec fn kinds_of(v: InferredView) -> Seq<KeyUse> {
    let s = sorted_of(v.statics).map_values(|k: Seq<char>| KeyUse::Static(k));
    let p = sorted_of(v.prefixes).map_values(|k: Seq<char>| KeyUse::Prefix(k));
    if v.dynamic || (v.statics.is_empty() && v.prefixes.is_empty()) {
        s + p + seq![KeyUse::Dynamic]
    } else {
        s + p
    }
}

/// Possible key values of an expression. The keys and prefixes are kept in
/// increasing order without repetition, as in an ordered set.
pub struct InferredValue {
    pub(crate) statics: Vec<String>,
    pub(crate) prefixes: Vec<String>,
    pub(crate) dynamic: bool,
}

impl View for InferredValue {
    type V = InferredView;

    closed spec fn view(&self) -> InferredView {
        InferredView {
            statics: strs(self.statics@).to_set(),
            prefixes: strs(self.prefixes@).to_set(),
            dynamic: self.dynamic,
        }
    }
}

impl InferredValue {
    /// Both lists are strictly increasing.
    #[verifier::type_invariant]
    pub closed spec fn ordered(&self) -> bool {
        sorted(strs(self.statics@)) && sorted(strs(self.prefixes@))
    }

    /// The exact keys of this value, in increasing order.
    pub fn statics(&self) -> (r: &Vec<String>)
        ensures
            strs(r@) == sorted_of(self@.statics),
            strs(r@).to_set() == self@.statics,
            sorted(strs(r@)),
    {
        proof {
            use_type_invariant(self);
            lemma_sorted_of(strs(self.statics@));
        }
        &self.statics
    }

    /// Whether the value has no exact key.
    pub fn statics_empty(&self) -> (r: bool)
        ensures
            r == self@.statics.is_empty(),
    {
        proof {
            use_type_invariant(self);
            if self.statics@.len() > 0 {
                assert(self@.statics.contains(strs(self.statics@)[0]));
            } else {
                assert(self@.statics =~= Set::empty());
            }
        }
        self.statics.len() == 0
    }

    /// Whether the value has no prefix.
    pub fn prefixes_empty(&self) -> (r: bool)
        ensures
            r == self@.prefixes.is_empty(),
    {
        proof {
            if self.prefixes@.len() > 0 {
                assert(self@.prefixes.contains(strs(self.prefixes@)[0]));
            } else {
                assert(self@.prefixes =~= Set::empty());
            }
        }
        self.prefixes.len() == 0
    }

    /// Whether the value may be anything at all.
    pub fn is_dynamic(&self) -> (r: bool)
        ensures
            r == self@.dynamic,
    {
        self.dynamic
    }

    /// A value that may be anything.
    pub fn dynamic() -> (r: InferredValue)
        ensures
            r@ == iv_dynamic(),
    {
        let r = InferredValue { statics: Vec::new(), prefixes: Vec::new(), dynamic: true };
        assert(strs(r.statics@).to_set() =~= Set::empty());
        assert(strs(r.prefixes@).to_set() =~= Set::empty());
        r
    }

    /// A value about which nothing is known yet.
    pub fn empty() -> (r: InferredValue)
        ensures
            r@ == iv_empty(),
    {
        let r = InferredValue { statics: Vec::new(), prefixes: Vec::new(), dynamic: false };
        assert(strs(r.statics@).to_set() =~= Set::empty());
        assert(strs(r.prefixes@).to_set() =~= Set::empty());
        r
    }

    /// The value of a single usage kind.
    pub fn from_usage_kind(kind: UsageKind) -> (r: InferredValue)
        ensures
            r@ == iv_of_kind(kind@),
    {
        let mut value = InferredValue::empty();
        match kind {
            UsageKind::Static(key) => {
                value.insert_static(key);
            },
            UsageKind::Prefix(prefix) => {
                value.insert_prefix(prefix);
            },
            UsageKind::Dynamic => {
                value.set_dynamic();
            },
        }
        value
    }

    /// Adds an exact key.
    pub fn insert_static(&mut self, key: String)
        ensures
            final(self)@ == (InferredView { statics: old(self)@.statics.insert(key@), ..old(self)@ }),
    {
        proof {
            use_type_invariant(&*self);
        }
        let mut statics = copy_strings(&self.statics);
        insert_sorted(&mut statics, key);
        self.statics = statics;
    }

    /// Adds a key prefix.
    pub fn insert_prefix(&mut self, prefix: String)
        ensures
            final(self)@ == (InferredView { prefixes: old(self)@.prefixes.insert(prefix@), ..old(self)@ }),
    {
        proof {
            use_type_invariant(&*self);
        }
        let mut prefixes = copy_strings(&self.prefixes);
        insert_sorted(&mut prefixes, prefix);
        self.prefixes = prefixes;
    }

    /// Marks the value as possibly anything.
    pub fn set_dynamic(&mut self)
        ensures
            final(self)@ == (InferredView { dynamic: true, ..old(self)@ }),
    {
        proof {
            use_type_invariant(&*self);
        }
        self.dynamic = true;
    }

    /// A copy of this value.
    pub fn duplicate(&self) -> (r: InferredValue)
        ensures
            r@ == self@,
    {
        proof {
            use_type_invariant(self);
        }
        InferredValue {
            statics: copy_strings(&self.statics),
            prefixes: copy_strings(&self.prefixes),
            dynamic: self.dynamic,
        }
    }

    /// Adds everything `other` may evaluate to.
    pub fn merge(&mut self, other: InferredValue)
        ensures
            final(self)@ == iv_merge(old(self)@, other@),
    {
        proof {
            use_type_invariant(&other);
        }
        let InferredValue { statics, prefixes, dynamic } = other;
        let ghost ps = strs(prefixes@).to_set();
        let mut i: usize = 0;
        while i < statics.len()
            invariant
                i <= statics@.len(),
                self@.statics == old(self)@.statics.union(strs(statics@).subrange(0, i as int).to_set()),
                self@.prefixes == old(self)@.prefixes,
                self@.dynamic == old(self)@.dynamic,
            decreases statics@.len() - i,
        {
            self.insert_static(statics[i].clone());
            i += 1;
            assert(strs(statics@).subrange(0, i as int) =~= strs(statics@).subrange(0, i - 1).push(
                statics@[i - 1]@,
            ));
            proof {
                lemma_push_to_set(strs(statics@).subrange(0, i - 1), statics@[i - 1]@);
            }
            assert(self@.statics =~= old(self)@.statics.union(
                strs(statics@).subrange(0, i as int).to_set(),
            ));
        }
        assert(strs(statics@).subrange(0, statics@.len() as int) =~= strs(statics@));
        let mut j: usize = 0;
        while j < prefixes.len()
            invariant
                j <= prefixes@.len(),
                self@.prefixes == old(self)@.prefixes.union(strs(prefixes@).subrange(0, j as int).to_set()),
                self@.statics == old(self)@.statics.union(strs(statics@).to_set()),
                self@.dynamic == old(self)@.dynamic,
            decreases prefixes@.len() - j,
        {
            self.insert_prefix(prefixes[j].clone());
            j += 1;
            assert(strs(prefixes@).subrange(0, j as int) =~= strs(prefixes@).subrange(0, j - 1).push(
                prefixes@[j - 1]@,
            ));
            proof {
                lemma_push_to_set(strs(prefixes@).subrange(0, j - 1), prefixes@[j - 1]@);
            }
            assert(self@.prefixes =~= old(self)@.prefixes.union(
                strs(prefixes@).subrange(0, j as int).to_set(),
            ));
        }
        if dynamic {
            self.set_dynamic();
        }
        assert(strs(statics@).subrange(0, statics@.len() as int) =~= strs(statics@));
        assert(strs(prefixes@).subrange(0, prefixes@.len() as int) =~= strs(prefixes@));
        assert(self@ =~= iv_merge(old(self)@, other@));
    }

    /// The usages this value stands for, in the order `kinds_of` gives.
    pub fn into_usage_kinds(self) -> (kinds: Vec<UsageKind>)
        ensures
            kinds@.map_values(|k: UsageKind| k@) == kinds_of(self@),
    {
        proof {
            use_type_invariant(&self);
            lemma_sorted_of(strs(self.statics@));
            lemma_sorted_of(strs(self.prefixes@));
        }
        let ghost v = self@;
        let InferredValue { statics, prefixes, dynamic } = self;
        let mut kinds: Vec<UsageKind> = Vec::new();
        let mut i: usize = 0;
        while i < statics.len()
            invariant
                i <= statics@.len(),
                kinds@.map_values(|k: UsageKind| k@) == strs(statics@).subrange(0, i as int).map_values(
                    |k: Seq<char>| KeyUse::Static(k),
                ),
            decreases statics@.len() - i,
        {
            let ghost prev = kinds@.map_values(|k: UsageKind| k@);
            kinds.push(UsageKind::Static(statics[i].clone()));
            assert(kinds@.map_values(|k: UsageKind| k@) =~= prev.push(KeyUse::Static(strs(statics@)[i as int])));
            i += 1;
            assert(kinds@.map_values(|k: UsageKind| k@) =~= strs(statics@).subrange(
                0,
                i as int,
            ).map_values(|k: Seq<char>| KeyUse::Static(k)));
        }
        let ghost ns = kinds@.len();
        assert(strs(statics@).subrange(0, i as int) =~= strs(statics@));
        let mut j: usize = 0;
        while j < prefixes.len()
            invariant
                j <= prefixes@.len(),
                ns == statics@.len(),
                kinds@.map_values(|k: UsageKind| k@) == strs(statics@).map_values(
                    |k: Seq<char>| KeyUse::Static(k),
                ) + strs(prefixes@).subrange(0, j as int).map_values(|k: Seq<char>| KeyUse::Prefix(k)),
            decreases prefixes@.len() - j,
        {
            let ghost prev = kinds@.map_values(|k: UsageKind| k@);
            kinds.push(UsageKind::Prefix(prefixes[j].clone()));
            assert(kinds@.map_values(|k: UsageKind| k@) =~= prev.push(KeyUse::Prefix(strs(prefixes@)[j as int])));
            j += 1;
            assert(kinds@.map_values(|k: UsageKind| k@) =~= strs(statics@).map_values(
                |k: Seq<char>| KeyUse::Static(k),
            ) + strs(prefixes@).subrange(0, j as int).map_values(|k: Seq<char>| KeyUse::Prefix(k)));
        }
        assert(strs(prefixes@).subrange(0, j as int) =~= strs(prefixes@));
        assert(strs(statics@).subrange(0, i as int) =~= strs(statics@));
        let ghost before_dynamic = kinds@.len();
        assert(before_dynamic == strs(statics@).len() + strs(prefixes@).len());
        if dynamic || kinds.len() == 0 {
            kinds.push(UsageKind::Dynamic);
        }
        proof {
            if strs(statics@).len() == 0 {
                assert(strs(statics@).to_set() =~= Set::empty());
            }
            if strs(prefixes@).len() == 0 {
                assert(strs(prefixes@).to_set() =~= Set::empty());
            }
            if v.statics.is_empty() {
                if strs(statics@).len() > 0 {
                    assert(v.statics.contains(strs(statics@)[0]));
                }
            }
            if v.prefixes.is_empty() {
                if strs(prefixes@).len() > 0 {
                    assert(v.prefixes.contains(strs(prefixes@)[0]));
                }
            }
        }
        assert(kinds@.map_values(|k: UsageKind| k@) =~= kinds_of(v));
        kinds
    }
}

impl Default for InferredValue {
    /// A value about which nothing is known yet.
    fn default() -> (r: InferredValue)
        ensures
            r@ == iv_empty(),
    {
        InferredValue::empty()
    }
}

/// Merging is commutative, associative and idempotent, has the empty value
/// as identity, and a dynamic value absorbs the dynamic flag: what an
/// expression may evaluate to does not depend on the order in which its
/// alternatives are met.
pub proof fn law_merge_algebra(a: InferredView, b: InferredView, c: InferredView)
    ensures
        iv_merge(a, b) == iv_merge(b, a),
        iv_merge(iv_merge(a, b), c) == iv_merge(a, iv_merge(b, c)),
        iv_merge(a, a) == a,
        iv_merge(a, iv_empty()) == a,
        iv_merge(a, iv_dynamic()).dynamic,
{
    assert(iv_merge(a, b) =~= iv_merge(b, a));
    assert(iv_merge(iv_merge(a, b), c) =~= iv_merge(a, iv_merge(b, c)));
    assert(iv_merge(a, a) =~= a);
    assert(iv_merge(a, iv_empty()) =~= a);
}

/// A value turns into at least one usage: a dynamic usage stands for it
/// exactly when it may be anything or nothing else is known about it, and
/// each exact key and prefix it holds is one usage.
pub proof fn law_kinds_cover(v: InferredView)
    requires
        v.statics.finite(),
        v.prefixes.finite(),
    ensures
        kinds_of(v).len() > 0,
        kinds_of(v).contains(KeyUse::Dynamic) <==> (v.dynamic || (v.statics.is_empty() && v.prefixes.is_empty())),
        forall|k: Seq<char>| v.statics.contains(k) <==> kinds_of(v).contains(KeyUse::Static(k)),
        forall|p: Seq<char>| v.prefixes.contains(p) <==> kinds_of(v).contains(KeyUse::Prefix(p)),
{
    crate::strings::lemma_sorted_of_exists(v.statics);
    crate::strings::lemma_sorted_of_exists(v.prefixes);
    let ss = sorted_of(v.statics);
    let ps = sorted_of(v.prefixes);
    let s = ss.map_values(|k: Seq<char>| KeyUse::Static(k));
    let p = ps.map_values(|k: Seq<char>| KeyUse::Prefix(k));
    let ks = kinds_of(v);
    let sp = s + p;
    assert forall|k: Seq<char>| v.statics.contains(k) <==> ks.contains(KeyUse::Static(k)) by {
        if v.statics.contains(k) {
            assert(ss.to_set().contains(k));
            let i = choose|i: int| 0 <= i < ss.len() && ss[i] == k;
            assert(ks[i] == KeyUse::Static(k));
        }
        if ks.contains(KeyUse::Static(k)) {
            let i = choose|i: int| 0 <= i < ks.len() && ks[i] == KeyUse::Static(k);
            if i < s.len() {
                assert(ss[i] == k);
                assert(ss.to_set().contains(k));
            }
        }
    }
    assert forall|q: Seq<char>| v.prefixes.contains(q) <==> ks.contains(KeyUse::Prefix(q)) by {
        if v.prefixes.contains(q) {
            assert(ps.to_set().contains(q));
            let i = choose|i: int| 0 <= i < ps.len() && ps[i] == q;
            assert(ks[s.len() + i] == KeyUse::Prefix(q));
        }
        if ks.contains(KeyUse::Prefix(q)) {
            let i = choose|i: int| 0 <= i < ks.len() && ks[i] == KeyUse::Prefix(q);
            if s.len() <= i < sp.len() {
                assert(ps[i - s.len()] == q);
                assert(ps.to_set().contains(q));
            }
        }
    }
    if v.dynamic || (v.statics.is_empty() && v.prefixes.is_empty()) {
        assert(ks[sp.len() as int] == KeyUse::Dynamic);
    } else {
        assert(!ks.contains(KeyUse::Dynamic)) by {
            if ks.contains(KeyUse::Dynamic) {
                let i = choose|i: int| 0 <= i < ks.len() && ks[i] == KeyUse::Dynamic;
                if i < s.len() {
                    assert(ks[i] is Static);
                } else {
                    assert(ks[i] is Prefix);
                }
            }
        }
        if !v.statics.is_empty() {
            let k = v.statics.choose();
            assert(ks.contains(KeyUse::Static(k)));
        } else {
            let q = v.prefixes.choose();
            assert(ks.contains(KeyUse::Prefix(q)));
        }
    }
}

/// A single usage kind, made a value and turned back into usages, gives
/// that usage alone.
pub proof fn law_kind_round_trip(k: KeyUse)
    ensures
        kinds_of(iv_of_kind(k)) == seq![k],
{
    let v = iv_of_kind(k);
    match k {
        KeyUse::Static(s) => {
            lemma_sorted_of(seq![s]);
            lemma_push_to_set(Seq::<Seq<char>>::empty(), s);
            assert(Seq::<Seq<char>>::empty().to_set() =~= Set::<Seq<char>>::empty());
            assert(Seq::<Seq<char>>::empty().push(s) =~= seq![s]);
            assert(seq![s].to_set() =~= set![s]);
            lemma_sorted_of(Seq::<Seq<char>>::empty());
            assert(Seq::<Seq<char>>::empty().to_set() =~= Set::<Seq<char>>::empty());
            assert(!v.statics.is_empty()) by {
                assert(v.statics.contains(s));
            }
            assert(kinds_of(v) =~= seq![k]);
        },
        KeyUse::Prefix(p) => {
            lemma_sorted_of(seq![p]);
            lemma_push_to_set(Seq::<Seq<char>>::empty(), p);
            assert(Seq::<Seq<char>>::empty().to_set() =~= Set::<Seq<char>>::empty());
            assert(Seq::<Seq<char>>::empty().push(p) =~= seq![p]);
            assert(seq![p].to_set() =~= set![p]);
            lemma_sorted_of(Seq::<Seq<char>>::empty());
            assert(Seq::<Seq<char>>::empty().to_set() =~= Set::<Seq<char>>::empty());
            assert(!v.prefixes.is_empty()) by {
                assert(v.prefixes.contains(p));
            }
            assert(kinds_of(v) =~= seq![k]);
        },
        KeyUse::Dynamic => {
            lemma_sorted_of(Seq::<Seq<char>>::empty());
            assert(Seq::<Seq<char>>::empty().to_set() =~= Set::<Seq<char>>::empty());
            assert(kinds_of(v) =~= seq![k]);
        },
    }
}

} // verus!

//! Analysis that maps locale keys to observed translation usages.
use vstd::prelude::*;
use crate::locale::{LocaleFile, LocaleView};
use crate::source::{usage_views, KeyUse, Usage, UsageKind, UsageView};
use crate::strings::{contains_str, copy_strings, strs};
use crate::table::Table;
use crate::text::{has_prefix, starts_with};

verus! {

/// Whether some usage in namespace `ns` names `key` exactly, or names a
/// prefix that `key` starts with.
pub open spec fn protected(usages: Seq<UsageView>, ns: Seq<char>, key: Seq<char>) -> bool {
    exists|i: int, j: int|
        0 <= i < usages.len() && 0 <= j < usages[i].namespaces.len() && #[trigger] usages[i].namespaces[j] == ns
            && uses_key(usages[i].kind, key)
}

/// Whether a usage kind covers `key`.
pub open spec fn uses_key(kind: KeyUse, key: Seq<char>) -> bool {
    match kind {
        KeyUse::Static(k) => k == key,
        KeyUse::Prefix(p) => has_prefix(key, p),
        KeyUse::Dynamic => false,
    }
}

/// An unused key as plain values.
pub struct UnusedView {
    pub namespace: Seq<char>,
    pub key: Seq<char>,
    pub path: Seq<char>,
}

/// The keys of one locale file that no usage covers, in order.
pub open spec fn unused_in(ns: Seq<char>, path: Seq<char>, keys: Seq<Seq<char>>, usages: Seq<UsageView>) -> Seq<UnusedView>
    decreases keys.len(),
{
    if keys.len() == 0 {
        Seq::empty()
    } else {
        let rest = unused_in(ns, path, keys.drop_last(), usages);
        if protected(usages, ns, keys.last()) {
            rest
        } else {
            rest.push(UnusedView { namespace: ns, key: keys.last(), path })
        }
    }
}

/// The unused keys of all locale files, file by file.
pub open spec fn spec_unused(locales: Seq<LocaleView>, usages: Seq<UsageView>) -> Seq<UnusedView>
    decreases locales.len(),
{
    if locales.len() == 0 {
        Seq::empty()
    } else {
        let l = locales.last();
        spec_unused(locales.drop_last(), usages) + unused_in(l.namespace, l.path, l.keys, usages)
    }
}

/// The usages whose key is dynamic, in order.
pub open spec fn dynamic_of(usages: Seq<UsageView>) -> Seq<UsageView>
    decreases usages.len(),
{
    if usages.len() == 0 {
        Seq::empty()
    } else {
        let rest = dynamic_of(usages.drop_last());
        if usages.last().kind is Dynamic {
            rest.push(usages.last())
        } else {
            rest
        }
    }
}

/// The number of keys of all locale files.
pub open spec fn key_count(locales: Seq<LocaleView>) -> nat
    decreases locales.len(),
{
    if locales.len() == 0 {
        0
    } else {
        key_count(locales.drop_last()) + locales.last().keys.len()
    }
}

/// The number of (usage, namespace) pairs of the usages.
pub open spec fn namespace_entries(usages: Seq<UsageView>) -> nat
    decreases usages.len(),
{
    if usages.len() == 0 {
        0
    } else {
        namespace_entries(usages.drop_last()) + usages.last().namespaces.len()
    }
}

/// The views of locale files.
pub open spec fn locale_views(v: Seq<LocaleFile>) -> Seq<LocaleView> {
    v.map_values(|l: LocaleFile| l@)
}

/// What the usages of one namespace say.
pub struct NamespaceView {
    pub used_static: Set<Seq<char>>,
    pub prefixes: Set<Seq<char>>,
    pub dynamic_count: nat,
}

/// Usage facts of one namespace.
pub struct NamespaceAnalysis {
    used_static: Vec<String>,
    prefixes: Vec<String>,
    dynamic_count: usize,
}

impl View for NamespaceAnalysis {
    type V = NamespaceView;

    closed spec fn view(&self) -> NamespaceView {
        NamespaceView {
            used_static: strs(self.used_static@).to_set(),
            prefixes: strs(self.prefixes@).to_set(),
            dynamic_count: self.dynamic_count as nat,
        }
    }
}

/// Whether the facts of a namespace cover `key`.
pub open spec fn spec_protects(a: NamespaceView, key: Seq<char>) -> bool {
    a.used_static.contains(key) || exists|p: Seq<char>| #[trigger] a.prefixes.contains(p) && has_prefix(key, p)
}

/// Adds one usage kind to the facts of a namespace.
pub open spec fn spec_record(a: NamespaceView, kind: KeyUse) -> NamespaceView {
    match kind {
        KeyUse::Static(k) => NamespaceView { used_static: a.used_static.insert(k), ..a },
        KeyUse::Prefix(p) => NamespaceView { prefixes: a.prefixes.insert(p), ..a },
        KeyUse::Dynamic => NamespaceView { dynamic_count: a.dynamic_count + 1, ..a },
    }
}

impl NamespaceAnalysis {
    /// No usage recorded yet.
    pub fn new() -> (r: Self)
        ensures
            r@ == (NamespaceView { used_static: Set::empty(), prefixes: Set::empty(), dynamic_count: 0 }),
    {
        let r = NamespaceAnalysis { used_static: Vec::new(), prefixes: Vec::new(), dynamic_count: 0 };
        assert(strs(r.used_static@).to_set() =~= Set::empty());
        assert(strs(r.prefixes@).to_set() =~= Set::empty());
        r
    }

    /// A copy of these facts.
    pub fn duplicate(&self) -> (r: Self)
        ensures
            r@ == self@,
    {
        NamespaceAnalysis {
            used_static: copy_strings(&self.used_static),
            prefixes: copy_strings(&self.prefixes),
            dynamic_count: self.dynamic_count,
        }
    }

    /// Records one usage kind.
    pub fn record_usage(&mut self, kind: &UsageKind)
        requires
            old(self)@.dynamic_count < usize::MAX,
        ensures
            final(self)@ == spec_record(old(self)@, kind@),
    {
        match kind {
            UsageKind::Static(key) => {
                if !contains_str(&self.used_static, key.as_str()) {
                    let ghost before = strs(self.used_static@);
                    self.used_static.push(key.clone());
                    proof {
                        assert(strs(self.used_static@) =~= before.push(key@));
                        crate::strings::lemma_push_to_set(before, key@);
                    }
                } else {
                    assert(strs(self.used_static@).to_set().insert(key@) =~= strs(self.used_static@).to_set());
                }
            },
            UsageKind::Prefix(prefix) => {
                if !contains_str(&self.prefixes, prefix.as_str()) {
                    let ghost before = strs(self.prefixes@);
                    self.prefixes.push(prefix.clone());
                    proof {
                        assert(strs(self.prefixes@) =~= before.push(prefix@));
                        crate::strings::lemma_push_to_set(before, prefix@);
                    }
                } else {
                    assert(strs(self.prefixes@).to_set().insert(prefix@) =~= strs(self.prefixes@).to_set());
                }
            },
            UsageKind::Dynamic => {
                self.dynamic_count += 1;
            },
        }
    }

    /// Whether the recorded usages cover `key`: an exact match, or a prefix
    /// that `key` starts with.
    pub fn protects_key(&self, key: &str) -> (r: bool)
        ensures
            r == spec_protects(self@, key@),
    {
        if contains_str(&self.used_static, key) {
            return true;
        }
        let mut i: usize = 0;
        while i < self.prefixes.len()
            invariant
                i <= self.prefixes@.len(),
                forall|j: int| 0 <= j < i ==> !has_prefix(key@, #[trigger] self.prefixes@[j]@),
            decreases self.prefixes@.len() - i,
        {
            if starts_with(key, self.prefixes[i].as_str()) {
                assert(strs(self.prefixes@)[i as int] == self.prefixes@[i as int]@);
                assert(self@.prefixes.contains(self.prefixes@[i as int]@));
                return true;
            }
            i += 1;
        }
        assert forall|p: Seq<char>| #[trigger] self@.prefixes.contains(p) implies !has_prefix(key@, p) by {
            let j = choose|j: int| 0 <= j < strs(self.prefixes@).len() && strs(self.prefixes@)[j] == p;
            assert(self.prefixes@[j]@ == p);
        }
        false
    }
}

/// An unused translation key.
pub struct UnusedKey {
    /// Namespace in which the unused key is defined.
    pub namespace: String,
    /// Flattened translation key that appears unused.
    pub key: String,
    /// Locale file path where the key is defined.
    pub path: String,
}

impl View for UnusedKey {
    type V = UnusedView;

    open spec fn view(&self) -> UnusedView {
        UnusedView { namespace: self.namespace@, key: self.key@, path: self.path@ }
    }
}

/// Result of a full unused-key analysis run.
pub struct AnalysisResult {
    /// All locale keys not matched by observed usage.
    pub unused_keys: Vec<UnusedKey>,
    /// The number of keys the locale files define.
    pub total_keys: usize,
    /// The usages whose key could not be resolved statically.
    pub dynamic_usages: Vec<Usage>,
}

impl AnalysisResult {
    /// How many keys are used: the keys defined less those unused, and no
    /// fewer than none.
    pub fn used_count(&self) -> (r: usize)
        ensures
            r == if self.total_keys >= self.unused_keys@.len() {
                self.total_keys - self.unused_keys@.len()
            } else {
                0
            },
    {
        self.total_keys.saturating_sub(self.unused_keys.len())
    }
}

/// What the usages in namespace `ns` say, for the first `n` usages.
pub open spec fn namespace_facts(usages: Seq<UsageView>, ns: Seq<char>) -> NamespaceView
    decreases usages.len(),
{
    if usages.len() == 0 {
        NamespaceView { used_static: Set::empty(), prefixes: Set::empty(), dynamic_count: 0 }
    } else {
        let u = usages.last();
        facts_for_namespaces(namespace_facts(usages.drop_last(), ns), u.namespaces, ns, u.kind)
    }
}

/// Records `kind` once for each occurrence of `ns` in `namespaces`.
pub open spec fn facts_for_namespaces(
    a: NamespaceView,
    namespaces: Seq<Seq<char>>,
    ns: Seq<char>,
    kind: KeyUse,
) -> NamespaceView
    decreases namespaces.len(),
{
    if namespaces.len() == 0 {
        a
    } else {
        let b = facts_for_namespaces(a, namespaces.drop_last(), ns, kind);
        if namespaces.last() == ns {
            spec_record(b, kind)
        } else {
            b
        }
    }
}

/// Recording a usage kind never uncovers a key: afterwards a key is covered
/// exactly when it was covered before or the kind names it or a prefix of
/// it, so a dynamic kind changes nothing.
pub proof fn law_record_adds_cover(a: NamespaceView, kind: KeyUse, key: Seq<char>)
    ensures
        spec_protects(spec_record(a, kind), key) == (spec_protects(a, key) || uses_key(kind, key)),
{
    match kind {
        KeyUse::Prefix(p) => {
            let b = spec_record(a, kind);
            assert(b.used_static == a.used_static);
            assert(b.prefixes == a.prefixes.insert(p));
            let lhs = spec_protects(b, key);
            let rhs = spec_protects(a, key) || has_prefix(key, p);
            if lhs {
                if !b.used_static.contains(key) {
                    let q = choose|q: Seq<char>| #[trigger] b.prefixes.contains(q) && has_prefix(key, q);
                    if q != p {
                        assert(a.prefixes.contains(q) && has_prefix(key, q));
                    }
                }
                assert(rhs);
            }
            if rhs {
                if has_prefix(key, p) {
                    assert(b.prefixes.contains(p) && has_prefix(key, p));
                } else if !a.used_static.contains(key) {
                    let q = choose|q: Seq<char>| #[trigger] a.prefixes.contains(q) && has_prefix(key, q);
                    assert(b.prefixes.contains(q) && has_prefix(key, q));
                }
                assert(lhs);
            }
            assert(uses_key(kind, key) == has_prefix(key, p));
            assert(spec_protects(spec_record(a, kind), key) == (spec_protects(a, key) || uses_key(kind, key)));
        },
        KeyUse::Static(k) => {
            let b = spec_record(a, kind);
            assert(b.prefixes == a.prefixes);
            assert(b.used_static == a.used_static.insert(k));
        },
        KeyUse::Dynamic => {
            let b = spec_record(a, kind);
            assert(b.prefixes == a.prefixes);
            assert(b.used_static == a.used_static);
        },
    }
}

/// Recording a kind for each occurrence of `ns` adds what the kind covers
/// when `ns` occurs, and counts at most one per namespace entry.
pub proof fn lemma_facts_for_namespaces(a: NamespaceView, nss: Seq<Seq<char>>, ns: Seq<char>, kind: KeyUse, key: Seq<char>)
    ensures
        spec_protects(facts_for_namespaces(a, nss, ns, kind), key) == (spec_protects(a, key) || (nss.contains(ns)
            && uses_key(kind, key))),
        facts_for_namespaces(a, nss, ns, kind).dynamic_count <= a.dynamic_count + nss.len(),
    decreases nss.len(),
{
    if nss.len() > 0 {
        let d = nss.drop_last();
        lemma_facts_for_namespaces(a, d, ns, kind, key);
        let b = facts_for_namespaces(a, d, ns, kind);
        law_record_adds_cover(b, kind, key);
        if nss.contains(ns) && !d.contains(ns) {
            let k = choose|k: int| 0 <= k < nss.len() && nss[k] == ns;
            if k < d.len() {
                assert(d[k] == ns);
            }
        }
        if d.contains(ns) {
            let k = choose|k: int| 0 <= k < d.len() && d[k] == ns;
            assert(nss[k] == ns);
        }
        if nss.last() == ns {
            assert(nss[nss.len() - 1] == ns);
        }
    }
}

/// The facts of a namespace cover exactly the keys its usages protect.
pub proof fn lemma_namespace_facts(usages: Seq<UsageView>, ns: Seq<char>, key: Seq<char>)
    ensures
        spec_protects(namespace_facts(usages, ns), key) == protected(usages, ns, key),
        namespace_facts(usages, ns).dynamic_count <= namespace_entries(usages),
    decreases usages.len(),
{
    if usages.len() > 0 {
        let d = usages.drop_last();
        let u = usages.last();
        lemma_namespace_facts(d, ns, key);
        lemma_facts_for_namespaces(namespace_facts(d, ns), u.namespaces, ns, u.kind, key);
        if protected(usages, ns, key) {
            let (i, j) = choose|i: int, j: int|
                0 <= i < usages.len() && 0 <= j < usages[i].namespaces.len() && #[trigger] usages[i].namespaces[j] == ns
                    && uses_key(usages[i].kind, key);
            if i < d.len() {
                assert(d[i].namespaces[j] == ns);
            } else {
                assert(u.namespaces.contains(ns));
            }
        }
        if protected(d, ns, key) {
            let (i, j) = choose|i: int, j: int|
                0 <= i < d.len() && 0 <= j < d[i].namespaces.len() && #[trigger] d[i].namespaces[j] == ns
                    && uses_key(d[i].kind, key);
            assert(usages[i].namespaces[j] == ns);
        }
        if u.namespaces.contains(ns) && uses_key(u.kind, key) {
            let j = choose|j: int| 0 <= j < u.namespaces.len() && u.namespaces[j] == ns;
            assert(usages[usages.len() - 1].namespaces[j] == ns);
        }
    }
}

/// The facts recorded for `ns`, or no facts when none are.
pub open spec fn facts_or_empty(m: Map<Seq<char>, NamespaceAnalysis>, ns: Seq<char>) -> NamespaceView {
    if m.dom().contains(ns) {
        m[ns]@
    } else {
        NamespaceView { used_static: Set::empty(), prefixes: Set::empty(), dynamic_count: 0 }
    }
}

/// Computes unused translation keys from locale definitions and source
/// usages. A key is used when a usage in its namespace names it exactly, or
/// names a prefix that the key starts with.
pub fn analyze(locales: &Vec<LocaleFile>, usages: &Vec<Usage>) -> (result: AnalysisResult)
    requires
        namespace_entries(usage_views(usages@)) <= usize::MAX,
        key_count(locale_views(locales@)) <= usize::MAX,
    ensures
        result.unused_keys@.map_values(|k: UnusedKey| k@) == spec_unused(
            locale_views(locales@),
            usage_views(usages@),
        ),
        result.total_keys == key_count(locale_views(locales@)),
        usage_views(result.dynamic_usages@) == dynamic_of(usage_views(usages@)),
{
    let ghost uv = usage_views(usages@);
    let mut usage_index: Table<NamespaceAnalysis> = Table::new();
    let mut i: usize = 0;
    assert(uv.take(0) =~= Seq::<UsageView>::empty());
    while i < usages.len()
        invariant
            i <= usages@.len(),
            uv == usage_views(usages@),
            namespace_entries(uv) <= usize::MAX,
            forall|ns: Seq<char>| #[trigger] facts_or_empty(usage_index.contents(), ns) == namespace_facts(uv.take(i as int), ns),
        decreases usages@.len() - i,
    {
        let usage = &usages[i];
        let ghost before = uv.take(i as int);
        assert(uv.take(i + 1).drop_last() =~= before);
        assert(uv.take(i + 1).last() == usage@);
        proof {
            lemma_entries_prefix(uv, i + 1);
            assert(namespace_entries(uv.take(i + 1)) == namespace_entries(before) + usage@.namespaces.len());
        }
        let mut j: usize = 0;
        assert(strs(usage.namespaces@).take(0) =~= Seq::<Seq<char>>::empty());
        while j < usage.namespaces.len()
            invariant
                j <= usage.namespaces@.len(),
                uv == usage_views(usages@),
                usage == &usages@[i as int],
                namespace_entries(before) + usage.namespaces@.len() <= usize::MAX,
                forall|ns: Seq<char>| #[trigger] facts_or_empty(usage_index.contents(), ns) == facts_for_namespaces(
                    namespace_facts(before, ns),
                    strs(usage.namespaces@).take(j as int),
                    ns,
                    usage.kind@,
                ),
            decreases usage.namespaces@.len() - j,
        {
            let namespace = &usage.namespaces[j];
            let ghost ns0 = namespace@;
            let mut analysis = match usage_index.get(namespace.as_str()) {
                Some(a) => a.duplicate(),
                None => NamespaceAnalysis::new(),
            };
            proof {
                assert(facts_or_empty(usage_index.contents(), ns0) == facts_for_namespaces(
                    namespace_facts(before, ns0),
                    strs(usage.namespaces@).take(j as int),
                    ns0,
                    usage.kind@,
                ));
                assert(strs(usage.namespaces@).take(j + 1).drop_last() =~= strs(usage.namespaces@).take(j as int));
                assert(strs(usage.namespaces@).take(j + 1).last() == ns0);
                lemma_namespace_facts(before, ns0, Seq::empty());
                lemma_facts_for_namespaces(
                    namespace_facts(before, ns0),
                    strs(usage.namespaces@).take(j as int),
                    ns0,
                    usage.kind@,
                    Seq::empty(),
                );
            }
            analysis.record_usage(&usage.kind);
            let ghost m0 = usage_index.contents();
            let ghost recorded = analysis;
            usage_index.insert(namespace.clone(), analysis);
            assert forall|ns: Seq<char>| #[trigger] facts_or_empty(usage_index.contents(), ns) == facts_for_namespaces(
                namespace_facts(before, ns),
                strs(usage.namespaces@).take(j + 1),
                ns,
                usage.kind@,
            ) by {
                assert(facts_or_empty(m0, ns) == facts_for_namespaces(
                    namespace_facts(before, ns),
                    strs(usage.namespaces@).take(j as int),
                    ns,
                    usage.kind@,
                ));
            }
            j += 1;
        }
        assert(strs(usage.namespaces@).take(j as int) =~= strs(usage.namespaces@));
        i += 1;
    }
    assert(uv.take(i as int) =~= uv);
    let ghost lv = locale_views(locales@);
    let mut unused_keys: Vec<UnusedKey> = Vec::new();
    let mut total_keys: usize = 0;
    let mut l: usize = 0;
    assert(lv.take(0) =~= Seq::<LocaleView>::empty());
    while l < locales.len()
        invariant
            l <= locales@.len(),
            lv == locale_views(locales@),
            uv == usage_views(usages@),
            key_count(lv) <= usize::MAX,
            forall|ns: Seq<char>| #[trigger] facts_or_empty(usage_index.contents(), ns) == namespace_facts(uv, ns),
            unused_keys@.map_values(|k: UnusedKey| k@) == spec_unused(lv.take(l as int), uv),
            total_keys == key_count(lv.take(l as int)),
        decreases locales@.len() - l,
    {
        let locale = &locales[l];
        assert(lv.take(l + 1).drop_last() =~= lv.take(l as int));
        assert(lv.take(l + 1).last() == locale@);
        proof {
            lemma_key_count_prefix(lv, l + 1);
        }
        let analysis = usage_index.get(locale.namespace.as_str());
        let ghost start = unused_keys@.map_values(|k: UnusedKey| k@);
        let mut k: usize = 0;
        assert(strs(locale.keys@).take(0) =~= Seq::<Seq<char>>::empty());
        assert(start + unused_in(locale@.namespace, locale@.path, strs(locale.keys@).take(0), uv) =~= start);
        while k < locale.keys.len()
            invariant
                k <= locale.keys@.len(),
                locale == &locales@[l as int],
                uv == usage_views(usages@),
                forall|ns: Seq<char>| #[trigger] facts_or_empty(usage_index.contents(), ns) == namespace_facts(uv, ns),
                match analysis {
                    Some(a) => usage_index.contents().dom().contains(locale.namespace@) && usage_index.contents()[locale.namespace@] == *a,
                    None => !usage_index.contents().dom().contains(locale.namespace@),
                },
                unused_keys@.map_values(|k: UnusedKey| k@) == start + unused_in(
                    locale@.namespace,
                    locale@.path,
                    strs(locale.keys@).take(k as int),
                    uv,
                ),
            decreases locale.keys@.len() - k,
        {
            let key = &locale.keys[k];
            let is_used = match analysis {
                Some(a) => a.protects_key(key.as_str()),
                None => false,
            };
            proof {
                lemma_namespace_facts(uv, locale.namespace@, key@);
                assert(facts_or_empty(usage_index.contents(), locale.namespace@) == namespace_facts(uv, locale.namespace@));
                if analysis is None {
                    assert(!spec_protects(facts_or_empty(usage_index.contents(), locale.namespace@), key@));
                }
                assert(strs(locale.keys@).take(k + 1).drop_last() =~= strs(locale.keys@).take(k as int));
                assert(strs(locale.keys@).take(k + 1).last() == key@);
            }
            let ghost prev = unused_keys@.map_values(|k: UnusedKey| k@);
            if !is_used {
                unused_keys.push(UnusedKey {
                    namespace: locale.namespace.clone(),
                    key: key.clone(),
                    path: locale.path.clone(),
                });
                assert(unused_keys@.map_values(|k: UnusedKey| k@) =~= prev.push(
                    UnusedView { namespace: locale@.namespace, key: key@, path: locale@.path },
                ));
            }
            k += 1;
        }
        assert(strs(locale.keys@).take(k as int) =~= strs(locale.keys@));
        total_keys = total_keys + locale.keys.len();
        l += 1;
    }
    assert(lv.take(l as int) =~= lv);
    let mut dynamic_usages: Vec<Usage> = Vec::new();
    let mut d: usize = 0;
    assert(uv.take(0) =~= Seq::<UsageView>::empty());
    while d < usages.len()
        invariant
            d <= usages@.len(),
            uv == usage_views(usages@),
            usage_views(dynamic_usages@) == dynamic_of(uv.take(d as int)),
        decreases usages@.len() - d,
    {
        assert(uv.take(d + 1).drop_last() =~= uv.take(d as int));
        assert(uv.take(d + 1).last() == usages@[d as int]@);
        let ghost prev = usage_views(dynamic_usages@);
        if usages[d].kind.is_dynamic() {
            dynamic_usages.push(usages[d].duplicate());
            assert(usage_views(dynamic_usages@) =~= prev.push(usages@[d as int]@));
        }
        d += 1;
    }
    assert(uv.take(d as int) =~= uv);
    AnalysisResult { unused_keys, total_keys, dynamic_usages }
}

/// Whether the counts an analysis keeps, the (usage, namespace) pairs and
/// the keys of all locale files, fit in a machine word.
pub fn counts_fit(locales: &Vec<LocaleFile>, usages: &Vec<Usage>) -> (r: bool)
    ensures
        r == (namespace_entries(usage_views(usages@)) <= usize::MAX && key_count(locale_views(locales@)) <= usize::MAX),
{
    let ghost uv = usage_views(usages@);
    let ghost lv = locale_views(locales@);
    let mut entries: usize = 0;
    let mut i: usize = 0;
    assert(uv.take(0) =~= Seq::<UsageView>::empty());
    while i < usages.len()
        invariant
            i <= usages@.len(),
            uv == usage_views(usages@),
            entries == namespace_entries(uv.take(i as int)),
        decreases usages@.len() - i,
    {
        assert(uv.take(i + 1).drop_last() =~= uv.take(i as int));
        assert(uv.take(i + 1).last() == usages@[i as int]@);
        match entries.checked_add(usages[i].namespaces.len()) {
            Some(n) => {
                entries = n;
            },
            None => {
                proof {
                    lemma_entries_prefix(uv, i + 1);
                }
                return false;
            },
        }
        i += 1;
    }
    assert(uv.take(i as int) =~= uv);
    let mut keys: usize = 0;
    let mut j: usize = 0;
    assert(lv.take(0) =~= Seq::<LocaleView>::empty());
    while j < locales.len()
        invariant
            j <= locales@.len(),
            lv == locale_views(locales@),
            namespace_entries(uv) <= usize::MAX,
            keys == key_count(lv.take(j as int)),
        decreases locales@.len() - j,
    {
        assert(lv.take(j + 1).drop_last() =~= lv.take(j as int));
        assert(lv.take(j + 1).last() == locales@[j as int]@);
        match keys.checked_add(locales[j].keys.len()) {
            Some(n) => {
                keys = n;
            },
            None => {
                proof {
                    lemma_key_count_prefix(lv, j + 1);
                }
                return false;
            },
        }
        j += 1;
    }
    assert(lv.take(j as int) =~= lv);
    true
}

/// The namespace entries of a prefix are at most those of the whole.
proof fn lemma_entries_prefix(uv: Seq<UsageView>, n: int)
    requires
        0 <= n <= uv.len(),
    ensures
        namespace_entries(uv.take(n)) <= namespace_entries(uv),
    decreases uv.len(),
{
    if n < uv.len() {
        assert(uv.drop_last().take(n) =~= uv.take(n));
        lemma_entries_prefix(uv.drop_last(), n);
    } else {
        assert(uv.take(n) =~= uv);
    }
}

/// The key count of a prefix is at most that of the whole.
proof fn lemma_key_count_prefix(lv: Seq<LocaleView>, n: int)
    requires
        0 <= n <= lv.len(),
    ensures
        key_count(lv.take(n)) <= key_count(lv),
    decreases lv.len(),
{
    if n < lv.len() {
        assert(lv.drop_last().take(n) =~= lv.take(n));
        lemma_key_count_prefix(lv.drop_last(), n);
    } else {
        assert(lv.take(n) =~= lv);
    }
}

/// A key of one locale file is listed exactly when it is not covered.
proof fn lemma_unused_in_contains(ns: Seq<char>, path: Seq<char>, keys: Seq<Seq<char>>, usages: Seq<UsageView>, u: UnusedView)
    ensures
        unused_in(ns, path, keys, usages).contains(u) <==> (u.namespace == ns && u.path == path && keys.contains(u.key)
            && !protected(usages, ns, u.key)),
    decreases keys.len(),
{
    if keys.len() > 0 {
        let d = keys.drop_last();
        lemma_unused_in_contains(ns, path, d, usages, u);
        let rest = unused_in(ns, path, d, usages);
        let last = UnusedView { namespace: ns, key: keys.last(), path };
        let whole = unused_in(ns, path, keys, usages);
        assert(whole == if protected(usages, ns, keys.last()) {
            rest
        } else {
            rest.push(last)
        });
        assert(keys[keys.len() - 1] == keys.last());
        if u.namespace == ns && u.path == path && keys.contains(u.key) && !protected(usages, ns, u.key) {
            let i = choose|i: int| 0 <= i < keys.len() && keys[i] == u.key;
            if i < d.len() {
                assert(d[i] == u.key);
                assert(rest.contains(u));
                let j = choose|j: int| 0 <= j < rest.len() && rest[j] == u;
                assert(rest.push(last)[j] == u);
                assert(whole.contains(u));
            } else {
                assert(u == last);
                assert(rest.push(last)[rest.len() as int] == u);
                assert(whole.contains(u));
            }
        }
        if whole.contains(u) {
            if protected(usages, ns, keys.last()) {
                assert(rest.contains(u));
            } else {
                let j = choose|j: int| 0 <= j < whole.len() && whole[j] == u;
                if j < rest.len() {
                    assert(rest[j] == u);
                    assert(rest.contains(u));
                } else {
                    assert(u == last);
                }
            }
            if rest.contains(u) {
                let i = choose|i: int| 0 <= i < d.len() && d[i] == u.key;
                assert(keys[i] == u.key);
            }
        }
    } else {
        assert(unused_in(ns, path, keys, usages) =~= Seq::<UnusedView>::empty());
    }
}

/// A key is reported unused exactly when some locale file defines it, in
/// that file's namespace and with that file's path, and no usage in that
/// namespace names the key or a prefix of it.
pub proof fn law_unused_exactly_uncovered(locales: Seq<LocaleView>, usages: Seq<UsageView>, u: UnusedView)
    ensures
        spec_unused(locales, usages).contains(u) <==> exists|i: int|
            0 <= i < locales.len() && #[trigger] locales[i].namespace == u.namespace && locales[i].path == u.path
                && locales[i].keys.contains(u.key) && !protected(usages, u.namespace, u.key),
    decreases locales.len(),
{
    if locales.len() == 0 {
        assert(spec_unused(locales, usages) =~= Seq::<UnusedView>::empty());
    } else {
        let d = locales.drop_last();
        let l = locales.last();
        law_unused_exactly_uncovered(d, usages, u);
        lemma_unused_in_contains(l.namespace, l.path, l.keys, usages, u);
        let a = spec_unused(d, usages);
        let b = unused_in(l.namespace, l.path, l.keys, usages);
        assert(spec_unused(locales, usages) == a + b);
        if (a + b).contains(u) {
            let j = choose|j: int| 0 <= j < (a + b).len() && (a + b)[j] == u;
            if j < a.len() {
                assert(a[j] == u);
                let i = choose|i: int|
                    0 <= i < d.len() && #[trigger] d[i].namespace == u.namespace && d[i].path == u.path
                        && d[i].keys.contains(u.key) && !protected(usages, u.namespace, u.key);
                assert(locales[i] == d[i]);
            } else {
                assert(b[j - a.len()] == u);
                assert(locales[locales.len() - 1] == l);
            }
        }
        if exists|i: int|
            0 <= i < locales.len() && #[trigger] locales[i].namespace == u.namespace && locales[i].path == u.path
                && locales[i].keys.contains(u.key) && !protected(usages, u.namespace, u.key) {
            let i = choose|i: int|
                0 <= i < locales.len() && #[trigger] locales[i].namespace == u.namespace && locales[i].path == u.path
                    && locales[i].keys.contains(u.key) && !protected(usages, u.namespace, u.key);
            if i < d.len() {
                assert(d[i] == locales[i]);
                let j = choose|j: int| 0 <= j < a.len() && a[j] == u;
                assert((a + b)[j] == u);
            } else {
                let j = choose|j: int| 0 <= j < b.len() && b[j] == u;
                assert((a + b)[a.len() + j] == u);
            }
        }
    }
}

/// The unused keys depend on the usages only through which keys they cover.
proof fn lemma_unused_same_cover(locales: Seq<LocaleView>, u1: Seq<UsageView>, u2: Seq<UsageView>)
    requires
        forall|ns: Seq<char>, k: Seq<char>| protected(u1, ns, k) == protected(u2, ns, k),
    ensures
        spec_unused(locales, u1) == spec_unused(locales, u2),
    decreases locales.len(),
{
    if locales.len() > 0 {
        lemma_unused_same_cover(locales.drop_last(), u1, u2);
        let l = locales.last();
        lemma_unused_in_same_cover(l.namespace, l.path, l.keys, u1, u2);
    }
}

/// The unused keys of one file depend on the usages only through which keys
/// they cover.
proof fn lemma_unused_in_same_cover(ns: Seq<char>, path: Seq<char>, keys: Seq<Seq<char>>, u1: Seq<UsageView>, u2: Seq<UsageView>)
    requires
        forall|n: Seq<char>, k: Seq<char>| protected(u1, n, k) == protected(u2, n, k),
    ensures
        unused_in(ns, path, keys, u1) == unused_in(ns, path, keys, u2),
    decreases keys.len(),
{
    if keys.len() > 0 {
        lemma_unused_in_same_cover(ns, path, keys.drop_last(), u1, u2);
        assert(protected(u1, ns, keys.last()) == protected(u2, ns, keys.last()));
    }
}

/// A dynamic usage, or a usage with no namespace, covers no key: adding one
/// leaves the unused keys as they were.
pub proof fn law_uncovering_usage_changes_nothing(locales: Seq<LocaleView>, usages: Seq<UsageView>, d: UsageView)
    requires
        d.kind is Dynamic || d.namespaces.len() == 0,
    ensures
        spec_unused(locales, usages.push(d)) == spec_unused(locales, usages),
{
    let u2 = usages.push(d);
    assert forall|ns: Seq<char>, k: Seq<char>| protected(u2, ns, k) == protected(usages, ns, k) by {
        if protected(u2, ns, k) {
            let (i, j) = choose|i: int, j: int|
                0 <= i < u2.len() && 0 <= j < u2[i].namespaces.len() && #[trigger] u2[i].namespaces[j] == ns
                    && uses_key(u2[i].kind, k);
            assert(i < usages.len());
            assert(usages[i] == u2[i]);
            assert(usages[i].namespaces[j] == ns);
        }
        if protected(usages, ns, k) {
            let (i, j) = choose|i: int, j: int|
                0 <= i < usages.len() && 0 <= j < usages[i].namespaces.len() && #[trigger] usages[i].namespaces[j] == ns
                    && uses_key(usages[i].kind, k);
            assert(u2[i] == usages[i]);
            assert(u2[i].namespaces[j] == ns);
        }
    }
    lemma_unused_same_cover(locales, u2, usages);
}

/// More usages never report more keys: a key unused with more usages is
/// unused with fewer.
pub proof fn law_more_usages_fewer_unused(locales: Seq<LocaleView>, usages: Seq<UsageView>, more: Seq<UsageView>, u: UnusedView)
    requires
        spec_unused(locales, usages + more).contains(u),
    ensures
        spec_unused(locales, usages).contains(u),
{
    law_unused_exactly_uncovered(locales, usages + more, u);
    law_unused_exactly_uncovered(locales, usages, u);
    if protected(usages, u.namespace, u.key) {
        let (i, j) = choose|i: int, j: int|
            0 <= i < usages.len() && 0 <= j < usages[i].namespaces.len() && #[trigger] usages[i].namespaces[j] == u.namespace
                && uses_key(usages[i].kind, u.key);
        assert((usages + more)[i] == usages[i]);
        assert((usages + more)[i].namespaces[j] == u.namespace);
    }
}

/// No more keys are reported unused than the locale files define.
pub proof fn law_unused_at_most_total(locales: Seq<LocaleView>, usages: Seq<UsageView>)
    ensures
        spec_unused(locales, usages).len() <= key_count(locales),
    decreases locales.len(),
{
    if locales.len() > 0 {
        law_unused_at_most_total(locales.drop_last(), usages);
        let l = locales.last();
        lemma_unused_in_len(l.namespace, l.path, l.keys, usages);
    }
}

/// One file reports at most as many unused keys as it defines.
proof fn lemma_unused_in_len(ns: Seq<char>, path: Seq<char>, keys: Seq<Seq<char>>, usages: Seq<UsageView>)
    ensures
        unused_in(ns, path, keys, usages).len() <= keys.len(),
    decreases keys.len(),
{
    if keys.len() > 0 {
        lemma_unused_in_len(ns, path, keys.drop_last(), usages);
    }
}

/// Usages that are all among other usages cover no more: a key unused with
/// the larger collection of usages is unused with the smaller one, whatever
/// the order of either.
pub proof fn law_fewer_usages_keep_keys_unused(
    locales: Seq<LocaleView>,
    fewer: Seq<UsageView>,
    more: Seq<UsageView>,
    u: UnusedView,
)
    requires
        forall|i: int| 0 <= i < fewer.len() ==> more.contains(#[trigger] fewer[i]),
        spec_unused(locales, more).contains(u),
    ensures
        spec_unused(locales, fewer).contains(u),
{
    law_unused_exactly_uncovered(locales, more, u);
    law_unused_exactly_uncovered(locales, fewer, u);
    if protected(fewer, u.namespace, u.key) {
        let (i, j) = choose|i: int, j: int|
            0 <= i < fewer.len() && 0 <= j < fewer[i].namespaces.len() && #[trigger] fewer[i].namespaces[j] == u.namespace
                && uses_key(fewer[i].kind, u.key);
        assert(more.contains(fewer[i]));
        let k = choose|k: int| 0 <= k < more.len() && more[k] == fewer[i];
        assert(more[k].namespaces[j] == u.namespace);
    }
}

} // verus!

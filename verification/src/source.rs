//! Translation usages found in source files, and the small decisions around
//! scanning: which files are sources, where a walk starts, how a key names
//! its namespace, and on which line an offset lies.
use vstd::prelude::*;
use crate::error::I18nError;
use crate::parser::spec_source_type;
use crate::exclude::{is_excluded, spec_is_excluded, ExcludeSet};
use crate::strings::strs;
use crate::paths::{
    path_eq, path_extension, path_parent, spec_path_eq, spec_path_extension, spec_path_file_name, spec_path_parent,
};
use crate::text::opt_view;
use crate::text::{chars_of, owned, push_str, string_of};
use vstd::string::StringSliceAdditionalSpecFns;

verus! {

broadcast use vstd::string::group_string_axioms;

/// Classification of how precisely a translation key usage is known.
pub enum UsageKind {
    /// Exact key from a string literal.
    Static(String),
    /// Prefix extracted from a template literal with expressions.
    Prefix(String),
    /// Key is dynamic and cannot be resolved statically.
    Dynamic,
}

/// What a usage says about the key, as character sequences.
pub enum KeyUse {
    Static(Seq<char>),
    Prefix(Seq<char>),
    Dynamic,
}

impl View for UsageKind {
    type V = KeyUse;

    open spec fn view(&self) -> KeyUse {
        match self {
            UsageKind::Static(k) => KeyUse::Static(k@),
            UsageKind::Prefix(p) => KeyUse::Prefix(p@),
            UsageKind::Dynamic => KeyUse::Dynamic,
        }
    }
}

impl UsageKind {
    /// A copy of this kind.
    pub fn duplicate(&self) -> (r: UsageKind)
        ensures
            r@ == self@,
    {
        match self {
            UsageKind::Static(k) => UsageKind::Static(k.clone()),
            UsageKind::Prefix(p) => UsageKind::Prefix(p.clone()),
            UsageKind::Dynamic => UsageKind::Dynamic,
        }
    }

    /// Whether this is a dynamic usage.
    pub fn is_dynamic(&self) -> (r: bool)
        ensures
            r == (self@ is Dynamic),
    {
        match self {
            UsageKind::Dynamic => true,
            _ => false,
        }
    }
}

/// A discovered translation key usage scoped to one or more namespaces.
pub struct Usage {
    /// Namespaces in scope when the usage was recorded.
    pub namespaces: Vec<String>,
    /// The usage classification.
    pub kind: UsageKind,
    /// Source file where the usage was found.
    pub path: String,
    /// 1-based source line where the usage was found.
    pub line: usize,
}

/// A usage as plain values.
pub struct UsageView {
    pub namespaces: Seq<Seq<char>>,
    pub kind: KeyUse,
    pub path: Seq<char>,
    pub line: int,
}

impl View for Usage {
    type V = UsageView;

    open spec fn view(&self) -> UsageView {
        UsageView {
            namespaces: crate::strings::strs(self.namespaces@),
            kind: self.kind@,
            path: self.path@,
            line: self.line as int,
        }
    }
}

/// The views of a sequence of usages.
pub open spec fn usage_views(v: Seq<Usage>) -> Seq<UsageView> {
    v.map_values(|u: Usage| u@)
}

impl Usage {
    /// A copy of this usage.
    pub fn duplicate(&self) -> (r: Usage)
        ensures
            r@ == self@,
    {
        Usage {
            namespaces: crate::strings::copy_strings(&self.namespaces),
            kind: self.kind.duplicate(),
            path: self.path.clone(),
            line: self.line,
        }
    }
}

/// The extensions of the source files that are scanned.
pub open spec fn is_source_extension(e: Seq<char>) -> bool {
    e == "ts"@ || e == "tsx"@ || e == "js"@ || e == "jsx"@
}

/// Returns whether `path` is a supported source file extension.
pub fn is_supported_source_file(path: &str) -> (r: bool)
    ensures
        r == (spec_path_extension(path@) matches Some(e) && is_source_extension(e)),
{
    match path_extension(path) {
        Some(e) => {
            let s = e.as_str();
            crate::text::str_eq(s, "ts") || crate::text::str_eq(s, "tsx")
                || crate::text::str_eq(s, "js") || crate::text::str_eq(s, "jsx")
        },
        None => false,
    }
}

/// Where a walk over `target` starts, and the one file it keeps when
/// `target` is a file.
pub open spec fn spec_walk_target(target: Seq<char>, is_file: bool) -> (Seq<char>, Option<Seq<char>>) {
    if is_file {
        (
            match spec_path_parent(target) {
                Some(p) => p,
                None => "."@,
            },
            Some(target),
        )
    } else {
        (target, None)
    }
}

/// Resolves the walk root for `target`; `target_is_file` says whether the
/// path names an existing file.
pub fn resolve_walk_target(target: &str, target_is_file: bool) -> (r: (String, Option<String>))
    ensures
        (r.0@, match r.1 {
            Some(f) => Some(f@),
            None => None,
        }) == spec_walk_target(target@, target_is_file),
{
    if target_is_file {
        let root = match path_parent(target) {
            Some(p) => p,
            None => crate::text::owned("."),
        };
        (root, Some(crate::text::owned(target)))
    } else {
        (crate::text::owned(target), None)
    }
}

/// Whether a file met by the walk is scanned for usages: it is the one file
/// asked for, if any, has a source extension, and is not excluded.
pub open spec fn spec_scans_source(
    path: Seq<char>,
    walk_root: Seq<char>,
    only_file: Option<Seq<char>>,
    excludes: Seq<Seq<char>>,
) -> bool {
    &&& (only_file matches Some(f) ==> spec_path_eq(path, f))
    &&& (spec_path_extension(path) matches Some(e) && is_source_extension(e))
    &&& !spec_is_excluded(excludes, path, walk_root)
}

/// Whether the walk scans the file `path` for usages.
pub fn should_scan_source(
    path: &str,
    walk_root: &str,
    only_file: &Option<String>,
    excludes: &ExcludeSet,
) -> (r: bool)
    ensures
        r == spec_scans_source(path@, walk_root@, opt_view(*only_file), excludes@),
{
    if let Some(target_file) = only_file {
        if !path_eq(path, target_file.as_str()) {
            return false;
        }
    }
    if !is_supported_source_file(path) {
        return false;
    }
    !is_excluded(path, walk_root, excludes)
}

/// The kind of program a parser reads: JavaScript or TypeScript, script or
/// module, with or without JSX.
#[verifier::external_type_specification]
#[verifier::external_body]
pub struct ExSourceType(oxc_span::SourceType);

/// The extensions the parser knows a source type for.
pub open spec fn is_parser_extension(e: Seq<char>) -> bool {
    e == "js"@ || e == "mjs"@ || e == "cjs"@ || e == "jsx"@ || e == "ts"@ || e == "mts"@ || e == "cts"@ || e == "tsx"@
}

/// The source type of a file, told by its extension.
///
/// Trusted: calls `oxc_span::SourceType::from_path`, which its documentation
/// says fails exactly when the path has no file name or its extension is
/// none of `js`, `mjs`, `cjs`, `jsx`, `ts`, `mts`, `cts`, `tsx`. Which
/// source type it gives, a function of the path alone, is named
/// `spec_source_type`.
#[verifier::external_body]
fn source_type_from_path(path: &str) -> (r: Option<oxc_span::SourceType>)
    ensures
        r is Some <==> (spec_path_file_name(path@) is Some && (spec_path_extension(path@) matches Some(e)
            && is_parser_extension(e))),
        r matches Some(t) ==> t == spec_source_type(path@),
{
    oxc_span::SourceType::from_path(path).ok()
}

/// The source type of the file `path`, or the error for a file whose type
/// cannot be told.
pub fn source_type_of(path: &str) -> (r: Result<oxc_span::SourceType, I18nError>)
    ensures
        r matches Ok(t) ==> t == spec_source_type(path@),
        r is Ok <==> (spec_path_file_name(path@) is Some && (spec_path_extension(path@) matches Some(e)
            && is_parser_extension(e))),
        r matches Err(e) ==> (e matches I18nError::SourceParse { path: p, message: m } && p@ == path@ && m@
            == "failed to infer source type"@),
{
    match source_type_from_path(path) {
        Some(t) => Ok(t),
        None => Err(I18nError::SourceParse { path: owned(path), message: owned("failed to infer source type") }),
    }
}

/// `parts` with `sep` between each two.
pub open spec fn join(parts: Seq<Seq<char>>, sep: Seq<char>) -> Seq<char>
    decreases parts.len(),
{
    if parts.len() == 0 {
        Seq::empty()
    } else if parts.len() == 1 {
        parts[0]
    } else {
        join(parts.drop_last(), sep) + sep + parts.last()
    }
}

/// The texts of `parts` with `sep` between each two.
pub fn join_strings(parts: &Vec<String>, sep: &str) -> (m: String)
    ensures
        m@ == join(strs(parts@), sep@),
{
    let mut m = String::new();
    let mut i: usize = 0;
    while i < parts.len()
        invariant
            i <= parts@.len(),
            m@ == join(strs(parts@).take(i as int), sep@),
        decreases parts@.len() - i,
    {
        if i > 0 {
            push_str(&mut m, sep);
        }
        push_str(&mut m, parts[i].as_str());
        proof {
            let t = strs(parts@).take(i + 1);
            assert(t.drop_last() =~= strs(parts@).take(i as int));
            assert(t.last() == parts@[i as int]@);
            if i == 0 {
                assert(strs(parts@).take(0) =~= Seq::<Seq<char>>::empty());
                assert(m@ =~= t[0]);
            }
        }
        i += 1;
    }
    assert(strs(parts@).take(i as int) =~= strs(parts@));
    m
}

/// The error for the source file `path` that does not parse, listing the
/// parser's messages separated by commas.
pub fn source_parse_error(path: &str, messages: &Vec<String>) -> (e: I18nError)
    ensures
        e matches I18nError::SourceParse { path: p, message: m } && p@ == path@ && m@ == join(strs(messages@), ", "@),
{
    let m = join_strings(messages, ", ");
    I18nError::SourceParse { path: owned(path), message: m }
}

/// The first position of `c` in `v`, if any.
pub open spec fn first_index_of(v: Seq<char>, c: char) -> Option<int>
    decreases v.len(),
{
    if v.len() == 0 {
        None
    } else if v[0] == c {
        Some(0)
    } else {
        match first_index_of(v.drop_first(), c) {
            Some(i) => Some(i + 1),
            None => None,
        }
    }
}

/// The namespace and key of `ns:key`, split at the first colon, when both
/// sides are non-empty.
pub open spec fn spec_split_colon(v: Seq<char>) -> Option<(Seq<char>, Seq<char>)> {
    match first_index_of(v, ':') {
        Some(i) => if i > 0 && i + 1 < v.len() {
            Some((v.subrange(0, i), v.subrange(i + 1, v.len() as int)))
        } else {
            None
        },
        None => None,
    }
}

proof fn lemma_first_index_of(v: Seq<char>, c: char, i: int)
    requires
        0 <= i <= v.len(),
        forall|j: int| 0 <= j < i ==> v[j] != c,
    ensures
        i < v.len() && v[i] == c ==> first_index_of(v, c) == Some(i),
        i == v.len() ==> first_index_of(v, c) is None,
    decreases i,
{
    if i > 0 {
        lemma_first_index_of(v.drop_first(), c, i - 1);
    }
}

/// Splits `value` into namespace and key at its first colon.
pub fn split_colon_namespace(value: &str) -> (r: Option<(String, String)>)
    ensures
        match r {
            Some((ns, key)) => spec_split_colon(value@) == Some((ns@, key@)),
            None => spec_split_colon(value@) is None,
        },
{
    let v = chars_of(value);
    let mut i: usize = 0;
    while i < v.len() && v[i] != ':'
        invariant
            i <= v@.len(),
            forall|j: int| 0 <= j < i ==> v@[j] != ':',
        decreases v@.len() - i,
    {
        i += 1;
    }
    proof {
        lemma_first_index_of(v@, ':', i as int);
    }
    if i == v.len() || i == 0 || i + 1 == v.len() {
        return None;
    }
    let ns = string_of(&v, 0, i);
    let key = string_of(&v, i + 1, v.len());
    Some((ns, key))
}

/// The byte offsets where lines start: offset 0 and every offset that
/// follows a newline byte.
pub open spec fn spec_line_starts(bytes: Seq<u8>) -> Seq<usize>
    decreases bytes.len(),
{
    if bytes.len() == 0 {
        seq![0usize]
    } else if bytes.last() == 10u8 {
        spec_line_starts(bytes.drop_last()).push(bytes.len() as usize)
    } else {
        spec_line_starts(bytes.drop_last())
    }
}

/// `s` is strictly increasing.
pub open spec fn increasing(s: Seq<usize>) -> bool {
    forall|i: int, j: int| 0 <= i < j < s.len() ==> s[i] < s[j]
}

proof fn lemma_line_starts_shape(bytes: Seq<u8>)
    requires
        bytes.len() <= usize::MAX,
    ensures
        spec_line_starts(bytes).len() >= 1,
        spec_line_starts(bytes)[0] == 0,
        increasing(spec_line_starts(bytes)),
        forall|i: int| 0 <= i < spec_line_starts(bytes).len() ==> spec_line_starts(bytes)[i] <= bytes.len(),
    decreases bytes.len(),
{
    if bytes.len() > 0 {
        let d = bytes.drop_last();
        lemma_line_starts_shape(d);
        let prev = spec_line_starts(d);
        if bytes.last() == 10u8 {
            let cur = prev.push(bytes.len() as usize);
            assert forall|i: int, j: int| 0 <= i < j < cur.len() implies cur[i] < cur[j] by {
                if j == cur.len() - 1 {
                    assert(prev[i] <= d.len());
                }
            }
        }
    }
}

/// Collects the byte offsets where the lines of `source_text` start.
pub fn collect_line_starts(source_text: &str) -> (starts: Vec<usize>)
    ensures
        starts@ == spec_line_starts(source_text.spec_bytes()),
        starts@.len() >= 1,
        starts@[0] == 0,
        increasing(starts@),
{
    let bytes = source_text.as_bytes();
    let mut starts: Vec<usize> = Vec::new();
    starts.push(0);
    let mut index: usize = 0;
    assert(bytes@.subrange(0, 0) =~= Seq::<u8>::empty());
    while index < bytes.len()
        invariant
            index <= bytes@.len(),
            starts@ == spec_line_starts(bytes@.subrange(0, index as int)),
        decreases bytes@.len() - index,
    {
        let ghost before = bytes@.subrange(0, index as int);
        assert(bytes@.subrange(0, index + 1).drop_last() =~= before);
        if bytes[index] == 10u8 {
            starts.push(index + 1);
        }
        index += 1;
    }
    assert(bytes@.subrange(0, index as int) =~= bytes@);
    proof {
        lemma_line_starts_shape(bytes@);
    }
    starts
}

/// How many of `starts` are at most `offset`.
pub open spec fn count_at_most(starts: Seq<usize>, offset: int) -> nat
    decreases starts.len(),
{
    if starts.len() == 0 {
        0
    } else {
        (if starts.last() <= offset { 1nat } else { 0nat }) + count_at_most(starts.drop_last(), offset)
    }
}

/// The 1-based line of byte `offset`: the number of line starts at or
/// before it, and at least 1.
pub open spec fn spec_line_of(starts: Seq<usize>, offset: int) -> int {
    let n = count_at_most(starts, offset);
    if n == 0 {
        1
    } else {
        n as int
    }
}

/// In an increasing sequence, the starts at most `offset` are exactly the
/// first `k`.
proof fn lemma_count_prefix(starts: Seq<usize>, offset: int, k: int)
    requires
        increasing(starts),
        0 <= k <= starts.len(),
        forall|i: int| 0 <= i < k ==> starts[i] <= offset,
        forall|i: int| k <= i < starts.len() ==> starts[i] > offset,
    ensures
        count_at_most(starts, offset) == k,
    decreases starts.len(),
{
    if starts.len() > 0 {
        let d = starts.drop_last();
        if k == starts.len() {
            lemma_count_prefix(d, offset, k - 1);
        } else {
            lemma_count_prefix(d, offset, k);
        }
    }
}

/// The 1-based line of a byte offset, found by binary search.
pub fn line_for_offset(line_starts: &Vec<usize>, offset: u32) -> (line: usize)
    requires
        increasing(line_starts@),
    ensures
        line == spec_line_of(line_starts@, offset as int),
{
    let offset = offset as usize;
    // number of starts at most `offset` lies in lo..=hi
    let mut lo: usize = 0;
    let mut hi: usize = line_starts.len();
    while lo < hi
        invariant
            0 <= lo <= hi <= line_starts@.len(),
            increasing(line_starts@),
            forall|i: int| 0 <= i < lo ==> line_starts@[i] <= offset,
            forall|i: int| hi <= i < line_starts@.len() ==> line_starts@[i] > offset,
        decreases hi - lo,
    {
        let mid = lo + (hi - lo) / 2;
        if line_starts[mid] <= offset {
            lo = mid + 1;
        } else {
            hi = mid;
        }
    }
    proof {
        lemma_count_prefix(line_starts@, offset as int, lo as int);
    }
    if lo == 0 {
        1
    } else {
        lo
    }
}

/// The first position of `c` holds `c`, and no earlier position does.
proof fn lemma_first_index_found(v: Seq<char>, c: char)
    ensures
        first_index_of(v, c) matches Some(i) ==> 0 <= i < v.len() && v[i] == c && forall|j: int|
            0 <= j < i ==> v[j] != c,
        first_index_of(v, c) is None ==> !v.contains(c),
    decreases v.len(),
{
    if v.len() > 0 {
        lemma_first_index_found(v.drop_first(), c);
        if v[0] != c {
            if let Some(i) = first_index_of(v.drop_first(), c) {
                assert forall|j: int| 0 <= j < i + 1 implies v[j] != c by {
                    if j > 0 {
                        assert(v[j] == v.drop_first()[j - 1]);
                    }
                }
            }
            if first_index_of(v, c) is None && v.contains(c) {
                let k = choose|k: int| 0 <= k < v.len() && v[k] == c;
                assert(v.drop_first()[k - 1] == c);
            }
        }
    }
}

/// Splitting `ns:key` gives parts that join back to the whole: a non-empty
/// namespace without a colon, the colon, and a non-empty key.
pub proof fn law_split_colon_rejoins(v: Seq<char>)
    ensures
        spec_split_colon(v) matches Some((ns, key)) ==> v == ns + seq![':'] + key && ns.len() > 0 && key.len() > 0
            && !ns.contains(':'),
        !v.contains(':') ==> spec_split_colon(v) is None,
{
    lemma_first_index_found(v, ':');
    if let Some((ns, key)) = spec_split_colon(v) {
        let i = first_index_of(v, ':')->0;
        assert(v =~= ns + seq![':'] + key);
        if ns.contains(':') {
            let k = choose|k: int| 0 <= k < ns.len() && ns[k] == ':';
            assert(v[k] == ':');
        }
    }
}

/// The starts at most an offset never outnumber the starts, and grow with
/// the offset.
proof fn lemma_count_at_most_monotone(starts: Seq<usize>, a: int, b: int)
    requires
        a <= b,
    ensures
        count_at_most(starts, a) <= count_at_most(starts, b),
        count_at_most(starts, b) <= starts.len(),
    decreases starts.len(),
{
    if starts.len() > 0 {
        lemma_count_at_most_monotone(starts.drop_last(), a, b);
    }
}

/// Line numbers start at 1, never exceed the number of lines, and do not
/// decrease as the offset grows.
pub proof fn law_line_numbers_ordered(starts: Seq<usize>, a: int, b: int)
    requires
        starts.len() > 0,
        a <= b,
    ensures
        1 <= spec_line_of(starts, a) <= spec_line_of(starts, b) <= starts.len(),
{
    lemma_count_at_most_monotone(starts, a, b);
}

/// The offset where a line of a text starts lies on that line: the `i`-th
/// start (from 0) is on line `i + 1`.
pub proof fn law_line_start_on_its_line(bytes: Seq<u8>, i: int)
    requires
        bytes.len() <= usize::MAX,
        0 <= i < spec_line_starts(bytes).len(),
    ensures
        spec_line_of(spec_line_starts(bytes), spec_line_starts(bytes)[i] as int) == i + 1,
{
    let starts = spec_line_starts(bytes);
    lemma_line_starts_shape(bytes);
    let o = starts[i] as int;
    assert forall|j: int| 0 <= j < i + 1 implies starts[j] <= o by {
        if j < i {
            assert(starts[j] < starts[i]);
        }
    }
    assert forall|j: int| i + 1 <= j < starts.len() implies starts[j] > o by {
        assert(starts[i] < starts[j]);
    }
    lemma_count_prefix(starts, o, i + 1);
}

} // verus!

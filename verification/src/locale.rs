//! Locale files: their namespaces, and the translation keys they define as
//! flattened dotted paths such as `auth.login.title`.
use vstd::prelude::*;
use crate::error::I18nError;
use crate::json::{json_document, json_view, members_view, spec_json_document, JsonView};
use crate::exclude::{is_excluded, spec_is_excluded, ExcludeSet};
use crate::paths::{
    path_ancestors, path_eq, path_extension, path_file_name, path_parent, path_strip_prefix, spec_path_ancestors,
    spec_path_eq, spec_path_extension, spec_path_file_name, spec_path_parent, spec_path_strip_prefix,
};
use crate::strings::{copy_strings, distinct, insert_distinct, strs};
use crate::text::{backslashes_to_slashes, chars_of, ends_with, has_suffix, opt_view, owned, push_str, replace_char, str_eq, string_of};

verus! {

/// Parsed locale file metadata and extracted key set.
pub struct LocaleFile {
    /// Namespace derived from the file path relative to the locale root.
    pub namespace: String,
    /// Path to the locale file.
    pub path: String,
    /// Flattened key paths whose terminal values are strings, each once.
    pub keys: Vec<String>,
}

/// A locale file as plain values.
pub struct LocaleView {
    pub namespace: Seq<char>,
    pub path: Seq<char>,
    pub keys: Seq<Seq<char>>,
}

impl View for LocaleFile {
    type V = LocaleView;

    open spec fn view(&self) -> LocaleView {
        LocaleView { namespace: self.namespace@, path: self.path@, keys: strs(self.keys@) }
    }
}

/// A JSON value, as far as translation keys go.
pub enum JsonValue {
    /// An object, with its members in the order the parser yields them.
    Object(Vec<(String, JsonValue)>),
    /// A string.
    String(String),
    /// Anything else: a number, a boolean, null or an array.
    Other,
}

/// `prefix.key`, or `key` alone when the prefix is empty.
pub open spec fn join_key(prefix: Seq<char>, key: Seq<char>) -> Seq<char> {
    if prefix.len() == 0 {
        key
    } else {
        prefix + "."@ + key
    }
}

/// The dotted paths, under `prefix`, of the string values of `v`, in the
/// order a depth-first walk meets them; a string at an empty path is left
/// out.
pub open spec fn flat_keys(v: JsonValue, prefix: Seq<char>) -> Seq<Seq<char>>
    decreases v,
{
    match v {
        JsonValue::Object(members) => flat_members(members@, prefix),
        JsonValue::String(_) => if prefix.len() > 0 {
            seq![prefix]
        } else {
            Seq::empty()
        },
        JsonValue::Other => Seq::empty(),
    }
}

/// The dotted paths of the string values under each member, in order.
pub open spec fn flat_members(members: Seq<(String, JsonValue)>, prefix: Seq<char>) -> Seq<Seq<char>>
    decreases members,
{
    if members.len() == 0 {
        Seq::empty()
    } else {
        let last = members[members.len() - 1];
        flat_members(members.subrange(0, members.len() - 1), prefix) + flat_keys(last.1, join_key(prefix, last.0@))
    }
}

/// The dotted paths, under `prefix`, of the string values of a JSON value
/// given as plain values, in depth-first order; a string at an empty path
/// is left out.
pub open spec fn flat_view_keys(v: JsonView, prefix: Seq<char>) -> Seq<Seq<char>>
    decreases v,
{
    match v {
        JsonView::Object(members) => flat_view_members(members, prefix),
        JsonView::String(_) => if prefix.len() > 0 {
            seq![prefix]
        } else {
            Seq::empty()
        },
        JsonView::Other => Seq::empty(),
    }
}

/// The dotted paths of the string values under each member, in order.
pub open spec fn flat_view_members(members: Seq<(Seq<char>, JsonView)>, prefix: Seq<char>) -> Seq<Seq<char>>
    decreases members,
{
    if members.len() == 0 {
        Seq::empty()
    } else {
        let last = members[members.len() - 1];
        flat_view_members(members.subrange(0, members.len() - 1), prefix) + flat_view_keys(last.1, join_key(prefix, last.0))
    }
}

/// Flattening a value gives the keys that flattening its plain values gives.
pub proof fn lemma_flat_keys_view(v: JsonValue, prefix: Seq<char>)
    ensures
        flat_keys(v, prefix) == flat_view_keys(json_view(v), prefix),
    decreases v, 1nat,
{
    match v {
        JsonValue::Object(members) => {
            assert(decreases_to!(v => v->Object_0));
            lemma_flat_members_view(members@, prefix);
        },
        _ => {},
    }
}

/// Flattening members gives the keys that flattening their plain values
/// gives.
proof fn lemma_flat_members_view(members: Seq<(String, JsonValue)>, prefix: Seq<char>)
    ensures
        flat_members(members, prefix) == flat_view_members(members_view(members), prefix),
    decreases members, 0nat,
{
    if members.len() > 0 {
        let init = members.subrange(0, members.len() - 1);
        let last = members[members.len() - 1];
        assert(decreases_to!(members => init));
        lemma_flat_members_view(init, prefix);
        assert(decreases_to!(members => members[members.len() - 1]));
        assert(decreases_to!(members[members.len() - 1] => last.1));
        lemma_flat_keys_view(last.1, join_key(prefix, last.0@));
        let mv = members_view(members);
        assert(mv == members_view(init).push((last.0@, json_view(last.1))));
        assert(mv.subrange(0, mv.len() - 1) =~= members_view(init));
    } else {
        assert(members_view(members) =~= Seq::<(Seq<char>, JsonView)>::empty());
    }
}

/// `s` followed by the elements of `new` it does not hold yet, each once,
/// in order.
pub open spec fn add_all(s: Seq<Seq<char>>, new: Seq<Seq<char>>) -> Seq<Seq<char>>
    decreases new.len(),
{
    if new.len() == 0 {
        s
    } else {
        let r = add_all(s, new.drop_last());
        if r.contains(new.last()) {
            r
        } else {
            r.push(new.last())
        }
    }
}

/// Adding a concatenation is adding one part, then the other.
pub proof fn lemma_add_all_concat(s: Seq<Seq<char>>, a: Seq<Seq<char>>, b: Seq<Seq<char>>)
    ensures
        add_all(s, a + b) == add_all(add_all(s, a), b),
    decreases b.len(),
{
    if b.len() == 0 {
        assert(a + b =~= a);
    } else {
        assert((a + b).drop_last() =~= a + b.drop_last());
        lemma_add_all_concat(s, a, b.drop_last());
    }
}

/// The elements of `add_all(s, new)` are those of `s` and of `new`, and it
/// repeats none when `s` repeats none.
pub proof fn lemma_add_all_contents(s: Seq<Seq<char>>, new: Seq<Seq<char>>)
    ensures
        forall|k: Seq<char>| add_all(s, new).contains(k) <==> (s.contains(k) || new.contains(k)),
        distinct(s) ==> distinct(add_all(s, new)),
    decreases new.len(),
{
    if new.len() > 0 {
        let d = new.drop_last();
        lemma_add_all_contents(s, d);
        let r = add_all(s, d);
        assert forall|k: Seq<char>| add_all(s, new).contains(k) <==> (s.contains(k) || new.contains(k)) by {
            if new.contains(k) && !d.contains(k) {
                let i = choose|i: int| 0 <= i < new.len() && new[i] == k;
                if i < d.len() {
                    assert(d[i] == k);
                }
            }
            if d.contains(k) {
                let i = choose|i: int| 0 <= i < d.len() && d[i] == k;
                assert(new[i] == k);
            }
            if !r.contains(new.last()) {
                if r.push(new.last()).contains(k) && k != new.last() {
                    let i = choose|i: int| 0 <= i < r.push(new.last()).len() && r.push(new.last())[i] == k;
                    assert(r[i] == k);
                }
                if r.contains(k) {
                    let i = choose|i: int| 0 <= i < r.len() && r[i] == k;
                    assert(r.push(new.last())[i] == k);
                }
                if k == new.last() {
                    assert(r.push(new.last())[r.len() as int] == k);
                }
            }
            assert(new[new.len() - 1] == new.last());
        }
        if distinct(s) && !r.contains(new.last()) {
            let q = r.push(new.last());
            assert forall|a: int, b: int| 0 <= a < b < q.len() implies #[trigger] q[a] != #[trigger] q[b] by {
                if b == q.len() - 1 {
                    assert(r.contains(r[a]));
                }
            }
        }
    }
}

/// Adds the keys of the string values of `value` under the path in `buf`
/// to `out`, each once; `buf` is left as it was.
pub fn flatten_into(value: &JsonValue, buf: &mut Vec<char>, out: &mut Vec<String>)
    requires
        distinct(strs(old(out)@)),
    ensures
        final(buf)@ == old(buf)@,
        strs(final(out)@) == add_all(strs(old(out)@), flat_keys(*value, old(buf)@)),
        distinct(strs(final(out)@)),
    decreases value, 1nat,
{
    match value {
        JsonValue::Object(members) => {
            proof {
                assert(decreases_to!(*value => value->Object_0));
            }
            flatten_members(members, buf, out);
        },
        JsonValue::String(_) => {
            let ghost o0 = strs(out@);
            assert(add_all(o0, Seq::empty()) == o0);
            if buf.len() != 0 {
                let key = string_of(buf, 0, buf.len());
                assert(buf@.subrange(0, buf@.len() as int) =~= buf@);
                insert_distinct(out, key);
                proof {
                    assert(seq![buf@].drop_last() =~= Seq::<Seq<char>>::empty());
                    assert(seq![buf@].last() == buf@);
                }
            } else {
                assert(flat_keys(*value, buf@) =~= Seq::<Seq<char>>::empty());
            }
        },
        JsonValue::Other => {
            assert(add_all(strs(out@), Seq::empty()) == strs(out@));
        },
    }
}

/// Adds the keys under each of `members`, in order, to `out`, each once;
/// `buf` is left as it was.
pub fn flatten_members(members: &Vec<(String, JsonValue)>, buf: &mut Vec<char>, out: &mut Vec<String>)
    requires
        distinct(strs(old(out)@)),
    ensures
        final(buf)@ == old(buf)@,
        strs(final(out)@) == add_all(strs(old(out)@), flat_members(members@, old(buf)@)),
        distinct(strs(final(out)@)),
    decreases members, 0nat,
{
    let ghost b0 = buf@;
    let ghost o0 = strs(out@);
    let mut i: usize = 0;
    assert(members@.subrange(0, 0) =~= Seq::<(String, JsonValue)>::empty());
    while i < members.len()
        invariant
            i <= members@.len(),
            buf@ == b0,
            distinct(strs(out@)),
            strs(out@) == add_all(o0, flat_members(members@.subrange(0, i as int), b0)),
        decreases members@.len() - i,
    {
        let (k, v) = &members[i];
        let previous_state = buf.len();
        if buf.len() != 0 {
            buf.push('.');
        }
        let key = chars_of(k.as_str());
        let mut j: usize = 0;
        let ghost b1 = buf@;
        while j < key.len()
            invariant
                j <= key@.len(),
                buf@ == b1 + key@.subrange(0, j as int),
            decreases key@.len() - j,
        {
            buf.push(key[j]);
            j += 1;
            assert(buf@ =~= b1 + key@.subrange(0, j as int));
        }
        proof {
            reveal_strlit(".");
            assert(key@.subrange(0, j as int) =~= k@);
            assert(buf@ =~= join_key(b0, k@));
            assert(decreases_to!(*members => members@));
            assert(decreases_to!(members@ => members@[i as int]));
            assert(decreases_to!(members@[i as int] => members@[i as int].1));
        }
        flatten_into(v, buf, out);
        buf.truncate(previous_state);
        assert(buf@ =~= b0);
        proof {
            let m = members@.subrange(0, i + 1);
            assert(m.subrange(0, m.len() - 1) =~= members@.subrange(0, i as int));
            assert(m[m.len() - 1] == members@[i as int]);
            lemma_add_all_concat(
                o0,
                flat_members(members@.subrange(0, i as int), b0),
                flat_keys(*v, join_key(b0, k@)),
            );
        }
        i += 1;
    }
    assert(members@.subrange(0, i as int) =~= members@);
}

/// `s` without a `.json` ending.
pub open spec fn strip_json(s: Seq<char>) -> Seq<char> {
    if has_suffix(s, ".json"@) {
        s.subrange(0, s.len() - 5)
    } else {
        s
    }
}

/// The namespace of a locale file relative to `base`: its relative path
/// without the `.json` ending, with slashes as separators.
pub open spec fn spec_namespace(base: Seq<char>, file: Seq<char>) -> Option<Seq<char>> {
    match spec_path_strip_prefix(file, base) {
        Some(rel) => Some(replace_char(strip_json(rel), '\\', '/')),
        None => None,
    }
}

/// Derives a locale namespace from `file` relative to `base`. The `.json`
/// extension is removed and separators are normalized to `/`.
pub fn derive_namespace(base: &str, file: &str) -> (r: Result<String, I18nError>)
    ensures
        match r {
            Ok(ns) => spec_namespace(base@, file@) == Some(ns@),
            Err(e) => spec_namespace(base@, file@) is None && (e matches I18nError::InvalidPath { path, message }
                && path@ == file@ && message@ == "could not strip base prefix '"@ + base@ + "'"@),
        },
{
    let relative = match path_strip_prefix(file, base) {
        Some(rel) => rel,
        None => {
            let mut message = String::new();
            push_str(&mut message, "could not strip base prefix '");
            push_str(&mut message, base);
            push_str(&mut message, "'");
            assert(message@ =~= "could not strip base prefix '"@ + base@ + "'"@);
            return Err(I18nError::InvalidPath { path: owned(file), message });
        },
    };
    let stripped = if ends_with(relative.as_str(), ".json") {
        let v = chars_of(relative.as_str());
        proof {
            reveal_strlit(".json");
        }
        string_of(&v, 0, v.len() - 5)
    } else {
        relative
    };
    let namespace = backslashes_to_slashes(stripped.as_str());
    Ok(namespace)
}

/// Returns whether a path points to a `.json` file.
pub fn is_json_file(path: &str) -> (r: bool)
    ensures
        r == (spec_path_extension(path@) == Some("json"@)),
{
    match path_extension(path) {
        Some(e) => str_eq(e.as_str(), "json"),
        None => false,
    }
}

/// The first of `paths` whose final component is named `locales`.
pub open spec fn first_locales_dir(paths: Seq<Seq<char>>) -> Option<Seq<char>>
    decreases paths.len(),
{
    if paths.len() == 0 {
        None
    } else if spec_path_file_name(paths[0]) == Some("locales"@) {
        Some(paths[0])
    } else {
        first_locales_dir(paths.drop_first())
    }
}

/// The nearest ancestor of `path` (itself included) named `locales`.
pub fn find_locales_base(path: &str) -> (r: Option<String>)
    ensures
        opt_view(r) == first_locales_dir(spec_path_ancestors(path@)),
{
    let ancestors = path_ancestors(path);
    let ghost seq = ancestors@.map_values(|s: String| s@);
    let mut i: usize = 0;
    assert(seq.skip(0) =~= seq);
    while i < ancestors.len()
        invariant
            i <= ancestors@.len(),
            seq == ancestors@.map_values(|s: String| s@),
            seq == spec_path_ancestors(path@),
            first_locales_dir(seq) == first_locales_dir(seq.skip(i as int)),
        decreases ancestors@.len() - i,
    {
        assert(seq.skip(i as int).drop_first() =~= seq.skip(i + 1));
        assert(seq.skip(i as int)[0] == ancestors@[i as int]@);
        let name = path_file_name(ancestors[i].as_str());
        let is_locales = match &name {
            Some(n) => str_eq(n.as_str(), "locales"),
            None => false,
        };
        if is_locales {
            return Some(ancestors[i].clone());
        }
        i += 1;
    }
    None
}

/// Where the walk over locale target `target` starts, the base namespaces
/// are relative to, and the one file kept when `target` is a file.
pub open spec fn spec_locale_roots(target: Seq<char>, is_file: bool) -> (Seq<char>, Seq<char>, Option<Seq<char>>) {
    let walk_root = if is_file {
        match spec_path_parent(target) {
            Some(p) => p,
            None => "."@,
        }
    } else {
        target
    };
    let base = match first_locales_dir(spec_path_ancestors(target)) {
        Some(b) => b,
        None => walk_root,
    };
    (walk_root, base, if is_file { Some(target) } else { None })
}

/// Resolves the walk root, the namespace base and the single file of a
/// locale target; `target_is_file` says whether it names an existing file.
pub fn resolve_locale_roots(target: &str, target_is_file: bool) -> (r: (String, String, Option<String>))
    ensures
        (r.0@, r.1@, opt_view(r.2)) == spec_locale_roots(target@, target_is_file),
{
    let walk_root = if target_is_file {
        match path_parent(target) {
            Some(p) => p,
            None => owned("."),
        }
    } else {
        owned(target)
    };
    let namespace_base = match find_locales_base(target) {
        Some(b) => b,
        None => walk_root.clone(),
    };
    let only_file = if target_is_file {
        Some(owned(target))
    } else {
        None
    };
    (walk_root, namespace_base, only_file)
}

/// Whether a file met by the walk is loaded as a locale file: it is the one
/// file asked for, if any, is not excluded, and ends in `.json`.
pub open spec fn spec_loads_locale(
    path: Seq<char>,
    walk_root: Seq<char>,
    only_file: Option<Seq<char>>,
    excludes: Seq<Seq<char>>,
) -> bool {
    &&& (only_file matches Some(f) ==> spec_path_eq(path, f))
    &&& !spec_is_excluded(excludes, path, walk_root)
    &&& spec_path_extension(path) == Some("json"@)
}

/// Whether the walk loads the file `path` as a locale file.
pub fn should_load_locale(
    path: &str,
    walk_root: &str,
    only_file: &Option<String>,
    excludes: &ExcludeSet,
) -> (r: bool)
    ensures
        r == spec_loads_locale(path@, walk_root@, opt_view(*only_file), excludes@),
{
    if let Some(target_file) = only_file {
        if !path_eq(path, target_file.as_str()) {
            return false;
        }
    }
    if is_excluded(path, walk_root, excludes) {
        return false;
    }
    is_json_file(path)
}

impl LocaleFile {
    /// The locale file `path` with parsed content `json`, its namespace
    /// taken relative to `base_dir`.
    pub fn from_json(json: &JsonValue, path: &str, base_dir: &str) -> (r: Result<LocaleFile, I18nError>)
        ensures
            match r {
                Ok(f) => spec_namespace(base_dir@, path@) == Some(f@.namespace) && f@.path == path@
                    && f@.keys == add_all(Seq::empty(), flat_keys(*json, Seq::empty())),
                Err(e) => spec_namespace(base_dir@, path@) is None && (e matches I18nError::InvalidPath { path: p, message }
                    && p@ == path@ && message@ == "could not strip base prefix '"@ + base_dir@ + "'"@),
            },
            r matches Ok(f) ==> distinct(f@.keys),
    {
        let mut keys: Vec<String> = Vec::new();
        let mut buffer: Vec<char> = Vec::new();
        assert(strs(keys@) =~= Seq::<Seq<char>>::empty());
        flatten_into(json, &mut buffer, &mut keys);
        let namespace = derive_namespace(base_dir, path)?;
        Ok(LocaleFile { namespace, path: owned(path), keys })
    }
}

/// The locale file `path` whose text is `text`, its namespace taken
/// relative to `base_dir`: a JSON error when the text is not JSON, else the
/// keys of its string values and its namespace.
pub fn locale_from_text(text: &str, path: &str, base_dir: &str) -> (r: Result<LocaleFile, I18nError>)
    ensures
        match spec_json_document(text@) {
            None => r matches Err(I18nError::Json(_)),
            Some(doc) => match r {
                Ok(f) => spec_namespace(base_dir@, path@) == Some(f@.namespace) && f@.path == path@ && f@.keys
                    == add_all(Seq::empty(), flat_view_keys(doc, Seq::empty())) && distinct(f@.keys),
                Err(e) => spec_namespace(base_dir@, path@) is None && (e matches I18nError::InvalidPath {
                    path: p,
                    message,
                } && p@ == path@ && message@ == "could not strip base prefix '"@ + base_dir@ + "'"@),
            },
        },
{
    match json_document(text) {
        Ok(json) => {
            proof {
                lemma_flat_keys_view(json, Seq::empty());
            }
            LocaleFile::from_json(&json, path, base_dir)
        },
        Err(e) => Err(I18nError::Json(e)),
    }
}

/// Every key flattened out of a JSON value is non-empty: a string value is
/// a key only under a non-empty path.
pub proof fn law_flat_keys_nonempty(v: JsonValue, prefix: Seq<char>)
    ensures
        forall|i: int| 0 <= i < flat_keys(v, prefix).len() ==> #[trigger] flat_keys(v, prefix)[i].len() > 0,
    decreases v, 1nat,
{
    match v {
        JsonValue::Object(members) => {
            assert(decreases_to!(v => v->Object_0));
            lemma_flat_members_nonempty(members@, prefix);
            assert(flat_keys(v, prefix) == flat_members(members@, prefix));
        },
        JsonValue::String(_) => {
            if prefix.len() > 0 {
                assert(flat_keys(v, prefix) =~= seq![prefix]);
            } else {
                assert(flat_keys(v, prefix) =~= Seq::<Seq<char>>::empty());
            }
        },
        JsonValue::Other => {
            assert(flat_keys(v, prefix) =~= Seq::<Seq<char>>::empty());
        },
    }
}

/// Every key flattened out of a list of members is non-empty.
proof fn lemma_flat_members_nonempty(members: Seq<(String, JsonValue)>, prefix: Seq<char>)
    ensures
        forall|i: int| 0 <= i < flat_members(members, prefix).len() ==> #[trigger] flat_members(members, prefix)[i].len() > 0,
    decreases members, 0nat,
{
    if members.len() > 0 {
        let init = members.subrange(0, members.len() - 1);
        let last = members[members.len() - 1];
        assert(decreases_to!(members => init));
        lemma_flat_members_nonempty(init, prefix);
        assert(decreases_to!(members => members[members.len() - 1]));
        assert(decreases_to!(members[members.len() - 1] => last.1));
        law_flat_keys_nonempty(last.1, join_key(prefix, last.0@));
        let a = flat_members(init, prefix);
        let b = flat_keys(last.1, join_key(prefix, last.0@));
        assert forall|i: int| 0 <= i < (a + b).len() implies #[trigger] (a + b)[i].len() > 0 by {
            if i < a.len() {
                assert((a + b)[i] == a[i]);
            } else {
                assert((a + b)[i] == b[i - a.len()]);
            }
        }
    }
}

/// The keys of a locale file hold no key twice and no empty key.
pub proof fn law_locale_keys(json: JsonValue)
    ensures
        distinct(add_all(Seq::empty(), flat_keys(json, Seq::empty()))),
        forall|k: Seq<char>| #[trigger] add_all(Seq::empty(), flat_keys(json, Seq::empty())).contains(k) ==> k.len() > 0,
{
    let flat = flat_keys(json, Seq::empty());
    lemma_add_all_contents(Seq::empty(), flat);
    law_flat_keys_nonempty(json, Seq::empty());
    assert forall|k: Seq<char>| #[trigger] add_all(Seq::empty(), flat).contains(k) implies k.len() > 0 by {
        assert(!Seq::<Seq<char>>::empty().contains(k));
        let i = choose|i: int| 0 <= i < flat.len() && flat[i] == k;
        assert(flat[i].len() > 0);
    }
}

/// A namespace uses forward slashes only.
pub proof fn law_namespace_has_no_backslash(base: Seq<char>, file: Seq<char>)
    ensures
        spec_namespace(base, file) matches Some(ns) ==> !ns.contains('\\'),
{
    if let Some(ns) = spec_namespace(base, file) {
        if ns.contains('\\') {
            let i = choose|i: int| 0 <= i < ns.len() && ns[i] == '\\';
        }
    }
}

} // verus!

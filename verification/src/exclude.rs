//! Exclusion of files by glob patterns relative to a scan root.
use vstd::prelude::*;
use crate::error::I18nError;
use crate::paths::{path_strip_prefix, spec_path_strip_prefix};
use crate::strings::strs;
use crate::text::{backslashes_to_slashes, push_str, replace_char};

verus! {

/// A compiled glob.
#[verifier::external_type_specification]
#[verifier::external_body]
pub struct ExGlob(globset::Glob);

/// A set of compiled globs.
#[verifier::external_type_specification]
#[verifier::external_body]
pub struct ExGlobSet(globset::GlobSet);

/// A collector of globs for a set.
#[verifier::external_type_specification]
#[verifier::external_body]
pub struct ExGlobSetBuilder(globset::GlobSetBuilder);

/// The pattern a glob holds: the one it was built from.
pub uninterp spec fn glob_source(g: globset::Glob) -> Seq<char>;

/// The patterns a builder holds, in the order they were added.
pub uninterp spec fn builder_globs(b: globset::GlobSetBuilder) -> Seq<Seq<char>>;

/// The patterns a glob set was built from, in order.
pub uninterp spec fn set_globs(s: globset::GlobSet) -> Seq<Seq<char>>;

/// Whether `Glob::new` accepts a pattern.
pub uninterp spec fn spec_glob_parses(pattern: Seq<char>) -> bool;

/// The text of the error `Glob::new` reports for a pattern it refuses.
pub uninterp spec fn spec_glob_error(pattern: Seq<char>) -> Seq<char>;

/// Whether `GlobSetBuilder::build` succeeds for the patterns added.
pub uninterp spec fn spec_globs_build(patterns: Seq<Seq<char>>) -> bool;

/// The text of the error `GlobSetBuilder::build` reports for patterns it
/// cannot compile together.
pub uninterp spec fn spec_globs_build_error(patterns: Seq<Seq<char>>) -> Seq<char>;

/// Whether `GlobSet::is_match` reports a match of a path against the set
/// built, with `Glob::new` and so with the default glob options, from the
/// patterns.
pub uninterp spec fn spec_globs_match(patterns: Seq<Seq<char>>, path: Seq<char>) -> bool;

/// Compiles a glob pattern.
///
/// Trusted: calls `globset::Glob::new`. Whether it succeeds is named
/// `spec_glob_parses`; on success the glob holds the pattern it was built
/// from, as `Glob::glob` documents; on failure the error's text, which
/// depends on the pattern alone, is named `spec_glob_error`.
#[verifier::external_body]
fn glob_new(pattern: &str) -> (r: Result<globset::Glob, String>)
    ensures
        (r is Ok) == spec_glob_parses(pattern@),
        r matches Ok(g) ==> glob_source(g) == pattern@,
        r matches Err(t) ==> t@ == spec_glob_error(pattern@),
{
    globset::Glob::new(pattern).map_err(|e| e.to_string())
}

/// An empty builder.
///
/// Trusted: calls `globset::GlobSetBuilder::new`, which starts with no
/// pattern.
#[verifier::external_body]
fn builder_new() -> (b: globset::GlobSetBuilder)
    ensures
        builder_globs(b) == Seq::<Seq<char>>::empty(),
{
    globset::GlobSetBuilder::new()
}

/// Adds a glob to a builder.
///
/// Trusted: calls `globset::GlobSetBuilder::add`, which appends the glob to
/// the builder's list.
#[verifier::external_body]
fn builder_add(b: &mut globset::GlobSetBuilder, g: globset::Glob)
    ensures
        builder_globs(*final(b)) == builder_globs(*old(b)).push(glob_source(g)),
{
    b.add(g);
}

/// Builds the set of the globs added.
///
/// Trusted: calls `globset::GlobSetBuilder::build`. Whether it succeeds is
/// named `spec_globs_build`; its source returns an empty set at once when no
/// glob was added, and otherwise a set of all the globs added. On failure
/// the error's text, which depends on the globs' patterns alone, is named
/// `spec_globs_build_error`.
#[verifier::external_body]
fn builder_build(b: &globset::GlobSetBuilder) -> (r: Result<globset::GlobSet, String>)
    ensures
        (r is Ok) == spec_globs_build(builder_globs(*b)),
        builder_globs(*b).len() == 0 ==> r is Ok,
        r matches Ok(s) ==> set_globs(s) == builder_globs(*b),
        r matches Err(t) ==> t@ == spec_globs_build_error(builder_globs(*b)),
{
    b.build().map_err(|e| e.to_string())
}

/// Compiled exclusion patterns. Only `build_exclude_globset` makes one,
/// from globs that `Glob::new` built with the default options.
pub struct ExcludeSet {
    set: globset::GlobSet,
}

impl View for ExcludeSet {
    type V = Seq<Seq<char>>;

    /// The patterns the set was built from, in order.
    closed spec fn view(&self) -> Seq<Seq<char>> {
        set_globs(self.set)
    }
}

/// Whether a path matches some glob of an exclusion set.
///
/// Trusted: calls `globset::GlobSet::is_match`; its result is named
/// `spec_globs_match` over the set's patterns and the path. That name takes
/// no glob options: every set it is asked of holds only globs that
/// `Glob::new` built, which all have the default options.
#[verifier::external_body]
fn glob_set_is_match(s: &ExcludeSet, path: &str) -> (r: bool)
    ensures
        r == spec_globs_match(s@, path@),
{
    s.set.is_match(path)
}

/// The position of the first pattern that does not parse.
pub open spec fn first_invalid(ps: Seq<Seq<char>>) -> Option<int>
    decreases ps.len(),
{
    if ps.len() == 0 {
        None
    } else if !spec_glob_parses(ps[0]) {
        Some(0)
    } else {
        match first_invalid(ps.drop_first()) {
            Some(i) => Some(i + 1),
            None => None,
        }
    }
}

proof fn lemma_first_invalid(ps: Seq<Seq<char>>, i: int)
    requires
        0 <= i <= ps.len(),
        forall|j: int| 0 <= j < i ==> spec_glob_parses(#[trigger] ps[j]),
    ensures
        i < ps.len() && !spec_glob_parses(ps[i]) ==> first_invalid(ps) == Some(i),
        i == ps.len() ==> first_invalid(ps) is None,
    decreases i,
{
    if i > 0 {
        let d = ps.drop_first();
        assert forall|j: int| 0 <= j < i - 1 implies spec_glob_parses(#[trigger] d[j]) by {
            assert(d[j] == ps[j + 1]);
        }
        lemma_first_invalid(d, i - 1);
    }
}

/// Compiles exclusion patterns; `option` names the setting they come from
/// in error messages.
pub fn build_exclude_globset(patterns: &Vec<String>, option: &str) -> (r: Result<ExcludeSet, I18nError>)
    ensures
        (r is Ok) == (first_invalid(strs(patterns@)) is None && spec_globs_build(strs(patterns@))),
        r matches Ok(s) ==> s@ == strs(patterns@),
        r matches Err(e) ==> (e matches I18nError::Config(m) && m@ == match first_invalid(strs(patterns@)) {
            Some(i) => "invalid "@ + option@ + " pattern '"@ + strs(patterns@)[i] + "': "@ + spec_glob_error(
                strs(patterns@)[i],
            ),
            None => "failed to compile "@ + option@ + " patterns: "@ + spec_globs_build_error(strs(patterns@)),
        }),
{
    let ghost ps = strs(patterns@);
    let mut builder = builder_new();
    let mut i: usize = 0;
    while i < patterns.len()
        invariant
            i <= patterns@.len(),
            ps == strs(patterns@),
            builder_globs(builder) == ps.take(i as int),
            forall|j: int| 0 <= j < i ==> spec_glob_parses(#[trigger] ps[j]),
        decreases patterns@.len() - i,
    {
        let pattern = &patterns[i];
        match glob_new(pattern.as_str()) {
            Ok(glob) => {
                builder_add(&mut builder, glob);
                assert(ps.take(i + 1) =~= ps.take(i as int).push(pattern@));
            },
            Err(err) => {
                proof {
                    lemma_first_invalid(ps, i as int);
                }
                let mut message = String::new();
                push_str(&mut message, "invalid ");
                push_str(&mut message, option);
                push_str(&mut message, " pattern '");
                push_str(&mut message, pattern.as_str());
                push_str(&mut message, "': ");
                push_str(&mut message, err.as_str());
                assert(message@ =~= "invalid "@ + option@ + " pattern '"@ + ps[i as int] + "': "@ + spec_glob_error(
                    ps[i as int],
                ));
                return Err(I18nError::Config(message));
            },
        }
        i += 1;
    }
    proof {
        lemma_first_invalid(ps, i as int);
        assert(ps.take(i as int) =~= ps);
    }
    match builder_build(&builder) {
        Ok(set) => Ok(ExcludeSet { set }),
        Err(err) => {
            let mut message = String::new();
            push_str(&mut message, "failed to compile ");
            push_str(&mut message, option);
            push_str(&mut message, " patterns: ");
            push_str(&mut message, err.as_str());
            assert(message@ =~= "failed to compile "@ + option@ + " patterns: "@ + spec_globs_build_error(ps));
            Err(I18nError::Config(message))
        },
    }
}

/// Whether a relative path matches the set, as written or with its
/// backslashes turned into slashes.
pub open spec fn spec_matches_relative(patterns: Seq<Seq<char>>, relative: Seq<char>) -> bool {
    spec_globs_match(patterns, relative) || spec_globs_match(patterns, replace_char(relative, '\\', '/'))
}

/// Whether `relative` matches the set.
pub fn matches_relative(relative: &str, set: &ExcludeSet) -> (r: bool)
    ensures
        r == spec_matches_relative(set@, relative@),
{
    if glob_set_is_match(set, relative) {
        return true;
    }
    let normalized = backslashes_to_slashes(relative);
    glob_set_is_match(set, normalized.as_str())
}

/// Whether `path`, taken relative to `root`, is excluded.
pub open spec fn spec_is_excluded(patterns: Seq<Seq<char>>, path: Seq<char>, root: Seq<char>) -> bool {
    match spec_path_strip_prefix(path, root) {
        Some(rel) => spec_matches_relative(patterns, rel),
        None => false,
    }
}

/// Whether `path`, taken relative to `root`, matches the exclusion set; a
/// path outside `root` is never excluded.
pub fn is_excluded(path: &str, root: &str, excludes: &ExcludeSet) -> (r: bool)
    ensures
        r == spec_is_excluded(excludes@, path@, root@),
{
    match path_strip_prefix(path, root) {
        Some(relative) => matches_relative(relative.as_str(), excludes),
        None => false,
    }
}

} // verus!

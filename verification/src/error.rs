//! Error types used by the i18n analysis pipeline.
use vstd::prelude::*;
use crate::text::{owned, push_str};

verus! {

/// The error `std::io` reports.
#[verifier::external_type_specification]
#[verifier::external_body]
pub struct ExIoError(std::io::Error);

/// The error `serde_json` reports.
#[verifier::external_type_specification]
#[verifier::external_body]
pub struct ExJsonError(serde_json::Error);

/// The error a directory walk of `ignore` reports.
#[verifier::external_type_specification]
#[verifier::external_body]
pub struct ExWalkError(ignore::Error);

/// Unified error enum for filesystem, parsing, and path-derivation failures.
#[derive(Debug)]
pub enum I18nError {
    /// A low-level I/O error.
    Io(std::io::Error),
    /// Invalid JSON while reading a locale file.
    Json(serde_json::Error),
    /// Invalid path relationship or normalization issue.
    InvalidPath { path: String, message: String },
    /// Source file parsing failure.
    SourceParse { path: String, message: String },
    /// Recursive directory traversal failure.
    WalkDir(String),
    /// Invalid or incomplete CLI/config composition.
    Config(String),
}

/// The text of an I/O error.
///
/// Trusted: calls `Display` of `std::io::Error`. The text comes from the
/// operating system, so nothing is stated of it.
#[verifier::external_body]
fn io_error_text(e: &std::io::Error) -> String {
    e.to_string()
}

/// The text of a JSON error.
///
/// Trusted: calls `Display` of `serde_json::Error`; the error value is
/// opaque here, so nothing is stated of the text.
#[verifier::external_body]
fn json_error_text(e: &serde_json::Error) -> String {
    e.to_string()
}

/// The text of a directory-walk error.
///
/// Trusted: calls `Display` of `ignore::Error`; the error value is opaque
/// here and its text may come from the operating system, so nothing is
/// stated of it.
#[verifier::external_body]
fn walk_error_text(e: &ignore::Error) -> String {
    e.to_string()
}

impl From<std::io::Error> for I18nError {
    fn from(err: std::io::Error) -> (r: I18nError) {
        I18nError::Io(err)
    }
}

impl vstd::std_specs::convert::FromSpecImpl<std::io::Error> for I18nError {
    open spec fn obeys_from_spec() -> bool {
        true
    }

    open spec fn from_spec(v: std::io::Error) -> I18nError {
        I18nError::Io(v)
    }
}

impl From<serde_json::Error> for I18nError {
    fn from(err: serde_json::Error) -> (r: I18nError) {
        I18nError::Json(err)
    }
}

impl vstd::std_specs::convert::FromSpecImpl<serde_json::Error> for I18nError {
    open spec fn obeys_from_spec() -> bool {
        true
    }

    open spec fn from_spec(v: serde_json::Error) -> I18nError {
        I18nError::Json(v)
    }
}

impl I18nError {
    /// The error for a failed directory walk, carrying the walk's own
    /// description.
    pub fn from_walk(err: ignore::Error) -> (r: I18nError)
        ensures
            r is WalkDir,
    {
        I18nError::WalkDir(walk_error_text(&err))
    }

    /// The message shown for this error.
    pub fn to_string(&self) -> (r: String)
        ensures
            match self {
                I18nError::Io(_) => exists|t: Seq<char>| r@ == "io error: "@ + t,
                I18nError::Json(_) => exists|t: Seq<char>| r@ == "json error: "@ + t,
                I18nError::InvalidPath { path, message } => r@ == "invalid path '"@ + path@ + "': "@ + message@,
                I18nError::SourceParse { path, message } => r@ == "failed to parse source file '"@ + path@ + "': "@
                    + message@,
                I18nError::WalkDir(message) => r@ == "walkdir error: "@ + message@,
                I18nError::Config(message) => r@ == "config error: "@ + message@,
            },
    {
        match self {
            I18nError::Io(err) => {
                let t = io_error_text(err);
                let mut r = owned("io error: ");
                push_str(&mut r, t.as_str());
                r
            },
            I18nError::Json(err) => {
                let t = json_error_text(err);
                let mut r = owned("json error: ");
                push_str(&mut r, t.as_str());
                r
            },
            I18nError::InvalidPath { path, message } => {
                let mut r = owned("invalid path '");
                push_str(&mut r, path.as_str());
                push_str(&mut r, "': ");
                push_str(&mut r, message.as_str());
                r
            },
            I18nError::SourceParse { path, message } => {
                let mut r = owned("failed to parse source file '");
                push_str(&mut r, path.as_str());
                push_str(&mut r, "': ");
                push_str(&mut r, message.as_str());
                r
            },
            I18nError::WalkDir(message) => {
                let mut r = owned("walkdir error: ");
                push_str(&mut r, message.as_str());
                r
            },
            I18nError::Config(message) => {
                let mut r = owned("config error: ");
                push_str(&mut r, message.as_str());
                r
            },
        }
    }
}

} // verus!

//! Verified core of `i18n-hunt`: finds translation keys that no source file uses.
pub mod analysis;
pub mod cli;
pub mod collector;
pub mod error;
pub mod exclude;
pub mod functions;
pub mod inferred;
pub mod json;
pub mod locale;
pub mod parser;
pub mod paths;
pub mod report;
pub mod scan;
pub mod source;
pub mod strings;
pub mod syntax;
pub mod table;
pub mod text;

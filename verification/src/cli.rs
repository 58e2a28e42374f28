//! Command-line options and the configuration file, settled into the
//! inputs of an analysis run.
use vstd::prelude::*;
use crate::error::I18nError;
use crate::paths::{path_is_dir, path_is_file};
use crate::strings::strs;
use crate::text::{opt_view, owned, push_str};

verus! {

/// Command-line arguments accepted by the binary.
pub struct Args {
    /// Locale directory (or a specific locale JSON file).
    pub locales: Option<String>,
    /// Source directory or a specific source file to scan.
    pub src: Option<String>,
    /// Optional config file path (TOML). If omitted, `i18n-hunt.toml` is
    /// loaded when present.
    pub config: Option<String>,
}

/// What a configuration file may set.
pub struct FileConfig {
    pub locales: Option<String>,
    pub src: Option<String>,
    pub src_exclude: Option<Vec<String>>,
    pub locales_exclude: Option<Vec<String>>,
}

impl Default for FileConfig {
    /// A configuration file that sets nothing.
    fn default() -> (r: FileConfig)
        ensures
            r.locales is None,
            r.src is None,
            r.src_exclude is None,
            r.locales_exclude is None,
    {
        FileConfig { locales: None, src: None, src_exclude: None, locales_exclude: None }
    }
}

/// Filesystem inputs required by an analysis run.
pub struct Config {
    /// Root directory that contains locale JSON files.
    pub locales: String,
    /// Root directory that contains source files to analyze.
    pub src: String,
    /// Glob patterns (relative to `src`) to skip source files/directories.
    pub src_exclude: Vec<String>,
    /// Glob patterns (relative to `locales`) to skip locale files/directories.
    pub locales_exclude: Vec<String>,
}

/// A configuration as plain values.
pub struct ConfigView {
    pub locales: Seq<char>,
    pub src: Seq<char>,
    pub src_exclude: Seq<Seq<char>>,
    pub locales_exclude: Seq<Seq<char>>,
}

impl View for Config {
    type V = ConfigView;

    open spec fn view(&self) -> ConfigView {
        ConfigView {
            locales: self.locales@,
            src: self.src@,
            src_exclude: strs(self.src_exclude@),
            locales_exclude: strs(self.locales_exclude@),
        }
    }
}

/// A path given on the command line wins over one from the file.
pub open spec fn either(cli: Option<Seq<char>>, file: Option<Seq<char>>) -> Option<Seq<char>> {
    match cli {
        Some(p) => Some(p),
        None => file,
    }
}

/// The patterns of an optional list; none when it is absent.
pub open spec fn patterns_or_none(o: Option<Vec<String>>) -> Seq<Seq<char>> {
    match o {
        Some(v) => strs(v@),
        None => Seq::empty(),
    }
}

/// How settling the options ends: a configuration, or the message of a
/// configuration error.
pub enum Settled {
    Ready(ConfigView),
    Failed(Seq<char>),
}

/// The outcome of settling the command-line paths `cli_locales` and
/// `cli_src` with the configuration file `file`, where `locales_is_path` and
/// `src_is_path` say whether the chosen paths name a directory or a file.
pub open spec fn spec_settle(
    cli_locales: Option<Seq<char>>,
    cli_src: Option<Seq<char>>,
    file: FileConfig,
    locales_is_path: bool,
    src_is_path: bool,
) -> Settled {
    match either(cli_locales, opt_view(file.locales)) {
        None => Settled::Failed("missing locales path (use --locales or i18n-hunt.toml)"@),
        Some(l) => if !locales_is_path {
            Settled::Failed("locales path must be a directory or file: '"@ + l + "'"@)
        } else {
            match either(cli_src, opt_view(file.src)) {
                None => Settled::Failed("missing src path (use --src or i18n-hunt.toml)"@),
                Some(s) => if !src_is_path {
                    Settled::Failed("src path must be a directory or file: '"@ + s + "'"@)
                } else {
                    Settled::Ready(
                        ConfigView {
                            locales: l,
                            src: s,
                            src_exclude: patterns_or_none(file.src_exclude),
                            locales_exclude: patterns_or_none(file.locales_exclude),
                        },
                    )
                },
            }
        },
    }
}

/// `r` is what the outcome `o` describes.
pub open spec fn settled_as(r: Result<Config, I18nError>, o: Settled) -> bool {
    match o {
        Settled::Ready(v) => r matches Ok(c) && c@ == v,
        Settled::Failed(m) => r matches Err(I18nError::Config(msg)) && msg@ == m,
    }
}

/// The path given on the command line, else the one from the file.
fn pick_path(cli: &Option<String>, file: &Option<String>) -> (r: Option<String>)
    ensures
        opt_view(r) == either(opt_view(*cli), opt_view(*file)),
{
    match cli {
        Some(p) => Some(p.clone()),
        None => match file {
            Some(p) => Some(p.clone()),
            None => None,
        },
    }
}

/// `"<what> path must be a directory or file: '<path>'"`.
fn not_a_path(what: &str, path: &str) -> (m: String)
    ensures
        m@ == what@ + " path must be a directory or file: '"@ + path@ + "'"@,
{
    let mut m = owned(what);
    push_str(&mut m, " path must be a directory or file: '");
    push_str(&mut m, path);
    push_str(&mut m, "'");
    m
}

/// Whether `p` names an existing directory or file.
fn is_dir_or_file(p: &str) -> bool {
    path_is_dir(p) || path_is_file(p)
}

/// The configuration file to read: the one given, else `i18n-hunt.toml`
/// when it exists (`default_exists`), else none.
pub fn config_file_path(explicit: Option<String>, default_exists: bool) -> (r: Option<String>)
    ensures
        opt_view(r) == match opt_view(explicit) {
            Some(p) => Some(p),
            None => if default_exists {
                Some("i18n-hunt.toml"@)
            } else {
                None
            },
        },
{
    match explicit {
        Some(p) => Some(p),
        None => if default_exists {
            Some(owned("i18n-hunt.toml"))
        } else {
            None
        },
    }
}

/// The error for a configuration file at `path` that does not parse, with
/// the parser's own description `detail`.
pub fn config_parse_error(path: &str, detail: &str) -> (e: I18nError)
    ensures
        e matches I18nError::Config(m) && m@ == "failed to parse '"@ + path@ + "': "@ + detail@,
{
    let mut m = owned("failed to parse '");
    push_str(&mut m, path);
    push_str(&mut m, "': ");
    push_str(&mut m, detail);
    I18nError::Config(m)
}

impl Args {
    /// Settles these arguments with the configuration file `file_config`,
    /// given whether the chosen locales and source paths name a directory or
    /// a file.
    pub fn settle(self, file_config: FileConfig, locales_is_path: bool, src_is_path: bool) -> (r: Result<Config, I18nError>)
        ensures
            settled_as(r, spec_settle(opt_view(self.locales), opt_view(self.src), file_config, locales_is_path, src_is_path)),
    {
        let FileConfig { locales: file_locales, src: file_src, src_exclude, locales_exclude } = file_config;
        let locales = match pick_path(&self.locales, &file_locales) {
            Some(l) => l,
            None => {
                return Err(I18nError::Config(owned("missing locales path (use --locales or i18n-hunt.toml)")));
            },
        };
        if !locales_is_path {
            let m = not_a_path("locales", locales.as_str());
            proof {
                reveal_strlit("locales");
                reveal_strlit(" path must be a directory or file: '");
                reveal_strlit("locales path must be a directory or file: '");
                assert(m@ =~= "locales path must be a directory or file: '"@ + locales@ + "'"@);
            }
            return Err(I18nError::Config(m));
        }
        let src = match pick_path(&self.src, &file_src) {
            Some(s) => s,
            None => {
                return Err(I18nError::Config(owned("missing src path (use --src or i18n-hunt.toml)")));
            },
        };
        if !src_is_path {
            let m = not_a_path("src", src.as_str());
            proof {
                reveal_strlit("src");
                reveal_strlit(" path must be a directory or file: '");
                reveal_strlit("src path must be a directory or file: '");
                assert(m@ =~= "src path must be a directory or file: '"@ + src@ + "'"@);
            }
            return Err(I18nError::Config(m));
        }
        let src_exclude = match src_exclude {
            Some(v) => v,
            None => Vec::new(),
        };
        let locales_exclude = match locales_exclude {
            Some(v) => v,
            None => Vec::new(),
        };
        proof {
            assert(strs(Seq::<String>::empty()) =~= Seq::<Seq<char>>::empty());
        }
        Ok(Config { locales, src, src_exclude, locales_exclude })
    }

    /// Converts these arguments, with the configuration file `file_config`,
    /// into the configuration of a run. Each chosen path must name an
    /// existing directory or file; the file system is asked in turn.
    pub fn into_config(self, file_config: FileConfig) -> (r: Result<Config, I18nError>)
        ensures
            exists|locales_is_path: bool, src_is_path: bool|
                settled_as(
                    r,
                    spec_settle(opt_view(self.locales), opt_view(self.src), file_config, locales_is_path, src_is_path),
                ),
    {
        let locales_is_path = match pick_path(&self.locales, &file_config.locales) {
            Some(l) => is_dir_or_file(l.as_str()),
            None => false,
        };
        let src_is_path = if locales_is_path {
            match pick_path(&self.src, &file_config.src) {
                Some(s) => is_dir_or_file(s.as_str()),
                None => false,
            }
        } else {
            false
        };
        let ghost cli_locales = opt_view(self.locales);
        let ghost cli_src = opt_view(self.src);
        let ghost file = file_config;
        let r = self.settle(file_config, locales_is_path, src_is_path);
        assert(settled_as(r, spec_settle(cli_locales, cli_src, file, locales_is_path, src_is_path)));
        r
    }
}

/// A path given on the command line wins over the one in the configuration
/// file, and the exclusion patterns come from the file alone.
pub proof fn law_command_line_wins(
    cli_locales: Seq<char>,
    cli_src: Seq<char>,
    file: FileConfig,
)
    ensures
        spec_settle(Some(cli_locales), Some(cli_src), file, true, true) == Settled::Ready(
            ConfigView {
                locales: cli_locales,
                src: cli_src,
                src_exclude: patterns_or_none(file.src_exclude),
                locales_exclude: patterns_or_none(file.locales_exclude),
            },
        ),
{
}

/// Without a locales path, neither on the command line nor in the file,
/// settling fails with the same message whatever the file system holds and
/// whatever the source path is.
pub proof fn law_missing_locales_reported_first(
    cli_src: Option<Seq<char>>,
    file: FileConfig,
    locales_is_path: bool,
    src_is_path: bool,
)
    requires
        file.locales is None,
    ensures
        spec_settle(None, cli_src, file, locales_is_path, src_is_path) == Settled::Failed(
            "missing locales path (use --locales or i18n-hunt.toml)"@,
        ),
{
}

} // verus!

//! Run configuration: display mode, search range, format strings, per-source
//! switches and the fixup kind, resolved once at startup by layering explicit
//! flags over persisted settings over hard defaults.
//!
//! The caller hands in the flag values and the raw persisted settings (each
//! the string the configuration store returned, or `None` where the key is
//! unset); resolution itself is verified here and the result is immutable for
//! the run.

use vstd::prelude::*;
use crate::errors::ConfigError;
use crate::text;
use crate::version::GitVersion;
use crate::version::git_check_version;

verus! {

/// How the run presents candidates: fold the choice into a commit (smash),
/// list every candidate, or print only the picked one.
#[derive(Clone, Copy, Debug, PartialEq, Eq, Structural)]
pub enum DisplayMode {
    Smash,
    List,
    Select,
}

/// Which commits to search: local-only, the entire history, or an explicit
/// range expression.
#[derive(Clone, Debug)]
pub enum CommitRange {
    Local,
    All,
    Range(String),
}

/// Spec-level mirror of [`CommitRange`].
pub enum CommitRangeV {
    Local,
    All,
    Range(Seq<char>),
}

impl View for CommitRange {
    type V = CommitRangeV;

    open spec fn view(&self) -> CommitRangeV {
        match self {
            CommitRange::Local => CommitRangeV::Local,
            CommitRange::All => CommitRangeV::All,
            CommitRange::Range(s) => CommitRangeV::Range(s@),
        }
    }
}

/// How the chosen target is folded: a plain fixup, an amend (staged changes
/// plus message edit) or a reword (message edit only).
#[derive(Clone, Copy, Debug, PartialEq, Eq, Structural)]
pub enum FixupMode {
    Fixup,
    Amend,
    Reword,
}

/// The commit flag for a fixup kind against `target`.
pub open spec fn spec_cli_option(m: FixupMode, target: Seq<char>) -> Seq<char> {
    match m {
        FixupMode::Fixup => "--fixup="@ + target,
        FixupMode::Amend => "--fixup=amend:"@ + target,
        FixupMode::Reword => "--fixup=reword:"@ + target,
    }
}

impl FixupMode {
    /// The commit flag that asks the version-control tool for this fixup kind
    /// against `target`.
    pub fn to_cli_option(&self, target: &str) -> (r: String)
        ensures
            r@ == spec_cli_option(*self, target@),
    {
        let mut r = match self {
            FixupMode::Fixup => "--fixup=".to_owned(),
            FixupMode::Amend => "--fixup=amend:".to_owned(),
            FixupMode::Reword => "--fixup=reword:".to_owned(),
        };
        r.append(target);
        r
    }
}

/// The display mode a persisted setting names, if any.
pub open spec fn display_mode_of(s: Seq<char>) -> Option<DisplayMode> {
    if s == "smash"@ {
        Some(DisplayMode::Smash)
    } else if s == "list"@ {
        Some(DisplayMode::List)
    } else if s == "select"@ {
        Some(DisplayMode::Select)
    } else {
        None
    }
}

/// Parses a display-mode setting.
pub fn parse_display_mode(s: &str) -> (r: Option<DisplayMode>)
    ensures
        r == display_mode_of(s@),
{
    if text::str_eq(s, "smash") {
        Some(DisplayMode::Smash)
    } else if text::str_eq(s, "list") {
        Some(DisplayMode::List)
    } else if text::str_eq(s, "select") {
        Some(DisplayMode::Select)
    } else {
        None
    }
}

/// The boolean a setting names: exactly `true` or `false`.
pub open spec fn bool_of(s: Seq<char>) -> Option<bool> {
    if s == "true"@ {
        Some(true)
    } else if s == "false"@ {
        Some(false)
    } else {
        None
    }
}

/// The range a persisted setting names: the two keywords, or an explicit
/// range expression taken verbatim.
pub open spec fn range_setting_of(s: Seq<char>) -> CommitRangeV {
    if s == "local"@ {
        CommitRangeV::Local
    } else if s == "all"@ {
        CommitRangeV::All
    } else {
        CommitRangeV::Range(s)
    }
}

/// Parses a range setting.
pub fn parse_range_setting(s: &str) -> (r: CommitRange)
    ensures
        r@ == range_setting_of(s@),
{
    if text::str_eq(s, "local") {
        CommitRange::Local
    } else if text::str_eq(s, "all") {
        CommitRange::All
    } else {
        CommitRange::Range(s.to_owned())
    }
}

/// The explicit command-line choices for one run, already parsed by the
/// argument layer into plain values.
#[derive(Clone, Debug)]
pub struct Args {
    pub list: bool,
    pub select: bool,
    pub format: Option<String>,
    pub max_count: Option<u32>,
    pub all: bool,
    pub local: bool,
    pub rebase: bool,
    pub no_rebase: bool,
    pub interactive: bool,
    pub blame: bool,
    pub no_blame: bool,
    pub files: bool,
    pub no_files: bool,
    pub recent: bool,
    pub no_recent: bool,
    pub range: Option<String>,
    pub amend: bool,
    pub reword: bool,
    pub commit: Option<String>,
}

/// The persisted settings for one run: for each key, the string the
/// configuration store returned (with its store-side default applied), or
/// `None` where the key is unset.
#[derive(Clone, Debug)]
pub struct Settings {
    pub mode: Option<String>,
    pub range: Option<String>,
    pub format: Option<String>,
    pub max_count: Option<String>,
    pub auto_rebase: Option<String>,
    pub interactive: Option<String>,
    pub blame: Option<String>,
    pub files: Option<String>,
    pub recent: Option<String>,
    pub files_label: Option<String>,
    pub blame_label: Option<String>,
    pub recent_label: Option<String>,
}

/// The view of an optional string.
pub open spec fn view_opt(o: Option<String>) -> Option<Seq<char>> {
    match o {
        Some(s) => Some(s@),
        None => None,
    }
}

/// A query against the persisted configuration store: the key, an optional
/// store-side default, and an optional value type the store should enforce.
#[derive(Clone, Debug)]
pub struct GitConfigBuilder {
    pub key: &'static str,
    pub default: Option<&'static str>,
    pub value_type: Option<&'static str>,
}

/// The argument list a builder's query hands the configuration store.
pub open spec fn spec_config_args(b: GitConfigBuilder) -> Seq<Seq<char>> {
    let base = seq!["config"@, "--get"@];
    let with_default = match b.default {
        Some(d) => base + seq!["--default"@, d@],
        None => base,
    };
    let with_type = match b.value_type {
        Some(t) => with_default + seq!["--type"@, t@],
        None => with_default,
    };
    with_type + seq![b.key@]
}

impl GitConfigBuilder {
    /// A query for `key` with no default and no value type.
    pub fn new(key: &'static str) -> (r: Self)
        ensures
            r.key == key,
            r.default is None,
            r.value_type is None,
    {
        Self { key, default: None, value_type: None }
    }

    /// The same query with a store-side default.
    pub fn with_default(self, default: &'static str) -> (r: Self)
        ensures
            r.key == self.key,
            r.default == Some(default),
            r.value_type == self.value_type,
    {
        Self { default: Some(default), ..self }
    }

    /// The same query with a value type the store should enforce.
    pub fn with_type(self, value_type: &'static str) -> (r: Self)
        ensures
            r.key == self.key,
            r.default == self.default,
            r.value_type == Some(value_type),
    {
        Self { value_type: Some(value_type), ..self }
    }

    /// The argument list for this query.
    pub fn args(&self) -> (r: Vec<String>)
        ensures
            r@.map_values(|a: String| a@) == spec_config_args(*self),
    {
        let mut r: Vec<String> = Vec::new();
        r.push("config".to_owned());
        r.push("--get".to_owned());
        if let Some(d) = self.default {
            r.push("--default".to_owned());
            r.push(d.to_owned());
        }
        if let Some(t) = self.value_type {
            r.push("--type".to_owned());
            r.push(t.to_owned());
        }
        r.push(self.key.to_owned());
        proof {
            assert(r@.map_values(|a: String| a@) =~= spec_config_args(*self));
        }
        r
    }

    /// Interprets a retrieved setting as a boolean: `None` stays `None`, a
    /// value must be exactly `true` or `false`.
    pub fn get_as_bool(&self, raw: &Option<String>) -> (r: Result<Option<bool>, ConfigError>)
        ensures
            match r {
                Ok(None) => raw is None,
                Ok(Some(b)) => raw matches Some(v) && bool_of(v@) == Some(b),
                Err(e) => raw matches Some(v) && bool_of(v@) is None && (e matches
                    ConfigError::BadBool(k, w) && k@ == self.key@ && w@ == v@),
            },
    {
        match raw {
            None => Ok(None),
            Some(v) => {
                if text::str_eq(v.as_str(), "true") {
                    Ok(Some(true))
                } else if text::str_eq(v.as_str(), "false") {
                    Ok(Some(false))
                } else {
                    Err(ConfigError::BadBool(self.key.to_owned(), v.clone()))
                }
            },
        }
    }

    /// Interprets a retrieved setting as an unsigned count: `None` stays
    /// `None`, a value must parse as a `u32`.
    pub fn get_as_int(&self, raw: &Option<String>) -> (r: Result<Option<u32>, ConfigError>)
        ensures
            match r {
                Ok(None) => raw is None,
                Ok(Some(n)) => raw matches Some(v) && text::valid_u32_str(v@) && n
                    == text::u32_str_value(v@),
                Err(e) => raw matches Some(v) && !text::valid_u32_str(v@) && (e matches
                    ConfigError::BadInt(k, w) && k@ == self.key@ && w@ == v@),
            },
    {
        match raw {
            None => Ok(None),
            Some(v) => {
                match text::parse_u32(v.as_str()) {
                    Some(n) => Ok(Some(n)),
                    None => Err(ConfigError::BadInt(self.key.to_owned(), v.clone())),
                }
            },
        }
    }
}

/// The default candidate format: abbreviated hash, source tag, subject,
/// author and relative age.
pub fn default_list_format() -> (r: &'static str)
    ensures
        r@ ==
        "%C(yellow)%h%C(reset) [%(smash:source)] %s %C(cyan)<%an>%C(reset) %C(green)(%cr)%C(reset)%C(auto)%d%C(reset)"@,
{
    "%C(yellow)%h%C(reset) [%(smash:source)] %s %C(cyan)<%an>%C(reset) %C(green)(%cr)%C(reset)%C(auto)%d%C(reset)"
}

/// The default tag for file-history candidates.
pub fn default_files_label() -> (r: &'static str)
    ensures
        r@ == "%C(green)F%C(reset)"@,
{
    "%C(green)F%C(reset)"
}

/// The default tag for blame candidates.
pub fn default_blame_label() -> (r: &'static str)
    ensures
        r@ == "%C(red)B%C(reset)"@,
{
    "%C(red)B%C(reset)"
}

/// The default tag for recent-history candidates.
pub fn default_recent_label() -> (r: &'static str)
    ensures
        r@ == "%C(magenta)R%C(reset)"@,
{
    "%C(magenta)R%C(reset)"
}

/// The resolved run parameters, immutable for the run.
#[derive(Clone, Debug)]
pub struct Config {
    pub mode: DisplayMode,
    pub range: CommitRange,
    pub format: String,
    pub max_count: u32,
    pub auto_rebase: bool,
    pub interactive: bool,
    pub blame: bool,
    pub files: bool,
    pub recent: bool,
    pub commit: Option<String>,
    pub source_label_files: String,
    pub source_label_blame: String,
    pub source_label_recent: String,
    pub fixup_mode: FixupMode,
}

/// The resolved display mode: explicit flags first, then the setting, then
/// the default; `None` where the setting names no mode.
pub open spec fn mode_resolution(list: bool, select: bool, setting: Option<Seq<char>>) -> Option<
    DisplayMode,
> {
    if list {
        Some(DisplayMode::List)
    } else if select {
        Some(DisplayMode::Select)
    } else {
        match setting {
            Some(s) => display_mode_of(s),
            None => Some(DisplayMode::Smash),
        }
    }
}

/// The resolved range: explicit flags, then the explicit range, then the
/// setting, then the whole history.
pub open spec fn range_resolution(
    local: bool,
    all: bool,
    arg_range: Option<Seq<char>>,
    setting: Option<Seq<char>>,
) -> CommitRangeV {
    if local {
        CommitRangeV::Local
    } else if all {
        CommitRangeV::All
    } else {
        match arg_range {
            Some(r) => CommitRangeV::Range(r),
            None => match setting {
                Some(s) => range_setting_of(s),
                None => CommitRangeV::All,
            },
        }
    }
}

/// The resolved format string: the explicit one, then the setting, then the
/// default.
pub open spec fn format_resolution(arg: Option<Seq<char>>, setting: Option<Seq<char>>) -> Seq<
    char,
> {
    match arg {
        Some(f) => f,
        None => match setting {
            Some(s) => s,
            None =>
            "%C(yellow)%h%C(reset) [%(smash:source)] %s %C(cyan)<%an>%C(reset) %C(green)(%cr)%C(reset)%C(auto)%d%C(reset)"@,
        },
    }
}

/// The resolved candidate bound: the explicit count, then the setting (which
/// must be a `u32`, else `None`), then unbounded (zero).
pub open spec fn count_resolution(arg: Option<u32>, setting: Option<Seq<char>>) -> Option<u32> {
    match arg {
        Some(n) => Some(n),
        None => match setting {
            Some(s) => if text::valid_u32_str(s) {
                Some(text::u32_str_value(s) as u32)
            } else {
                None
            },
            None => Some(0),
        },
    }
}

/// The resolved value of a boolean switch with a positive and a negative
/// flag: flags first, then the setting (which must be a boolean, else
/// `None`), then the default.
pub open spec fn bool_resolution(
    yes: bool,
    no: bool,
    setting: Option<Seq<char>>,
    default: bool,
) -> Option<bool> {
    if yes {
        Some(true)
    } else if no {
        Some(false)
    } else {
        match setting {
            Some(s) => bool_of(s),
            None => Some(default),
        }
    }
}

/// The resolved source tag: the setting, then the default.
pub open spec fn label_resolution(setting: Option<Seq<char>>, default: Seq<char>) -> Seq<char> {
    match setting {
        Some(s) => s,
        None => default,
    }
}

/// The fixup kind the flags ask for.
pub open spec fn fixup_resolution(amend: bool, reword: bool) -> FixupMode {
    if amend {
        FixupMode::Amend
    } else if reword {
        FixupMode::Reword
    } else {
        FixupMode::Fixup
    }
}

/// Every fallible resolution succeeds and the fixup kind needs no newer tool.
pub open spec fn load_succeeds(args: Args, settings: Settings, version: GitVersion) -> bool {
    &&& mode_resolution(args.list, args.select, view_opt(settings.mode)) is Some
    &&& count_resolution(args.max_count, view_opt(settings.max_count)) is Some
    &&& bool_resolution(args.rebase, args.no_rebase, view_opt(settings.auto_rebase), true) is Some
    &&& bool_resolution(args.interactive, false, view_opt(settings.interactive), false) is Some
    &&& bool_resolution(args.blame, args.no_blame, view_opt(settings.blame), true) is Some
    &&& bool_resolution(args.files, args.no_files, view_opt(settings.files), true) is Some
    &&& bool_resolution(args.recent, args.no_recent, view_opt(settings.recent), false) is Some
    &&& ((args.amend || args.reword) ==> crate::version::spec_version_at_least(version, 2, 33))
}

impl Config {
    /// Resolves the run configuration: explicit flags over persisted settings
    /// over hard defaults, in the order the fields are listed; the first
    /// setting that fails to parse decides the error.
    pub fn load(args: &Args, settings: &Settings, version: &GitVersion) -> (r: Result<
        Config,
        ConfigError,
    >)
        ensures
            (r is Ok) == load_succeeds(*args, *settings, *version),
            r matches Ok(c) ==> {
                &&& Some(c.mode) == mode_resolution(args.list, args.select, view_opt(settings.mode))
                &&& c.range@ == range_resolution(
                    args.local,
                    args.all,
                    view_opt(args.range),
                    view_opt(settings.range),
                )
                &&& c.format@ == format_resolution(
                    view_opt(args.format),
                    view_opt(settings.format),
                )
                &&& Some(c.max_count) == count_resolution(
                    args.max_count,
                    view_opt(settings.max_count),
                )
                &&& Some(c.auto_rebase) == bool_resolution(
                    args.rebase,
                    args.no_rebase,
                    view_opt(settings.auto_rebase),
                    true,
                )
                &&& Some(c.interactive) == bool_resolution(
                    args.interactive,
                    false,
                    view_opt(settings.interactive),
                    false,
                )
                &&& Some(c.blame) == bool_resolution(
                    args.blame,
                    args.no_blame,
                    view_opt(settings.blame),
                    true,
                )
                &&& Some(c.files) == bool_resolution(
                    args.files,
                    args.no_files,
                    view_opt(settings.files),
                    true,
                )
                &&& Some(c.recent) == bool_resolution(
                    args.recent,
                    args.no_recent,
                    view_opt(settings.recent),
                    false,
                )
                &&& c.source_label_files@ == label_resolution(
                    view_opt(settings.files_label),
                    "%C(green)F%C(reset)"@,
                )
                &&& c.source_label_blame@ == label_resolution(
                    view_opt(settings.blame_label),
                    "%C(red)B%C(reset)"@,
                )
                &&& c.source_label_recent@ == label_resolution(
                    view_opt(settings.recent_label),
                    "%C(magenta)R%C(reset)"@,
                )
                &&& view_opt(c.commit) == view_opt(args.commit)
                &&& c.fixup_mode == fixup_resolution(args.amend, args.reword)
            },
            r matches Err(e) ==> {
                let mode_r = mode_resolution(args.list, args.select, view_opt(settings.mode));
                let count_r = count_resolution(args.max_count, view_opt(settings.max_count));
                let rebase_r = bool_resolution(
                    args.rebase,
                    args.no_rebase,
                    view_opt(settings.auto_rebase),
                    true,
                );
                let inter_r = bool_resolution(
                    args.interactive,
                    false,
                    view_opt(settings.interactive),
                    false,
                );
                let blame_r = bool_resolution(
                    args.blame,
                    args.no_blame,
                    view_opt(settings.blame),
                    true,
                );
                let files_r = bool_resolution(
                    args.files,
                    args.no_files,
                    view_opt(settings.files),
                    true,
                );
                let recent_r = bool_resolution(
                    args.recent,
                    args.no_recent,
                    view_opt(settings.recent),
                    false,
                );
                if mode_r is None {
                    e matches ConfigError::BadMode(v) && Some(v@) == view_opt(settings.mode)
                } else if count_r is None {
                    e matches ConfigError::BadInt(k, v) && k@ == "smash.maxCommitCount"@ && Some(v@)
                        == view_opt(settings.max_count)
                } else if rebase_r is None {
                    e matches ConfigError::BadBool(k, v) && k@ == "smash.autorebase"@ && Some(v@)
                        == view_opt(settings.auto_rebase)
                } else if inter_r is None {
                    e matches ConfigError::BadBool(k, v) && k@ == "smash.interactive"@ && Some(v@)
                        == view_opt(settings.interactive)
                } else if blame_r is None {
                    e matches ConfigError::BadBool(k, v) && k@ == "smash.blame"@ && Some(v@)
                        == view_opt(settings.blame)
                } else if files_r is None {
                    e matches ConfigError::BadBool(k, v) && k@ == "smash.files"@ && Some(v@)
                        == view_opt(settings.files)
                } else if recent_r is None {
                    e matches ConfigError::BadBool(k, v) && k@ == "smash.recent"@ && Some(v@)
                        == view_opt(settings.recent)
                } else {
                    e matches ConfigError::OldGit(v, req, f) && (args.amend || args.reword)
                        && !crate::version::spec_version_at_least(*version, 2, 33) && v@
                        == version.spec_render() && req@ == crate::version::spec_requirement_render(
                        2,
                        33,
                    ) && (f@ == "--amend"@ || f@ == "--reword"@)
                }
            },
    {
        let mode = if args.list {
            DisplayMode::List
        } else if args.select {
            DisplayMode::Select
        } else {
            match &settings.mode {
                Some(m) => match parse_display_mode(m.as_str()) {
                    Some(d) => d,
                    None => {
                        return Err(ConfigError::BadMode(m.clone()));
                    },
                },
                None => DisplayMode::Smash,
            }
        };

        let range = if args.local {
            CommitRange::Local
        } else if args.all {
            CommitRange::All
        } else {
            match &args.range {
                Some(r) => CommitRange::Range(r.clone()),
                None => match &settings.range {
                    Some(s) => parse_range_setting(s.as_str()),
                    None => CommitRange::All,
                },
            }
        };

        let format = match &args.format {
            Some(f) => f.clone(),
            None => match &settings.format {
                Some(s) => s.clone(),
                None => default_list_format().to_owned(),
            },
        };

        let max_count = match args.max_count {
            Some(n) => n,
            None => {
                let query = GitConfigBuilder::new("smash.maxCommitCount").with_type(
                    "int",
                ).with_default("0");
                match query.get_as_int(&settings.max_count) {
                    Ok(Some(n)) => n,
                    Ok(None) => 0,
                    Err(e) => {
                        return Err(e);
                    },
                }
            },
        };

        let auto_rebase = if args.rebase {
            true
        } else if args.no_rebase {
            false
        } else {
            let query = GitConfigBuilder::new("smash.autorebase").with_type("bool").with_default(
                "true",
            );
            match query.get_as_bool(&settings.auto_rebase) {
                Ok(Some(b)) => b,
                Ok(None) => true,
                Err(e) => {
                    return Err(e);
                },
            }
        };

        let interactive = if args.interactive {
            true
        } else {
            let query = GitConfigBuilder::new("smash.interactive").with_type("bool").with_default(
                "false",
            );
            match query.get_as_bool(&settings.interactive) {
                Ok(Some(b)) => b,
                Ok(None) => false,
                Err(e) => {
                    return Err(e);
                },
            }
        };

        let blame = if args.blame {
            true
        } else if args.no_blame {
            false
        } else {
            let query = GitConfigBuilder::new("smash.blame").with_type("bool").with_default("true");
            match query.get_as_bool(&settings.blame) {
                Ok(Some(b)) => b,
                Ok(None) => true,
                Err(e) => {
                    return Err(e);
                },
            }
        };

        let files = if args.files {
            true
        } else if args.no_files {
            false
        } else {
            let query = GitConfigBuilder::new("smash.files").with_type("bool").with_default("true");
            match query.get_as_bool(&settings.files) {
                Ok(Some(b)) => b,
                Ok(None) => true,
                Err(e) => {
                    return Err(e);
                },
            }
        };

        let recent = if args.recent {
            true
        } else if args.no_recent {
            false
        } else {
            let query = GitConfigBuilder::new("smash.recent").with_type("bool").with_default(
                "false",
            );
            match query.get_as_bool(&settings.recent) {
                Ok(Some(b)) => b,
                Ok(None) => false,
                Err(e) => {
                    return Err(e);
                },
            }
        };

        let source_label_files = match &settings.files_label {
            Some(s) => s.clone(),
            None => default_files_label().to_owned(),
        };
        let source_label_blame = match &settings.blame_label {
            Some(s) => s.clone(),
            None => default_blame_label().to_owned(),
        };
        let source_label_recent = match &settings.recent_label {
            Some(s) => s.clone(),
            None => default_recent_label().to_owned(),
        };

        let commit = match &args.commit {
            Some(c) => Some(c.clone()),
            None => None,
        };

        let fixup_mode = if args.amend {
            match git_check_version(version, 2, 33, "--amend") {
                Ok(()) => FixupMode::Amend,
                Err(e) => {
                    return Err(e);
                },
            }
        } else if args.reword {
            match git_check_version(version, 2, 33, "--reword") {
                Ok(()) => FixupMode::Reword,
                Err(e) => {
                    return Err(e);
                },
            }
        } else {
            FixupMode::Fixup
        };

        Ok(
            Config {
                mode,
                range,
                format,
                max_count,
                auto_rebase,
                interactive,
                blame,
                files,
                recent,
                commit,
                source_label_files,
                source_label_blame,
                source_label_recent,
                fixup_mode,
            },
        )
    }
}

} // verus!

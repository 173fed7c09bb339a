use git_smash::config::{
    default_list_format, parse_display_mode, parse_range_setting, Args, CommitRange, Config,
    DisplayMode, FixupMode, GitConfigBuilder, Settings,
};
use git_smash::errors::ConfigError;
use git_smash::version::{git_check_version, git_version, GitVersion};

fn no_args() -> Args {
    Args {
        list: false,
        select: false,
        format: None,
        max_count: None,
        all: false,
        local: false,
        rebase: false,
        no_rebase: false,
        interactive: false,
        blame: false,
        no_blame: false,
        files: false,
        no_files: false,
        recent: false,
        no_recent: false,
        range: None,
        amend: false,
        reword: false,
        commit: None,
    }
}

fn no_settings() -> Settings {
    Settings {
        mode: None,
        range: None,
        format: None,
        max_count: None,
        auto_rebase: None,
        interactive: None,
        blame: None,
        files: None,
        recent: None,
        files_label: None,
        blame_label: None,
        recent_label: None,
    }
}

fn modern() -> GitVersion {
    GitVersion { major: 2, minor: 39, patch: 2, prerelease: false }
}

#[test]
fn load_defaults() {
    let c = Config::load(&no_args(), &no_settings(), &modern()).unwrap();
    assert_eq!(c.mode, DisplayMode::Smash);
    assert!(matches!(c.range, CommitRange::All));
    assert_eq!(c.format, default_list_format());
    assert_eq!(c.max_count, 0);
    assert!(c.auto_rebase);
    assert!(!c.interactive);
    assert!(c.blame);
    assert!(c.files);
    assert!(!c.recent);
    assert_eq!(c.source_label_files, "%C(green)F%C(reset)");
    assert_eq!(c.source_label_blame, "%C(red)B%C(reset)");
    assert_eq!(c.source_label_recent, "%C(magenta)R%C(reset)");
    assert_eq!(c.fixup_mode, FixupMode::Fixup);
    assert!(c.commit.is_none());
}

#[test]
fn flags_override_settings() {
    let mut args = no_args();
    args.list = true;
    args.local = true;
    args.max_count = Some(7);
    args.no_blame = true;
    let mut settings = no_settings();
    settings.mode = Some("select".to_string());
    settings.range = Some("all".to_string());
    settings.max_count = Some("3".to_string());
    settings.blame = Some("true".to_string());
    let c = Config::load(&args, &settings, &modern()).unwrap();
    assert_eq!(c.mode, DisplayMode::List);
    assert!(matches!(c.range, CommitRange::Local));
    assert_eq!(c.max_count, 7);
    assert!(!c.blame);
}

#[test]
fn settings_fill_in_when_no_flags() {
    let mut settings = no_settings();
    settings.mode = Some("select".to_string());
    settings.range = Some("v1.0..HEAD".to_string());
    settings.format = Some("%H".to_string());
    settings.max_count = Some("12".to_string());
    settings.auto_rebase = Some("false".to_string());
    settings.recent = Some("true".to_string());
    let c = Config::load(&no_args(), &settings, &modern()).unwrap();
    assert_eq!(c.mode, DisplayMode::Select);
    match &c.range {
        CommitRange::Range(r) => assert_eq!(r, "v1.0..HEAD"),
        _ => panic!("expected explicit range"),
    }
    assert_eq!(c.format, "%H");
    assert_eq!(c.max_count, 12);
    assert!(!c.auto_rebase);
    assert!(c.recent);
}

#[test]
fn bad_mode_setting_fails() {
    let mut settings = no_settings();
    settings.mode = Some("sideways".to_string());
    let e = Config::load(&no_args(), &settings, &modern()).unwrap_err();
    match &e {
        ConfigError::BadMode(v) => assert_eq!(v, "sideways"),
        _ => panic!("expected a mode error"),
    }
    assert_eq!(e.message(), "failed to parse smash.mode 'sideways'");
}

#[test]
fn bad_count_setting_fails() {
    let mut settings = no_settings();
    settings.max_count = Some("many".to_string());
    let e = Config::load(&no_args(), &settings, &modern()).unwrap_err();
    assert_eq!(e.message(), "Failed to parse key 'smash.maxCommitCount' as u32");
}

#[test]
fn bad_bool_setting_fails() {
    let mut settings = no_settings();
    settings.blame = Some("yes".to_string());
    let e = Config::load(&no_args(), &settings, &modern()).unwrap_err();
    assert_eq!(e.message(), "Failed to parse key 'smash.blame' as bool");
}

#[test]
fn amend_needs_new_enough_git() {
    let mut args = no_args();
    args.amend = true;
    let old = GitVersion { major: 2, minor: 30, patch: 1, prerelease: false };
    let e = Config::load(&args, &no_settings(), &old).unwrap_err();
    assert_eq!(
        e.message(),
        "git version 2.30.1 does not match >=2.33 required for --amend"
    );
    let c = Config::load(&args, &no_settings(), &modern()).unwrap();
    assert_eq!(c.fixup_mode, FixupMode::Amend);
}

#[test]
fn reword_resolves_like_amend() {
    let mut args = no_args();
    args.reword = true;
    let c = Config::load(&args, &no_settings(), &modern()).unwrap();
    assert_eq!(c.fixup_mode, FixupMode::Reword);
}

#[test]
fn cli_option_per_fixup_kind() {
    assert_eq!(FixupMode::Fixup.to_cli_option("abc"), "--fixup=abc");
    assert_eq!(FixupMode::Amend.to_cli_option("abc"), "--fixup=amend:abc");
    assert_eq!(FixupMode::Reword.to_cli_option("abc"), "--fixup=reword:abc");
}

#[test]
fn display_mode_names() {
    assert_eq!(parse_display_mode("smash"), Some(DisplayMode::Smash));
    assert_eq!(parse_display_mode("list"), Some(DisplayMode::List));
    assert_eq!(parse_display_mode("select"), Some(DisplayMode::Select));
    assert_eq!(parse_display_mode("Smash"), None);
}

#[test]
fn range_setting_keywords_and_verbatim() {
    assert!(matches!(parse_range_setting("local"), CommitRange::Local));
    assert!(matches!(parse_range_setting("all"), CommitRange::All));
    match parse_range_setting("a..b") {
        CommitRange::Range(r) => assert_eq!(r, "a..b"),
        _ => panic!("expected explicit range"),
    }
}

#[test]
fn builder_args_carry_default_and_type() {
    let q = GitConfigBuilder::new("smash.blame").with_type("bool").with_default("true");
    assert_eq!(
        q.args(),
        vec![
            "config".to_string(),
            "--get".to_string(),
            "--default".to_string(),
            "true".to_string(),
            "--type".to_string(),
            "bool".to_string(),
            "smash.blame".to_string(),
        ]
    );
}

#[test]
fn builder_reads_bool_and_int() {
    let q = GitConfigBuilder::new("k");
    assert_eq!(q.get_as_bool(&None).unwrap(), None);
    assert_eq!(q.get_as_bool(&Some("true".to_string())).unwrap(), Some(true));
    assert_eq!(q.get_as_bool(&Some("false".to_string())).unwrap(), Some(false));
    assert!(q.get_as_bool(&Some("1".to_string())).is_err());
    assert_eq!(q.get_as_int(&Some("15".to_string())).unwrap(), Some(15));
    assert!(q.get_as_int(&Some("1k".to_string())).is_err());
}

#[test]
fn version_is_read_from_tool_output() {
    let v = git_version("git version 2.39.2\n").unwrap();
    assert_eq!((v.major, v.minor, v.patch, v.prerelease), (2, 39, 2, false));
}

#[test]
fn prerelease_versions_are_marked() {
    let v = git_version("git version 2.40.0-rc1").unwrap();
    assert!(v.prerelease);
    assert!(git_check_version(&v, 2, 33, "--amend").is_err());
}

#[test]
fn unparseable_version_reports() {
    let e = git_version("nonsense").unwrap_err();
    assert_eq!(e.message(), "Failed to match git version from 'nonsense'");
    let e2 = git_version("git version 2.39.2.windows.1").unwrap_err();
    assert_eq!(e2.message(), "failed to parse version from '2.39.2.windows.1'");
}

#[test]
fn version_requirement_boundary() {
    let exact = GitVersion { major: 2, minor: 33, patch: 0, prerelease: false };
    assert!(git_check_version(&exact, 2, 33, "--amend").is_ok());
    let older = GitVersion { major: 2, minor: 32, patch: 9, prerelease: false };
    assert!(git_check_version(&older, 2, 33, "--amend").is_err());
    let newer_major = GitVersion { major: 3, minor: 0, patch: 0, prerelease: false };
    assert!(git_check_version(&newer_major, 2, 33, "--amend").is_ok());
}

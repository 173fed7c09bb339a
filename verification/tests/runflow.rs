use git_smash::config::{CommitRange, DisplayMode, FixupMode};
use git_smash::git::{
    commit_fixup_args, config_get_output, file_revs_args, log_format_args, parse_output_lines,
    parse_single_value, rebase_args, rebase_rev, rev_list_args, rev_parse_args, rev_root_args,
    staged_files_args, verify_rev_args,
};
use git_smash::picker::{resolve_menu_command, select_target, MenuCommand, PickerError};
use git_smash::range::git_rev_range;
use git_smash::run::{check_range, check_revision, check_staged, resolve_target_action, TargetAction};

#[test]
fn empty_staged_set_stops_the_run() {
    let none: Vec<String> = Vec::new();
    let e = check_staged(&none).unwrap_err();
    assert_eq!(e, "Changes not staged for commit\nUse git add -p to stage changed files");
    assert!(check_staged(&vec!["src/a.rs".to_string()]).is_ok());
}

#[test]
fn upstream_equal_to_head_means_no_local_commits() {
    let head = Some("abc123".to_string());
    let up = Some("abc123".to_string());
    let r = git_rev_range(&CommitRange::Local, &up, &head).unwrap();
    assert_eq!(r, None);
    let e = check_range(r).unwrap_err();
    assert_eq!(
        e,
        "No local commits found\nTry --all or set smash.range=all to list published commits"
    );
}

#[test]
fn local_range_between_upstream_and_head() {
    let up = Some("abc".to_string());
    let head = Some("def".to_string());
    let r = git_rev_range(&CommitRange::Local, &up, &head).unwrap();
    assert_eq!(r, Some("@{upstream}..HEAD".to_string()));
}

#[test]
fn local_without_upstream_searches_everything() {
    let r = git_rev_range(&CommitRange::Local, &None, &None).unwrap();
    assert_eq!(r, Some("HEAD".to_string()));
}

#[test]
fn local_with_upstream_needs_head() {
    let up = Some("abc".to_string());
    let e = git_rev_range(&CommitRange::Local, &up, &None).unwrap_err();
    assert_eq!(e.message(), "failed to rev parse HEAD");
}

#[test]
fn all_and_explicit_ranges() {
    assert_eq!(
        git_rev_range(&CommitRange::All, &None, &None).unwrap(),
        Some("HEAD".to_string())
    );
    let explicit = CommitRange::Range("v1..v2".to_string());
    assert_eq!(
        git_rev_range(&explicit, &None, &None).unwrap(),
        Some("v1..v2".to_string())
    );
}

#[test]
fn select_target_takes_first_token() {
    assert_eq!(select_target("deadbeef extra text"), "deadbeef");
    assert_eq!(select_target(""), "");
    assert_eq!(select_target("deadbeef\n"), "deadbeef");
}

#[test]
fn root_commit_rebases_with_sentinel() {
    let root = "4f8a77012f1fa30b892ecf6683e29f4351d4e500";
    assert_eq!(rebase_rev(root, root), "--root");
    assert_eq!(rebase_rev(root, "4f8a7701"), "--root");
    assert_eq!(rebase_rev(root, "deadbeef"), "deadbeef^");
}

#[test]
fn target_action_per_case() {
    assert!(matches!(
        resolve_target_action(DisplayMode::Smash, "".to_string(), true, true),
        TargetAction::Finish
    ));
    match resolve_target_action(DisplayMode::Smash, "xyz".to_string(), false, true) {
        TargetAction::Invalid(m) => assert_eq!(
            m,
            "Selected commit 'xyz' not found\nPossibly --format or smash.format doesn't return a hash"
        ),
        _ => panic!("expected the invalid-target error"),
    }
    match resolve_target_action(DisplayMode::Select, "abc".to_string(), true, true) {
        TargetAction::Print(t) => assert_eq!(t, "abc"),
        _ => panic!("expected a print action"),
    }
    match resolve_target_action(DisplayMode::Smash, "abc".to_string(), true, false) {
        TargetAction::Commit(t, rebase) => {
            assert_eq!(t, "abc");
            assert!(!rebase);
        },
        _ => panic!("expected a commit action"),
    }
}

#[test]
fn menu_prefers_the_first_picker() {
    let m: MenuCommand =
        resolve_menu_command(Some("/bin/sk".to_string()), Some("/bin/fzf".to_string())).unwrap();
    assert_eq!(m.command, "/bin/sk");
    assert_eq!(
        m.args,
        vec![
            "--ansi".to_string(),
            "--preview".to_string(),
            "git show --stat --patch --color {+1}".to_string(),
        ]
    );
    let f = resolve_menu_command(None, Some("/bin/fzf".to_string())).unwrap();
    assert_eq!(f.command, "/bin/fzf");
    let e = resolve_menu_command(None, None).unwrap_err();
    assert!(matches!(e, PickerError::NoMenuCommand));
    assert_eq!(
        e.message(),
        "Can't find any supported fuzzy matcher or menu command\nPlease install skim, fzf or configure one with smash.menu"
    );
}

#[test]
fn file_revs_query_shape() {
    let files = vec!["a.rs".to_string(), "b.rs".to_string()];
    let args = file_revs_args("@{upstream}..HEAD", 5, &files);
    assert_eq!(
        args,
        vec![
            "--no-pager".to_string(),
            "log".to_string(),
            "--invert-grep".to_string(),
            "--extended-regexp".to_string(),
            "--grep".to_string(),
            "^(fixup|squash)! .*$".to_string(),
            "--format=%H %s".to_string(),
            "@{upstream}..HEAD".to_string(),
            "-5".to_string(),
            "--".to_string(),
            "a.rs".to_string(),
            "b.rs".to_string(),
        ]
    );
}

#[test]
fn file_revs_query_unbounded_has_no_count() {
    let files = vec!["a.rs".to_string()];
    let args = file_revs_args("HEAD", 0, &files);
    assert!(!args.iter().any(|a| a.starts_with('-') && a[1..].chars().all(|c| c.is_ascii_digit())));
}

#[test]
fn other_query_shapes() {
    assert_eq!(
        staged_files_args(),
        vec!["--no-pager", "diff", "--color=never", "--name-only", "--cached", "--no-ext-diff"]
    );
    assert_eq!(rev_parse_args("HEAD"), vec!["rev-parse", "HEAD"]);
    assert_eq!(verify_rev_args("abc"), vec!["rev-parse", "--verify", "abc"]);
    assert_eq!(
        rev_list_args("HEAD", 8),
        vec!["rev-list", "-n", "8", "--no-abbrev-commit", "HEAD"]
    );
    assert_eq!(
        rev_root_args(),
        vec!["rev-list", "--max-parents=0", "--no-abbrev-commit", "HEAD"]
    );
    assert_eq!(
        rebase_args("abc^"),
        vec!["rebase", "--interactive", "--autosquash", "--autostash", "abc^"]
    );
    assert_eq!(
        log_format_args("%H %s", "abc"),
        vec!["--no-pager", "log", "-1", "--format=%H %s", "abc"]
    );
}

#[test]
fn fixup_commit_arguments() {
    assert_eq!(
        commit_fixup_args(FixupMode::Fixup, "abc"),
        vec!["commit", "--verbose", "--fixup=abc", "--no-edit"]
    );
    assert_eq!(
        commit_fixup_args(FixupMode::Amend, "abc"),
        vec!["commit", "--verbose", "--fixup=amend:abc"]
    );
    assert_eq!(
        commit_fixup_args(FixupMode::Reword, "abc"),
        vec!["commit", "--verbose", "--fixup=reword:abc"]
    );
}

#[test]
fn config_store_answers() {
    assert_eq!(
        config_get_output(true, false, "value\n", "").unwrap(),
        Some("value".to_string())
    );
    assert_eq!(config_get_output(false, true, "", "").unwrap(), None);
    let e = config_get_output(false, false, "", "fatal: bad config\n").unwrap_err();
    assert_eq!(e, "fatal: bad config");
}

#[test]
fn single_values_and_line_lists() {
    assert_eq!(parse_single_value("abc123\n"), "abc123");
    assert_eq!(
        parse_output_lines("c2\nc1\n"),
        vec!["c2".to_string(), "c1".to_string()]
    );
    assert_eq!(parse_output_lines("").len(), 0);
}

#[test]
fn unresolvable_range_is_fatal_before_discovery() {
    assert!(check_revision("v1..v2", true).is_ok());
    let e = check_revision("nonsense..HEAD", false).unwrap_err();
    assert_eq!(e, "unknown revision 'nonsense..HEAD'");
}

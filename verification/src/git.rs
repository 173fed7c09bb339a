//! The command lines handed to the version-control tool and the readers of
//! its output.
//!
//! Every query the run makes is built here as a plain argument list with an
//! exact contract, and every output is parsed here; starting the subprocesses
//! is the caller's business.

use vstd::prelude::*;
use crate::config::FixupMode;
use crate::config::spec_cli_option;
use crate::text;

verus! {

/// The arguments that list the staged file paths.
pub open spec fn spec_staged_files_args() -> Seq<Seq<char>> {
    seq![
        "--no-pager"@,
        "diff"@,
        "--color=never"@,
        "--name-only"@,
        "--cached"@,
        "--no-ext-diff"@,
    ]
}

/// Builds the query for the staged file paths.
pub fn staged_files_args() -> (r: Vec<String>)
    ensures
        r@.map_values(|a: String| a@) == spec_staged_files_args(),
{
    let mut r: Vec<String> = Vec::new();
    r.push("--no-pager".to_owned());
    r.push("diff".to_owned());
    r.push("--color=never".to_owned());
    r.push("--name-only".to_owned());
    r.push("--cached".to_owned());
    r.push("--no-ext-diff".to_owned());
    proof {
        assert(r@.map_values(|a: String| a@) =~= spec_staged_files_args());
    }
    r
}

/// The arguments that produce the unified diff of the staged changes: one
/// context line, no path prefixes, no external diff driver, no colour.
pub open spec fn spec_staged_diff_args() -> Seq<Seq<char>> {
    seq![
        "--no-pager"@,
        "diff"@,
        "--cached"@,
        "--no-ext-diff"@,
        "--color=never"@,
        "--no-prefix"@,
        "--unified=1"@,
    ]
}

/// Builds the query for the staged diff.
pub fn staged_diff_args() -> (r: Vec<String>)
    ensures
        r@.map_values(|a: String| a@) == spec_staged_diff_args(),
{
    let mut r: Vec<String> = Vec::new();
    r.push("--no-pager".to_owned());
    r.push("diff".to_owned());
    r.push("--cached".to_owned());
    r.push("--no-ext-diff".to_owned());
    r.push("--color=never".to_owned());
    r.push("--no-prefix".to_owned());
    r.push("--unified=1".to_owned());
    proof {
        assert(r@.map_values(|a: String| a@) =~= spec_staged_diff_args());
    }
    r
}

/// The staged file set read from the tool's output: the trimmed output split
/// into lines, or nothing where the trimmed output is empty.
pub open spec fn spec_staged_files(out: Seq<char>) -> Seq<Seq<char>> {
    let t = text::spec_trim(out);
    if t.len() == 0 {
        Seq::empty()
    } else {
        text::spec_split(t, '\n')
    }
}

/// Reads the staged file set out of the tool's output.
pub fn parse_staged_files(out: &str) -> (r: Vec<String>)
    ensures
        r@.map_values(|p: String| p@) == spec_staged_files(out@),
{
    let t = text::trim(out);
    if t.unicode_len() == 0 {
        let r: Vec<String> = Vec::new();
        proof {
            assert(r@.map_values(|p: String| p@) =~= Seq::<Seq<char>>::empty());
        }
        r
    } else {
        text::split_char(t, '\n')
    }
}

/// Reads the configuration store's answer for one key: a missing key (the
/// store exits with code one) is no value; any other failure is fatal with
/// the store's trimmed error text; a value is the output with trailing
/// whitespace removed.
pub fn config_get_output(success: bool, code_is_one: bool, stdout: &str, stderr: &str) -> (r:
    Result<Option<String>, String>)
    ensures
        success ==> (r matches Ok(v) && (v matches Some(s) && s@ == text::spec_trim_end(stdout@))),
        !success && code_is_one ==> (r matches Ok(v) && v is None),
        !success && !code_is_one ==> (r matches Err(e) && e@ == text::spec_trim(stderr@)),
{
    if success {
        Ok(Some(text::trim_end(stdout).to_owned()))
    } else if code_is_one {
        Ok(None)
    } else {
        Err(text::trim(stderr).to_owned())
    }
}

/// The arguments that resolve a revision expression.
pub open spec fn spec_rev_parse_args(rev: Seq<char>) -> Seq<Seq<char>> {
    seq!["rev-parse"@, rev]
}

/// Builds the query that resolves a revision expression.
pub fn rev_parse_args(rev: &str) -> (r: Vec<String>)
    ensures
        r@.map_values(|a: String| a@) == spec_rev_parse_args(rev@),
{
    let mut r: Vec<String> = Vec::new();
    r.push("rev-parse".to_owned());
    r.push(rev.to_owned());
    proof {
        assert(r@.map_values(|a: String| a@) =~= spec_rev_parse_args(rev@));
    }
    r
}

/// The arguments that verify a revision resolves.
pub open spec fn spec_verify_rev_args(rev: Seq<char>) -> Seq<Seq<char>> {
    seq!["rev-parse"@, "--verify"@, rev]
}

/// Builds the query that verifies a revision resolves.
pub fn verify_rev_args(rev: &str) -> (r: Vec<String>)
    ensures
        r@.map_values(|a: String| a@) == spec_verify_rev_args(rev@),
{
    let mut r: Vec<String> = Vec::new();
    r.push("rev-parse".to_owned());
    r.push("--verify".to_owned());
    r.push(rev.to_owned());
    proof {
        assert(r@.map_values(|a: String| a@) =~= spec_verify_rev_args(rev@));
    }
    r
}

/// Reads a single-value answer: the output with trailing whitespace removed.
pub fn parse_single_value(out: &str) -> (r: String)
    ensures
        r@ == text::spec_trim_end(out@),
{
    text::trim_end(out).to_owned()
}

/// The arguments that list the most recent `max_count` commits of `rev`.
pub open spec fn spec_rev_list_args(rev: Seq<char>, max_count: u32) -> Seq<Seq<char>> {
    seq![
        "rev-list"@,
        "-n"@,
        text::spec_dec_string(max_count as int),
        "--no-abbrev-commit"@,
        rev,
    ]
}

/// Builds the query for the most recent `max_count` commits of `rev`.
pub fn rev_list_args(rev: &str, max_count: u32) -> (r: Vec<String>)
    ensures
        r@.map_values(|a: String| a@) == spec_rev_list_args(rev@, max_count),
{
    let mut r: Vec<String> = Vec::new();
    r.push("rev-list".to_owned());
    r.push("-n".to_owned());
    r.push(text::u64_string(max_count as u64));
    r.push("--no-abbrev-commit".to_owned());
    r.push(rev.to_owned());
    proof {
        assert(r@.map_values(|a: String| a@) =~= spec_rev_list_args(rev@, max_count));
    }
    r
}

/// The lines of a list answer: the output with trailing whitespace removed,
/// split into lines; nothing where it is empty.
pub open spec fn spec_output_lines(out: Seq<char>) -> Seq<Seq<char>> {
    let t = text::spec_trim_end(out);
    if t.len() == 0 {
        Seq::empty()
    } else {
        text::spec_split(t, '\n')
    }
}

/// Reads the lines of a list answer.
pub fn parse_output_lines(out: &str) -> (r: Vec<String>)
    ensures
        r@.map_values(|p: String| p@) == spec_output_lines(out@),
{
    let t = text::trim_end(out);
    if t.unicode_len() == 0 {
        let r: Vec<String> = Vec::new();
        proof {
            assert(r@.map_values(|p: String| p@) =~= Seq::<Seq<char>>::empty());
        }
        r
    } else {
        text::split_char(t, '\n')
    }
}

/// The arguments that name the root commit: the commit of the head's history
/// that has no parent.
pub open spec fn spec_rev_root_args() -> Seq<Seq<char>> {
    seq!["rev-list"@, "--max-parents=0"@, "--no-abbrev-commit"@, "HEAD"@]
}

/// Builds the query for the root commit.
pub fn rev_root_args() -> (r: Vec<String>)
    ensures
        r@.map_values(|a: String| a@) == spec_rev_root_args(),
{
    let mut r: Vec<String> = Vec::new();
    r.push("rev-list".to_owned());
    r.push("--max-parents=0".to_owned());
    r.push("--no-abbrev-commit".to_owned());
    r.push("HEAD".to_owned());
    proof {
        assert(r@.map_values(|a: String| a@) =~= spec_rev_root_args());
    }
    r
}

/// The file-history query: commits of `range` touching the staged files, with
/// fixup- and squash-tagged subjects excluded, hash and subject per line,
/// bounded by `max_count` when it is set (zero means unbounded).
pub open spec fn spec_file_revs_args(
    range: Seq<char>,
    max_count: u32,
    files: Seq<Seq<char>>,
) -> Seq<Seq<char>> {
    let base = seq![
        "--no-pager"@,
        "log"@,
        "--invert-grep"@,
        "--extended-regexp"@,
        "--grep"@,
        "^(fixup|squash)! .*$"@,
        "--format=%H %s"@,
        range,
    ];
    let bounded = if max_count > 0 {
        base + seq!["-"@ + text::spec_dec_string(max_count as int)]
    } else {
        base
    };
    bounded + seq!["--"@] + files
}

/// Builds the file-history query.
pub fn file_revs_args(range: &str, max_count: u32, files: &Vec<String>) -> (r: Vec<String>)
    ensures
        r@.map_values(|a: String| a@) == spec_file_revs_args(
            range@,
            max_count,
            files@.map_values(|f: String| f@),
        ),
{
    let mut r: Vec<String> = Vec::new();
    r.push("--no-pager".to_owned());
    r.push("log".to_owned());
    r.push("--invert-grep".to_owned());
    r.push("--extended-regexp".to_owned());
    r.push("--grep".to_owned());
    r.push("^(fixup|squash)! .*$".to_owned());
    r.push("--format=%H %s".to_owned());
    r.push(range.to_owned());
    if max_count > 0 {
        let mut bound = "-".to_owned();
        let count = text::u64_string(max_count as u64);
        bound.append(count.as_str());
        r.push(bound);
    }
    r.push("--".to_owned());
    let ghost prefix = r@.map_values(|a: String| a@);
    let mut i: usize = 0;
    while i < files.len()
        invariant
            i <= files.len(),
            r@.map_values(|a: String| a@) =~= prefix + files@.map_values(|f: String| f@).take(
                i as int,
            ),
        decreases files.len() - i,
    {
        let item = files[i].clone();
        let ghost r0 = r@;
        r.push(item);
        proof {
            let fv = files@.map_values(|f: String| f@);
            assert(r@.map_values(|a: String| a@) =~= r0.map_values(|a: String| a@).push(
                r@[r0.len() as int]@,
            ));
            assert(fv.take(i as int + 1) =~= fv.take(i as int).push(fv[i as int]));
            assert(r@.map_values(|a: String| a@) =~= prefix + fv.take(i as int + 1));
        }
        i = i + 1;
    }
    proof {
        assert(files@.map_values(|f: String| f@).take(files@.len() as int) =~= files@.map_values(
            |f: String| f@,
        ));
        assert(r@.map_values(|a: String| a@) =~= spec_file_revs_args(
            range@,
            max_count,
            files@.map_values(|f: String| f@),
        ));
    }
    r
}

/// The rebase revision argument: the root-rebase sentinel where the chosen
/// target is the root commit (the full root hash starts with the target),
/// otherwise the target's parent.
pub open spec fn spec_rebase_rev(root: Seq<char>, target: Seq<char>) -> Seq<char> {
    if text::spec_starts_with(root, target) {
        "--root"@
    } else {
        target + "^"@
    }
}

/// Picks the revision the autosquash rebase runs onto: the root-rebase
/// sentinel for the root commit, else the target's parent reference.
pub fn rebase_rev(root: &str, target: &str) -> (r: String)
    ensures
        r@ == spec_rebase_rev(root@, target@),
{
    if text::starts_with(root, target) {
        "--root".to_owned()
    } else {
        let mut r = target.to_owned();
        r.append("^");
        r
    }
}

/// The autosquash, autostash rebase onto `rev`.
pub open spec fn spec_rebase_args(rev: Seq<char>) -> Seq<Seq<char>> {
    seq!["rebase"@, "--interactive"@, "--autosquash"@, "--autostash"@, rev]
}

/// Builds the rebase command.
pub fn rebase_args(rev: &str) -> (r: Vec<String>)
    ensures
        r@.map_values(|a: String| a@) == spec_rebase_args(rev@),
{
    let mut r: Vec<String> = Vec::new();
    r.push("rebase".to_owned());
    r.push("--interactive".to_owned());
    r.push("--autosquash".to_owned());
    r.push("--autostash".to_owned());
    r.push(rev.to_owned());
    proof {
        assert(r@.map_values(|a: String| a@) =~= spec_rebase_args(rev@));
    }
    r
}

/// The fixup commit against `target`: plain fixups skip the message editor,
/// the amend and reword kinds open it.
pub open spec fn spec_commit_fixup_args(mode: FixupMode, target: Seq<char>) -> Seq<Seq<char>> {
    let base = seq!["commit"@, "--verbose"@, spec_cli_option(mode, target)];
    if mode is Fixup {
        base + seq!["--no-edit"@]
    } else {
        base
    }
}

/// Builds the fixup commit command.
pub fn commit_fixup_args(mode: FixupMode, target: &str) -> (r: Vec<String>)
    ensures
        r@.map_values(|a: String| a@) == spec_commit_fixup_args(mode, target@),
{
    let mut r: Vec<String> = Vec::new();
    r.push("commit".to_owned());
    r.push("--verbose".to_owned());
    r.push(mode.to_cli_option(target));
    if let FixupMode::Fixup = mode {
        r.push("--no-edit".to_owned());
    }
    proof {
        assert(r@.map_values(|a: String| a@) =~= spec_commit_fixup_args(mode, target@));
    }
    r
}

/// The single-commit rendering query: one commit described with `format`.
pub open spec fn spec_log_format_args(format: Seq<char>, commit: Seq<char>) -> Seq<Seq<char>> {
    seq!["--no-pager"@, "log"@, "-1"@, "--format="@ + format, commit]
}

/// Builds the rendering query for one commit.
pub fn log_format_args(format: &str, commit: &str) -> (r: Vec<String>)
    ensures
        r@.map_values(|a: String| a@) == spec_log_format_args(format@, commit@),
{
    let mut r: Vec<String> = Vec::new();
    r.push("--no-pager".to_owned());
    r.push("log".to_owned());
    r.push("-1".to_owned());
    let mut fmt = "--format=".to_owned();
    fmt.append(format);
    r.push(fmt);
    r.push(commit.to_owned());
    proof {
        assert(r@.map_values(|a: String| a@) =~= spec_log_format_args(format@, commit@));
    }
    r
}

} // verus!

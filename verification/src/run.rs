//! The run's own decisions, separated from the subprocess work around them:
//! the tests that end a run before discovery starts, and the action the
//! picked target leads to.
//!
//! The caller drives the run — gather the staged snapshot, ask these,
//! spawn discovery and the picker, collect the choice — and performs whatever
//! action these functions decide.

use vstd::prelude::*;
use crate::config::CommitRangeV;
use crate::config::DisplayMode;
use crate::range::RangeError;
use crate::range::spec_rev_range;

verus! {

/// Decides whether discovery may start: with no staged changes the run
/// reports the message, ends as a failure, and starts no subprocess.
pub fn check_staged(staged: &Vec<String>) -> (r: Result<(), String>)
    ensures
        (staged@.len() == 0) == (r is Err),
        r matches Err(m) ==> m@
            == "Changes not staged for commit\nUse git add -p to stage changed files"@,
{
    if staged.len() == 0 {
        Err("Changes not staged for commit\nUse git add -p to stage changed files".to_owned())
    } else {
        Ok(())
    }
}

/// Decides whether the resolved range allows a search: no range means no
/// local commits; the run reports the message and ends as a failure.
pub fn check_range(range: Option<String>) -> (r: Result<String, String>)
    ensures
        range matches Some(s) ==> (r matches Ok(o) && o@ == s@),
        range is None ==> (r matches Err(m) && m@
            == "No local commits found\nTry --all or set smash.range=all to list published commits"@),
{
    match range {
        Some(s) => Ok(s),
        None => Err(
            "No local commits found\nTry --all or set smash.range=all to list published commits".to_owned(),
        ),
    }
}

/// Decides whether the resolved range expression may be searched: one the
/// repository cannot resolve is fatal, with this message, before any
/// discovery work begins.
pub fn check_revision(range: &str, resolves: bool) -> (r: Result<(), String>)
    ensures
        (r is Ok) == resolves,
        r matches Err(m) ==> m@ == "unknown revision '"@ + range@ + "'"@,
{
    if resolves {
        Ok(())
    } else {
        let mut m = "unknown revision '".to_owned();
        m.append(range);
        m.append("'");
        Err(m)
    }
}

/// Law: with the local-only policy, an upstream tracking commit equal to the
/// head commit resolves to no range at all, and [`check_range`] then reports
/// "no local commits found" — the run ends as a failure.
pub proof fn lemma_local_exhausted(upstream: Seq<char>, head: Seq<char>)
    requires
        upstream == head,
    ensures
        spec_rev_range(CommitRangeV::Local, Some(upstream), Some(head)) == Ok::<
            Option<Seq<char>>,
            RangeError,
        >(None),
{
}

/// What the run does with the picker's answer.
pub enum TargetAction {
    /// The picker was aborted: end the run successfully, nothing more.
    Finish,
    /// The choice does not resolve to a commit: fatal, with this message.
    Invalid(String),
    /// Print the chosen commit and end the run (select mode).
    Print(String),
    /// Create the fixup commit against the target; rebase afterwards when the
    /// flag says so.
    Commit(String, bool),
}

/// Decides the action on the picked target: an empty choice ends the run
/// quietly; a target the repository cannot verify is a fatal configuration
/// problem; select mode prints the target; otherwise the fixup commit is
/// made, rebasing when configured.
pub fn resolve_target_action(mode: DisplayMode, target: String, valid: bool, auto_rebase: bool) -> (
    r: TargetAction)
    ensures
        target@.len() == 0 ==> r is Finish,
        target@.len() > 0 && !valid ==> (r matches TargetAction::Invalid(m) && m@
            == "Selected commit '"@ + target@
            + "' not found\nPossibly --format or smash.format doesn't return a hash"@),
        target@.len() > 0 && valid && mode == DisplayMode::Select ==> (r matches
            TargetAction::Print(t) && t@ == target@),
        target@.len() > 0 && valid && mode != DisplayMode::Select ==> (r matches
            TargetAction::Commit(t, rb) && t@ == target@ && rb == auto_rebase),
{
    if target.as_str().unicode_len() == 0 {
        TargetAction::Finish
    } else if !valid {
        let mut m = "Selected commit '".to_owned();
        m.append(target.as_str());
        m.append("' not found\nPossibly --format or smash.format doesn't return a hash");
        TargetAction::Invalid(m)
    } else if matches!(mode, DisplayMode::Select) {
        TargetAction::Print(target)
    } else {
        TargetAction::Commit(target, auto_rebase)
    }
}

} // verus!

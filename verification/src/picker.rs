//! The picker bridge's decisions: choosing the interactive selection program
//! and reading the user's choice out of its output.
//!
//! The subprocess itself — spawning it, streaming candidate lines into its
//! input while it runs, collecting its output — is the caller's business; a
//! failed write to it only means the user chose early and is no error.

use vstd::prelude::*;
use crate::text;

verus! {

/// An invocation of the interactive selection program.
#[derive(Clone, Debug)]
pub struct MenuCommand {
    pub command: String,
    pub args: Vec<String>,
}

impl MenuCommand {
    /// Pairs a program with its arguments.
    pub fn new(command: String, args: Vec<String>) -> (r: Self)
        ensures
            r.command@ == command@,
            r.args@.map_values(|a: String| a@) == args@.map_values(|a: String| a@),
    {
        Self { command, args }
    }
}

/// A failure to find any selection program.
#[derive(Debug)]
pub enum PickerError {
    NoMenuCommand,
}

impl PickerError {
    /// The message the run reports for this error.
    pub open spec fn spec_message(&self) -> Seq<char> {
        "Can't find any supported fuzzy matcher or menu command\nPlease install skim, fzf or configure one with smash.menu"@
    }

    /// Renders the message.
    pub fn message(&self) -> (r: String)
        ensures
            r@ == self.spec_message(),
    {
        "Can't find any supported fuzzy matcher or menu command\nPlease install skim, fzf or configure one with smash.menu".to_owned()
    }
}

/// The arguments handed to either fuzzy picker: colour pass-through and a
/// preview of the hovered commit.
pub open spec fn spec_fuzzy_args() -> Seq<Seq<char>> {
    seq!["--ansi"@, "--preview"@, "git show --stat --patch --color {+1}"@]
}

/// Builds the fuzzy-picker arguments.
pub fn fuzzy_args() -> (r: Vec<String>)
    ensures
        r@.map_values(|a: String| a@) == spec_fuzzy_args(),
{
    let mut r: Vec<String> = Vec::new();
    r.push("--ansi".to_owned());
    r.push("--preview".to_owned());
    r.push("git show --stat --patch --color {+1}".to_owned());
    proof {
        assert(r@.map_values(|a: String| a@) =~= spec_fuzzy_args());
    }
    r
}

/// Picks the selection program: the first of the two supported pickers that
/// resolved to a binary — `sk`, then `fzf` — with the fuzzy arguments; an
/// error where neither is installed.
pub fn resolve_menu_command(sk: Option<String>, fzf: Option<String>) -> (r: Result<
    MenuCommand,
    PickerError,
>)
    ensures
        sk matches Some(bin) ==> (r matches Ok(m) && m.command@ == bin@
            && m.args@.map_values(|a: String| a@) == spec_fuzzy_args()),
        sk is None ==> (fzf matches Some(bin) ==> (r matches Ok(m) && m.command@ == bin@
            && m.args@.map_values(|a: String| a@) == spec_fuzzy_args())),
        sk is None && fzf is None ==> (r matches Err(e) && e is NoMenuCommand),
{
    match sk {
        Some(bin) => Ok(MenuCommand::new(bin, fuzzy_args())),
        None => match fzf {
            Some(bin) => Ok(MenuCommand::new(bin, fuzzy_args())),
            None => Err(PickerError::NoMenuCommand),
        },
    }
}

/// The chosen commit id: the first whitespace-delimited token of the picker's
/// output, whatever trails it; empty where the picker was aborted.
pub fn select_target(line: &str) -> (t: String)
    ensures
        t@ == text::spec_first_token(line@),
{
    text::first_token(line).to_owned()
}

} // verus!

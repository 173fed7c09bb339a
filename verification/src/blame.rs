//! The blame mapper: building the line-range blame query for one file's
//! hunks, and reading the owning commit out of each attributed line.
//!
//! Blame runs as of the upper bound of the resolved range.  A line whose
//! leading token carries the boundary marker names a commit from before the
//! searched range; such lines are excluded, they are no fixup targets.

use vstd::prelude::*;
use crate::diff::Hunk;
use crate::diff::HunkV;
use crate::git;
use crate::text;

verus! {

/// The line-range selector for one hunk: `start,+len`.
pub open spec fn spec_hunk_selector(h: HunkV) -> Seq<char> {
    text::spec_dec_string(h.start as int) + ",+"@ + text::spec_dec_string(h.len as int)
}

/// The selector arguments for a file's hunks: `-L` and the selector, each.
pub open spec fn spec_selectors(hunks: Seq<HunkV>) -> Seq<Seq<char>>
    decreases hunks.len(),
{
    if hunks.len() == 0 {
        Seq::empty()
    } else {
        seq!["-L"@, spec_hunk_selector(hunks[0])] + spec_selectors(hunks.drop_first())
    }
}

/// The blame query for one file: long hashes, one line-range selector per
/// hunk, as of `rev`.
pub open spec fn spec_blame_args(
    file: Seq<char>,
    hunks: Seq<HunkV>,
    rev: Seq<char>,
) -> Seq<Seq<char>> {
    seq!["--no-pager"@, "blame"@, "-l"@] + spec_selectors(hunks) + seq![rev, "--"@, file]
}

/// Builds the blame query for one file's hunks.
pub fn blame_args(file: &str, hunks: &Vec<Hunk>, rev: &str) -> (r: Vec<String>)
    ensures
        r@.map_values(|a: String| a@) == spec_blame_args(
            file@,
            hunks@.map_values(|h: Hunk| h@),
            rev@,
        ),
{
    let ghost hv = hunks@.map_values(|h: Hunk| h@);
    let mut r: Vec<String> = Vec::new();
    r.push("--no-pager".to_owned());
    r.push("blame".to_owned());
    r.push("-l".to_owned());
    let ghost prefix = r@.map_values(|a: String| a@);
    proof {
        assert(prefix =~= seq!["--no-pager"@, "blame"@, "-l"@]);
        assert(hv.skip(0) =~= hv);
        assert(prefix + spec_selectors(hv) =~= prefix + spec_selectors(hv.skip(0)));
    }
    let mut i: usize = 0;
    while i < hunks.len()
        invariant
            hv == hunks@.map_values(|h: Hunk| h@),
            i <= hunks.len(),
            prefix + spec_selectors(hv) =~= r@.map_values(|a: String| a@) + spec_selectors(
                hv.skip(i as int),
            ),
        decreases hunks.len() - i,
    {
        let ghost cur = hv.skip(i as int);
        proof {
            assert(cur[0] == hv[i as int]);
            assert(cur.drop_first() =~= hv.skip(i as int + 1));
        }
        let ghost r0 = r@;
        r.push("-L".to_owned());
        let mut sel = text::u64_string(hunks[i].start as u64);
        sel.append(",+");
        let lens = text::u64_string(hunks[i].len as u64);
        sel.append(lens.as_str());
        proof {
            assert(sel@ == spec_hunk_selector(hv[i as int]));
        }
        r.push(sel);
        proof {
            assert(r@.map_values(|a: String| a@) =~= r0.map_values(|a: String| a@) + seq![
                "-L"@,
                spec_hunk_selector(hv[i as int]),
            ]);
            assert(r@.map_values(|a: String| a@) + spec_selectors(hv.skip(i as int + 1))
                =~= r0.map_values(|a: String| a@) + spec_selectors(cur));
        }
        i = i + 1;
    }
    proof {
        assert(spec_selectors(hv.skip(hunks@.len() as int)) =~= Seq::<Seq<char>>::empty());
        assert(r@.map_values(|a: String| a@) + spec_selectors(hv.skip(hunks@.len() as int))
            =~= r@.map_values(|a: String| a@));
    }
    let ghost mid = r@.map_values(|a: String| a@);
    r.push(rev.to_owned());
    r.push("--".to_owned());
    r.push(file.to_owned());
    proof {
        assert(r@.map_values(|a: String| a@) =~= mid + seq![rev@, "--"@, file@]);
        assert(r@.map_values(|a: String| a@) =~= spec_blame_args(file@, hv, rev@));
    }
    r
}

/// The commit a blame line attributes: its leading token, or nothing where
/// the line is empty or the token carries the boundary marker (a commit from
/// before the searched range).
pub open spec fn spec_blame_line_commit(line: Seq<char>) -> Option<Seq<char>> {
    let tok = text::spec_first_token(line);
    if tok.len() == 0 || tok[0] == '^' {
        None
    } else {
        Some(tok)
    }
}

/// The attributed commits of a blame output, in line order, boundary lines
/// excluded.
pub open spec fn spec_blame_commits(lines: Seq<Seq<char>>) -> Seq<Seq<char>>
    decreases lines.len(),
{
    if lines.len() == 0 {
        Seq::empty()
    } else {
        let rest = spec_blame_commits(lines.drop_first());
        match spec_blame_line_commit(lines[0]) {
            Some(c) => seq![c] + rest,
            None => rest,
        }
    }
}

/// Reads the owning commits out of one blame output.  Every result is a
/// nonempty token without the boundary marker.
pub fn blame_commits(out: &str) -> (r: Vec<String>)
    ensures
        r@.map_values(|s: String| s@) == spec_blame_commits(git::spec_output_lines(out@)),
        forall|k: int|
            0 <= k < r@.len() ==> (#[trigger] r@[k])@.len() > 0 && r@[k]@[0] != '^',
{
    let lines = git::parse_output_lines(out);
    let ghost linesv = lines@.map_values(|l: String| l@);
    let mut r: Vec<String> = Vec::new();
    let mut i: usize = 0;
    proof {
        assert(linesv.skip(0) =~= linesv);
        assert(r@.map_values(|s: String| s@) + spec_blame_commits(linesv) =~= spec_blame_commits(
            linesv,
        ));
    }
    while i < lines.len()
        invariant
            linesv == lines@.map_values(|l: String| l@),
            i <= lines.len(),
            spec_blame_commits(linesv) == r@.map_values(|s: String| s@) + spec_blame_commits(
                linesv.skip(i as int),
            ),
            forall|k: int|
                0 <= k < r@.len() ==> (#[trigger] r@[k])@.len() > 0 && r@[k]@[0] != '^',
        decreases lines.len() - i,
    {
        let ghost cur = linesv.skip(i as int);
        proof {
            assert(cur[0] == linesv[i as int]);
            assert(cur.drop_first() =~= linesv.skip(i as int + 1));
        }
        let tok = text::first_token(lines[i].as_str());
        if tok.unicode_len() > 0 && tok.get_char(0) != '^' {
            let ghost r0 = r@;
            r.push(tok.to_owned());
            proof {
                assert(r@.map_values(|s: String| s@) =~= r0.map_values(|s: String| s@).push(
                    r@[r0.len() as int]@,
                ));
                assert(r@.map_values(|s: String| s@) + spec_blame_commits(
                    linesv.skip(i as int + 1),
                ) =~= r0.map_values(|s: String| s@) + spec_blame_commits(cur));
            }
        }
        i = i + 1;
    }
    proof {
        assert(linesv.skip(lines@.len() as int) =~= Seq::<Seq<char>>::empty());
        assert(r@.map_values(|s: String| s@) + spec_blame_commits(
            linesv.skip(lines@.len() as int),
        ) =~= r@.map_values(|s: String| s@));
    }
    r
}

} // verus!

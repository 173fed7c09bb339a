//! Revision-range resolution: turning the configured range policy into the
//! concrete revision expression the discovery strategies search.

use vstd::prelude::*;
use crate::config::CommitRange;
use crate::config::CommitRangeV;
use crate::text;

verus! {

/// A failure while resolving the range.
#[derive(Debug)]
pub enum RangeError {
    /// The head reference did not resolve.
    HeadUnresolved,
}

impl RangeError {
    /// The message the run reports for this error.
    pub open spec fn spec_message(&self) -> Seq<char> {
        "failed to rev parse HEAD"@
    }

    /// Renders the message.
    pub fn message(&self) -> (r: String)
        ensures
            r@ == self.spec_message(),
    {
        "failed to rev parse HEAD".to_owned()
    }
}

/// The resolved range for a policy, given what the repository answered.
/// `upstream` is the resolved upstream tracking commit (`None` where none is
/// configured), `head` the resolved head commit (`None` where it failed to
/// resolve; it is only consulted when an upstream exists).  `Ok(None)` means
/// there is no local commit to search.
pub open spec fn spec_rev_range(
    range: CommitRangeV,
    upstream: Option<Seq<char>>,
    head: Option<Seq<char>>,
) -> Result<Option<Seq<char>>, RangeError> {
    match range {
        CommitRangeV::All => Ok(Some("HEAD"@)),
        CommitRangeV::Local => match upstream {
            None => Ok(Some("HEAD"@)),
            Some(u) => match head {
                None => Err(RangeError::HeadUnresolved),
                Some(h) => if u == h {
                    Ok(None)
                } else {
                    Ok(Some("@{upstream}..HEAD"@))
                },
            },
        },
        CommitRangeV::Range(r) => Ok(Some(r)),
    }
}

/// Resolves the range to search.  For the whole history the head reference is
/// used; for local-only, the span from the upstream tracking commit to head,
/// the whole history where no upstream is configured, and no range at all
/// where upstream and head coincide; an explicit range is taken verbatim.
pub fn git_rev_range(range: &CommitRange, upstream: &Option<String>, head: &Option<String>) -> (r:
    Result<Option<String>, RangeError>)
    ensures
        match r {
            Ok(Some(s)) => spec_rev_range(range@, view_opt_str(upstream), view_opt_str(head)) == Ok::<
                Option<Seq<char>>,
                RangeError,
            >(Some(s@)),
            Ok(None) => spec_rev_range(range@, view_opt_str(upstream), view_opt_str(head)) == Ok::<
                Option<Seq<char>>,
                RangeError,
            >(None),
            Err(e) => spec_rev_range(range@, view_opt_str(upstream), view_opt_str(head)) == Err::<
                Option<Seq<char>>,
                RangeError,
            >(e),
        },
{
    match range {
        CommitRange::All => Ok(Some("HEAD".to_owned())),
        CommitRange::Local => match upstream {
            None => Ok(Some("HEAD".to_owned())),
            Some(u) => match head {
                None => Err(RangeError::HeadUnresolved),
                Some(h) => {
                    if text::str_eq(u.as_str(), h.as_str()) {
                        Ok(None)
                    } else {
                        Ok(Some("@{upstream}..HEAD".to_owned()))
                    }
                },
            },
        },
        CommitRange::Range(r) => Ok(Some(r.clone())),
    }
}

/// The view of an optional string.
pub open spec fn view_opt_str(o: &Option<String>) -> Option<Seq<char>> {
    match o {
        Some(s) => Some(s@),
        None => None,
    }
}

} // verus!

//! The cells of `gv status`.

use vstd::prelude::*;
use crate::app::status::{
    BranchTrackingStatus, DefaultBranchStatus, StatusCondition, StatusEntry, condition_label,
};
use crate::cli::text::{terminal_text, terminal_view};
use crate::config::validation::{char_is_whitespace, is_whitespace};
use crate::text::{chars_of, decimal, push_char, push_decimal, push_str};

verus! {

/// The default branch with how it stands: `main ahead 2 behind 1`,
/// `main local missing`, or the bare name when it is up to date.
pub open spec fn default_branch_text(branch: Seq<char>, tracking: BranchTrackingStatus) -> Seq<char> {
    branch + match tracking {
        BranchTrackingStatus::Divergence { ahead, behind } => (if ahead > 0 {
            " ahead "@ + decimal(ahead as nat)
        } else {
            Seq::empty()
        }) + (if behind > 0 {
            " behind "@ + decimal(behind as nat)
        } else {
            Seq::empty()
        }),
        BranchTrackingStatus::MissingLocalBranch => " local missing"@,
        BranchTrackingStatus::MissingRemoteBranch => " remote missing"@,
    }
}

pub fn format_default_branch(status: &DefaultBranchStatus) -> (s: String)
    ensures
        s@ == default_branch_text(status.branch@, status.tracking),
{
    let mut s = status.branch.clone();
    match status.tracking {
        BranchTrackingStatus::Divergence { ahead, behind } => {
            let ghost start = s@;
            if ahead > 0 {
                push_str(&mut s, " ahead ");
                push_decimal(&mut s, ahead as u64);
            }
            let ghost middle = s@;
            if behind > 0 {
                push_str(&mut s, " behind ");
                push_decimal(&mut s, behind as u64);
            }
            assert(s@ =~= default_branch_text(status.branch@, status.tracking));
        },
        BranchTrackingStatus::MissingLocalBranch => push_str(&mut s, " local missing"),
        BranchTrackingStatus::MissingRemoteBranch => push_str(&mut s, " remote missing"),
    }
    s
}

/// How a default branch stands against `origin`, in words.
pub open spec fn tracking_text(tracking: BranchTrackingStatus) -> Seq<char> {
    match tracking {
        BranchTrackingStatus::Divergence { ahead, behind } => if ahead == 0 && behind == 0 {
            "up to date"@
        } else if behind == 0 {
            "ahead "@ + decimal(ahead as nat)
        } else if ahead == 0 {
            "behind "@ + decimal(behind as nat)
        } else {
            "ahead "@ + decimal(ahead as nat) + ", behind "@ + decimal(behind as nat)
        },
        BranchTrackingStatus::MissingLocalBranch => "local branch missing"@,
        BranchTrackingStatus::MissingRemoteBranch => "remote branch missing"@,
    }
}

pub fn format_tracking_status(status: &BranchTrackingStatus) -> (s: String)
    ensures
        s@ == tracking_text(*status),
{
    match *status {
        BranchTrackingStatus::Divergence { ahead, behind } => {
            if ahead == 0 && behind == 0 {
                return String::from_str("up to date");
            }
            if behind == 0 {
                let mut s = String::from_str("ahead ");
                push_decimal(&mut s, ahead as u64);
                return s;
            }
            if ahead == 0 {
                let mut s = String::from_str("behind ");
                push_decimal(&mut s, behind as u64);
                return s;
            }
            let mut s = String::from_str("ahead ");
            push_decimal(&mut s, ahead as u64);
            push_str(&mut s, ", behind ");
            push_decimal(&mut s, behind as u64);
            s
        },
        BranchTrackingStatus::MissingLocalBranch => String::from_str("local branch missing"),
        BranchTrackingStatus::MissingRemoteBranch => String::from_str("remote branch missing"),
    }
}

/// The words of a text, separated by single spaces.
pub open spec fn collapse_state(s: Seq<char>) -> (Seq<char>, bool)
    decreases s.len(),
{
    if s.len() == 0 {
        (Seq::empty(), false)
    } else {
        let (acc, pending) = collapse_state(s.drop_last());
        let c = s.last();
        if is_whitespace(c) {
            (acc, acc.len() > 0)
        } else {
            (if pending { acc.push(' ') } else { acc }.push(c), false)
        }
    }
}

pub fn collapse_whitespace(value: &str) -> (s: String)
    ensures
        s@ == collapse_state(value@).0,
{
    let chars = chars_of(value);
    let mut out = String::new();
    let mut pending = false;
    let mut i: usize = 0;
    while i < chars.len()
        invariant
            chars@ == value@,
            i <= chars@.len(),
            (out@, pending) == collapse_state(chars@.subrange(0, i as int)),
        decreases chars@.len() - i,
    {
        assert(chars@.subrange(0, i + 1).drop_last() == chars@.subrange(0, i as int));
        let c = chars[i];
        if char_is_whitespace(c) {
            pending = out.unicode_len() > 0;
        } else {
            if pending {
                push_char(&mut out, ' ');
            }
            push_char(&mut out, c);
            pending = false;
        }
        i = i + 1;
    }
    assert(chars@.subrange(0, i as int) == value@);
    out
}

/// The state cell of a status row: the condition's label, or for a failed
/// fetch the label and the message on one escaped line.
pub open spec fn state_text(condition: StatusCondition) -> Seq<char> {
    match condition {
        StatusCondition::FetchFailed(m) => "fetch-failed: "@ + collapse_state(terminal_view(m@)).0,
        _ => condition_label(condition),
    }
}

pub fn table_state(entry: &StatusEntry) -> (s: String)
    ensures
        s@ == state_text(entry.condition),
{
    match &entry.condition {
        StatusCondition::FetchFailed(message) => {
            let escaped = terminal_text(message.as_str());
            let single = collapse_whitespace(escaped.as_str());
            let mut s = String::from_str("fetch-failed: ");
            push_str(&mut s, single.as_str());
            s
        },
        condition => String::from_str(condition.as_str()),
    }
}

} // verus!

//! The lines the sync and refresh reports print for each repository: a
//! marker in a colour and a note, with text from Git or a file escaped and
//! credentials taken out of messages; the order repositories are listed in;
//! and the zoxide section of a sync report.

use vstd::prelude::*;
use crate::app::refresh;
use crate::app::sync;
use crate::app::sync::report::blocked_text as sync_blocked_text;
use crate::app::refresh::report::blocked_text as refresh_blocked_text;
use crate::app::entry::{BlockedReasonDetails, Entry};
use crate::cli::listing::{listing, listing_order};
use crate::cli::table::Paint;
use crate::cli::redact::{redacted, safe_message};
use crate::cli::text::{annotation_text, cache_annotation, terminal_text, terminal_view};
use crate::text::push_str;

verus! {

/// A line of a report: a marker, its colour, and a note.
#[derive(Debug, Clone, PartialEq, Eq)]
pub struct Line {
    pub marker: char,
    pub paint: Paint,
    pub note: String,
}

pub open spec fn line_is(line: Option<Line>, expected: Option<(char, Paint, Seq<char>)>) -> bool {
    match (line, expected) {
        (Some(l), Some((marker, paint, note))) => l.marker == marker && l.paint == paint && l.note@ == note,
        (None, None) => true,
        _ => false,
    }
}

fn line(marker: char, paint: Paint, note: String) -> (l: Option<Line>)
    ensures
        l == Some(Line { marker, paint, note }),
{
    Some(Line { marker, paint, note })
}

/// `branch before -> after`.
pub open spec fn moved_text(branch: Seq<char>, before: Seq<char>, after: Seq<char>) -> Seq<char> {
    branch + " "@ + before + " -> "@ + after
}

fn moved(branch: &String, before: &String, after: &String) -> (s: String)
    ensures
        s@ == moved_text(branch@, before@, after@),
{
    let mut s = branch.clone();
    push_str(&mut s, " ");
    push_str(&mut s, before.as_str());
    push_str(&mut s, " -> ");
    push_str(&mut s, after.as_str());
    s
}

/// The line a sync outcome prints: clones in green, updates in yellow,
/// failures in red; a planned fetch or a current branch prints none.
pub open spec fn sync_line_of(outcome: sync::Outcome) -> Option<(char, Paint, Seq<char>)> {
    match outcome {
        sync::Outcome::Planned(sync::Plan::Clone { url }) => Some(
            ('+', Paint::Green, "from "@ + terminal_view(url@)),
        ),
        sync::Outcome::Planned(sync::Plan::Fetch { .. }) | sync::Outcome::Current { .. } => None,
        sync::Outcome::Cloned { url, cache } => Some(
            ('+', Paint::Green, "from "@ + terminal_view(url@) + " "@ + annotation_text(cache)),
        ),
        sync::Outcome::Updated { branch, before, after } => Some(
            ('~', Paint::Yellow, terminal_view(moved_text(branch@, before@, after@))),
        ),
        sync::Outcome::UpdatedButRestorationFailed { branch, before, after, message } => Some(
            (
                'x',
                Paint::Red,
                terminal_view(
                    moved_text(branch@, before@, after@) + "; restoring the original branch failed: "@
                        + terminal_view(redacted(message@)),
                ),
            ),
        ),
        sync::Outcome::Skipped { .. } => Some(('!', Paint::Yellow, terminal_view("dirty working tree"@))),
        sync::Outcome::Blocked { reason } => Some(
            ('x', Paint::Red, terminal_view(redacted(sync_blocked_text(reason)))),
        ),
    }
}

pub fn sync_line(outcome: &sync::Outcome) -> (l: Option<Line>)
    ensures
        line_is(l, sync_line_of(*outcome)),
{
    match outcome {
        sync::Outcome::Planned(sync::Plan::Clone { url }) => {
            let mut note = String::from_str("from ");
            push_str(&mut note, terminal_text(url.as_str()).as_str());
            line('+', Paint::Green, note)
        },
        sync::Outcome::Planned(sync::Plan::Fetch { .. }) | sync::Outcome::Current { .. } => None,
        sync::Outcome::Cloned { url, cache } => {
            let mut note = String::from_str("from ");
            push_str(&mut note, terminal_text(url.as_str()).as_str());
            push_str(&mut note, " ");
            push_str(&mut note, cache_annotation(*cache));
            line('+', Paint::Green, note)
        },
        sync::Outcome::Updated { branch, before, after } => {
            let text = moved(branch, before, after);
            line('~', Paint::Yellow, terminal_text(text.as_str()))
        },
        sync::Outcome::UpdatedButRestorationFailed { branch, before, after, message } => {
            let mut text = moved(branch, before, after);
            push_str(&mut text, "; restoring the original branch failed: ");
            push_str(&mut text, safe_message(message.as_str()).as_str());
            line('x', Paint::Red, terminal_text(text.as_str()))
        },
        sync::Outcome::Skipped { reason } => line('!', Paint::Yellow, terminal_text(reason.message())),
        sync::Outcome::Blocked { reason } => {
            let message = reason.message();
            line('x', Paint::Red, safe_message(message.as_str()))
        },
    }
}

/// The line a refresh outcome prints: a refresh in yellow (with the branch
/// it left), a switch in cyan, failures in red; a planned or current branch
/// prints none.
pub open spec fn refresh_line_of(outcome: refresh::Outcome) -> Option<(char, Paint, Seq<char>)> {
    match outcome {
        refresh::Outcome::Planned(_) | refresh::Outcome::Current { .. } => None,
        refresh::Outcome::Refreshed { branch, before, after, previous_branch } => Some(
            (
                '~',
                Paint::Yellow,
                terminal_view(
                    moved_text(branch@, before@, after@) + match previous_branch {
                        Some(p) => " from "@ + p@,
                        None => Seq::empty(),
                    },
                ),
            ),
        ),
        refresh::Outcome::Switched { branch, previous_branch } => Some(
            ('>', Paint::Cyan, terminal_view(branch@ + " from "@ + previous_branch@)),
        ),
        refresh::Outcome::SwitchedAndBlocked { branch, previous_branch, reason } => Some(
            (
                'x',
                Paint::Red,
                terminal_view(
                    redacted(
                        "switched to "@ + branch@ + " from "@ + previous_branch@ + "; update failed: "@
                            + refresh_blocked_text(reason),
                    ),
                ),
            ),
        ),
        refresh::Outcome::Skipped { .. } => Some(('!', Paint::Yellow, terminal_view("dirty working tree"@))),
        refresh::Outcome::Blocked { reason } => Some(
            ('x', Paint::Red, terminal_view(redacted(refresh_blocked_text(reason)))),
        ),
    }
}

pub fn refresh_line(outcome: &refresh::Outcome) -> (l: Option<Line>)
    ensures
        line_is(l, refresh_line_of(*outcome)),
{
    match outcome {
        refresh::Outcome::Planned(_) | refresh::Outcome::Current { .. } => None,
        refresh::Outcome::Refreshed { branch, before, after, previous_branch } => {
            let mut text = moved(branch, before, after);
            match previous_branch {
                Some(p) => {
                    push_str(&mut text, " from ");
                    push_str(&mut text, p.as_str());
                    assert(text@ =~= moved_text(branch@, before@, after@) + (" from "@ + p@));
                },
                None => {
                    assert(text@ =~= moved_text(branch@, before@, after@) + Seq::<char>::empty());
                },
            }
            line('~', Paint::Yellow, terminal_text(text.as_str()))
        },
        refresh::Outcome::Switched { branch, previous_branch } => {
            let mut text = branch.clone();
            push_str(&mut text, " from ");
            push_str(&mut text, previous_branch.as_str());
            line('>', Paint::Cyan, terminal_text(text.as_str()))
        },
        refresh::Outcome::SwitchedAndBlocked { branch, previous_branch, reason } => {
            let mut text = String::from_str("switched to ");
            push_str(&mut text, branch.as_str());
            push_str(&mut text, " from ");
            push_str(&mut text, previous_branch.as_str());
            push_str(&mut text, "; update failed: ");
            let message = reason.message();
            push_str(&mut text, message.as_str());
            line('x', Paint::Red, safe_message(text.as_str()))
        },
        refresh::Outcome::Skipped { reason } => line('!', Paint::Yellow, terminal_text(reason.message())),
        refresh::Outcome::Blocked { reason } => {
            let message = reason.message();
            line('x', Paint::Red, safe_message(message.as_str()))
        },
    }
}

/// The line a warning beside an entry prints.
pub fn warning_line(warning: &str) -> (l: Line)
    ensures
        l.marker == '!',
        l.paint == Paint::Yellow,
        l.note@ == terminal_view(warning@),
{
    Line { marker: '!', paint: Paint::Yellow, note: terminal_text(warning) }
}

/// The line a zoxide outcome prints.
pub open spec fn zoxide_line_of(outcome: sync::ZoxideOutcome) -> (char, Paint, Seq<char>) {
    match outcome {
        sync::ZoxideOutcome::WouldRegister => ('?', Paint::Cyan, "would register"@),
        sync::ZoxideOutcome::Added => ('+', Paint::Green, "added"@),
        sync::ZoxideOutcome::AlreadyRegistered => ('=', Paint::Cyan, "already registered"@),
        sync::ZoxideOutcome::Failed(message) => ('x', Paint::Red, terminal_view(redacted(message@))),
    }
}

pub fn zoxide_line(outcome: &sync::ZoxideOutcome) -> (l: Line)
    ensures
        (l.marker, l.paint, l.note@) == zoxide_line_of(*outcome),
{
    match outcome {
        sync::ZoxideOutcome::WouldRegister => Line {
            marker: '?',
            paint: Paint::Cyan,
            note: String::from_str("would register"),
        },
        sync::ZoxideOutcome::Added => Line { marker: '+', paint: Paint::Green, note: String::from_str("added") },
        sync::ZoxideOutcome::AlreadyRegistered => Line {
            marker: '=',
            paint: Paint::Cyan,
            note: String::from_str("already registered"),
        },
        sync::ZoxideOutcome::Failed(message) => Line {
            marker: 'x',
            paint: Paint::Red,
            note: safe_message(message.as_str()),
        },
    }
}

/// What a report prints for one repository: its line (if any), the URLs of
/// a mismatch beside a block, and the line of its warning.
#[derive(Debug, Clone, PartialEq, Eq)]
pub struct Listed {
    pub repository: String,
    pub line: Option<Line>,
    pub details: Option<(String, String)>,
    pub warning: Option<Line>,
}

/// The actual and expected URLs shown beside a blocked entry.
pub open spec fn details_of(blocked: bool, details: Option<BlockedReasonDetails>) -> Option<(Seq<char>, Seq<char>)> {
    match details {
        Some(BlockedReasonDetails::RemoteUrlMismatch { actual, expected }) => if blocked {
            Some((terminal_view(redacted(actual@)), terminal_view(redacted(expected@))))
        } else {
            None
        },
        None => None,
    }
}

pub open spec fn details_are(shown: Option<(String, String)>, expected: Option<(Seq<char>, Seq<char>)>) -> bool {
    match (shown, expected) {
        (Some((a, x)), Some((ea, ex))) => a@ == ea && x@ == ex,
        (None, None) => true,
        _ => false,
    }
}

pub open spec fn warning_is(shown: Option<Line>, warning: Option<String>) -> bool {
    match (shown, warning) {
        (Some(l), Some(w)) => l.marker == '!' && l.paint == Paint::Yellow && l.note@ == terminal_view(w@),
        (None, None) => true,
        _ => false,
    }
}

fn details_line(blocked: bool, details: &Option<BlockedReasonDetails>) -> (shown: Option<(String, String)>)
    ensures
        details_are(shown, details_of(blocked, *details)),
{
    match details {
        Some(BlockedReasonDetails::RemoteUrlMismatch { actual, expected }) => if blocked {
            Some((safe_message(actual.as_str()), safe_message(expected.as_str())))
        } else {
            None
        },
        None => None,
    }
}

fn warning_of(warning: &Option<String>) -> (shown: Option<Line>)
    ensures
        warning_is(shown, *warning),
{
    match warning {
        Some(w) => Some(warning_line(w.as_str())),
        None => None,
    }
}

/// What a sync report prints for an entry.
pub open spec fn lists_sync(l: Listed, e: Entry<sync::Outcome>) -> bool {
    &&& l.repository == e.repository
    &&& line_is(l.line, sync_line_of(e.outcome))
    &&& details_are(l.details, details_of(e.outcome is Blocked, e.blocked_details))
    &&& warning_is(l.warning, e.warning)
}

/// What a refresh report prints for an entry.
pub open spec fn lists_refresh(l: Listed, e: Entry<refresh::Outcome>) -> bool {
    &&& l.repository == e.repository
    &&& line_is(l.line, refresh_line_of(e.outcome))
    &&& details_are(l.details, details_of(e.outcome is Blocked, e.blocked_details))
    &&& warning_is(l.warning, e.warning)
}

pub open spec fn sync_texts(entries: Seq<Entry<sync::Outcome>>) -> Seq<Seq<char>> {
    entries.map_values(|e: Entry<sync::Outcome>| e.repository@)
}

pub open spec fn sync_ranks(entries: Seq<Entry<sync::Outcome>>) -> Seq<u8> {
    entries.map_values(|e: Entry<sync::Outcome>| sync::report::change_rank_of(e.outcome))
}

pub open spec fn refresh_texts(entries: Seq<Entry<refresh::Outcome>>) -> Seq<Seq<char>> {
    entries.map_values(|e: Entry<refresh::Outcome>| e.repository@)
}

pub open spec fn refresh_ranks(entries: Seq<Entry<refresh::Outcome>>) -> Seq<u8> {
    entries.map_values(|e: Entry<refresh::Outcome>| refresh::report::change_rank_of(e.outcome))
}

/// The entries of a sync report as it lists them: by repository, then
/// clones, updates, skips, blocks and the rest, then as they came.
pub fn sync_listing(entries: &Vec<Entry<sync::Outcome>>) -> (listed: Vec<Listed>)
    ensures
        exists|order: Seq<usize>|
            #![trigger listing(sync_texts(entries@), sync_ranks(entries@), order)]
            listing(sync_texts(entries@), sync_ranks(entries@), order) && order.len() == entries@.len()
                && listed@.len() == order.len() && forall|i: int|
                0 <= i < order.len() ==> lists_sync(#[trigger] listed@[i], entries@[order[i] as int]),
{
    let mut texts: Vec<String> = Vec::new();
    let mut ranks: Vec<u8> = Vec::new();
    let mut k: usize = 0;
    while k < entries.len()
        invariant
            k <= entries@.len(),
            texts@.len() == k,
            ranks@.len() == k,
            forall|j: int| 0 <= j < k ==> (#[trigger] texts@[j])@ == entries@[j].repository@,
            forall|j: int| 0 <= j < k ==> #[trigger] ranks@[j] == sync::report::change_rank_of(entries@[j].outcome),
        decreases entries@.len() - k,
    {
        texts.push(entries[k].repository.clone());
        ranks.push(sync::change_rank(&entries[k].outcome));
        k = k + 1;
    }
    assert(texts.deep_view() =~= sync_texts(entries@));
    assert(ranks@ =~= sync_ranks(entries@));
    let order = listing_order(&texts, &ranks);
    let mut listed: Vec<Listed> = Vec::new();
    let mut i: usize = 0;
    while i < order.len()
        invariant
            order@.len() == entries@.len(),
            listing(sync_texts(entries@), sync_ranks(entries@), order@),
            i <= order@.len(),
            listed@.len() == i,
            forall|j: int| 0 <= j < i ==> lists_sync(#[trigger] listed@[j], entries@[order@[j] as int]),
        decreases order@.len() - i,
    {
        let e = &entries[order[i]];
        let blocked = match &e.outcome {
            sync::Outcome::Blocked { .. } => true,
            _ => false,
        };
        let item = Listed {
            repository: e.repository.clone(),
            line: sync_line(&e.outcome),
            details: details_line(blocked, &e.blocked_details),
            warning: warning_of(&e.warning),
        };
        listed.push(item);
        i = i + 1;
    }
    listed
}

/// The entries of a refresh report as it lists them: by repository, then
/// refreshes, switches, failed switches, skips, blocks and the rest, then as
/// they came.
pub fn refresh_listing(entries: &Vec<Entry<refresh::Outcome>>) -> (listed: Vec<Listed>)
    ensures
        exists|order: Seq<usize>|
            #![trigger listing(refresh_texts(entries@), refresh_ranks(entries@), order)]
            listing(refresh_texts(entries@), refresh_ranks(entries@), order) && order.len()
                == entries@.len() && listed@.len() == order.len() && forall|i: int|
                0 <= i < order.len() ==> lists_refresh(#[trigger] listed@[i], entries@[order[i] as int]),
{
    let mut texts: Vec<String> = Vec::new();
    let mut ranks: Vec<u8> = Vec::new();
    let mut k: usize = 0;
    while k < entries.len()
        invariant
            k <= entries@.len(),
            texts@.len() == k,
            ranks@.len() == k,
            forall|j: int| 0 <= j < k ==> (#[trigger] texts@[j])@ == entries@[j].repository@,
            forall|j: int| 0 <= j < k ==> #[trigger] ranks@[j] == refresh::report::change_rank_of(entries@[j].outcome),
        decreases entries@.len() - k,
    {
        texts.push(entries[k].repository.clone());
        ranks.push(refresh::change_rank(&entries[k].outcome));
        k = k + 1;
    }
    assert(texts.deep_view() =~= refresh_texts(entries@));
    assert(ranks@ =~= refresh_ranks(entries@));
    let order = listing_order(&texts, &ranks);
    let mut listed: Vec<Listed> = Vec::new();
    let mut i: usize = 0;
    while i < order.len()
        invariant
            order@.len() == entries@.len(),
            listing(refresh_texts(entries@), refresh_ranks(entries@), order@),
            i <= order@.len(),
            listed@.len() == i,
            forall|j: int| 0 <= j < i ==> lists_refresh(#[trigger] listed@[j], entries@[order@[j] as int]),
        decreases order@.len() - i,
    {
        let e = &entries[order[i]];
        let blocked = match &e.outcome {
            refresh::Outcome::Blocked { .. } => true,
            _ => false,
        };
        let item = Listed {
            repository: e.repository.clone(),
            line: refresh_line(&e.outcome),
            details: details_line(blocked, &e.blocked_details),
            warning: warning_of(&e.warning),
        };
        listed.push(item);
        i = i + 1;
    }
    listed
}

/// The zoxide section of a sync report, after its heading.
#[derive(Debug, Clone, PartialEq, Eq)]
pub enum ZoxideSection {
    /// Registration was not asked for: no section.
    Absent,
    /// Zoxide could not be run.
    Unavailable(Line),
    /// No repository to register: a plain message.
    Empty(String),
    /// One line per repository, in order.
    Entries(Vec<(String, Line)>),
}

pub open spec fn zoxide_section_of(z: Option<sync::ZoxideReport>, dry_run: bool, s: ZoxideSection) -> bool {
    match z {
        None => s is Absent,
        Some(report) => match report.unavailable {
            Some(m) => s matches ZoxideSection::Unavailable(l) && l.marker == 'x' && l.paint == Paint::Red
                && l.note@ == terminal_view(redacted(m@)),
            None => if report.entries@.len() == 0 {
                s matches ZoxideSection::Empty(t) && t@ == if dry_run {
                    "No repositories would be registered"@
                } else {
                    "No repositories to register"@
                }
            } else {
                s matches ZoxideSection::Entries(lines) && lines@.len() == report.entries@.len() && forall|k: int|
                    0 <= k < lines@.len() ==> (#[trigger] lines@[k]).0 == report.entries@[k].repository && (
                    lines@[k].1.marker,
                    lines@[k].1.paint,
                    lines@[k].1.note@,
                ) == zoxide_line_of(report.entries@[k].outcome)
            },
        },
    }
}

/// What the zoxide section of a sync report shows.
pub fn zoxide_section(z: Option<&sync::ZoxideReport>, dry_run: bool) -> (s: ZoxideSection)
    ensures
        zoxide_section_of(
            match z {
                Some(r) => Some(*r),
                None => None,
            },
            dry_run,
            s,
        ),
{
    match z {
        None => ZoxideSection::Absent,
        Some(report) => match &report.unavailable {
            Some(m) => ZoxideSection::Unavailable(
                Line { marker: 'x', paint: Paint::Red, note: safe_message(m.as_str()) },
            ),
            None => if report.entries.len() == 0 {
                if dry_run {
                    ZoxideSection::Empty(String::from_str("No repositories would be registered"))
                } else {
                    ZoxideSection::Empty(String::from_str("No repositories to register"))
                }
            } else {
                let mut lines: Vec<(String, Line)> = Vec::new();
                let mut k: usize = 0;
                while k < report.entries.len()
                    invariant
                        k <= report.entries@.len(),
                        lines@.len() == k,
                        forall|j: int|
                            0 <= j < k ==> (#[trigger] lines@[j]).0 == report.entries@[j].repository && (
                            lines@[j].1.marker,
                            lines@[j].1.paint,
                            lines@[j].1.note@,
                        ) == zoxide_line_of(report.entries@[j].outcome),
                    decreases report.entries@.len() - k,
                {
                    let entry = &report.entries[k];
                    lines.push((entry.repository.clone(), zoxide_line(&entry.outcome)));
                    k = k + 1;
                }
                ZoxideSection::Entries(lines)
            },
        },
    }
}

} // verus!

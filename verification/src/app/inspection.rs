//! The messages that describe why an existing repository cannot be brought
//! up to date, shared by sync and status.

use vstd::prelude::*;
use crate::text::push_str;

verus! {

pub open spec fn destination_not_git_repository_text() -> Seq<char> {
    "destination exists but is not a Git repository"@
}

pub open spec fn missing_origin_text() -> Seq<char> {
    "remote origin is missing"@
}

pub open spec fn remote_url_mismatch_text() -> Seq<char> {
    "remote URL does not match grove.toml"@
}

pub open spec fn missing_remote_default_branch_text() -> Seq<char> {
    "remote default branch cannot be determined"@
}

pub open spec fn missing_local_branch_text(branch: Seq<char>) -> Seq<char> {
    "local default branch '"@ + branch + "' is missing"@
}

pub open spec fn missing_remote_branch_text(branch: Seq<char>) -> Seq<char> {
    "remote default branch 'origin/"@ + branch + "' is missing"@
}

pub open spec fn diverged_text(branch: Seq<char>) -> Seq<char> {
    branch + " has diverged from origin/"@ + branch
}

pub open spec fn ahead_of_origin_text(branch: Seq<char>) -> Seq<char> {
    branch + " is ahead of origin/"@ + branch
}

pub fn destination_not_git_repository() -> (m: String)
    ensures
        m@ == destination_not_git_repository_text(),
{
    String::from_str("destination exists but is not a Git repository")
}

pub fn missing_origin() -> (m: String)
    ensures
        m@ == missing_origin_text(),
{
    String::from_str("remote origin is missing")
}

pub fn remote_url_mismatch() -> (m: String)
    ensures
        m@ == remote_url_mismatch_text(),
{
    String::from_str("remote URL does not match grove.toml")
}

pub fn missing_remote_default_branch() -> (m: String)
    ensures
        m@ == missing_remote_default_branch_text(),
{
    String::from_str("remote default branch cannot be determined")
}

/// `prefix`, then `middle`, then `suffix`.
pub fn surround(prefix: &str, middle: &str, suffix: &str) -> (m: String)
    ensures
        m@ == prefix@ + middle@ + suffix@,
{
    let mut m = String::from_str(prefix);
    push_str(&mut m, middle);
    push_str(&mut m, suffix);
    m
}

pub fn missing_local_branch(branch: &str) -> (m: String)
    ensures
        m@ == missing_local_branch_text(branch@),
{
    surround("local default branch '", branch, "' is missing")
}

pub fn missing_remote_branch(branch: &str) -> (m: String)
    ensures
        m@ == missing_remote_branch_text(branch@),
{
    surround("remote default branch 'origin/", branch, "' is missing")
}

pub fn diverged(branch: &str) -> (m: String)
    ensures
        m@ == diverged_text(branch@),
{
    surround(branch, " has diverged from origin/", branch)
}

pub fn ahead_of_origin(branch: &str) -> (m: String)
    ensures
        m@ == ahead_of_origin_text(branch@),
{
    surround(branch, " is ahead of origin/", branch)
}

} // verus!

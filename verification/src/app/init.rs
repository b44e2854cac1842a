//! `gv init`: the report of a created configuration, and the message when
//! writing it failed half-way.

use vstd::prelude::*;
use crate::text::push_str;

verus! {

#[derive(Debug, Clone, PartialEq, Eq)]
pub struct Report {
    pub created_path: String,
}

impl Report {
    pub fn new(created_path: String) -> (r: Report)
        ensures
            r.created_path == created_path,
    {
        Report { created_path }
    }

    pub fn created_path(&self) -> (p: &str)
        ensures
            p@ == self.created_path@,
    {
        self.created_path.as_str()
    }
}

pub open spec fn partial_file_text(path: Seq<char>, write_error: Seq<char>, remove_error: Seq<char>) -> Seq<char> {
    "failed to write "@ + path + ": "@ + write_error + "; also failed to remove the partial file: "@
        + remove_error
}

/// The error when writing the template failed and the partial file could not
/// be removed either.
pub fn partial_file_message(path: &str, write_error: &str, remove_error: &str) -> (m: String)
    ensures
        m@ == partial_file_text(path@, write_error@, remove_error@),
{
    let mut m = String::from_str("failed to write ");
    push_str(&mut m, path);
    push_str(&mut m, ": ");
    push_str(&mut m, write_error);
    push_str(&mut m, "; also failed to remove the partial file: ");
    push_str(&mut m, remove_error);
    m
}

} // verus!

//! Commit records from a pull request's history and their display fields.

use vstd::prelude::*;

use crate::strutil::{before_char, prefix_before, trim_spaces, trimmed};

verus! {

/// One commit as fetched from the remote history: its hash, full message,
/// author information as far as known, and the hashes of its parents (none
/// for a root commit, several for a merge commit).
#[derive(Debug, Clone)]
pub struct Commit {
    pub sha: String,
    pub message: String,
    pub author_name: Option<String>,
    pub author_date: Option<String>,
    pub author_login: Option<String>,
    pub parents: Vec<String>,
}

/// The summary derived from a commit message: the first line, surrounding
/// whitespace removed, cut to 77 characters plus `...` when longer than 80.
pub open spec fn summary_of(message: Seq<char>) -> Seq<char> {
    let first = trimmed(prefix_before(message, '\n'));
    if first.len() > 80 {
        first.take(77) + "..."@
    } else {
        first
    }
}

impl Commit {
    /// The one-line summary of the commit message.
    pub fn summary(&self) -> (r: String)
        ensures
            r@ == summary_of(self.message@),
    {
        let first = before_char(self.message.as_str(), '\n');
        let base = trim_spaces(first.as_str());
        if base.as_str().unicode_len() > 80 {
            let mut r = base.as_str().substring_char(0, 77).to_owned();
            r.append("...");
            r
        } else {
            base
        }
    }

    /// The author name to display: the account login when known, otherwise
    /// the name recorded in the commit, otherwise nothing.
    pub open spec fn display_author_spec(self) -> Option<Seq<char>> {
        match self.author_login {
            Some(login) => Some(login@),
            None => match self.author_name {
                Some(name) => Some(name@),
                None => None,
            },
        }
    }

    pub fn display_author(&self) -> (r: Option<String>)
        ensures
            r matches Some(a) ==> Some(a@) == self.display_author_spec(),
            r is Some <==> self.display_author_spec() is Some,
    {
        match &self.author_login {
            Some(login) => Some(login.clone()),
            None => match &self.author_name {
                Some(name) => Some(name.clone()),
                None => None,
            },
        }
    }

    /// The date to display: the part of the recorded timestamp before the
    /// first `T`, when a timestamp was recorded at all.
    pub open spec fn display_date_spec(self) -> Option<Seq<char>> {
        match self.author_date {
            Some(d) => Some(prefix_before(d@, 'T')),
            None => None,
        }
    }

    pub fn display_date(&self) -> (r: Option<String>)
        ensures
            r matches Some(d) ==> Some(d@) == self.display_date_spec(),
            r is Some <==> self.display_date_spec() is Some,
    {
        match &self.author_date {
            Some(d) => Some(before_char(d.as_str(), 'T')),
            None => None,
        }
    }

    /// The parent hashes, in the order the history reported them.
    pub fn parent_shas(&self) -> (r: &Vec<String>)
        ensures
            r == self.parents,
    {
        &self.parents
    }
}

/// One row of the rendered commit graph: the branch-lane prefix, the
/// shortened hash, and the commit's display fields. Derived once per commit
/// and never mutated afterwards.
#[derive(Debug, Clone)]
pub struct CommitGraphEntry {
    pub graph: String,
    pub short_sha: String,
    pub summary: String,
    pub author: Option<String>,
    pub date: Option<String>,
}

} // verus!

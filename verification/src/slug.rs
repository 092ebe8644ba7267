//! Account and repository slugs: `owner` or `owner/name`.

use vstd::prelude::*;

use crate::strutil::{find_char, lemma_index_scan_is_find};

verus! {

/// A parsed slug: either a whole account or one repository.
#[derive(Debug, Clone)]
pub enum SlugSpec {
    Owner(String),
    Repo { owner: String, name: String },
}

/// Abstract value of a slug.
pub enum SlugView {
    Owner(Seq<char>),
    Repo(Seq<char>, Seq<char>),
}

impl View for SlugSpec {
    type V = SlugView;

    open spec fn view(&self) -> SlugView {
        match self {
            SlugSpec::Owner(o) => SlugView::Owner(o@),
            SlugSpec::Repo { owner, name } => SlugView::Repo(owner@, name@),
        }
    }
}

/// What a slug string denotes: the whole string as an owner when it has no
/// separator, the two parts around a single separator as a repository, and
/// nothing when more than one separator occurs.
pub open spec fn parsed_slug(s: Seq<char>) -> Option<SlugView> {
    let k = find_char(s, '/');
    if k == s.len() {
        Some(SlugView::Owner(s))
    } else {
        let rest = s.skip(k + 1);
        if find_char(rest, '/') == rest.len() {
            Some(SlugView::Repo(s.take(k), rest))
        } else {
            None
        }
    }
}

impl SlugSpec {
    /// Parses a slug, rejecting strings with more than one `/` separator.
    pub fn parse(s: &str) -> (r: Option<SlugSpec>)
        ensures
            r is Some <==> parsed_slug(s@) is Some,
            r matches Some(v) ==> Some(v@) == parsed_slug(s@),
    {
        let len = s.unicode_len();
        let mut i: usize = 0;
        while i < len && s.get_char(i) != '/'
            invariant
                i <= len,
                len == s@.len(),
                forall|j: int| 0 <= j < i ==> s@[j] != '/',
            decreases len - i,
        {
            i += 1;
        }
        proof {
            lemma_index_scan_is_find(s@, '/', i as int);
        }
        if i == len {
            return Some(SlugSpec::Owner(s.to_owned()));
        }
        let ghost rest: Seq<char> = s@.skip(i + 1);
        let mut j: usize = i + 1;
        while j < len && s.get_char(j) != '/'
            invariant
                i < j <= len,
                len == s@.len(),
                rest == s@.skip(i + 1),
                forall|k: int| i < k < j ==> s@[k] != '/',
            decreases len - j,
        {
            j += 1;
        }
        proof {
            assert(forall|k: int| 0 <= k < j - i - 1 ==> rest[k] == s@[k + i + 1]);
            if j < len {
                assert(rest[j - i - 1] == s@[j as int]);
            }
            lemma_index_scan_is_find(rest, '/', j - i - 1);
        }
        if j < len {
            return None;
        }
        let owner = s.substring_char(0, i).to_owned();
        let name = s.substring_char(i + 1, len).to_owned();
        proof {
            assert(name@ =~= rest);
        }
        Some(SlugSpec::Repo { owner, name })
    }
}

} // verus!

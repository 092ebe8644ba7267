//! The code-search query and its translation into the remote API's form.

use vstd::prelude::*;

verus! {

/// A code-search request: the search terms and an optional user to scope
/// them to.
#[derive(Debug, Clone)]
pub struct Query {
    pub q: String,
    pub user: Option<String>,
}

/// The query as the remote search endpoint takes it.
#[derive(Debug, Clone)]
pub struct ApiQuery {
    pub q: String,
    pub page: usize,
    pub per_page: u8,
}

/// The API query string: the terms, with ` user:<name>` appended when the
/// search is scoped to a user.
pub open spec fn api_query_text(q: Seq<char>, user: Option<String>) -> Seq<char> {
    match user {
        Some(u) => q + " user:"@ + u@,
        None => q,
    }
}

impl Query {
    /// Translates the request into the API's form: first page, one hundred
    /// results per page.
    pub fn to_api(&self) -> (r: ApiQuery)
        ensures
            r.q@ == api_query_text(self.q@, self.user),
            r.page == 0,
            r.per_page == 100,
    {
        let mut q = self.q.clone();
        match &self.user {
            Some(u) => {
                q.append(" user:");
                q.append(u.as_str());
            },
            None => {},
        }
        ApiQuery { q, page: 0, per_page: 100 }
    }
}

} // verus!

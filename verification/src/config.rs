//! Configuration values and the token-resolution rule. Reading files and
//! the environment stays with the caller; the precedence rule lives here.

use vstd::prelude::*;

verus! {

/// The tool's own configuration: an optional access token.
#[derive(Debug, Clone)]
pub struct Config {
    pub token: Option<String>,
}

impl Config {
    /// An empty configuration.
    pub fn new() -> (r: Config)
        ensures
            r.token is None,
    {
        Config { token: None }
    }
}

/// Output format of the one-shot report commands.
#[derive(Debug, Clone, Copy, PartialEq, Eq, Structural)]
pub enum Format {
    Text,
    Json,
}

/// One host's credentials from the hosts file.
#[derive(Debug, Clone)]
pub struct TokenEntry {
    pub user: String,
    pub oauth_token: String,
    pub git_protocol: String,
}

/// The hosts file's contents: host names with their credentials, in file
/// order.
#[derive(Debug, Clone)]
pub struct GHConfig {
    pub entries: Vec<(String, TokenEntry)>,
}

impl GHConfig {
    /// An empty hosts configuration.
    pub fn new() -> (r: GHConfig)
        ensures
            r.entries@.len() == 0,
    {
        GHConfig { entries: Vec::new() }
    }
}

/// Index of the first entry for `host`, or the entry count.
pub open spec fn find_host(entries: Seq<(String, TokenEntry)>, host: Seq<char>) -> int
    decreases entries.len(),
{
    if entries.len() == 0 {
        0
    } else if entries[0].0@ == host {
        0
    } else {
        1 + find_host(entries.drop_first(), host)
    }
}

proof fn lemma_host_scan(entries: Seq<(String, TokenEntry)>, host: Seq<char>, i: int)
    requires
        0 <= i <= entries.len(),
        forall|j: int| 0 <= j < i ==> (#[trigger] entries[j]).0@ != host,
        i < entries.len() ==> entries[i].0@ == host,
    ensures
        find_host(entries, host) == i,
    decreases entries.len(),
{
    if entries.len() > 0 && entries[0].0@ != host {
        assert(forall|j: int|
            0 <= j < i - 1 ==> entries.drop_first()[j] == entries[j + 1] && (
            #[trigger] entries[j + 1]).0@ != host);
        lemma_host_scan(entries.drop_first(), host, i - 1);
    }
}

/// The token the tool uses, by precedence: the hosts file's entry for
/// `github.com`, then the tool's own configured token, then the token from
/// the environment, then empty.
pub open spec fn resolved_token(
    gh: Seq<(String, TokenEntry)>,
    conf_token: Option<String>,
    env_token: Option<String>,
) -> Seq<char> {
    let f = find_host(gh, "github.com"@);
    if f < gh.len() {
        gh[f].1.oauth_token@
    } else {
        match conf_token {
            Some(t) => t@,
            None => match env_token {
                Some(t) => t@,
                None => Seq::empty(),
            },
        }
    }
}

/// Resolves the access token from the hosts file, the tool's configuration
/// and the environment, in that order of precedence.
pub fn resolve_token(gh: &GHConfig, conf: &Config, env_token: Option<String>) -> (r: String)
    ensures
        r@ == resolved_token(gh.entries@, conf.token, env_token),
{
    let host = "github.com".to_owned();
    let mut i: usize = 0;
    while i < gh.entries.len()
        invariant
            i <= gh.entries@.len(),
            host@ == "github.com"@,
            forall|j: int| 0 <= j < i ==> (#[trigger] gh.entries@[j]).0@ != "github.com"@,
        decreases gh.entries@.len() - i,
    {
        if gh.entries[i].0.eq(&host) {
            proof {
                lemma_host_scan(gh.entries@, "github.com"@, i as int);
            }
            return gh.entries[i].1.oauth_token.clone();
        }
        i += 1;
    }
    proof {
        lemma_host_scan(gh.entries@, "github.com"@, i as int);
    }
    match &conf.token {
        Some(t) => t.clone(),
        None => match env_token {
            Some(t) => t,
            None => String::new(),
        },
    }
}

} // verus!

//! Who must pay a small fee to browse: the decision behind the browsing-fee layer.

use vstd::prelude::*;

use crate::text::starts_with;

verus! {

/// Which paths the browsing fee applies to.
#[derive(Debug, Clone)]
pub struct BrowsingFeeConfig {
    /// Least fee, in sats, that a browsing token must carry.
    pub min_fee_sats: u64,
    /// Paths (by prefix) that require the fee.
    pub protected_paths: Vec<String>,
    /// Paths (by prefix) that are always free; they take precedence.
    pub free_paths: Vec<String>,
}

/// The layer that applies a `BrowsingFeeConfig` to requests.
#[derive(Debug, Clone)]
pub struct BrowsingFeeLayer {
    pub config: BrowsingFeeConfig,
}

/// What the layer does with a request.
#[derive(Debug, Clone, Copy, PartialEq, Eq, Structural)]
pub enum FeeDecision {
    /// Let it through.
    Pass,
    /// Refuse it: no token was sent.
    MissingToken,
    /// Refuse it: the token is not an ecash token.
    MalformedToken,
}

pub open spec fn is_prefix(p: Seq<char>, s: Seq<char>) -> bool {
    p.len() <= s.len() && s.subrange(0, p.len() as int) == p
}

/// Some entry of `paths` is a prefix of `path`.
pub open spec fn matches_any(paths: Seq<String>, path: Seq<char>) -> bool {
    exists|i: int| 0 <= i < paths.len() && is_prefix((#[trigger] paths[i])@, path)
}

/// Free paths pass; so does anything outside the protected paths, and any request with a
/// session. Otherwise a token must be sent, and it must be an ecash token (`cashuA...`).
pub open spec fn fee_decision(
    free: Seq<String>,
    protected: Seq<String>,
    path: Seq<char>,
    has_session: bool,
    token: Option<Seq<char>>,
) -> FeeDecision {
    if matches_any(free, path) || !matches_any(protected, path) || has_session {
        FeeDecision::Pass
    } else {
        match token {
            None => FeeDecision::MissingToken,
            Some(t) => if is_prefix("cashuA"@, t) {
                FeeDecision::Pass
            } else {
                FeeDecision::MalformedToken
            },
        }
    }
}

fn any_prefix_of(paths: &Vec<String>, path: &str) -> (r: bool)
    ensures
        r == matches_any(paths@, path@),
{
    let n = paths.len();
    let mut i: usize = 0;
    while i < n
        invariant
            n == paths@.len(),
            i <= n,
            forall|j: int| 0 <= j < i ==> !is_prefix((#[trigger] paths@[j])@, path@),
        decreases n - i,
    {
        if starts_with(path, paths[i].as_str()) {
            return true;
        }
        i = i + 1;
    }
    false
}

impl BrowsingFeeConfig {
    /// What the layer does with a request for `path`, with or without a session cookie and
    /// a browsing token.
    pub fn decide(&self, path: &str, has_session: bool, token: Option<&str>) -> (r: FeeDecision)
        ensures
            r == fee_decision(
                self.free_paths@,
                self.protected_paths@,
                path@,
                has_session,
                match token {
                    Some(t) => Some(t@),
                    None => None,
                },
            ),
    {
        if any_prefix_of(&self.free_paths, path) {
            return FeeDecision::Pass;
        }
        if !any_prefix_of(&self.protected_paths, path) {
            return FeeDecision::Pass;
        }
        if has_session {
            return FeeDecision::Pass;
        }
        match token {
            None => FeeDecision::MissingToken,
            Some(t) => if starts_with(t, "cashuA") {
                FeeDecision::Pass
            } else {
                FeeDecision::MalformedToken
            },
        }
    }
}

impl Default for BrowsingFeeConfig {
    /// A fee of 100 sats on listings; the home page, accounts, static files, health,
    /// wallet, cart and orders are free.
    fn default() -> (r: Self)
        ensures
            r.min_fee_sats == 100,
            r.protected_paths@.len() == 1,
            r.protected_paths@[0]@ == "/listings"@,
            r.free_paths@.len() == 8,
            r.free_paths@[0]@ == "/"@,
            r.free_paths@[1]@ == "/login"@,
            r.free_paths@[2]@ == "/register"@,
            r.free_paths@[3]@ == "/static"@,
            r.free_paths@[4]@ == "/health"@,
            r.free_paths@[5]@ == "/wallet"@,
            r.free_paths@[6]@ == "/cart"@,
            r.free_paths@[7]@ == "/orders"@,
    {
        let mut protected_paths: Vec<String> = Vec::new();
        protected_paths.push(String::from_str("/listings"));
        let mut free_paths: Vec<String> = Vec::new();
        free_paths.push(String::from_str("/"));
        free_paths.push(String::from_str("/login"));
        free_paths.push(String::from_str("/register"));
        free_paths.push(String::from_str("/static"));
        free_paths.push(String::from_str("/health"));
        free_paths.push(String::from_str("/wallet"));
        free_paths.push(String::from_str("/cart"));
        free_paths.push(String::from_str("/orders"));
        BrowsingFeeConfig { min_fee_sats: 100, protected_paths, free_paths }
    }
}

impl BrowsingFeeLayer {
    pub fn new(config: BrowsingFeeConfig) -> (r: Self)
        ensures
            r.config == config,
    {
        BrowsingFeeLayer { config }
    }
}

/// The browsing-fee layer for `config`.
pub fn browsing_fee_layer(config: BrowsingFeeConfig) -> (r: BrowsingFeeLayer)
    ensures
        r.config == config,
{
    BrowsingFeeLayer::new(config)
}

} // verus!

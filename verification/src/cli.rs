//! The command-line client: the addresses of the system's API and the
//! text it prints.
use vstd::prelude::*;
use crate::text::{concat2, cviews, lines, split_lines, string_of, views};

verus! {

/// The address of an API path under the endpoint.
pub fn api_url(endpoint: &str, path: &str) -> (r: String)
    ensures
        r@ == endpoint@ + path@,
{
    concat2(endpoint, path)
}

/// Where goals are submitted.
pub fn goals_url(endpoint: &str) -> (r: String)
    ensures
        r@ == endpoint@ + "/api/v1/goals"@,
{
    api_url(endpoint, "/api/v1/goals")
}

/// Where the status is read.
pub fn status_url(endpoint: &str) -> (r: String)
    ensures
        r@ == endpoint@ + "/api/v1/status"@,
{
    api_url(endpoint, "/api/v1/status")
}

/// Where the health is checked.
pub fn health_url(endpoint: &str) -> (r: String)
    ensures
        r@ == endpoint@ + "/health"@,
{
    api_url(endpoint, "/health")
}

/// Where the metrics are read.
pub fn metrics_url(endpoint: &str) -> (r: String)
    ensures
        r@ == endpoint@ + "/metrics"@,
{
    api_url(endpoint, "/metrics")
}

/// Where a shutdown is requested, forced or not.
pub fn shutdown_url(endpoint: &str, force: bool) -> (r: String)
    ensures
        r@ == endpoint@ + if force { "/admin/shutdown?force=true"@ } else { "/admin/shutdown"@ },
{
    if force {
        api_url(endpoint, "/admin/shutdown?force=true")
    } else {
        api_url(endpoint, "/admin/shutdown")
    }
}

/// The last `n` lines of a text (all of them when it has fewer).
pub open spec fn last_lines(text: Seq<char>, n: nat) -> Seq<Seq<char>> {
    let ls = lines(text);
    let start = if ls.len() > n { ls.len() - n } else { 0 };
    ls.skip(start)
}

/// The last `n` lines of a text.
pub fn tail_lines(text: &str, n: usize) -> (r: Vec<String>)
    ensures
        views(r@) == last_lines(text@, n as nat),
{
    let tc = crate::text::chars_of(text);
    let ls = split_lines(tc.as_slice());
    let total = ls.len();
    let start = if total > n {
        total - n
    } else {
        0
    };
    let mut r: Vec<String> = Vec::new();
    let mut i: usize = start;
    while i < total
        invariant
            start <= i <= total,
            total == ls@.len(),
            cviews(ls@) == lines(text@),
            views(r@) == cviews(ls@).subrange(start as int, i as int),
        decreases total - i,
    {
        let ghost b = views(r@);
        let s = string_of(ls[i].as_slice());
        r.push(s);
        assert(views(r@) =~= b.push(ls@[i as int]@));
        assert(cviews(ls@).subrange(start as int, i + 1) =~= cviews(ls@).subrange(start as int, i as int).push(
            ls@[i as int]@,
        ));
        i = i + 1;
    }
    assert(cviews(ls@).subrange(start as int, total as int) =~= cviews(ls@).skip(start as int));
    r
}

} // verus!

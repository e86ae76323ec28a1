//! LiveKit credentials and the rewrite of API URLs to WebSocket URLs.

use vstd::prelude::*;

use crate::domain::text::{has_prefix, skip_chars};

verus! {

pub open spec fn https_scheme() -> Seq<char> {
    seq!['h', 't', 't', 'p', 's', ':', '/', '/']
}

pub open spec fn http_scheme() -> Seq<char> {
    seq!['h', 't', 't', 'p', ':', '/', '/']
}

pub open spec fn wss_scheme() -> Seq<char> {
    seq!['w', 's', 's', ':', '/', '/']
}

pub open spec fn ws_scheme() -> Seq<char> {
    seq!['w', 's', ':', '/', '/']
}

/// The WebSocket URL for an API URL: `https://` becomes `wss://`, `http://`
/// becomes `ws://`, and any other URL is kept as it is.
pub open spec fn ws_url(url: Seq<char>) -> Seq<char> {
    if https_scheme().is_prefix_of(url) {
        wss_scheme() + url.skip(8)
    } else if http_scheme().is_prefix_of(url) {
        ws_scheme() + url.skip(7)
    } else {
        url
    }
}

/// The URL and token with which a LiveKit room is joined.
#[derive(Clone, Debug)]
pub struct LiveKitCredentials {
    pub wss_url: String,
    pub jwt: String,
}

impl LiveKitCredentials {
    /// The credentials for the API URL and token that the token exchange
    /// answered with.
    pub fn from_api_response(api_url: String, jwt: String) -> (res: Self)
        ensures
            res.wss_url@ == ws_url(api_url@),
            res.jwt@ == jwt@,
    {
        Self { wss_url: to_ws_url(api_url), jwt }
    }
}

/// Rewrites an `http`/`https` URL to the matching `ws`/`wss` URL.
fn to_ws_url(url: String) -> (res: String)
    ensures
        res@ == ws_url(url@),
{
    proof {
        reveal_strlit("https://");
        reveal_strlit("http://");
        reveal_strlit("wss://");
        reveal_strlit("ws://");
    }
    let https = "https://";
    let http = "http://";
    assert(https@ =~= https_scheme());
    assert(http@ =~= http_scheme());
    if has_prefix(url.as_str(), https) {
        let rest = skip_chars(url.as_str(), 8);
        let out = String::from_str("wss://");
        assert(out@ =~= wss_scheme());
        out.concat(rest)
    } else if has_prefix(url.as_str(), http) {
        let rest = skip_chars(url.as_str(), 7);
        let out = String::from_str("ws://");
        assert(out@ =~= ws_scheme());
        out.concat(rest)
    } else {
        url
    }
}

/// Rewriting a URL that was already rewritten changes nothing.
pub proof fn lemma_ws_url_idempotent(url: Seq<char>)
    ensures
        ws_url(ws_url(url)) == ws_url(url),
{
    let r = ws_url(url);
    if https_scheme().is_prefix_of(url) || http_scheme().is_prefix_of(url) {
        assert(r[0] == 'w');
        if https_scheme().is_prefix_of(r) {
            assert(https_scheme()[0] == r.subrange(0, 8)[0]);
        }
        if http_scheme().is_prefix_of(r) {
            assert(http_scheme()[0] == r.subrange(0, 7)[0]);
        }
    }
}

/// The rewrite keeps everything after the scheme: the result is the new
/// scheme followed by the rest of the URL.
pub proof fn lemma_ws_url_keeps_rest(rest: Seq<char>)
    ensures
        ws_url(https_scheme() + rest) == wss_scheme() + rest,
        ws_url(http_scheme() + rest) == ws_scheme() + rest,
{
    let a = https_scheme() + rest;
    assert(https_scheme() =~= a.subrange(0, 8));
    assert(a.skip(8) =~= rest);
    let b = http_scheme() + rest;
    assert(b[4] == ':');
    if https_scheme().is_prefix_of(b) {
        assert(https_scheme()[4] == b.subrange(0, 8)[4]);
    }
    assert(http_scheme() =~= b.subrange(0, 7));
    assert(b.skip(7) =~= rest);
}

} // verus!

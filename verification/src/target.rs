//! The server that requests are forwarded to: its base URL, its host, and the
//! URLs that requests get there.

use crate::target_laws::{law_ws_url_by_scheme, law_ws_url_keeps_path_and_query};
use crate::text::{
    behind_last, behind_prefix, strip_prefix, take_behind_last, to_chars, trim_end_char,
    without_trailing,
};
use vstd::prelude::*;
use vstd::string::StrSliceExecFns;
use vstd::string::StringExecFns;

verus! {

/// What follows the scheme of an HTTP URL. `None` for any other text.
pub open spec fn after_scheme(url: Seq<char>) -> Option<Seq<char>> {
    match behind_prefix(url, "https://"@) {
        Some(rest) => Some(rest),
        None => behind_prefix(url, "http://"@),
    }
}

/// Whether a character ends the authority of a URL: a path, a query or a fragment
/// begins with it.
pub open spec fn ends_authority(c: char) -> bool {
    c == '/' || c == '?' || c == '#'
}

/// How long the authority is that a text behind the scheme begins with.
pub open spec fn authority_len(rest: Seq<char>) -> nat
    decreases rest.len(),
{
    if rest.len() == 0 || ends_authority(rest[0]) {
        0
    } else {
        1 + authority_len(rest.skip(1))
    }
}

/// The authority that a text behind the scheme begins with.
pub open spec fn authority(rest: Seq<char>) -> Seq<char> {
    rest.take(authority_len(rest) as int)
}

/// The host of an HTTP URL, with its port where it has one: the authority without
/// the user information in front of it.
pub open spec fn host_of(url: Seq<char>) -> Option<Seq<char>> {
    match after_scheme(url) {
        Some(rest) => Some(behind_last(authority(rest), '@')),
        None => None,
    }
}

/// The authority is as long as `n` exactly if it ends there and not before.
pub proof fn lemma_authority_len(rest: Seq<char>, n: int)
    requires
        0 <= n <= rest.len(),
        forall|j: int| 0 <= j < n ==> !ends_authority(#[trigger] rest[j]),
        n < rest.len() ==> ends_authority(rest[n]),
    ensures
        authority_len(rest) == n,
    decreases rest.len(),
{
    if n > 0 {
        assert(!ends_authority(rest[0]));
        let more = rest.skip(1);
        assert forall|j: int| 0 <= j < n - 1 implies !ends_authority(#[trigger] more[j]) by {
            assert(!ends_authority(rest[j + 1]));
        }
        lemma_authority_len(more, n - 1);
    }
}

/// Takes the authority off the front of a text.
fn take_authority(rest: &str) -> (out: &str)
    ensures
        out@ == authority(rest@),
{
    let whole = to_chars(rest);
    let mut n: usize = 0;
    while n < whole.len() && whole[n] != '/' && whole[n] != '?' && whole[n] != '#'
        invariant
            n <= whole@.len(),
            whole@ == rest@,
            forall|j: int| 0 <= j < n ==> !ends_authority(#[trigger] rest@[j]),
        decreases whole@.len() - n,
    {
        n = n + 1;
    }
    proof {
        lemma_authority_len(rest@, n as int);
    }
    assert(rest@.subrange(0, n as int) =~= rest@.take(n as int));
    rest.substring_char(0, n)
}

/// Reads `host` or `host:port` out of a URL.
pub fn extract_host(url: &str) -> (host: Option<String>)
    ensures
        match host {
            Some(h) => host_of(url@) == Some(h@),
            None => host_of(url@) is None,
        },
        host is None <==> !"https://"@.is_prefix_of(url@) && !"http://"@.is_prefix_of(url@),
{
    let rest = match strip_prefix(url, "https://") {
        Some(rest) => rest,
        None => match strip_prefix(url, "http://") {
            Some(rest) => rest,
            None => {
                return None;
            },
        },
    };
    Some(take_behind_last(take_authority(rest), '@').to_owned())
}

/// The WebSocket counterpart of a base URL: `wss` for `https`, `ws` for `http`.
/// Any other text stays as it is.
pub open spec fn ws_base(target: Seq<char>) -> Seq<char> {
    match behind_prefix(target, "https://"@) {
        Some(rest) => "wss://"@ + rest,
        None => match behind_prefix(target, "http://"@) {
            Some(rest) => "ws://"@ + rest,
            None => target,
        },
    }
}

/// The URL of a WebSocket request at the target.
pub open spec fn ws_url(target: Seq<char>, path_and_query: Seq<char>) -> Seq<char> {
    ws_base(target) + path_and_query
}

/// Builds the URL of a WebSocket request at the target.
pub fn build_ws_url(target: &str, path_and_query: &str) -> (url: String)
    ensures
        url@ == ws_url(target@, path_and_query@),
        forall|rest: Seq<char>|
            target@ == #[trigger] ("https://"@ + rest) ==> url@ == "wss://"@ + rest
                + path_and_query@,
        forall|rest: Seq<char>|
            target@ == #[trigger] ("http://"@ + rest) ==> url@ == "ws://"@ + rest
                + path_and_query@,
        !"https://"@.is_prefix_of(target@) && !"http://"@.is_prefix_of(target@) ==> url@ == target@
            + path_and_query@,
        url@.len() >= path_and_query@.len(),
        url@.skip(url@.len() - path_and_query@.len()) == path_and_query@,
{
    proof {
        law_ws_url_by_scheme(target@, path_and_query@);
        law_ws_url_keeps_path_and_query(target@, path_and_query@);
    }
    let base = match strip_prefix(target, "https://") {
        Some(rest) => "wss://".to_owned().concat(rest),
        None => match strip_prefix(target, "http://") {
            Some(rest) => "ws://".to_owned().concat(rest),
            None => target.to_owned(),
        },
    };
    base.concat(path_and_query)
}

/// What every request to one target shares.
#[derive(Debug)]
pub struct AppState {
    /// Base URL without trailing slash, such as `https://example.com`.
    pub target: String,
    /// Value of the Host header that the target gets, such as `example.com`.
    pub target_host: String,
}

impl AppState {
    /// The base URL has no slash at its end, and the host is the one in it.
    pub open spec fn wf(&self) -> bool {
        &&& self.target@ == without_trailing(self.target@, '/')
        &&& host_of(self.target@) == Some(self.target_host@)
    }

    /// Prepares the state for a base URL as the user wrote it. `None` where no
    /// host can be read out of it.
    pub fn new(target: &str) -> (state: Option<AppState>)
        ensures
            state is Some <==> host_of(without_trailing(target@, '/')) is Some,
            state matches Some(s) ==> s.wf() && s.target@ == without_trailing(target@, '/'),
            state matches Some(s) ==> {
                &&& s.target@.len() > 0 && s.target@.last() != '/'
                &&& s.target@.is_prefix_of(target@)
                &&& forall|j: int| s.target@.len() <= j < target@.len() ==> target@[j] == '/'
            },
    {
        let trimmed = trim_end_char(target, '/');
        proof {
            lemma_trimming_is_final(target@, '/');
        }
        match extract_host(trimmed) {
            Some(host) => {
                proof {
                    reveal_strlit("https://");
                    reveal_strlit("http://");
                }
                Some(AppState { target: trimmed.to_owned(), target_host: host })
            },
            None => None,
        }
    }
}

/// Nothing is left to trim behind a trimmed text.
pub proof fn lemma_trimming_is_final(s: Seq<char>, c: char)
    ensures
        without_trailing(without_trailing(s, c), c) == without_trailing(s, c),
        without_trailing(s, c).len() > 0 ==> without_trailing(s, c).last() != c,
    decreases s.len(),
{
    if s.len() > 0 && s.last() == c {
        lemma_trimming_is_final(s.drop_last(), c);
    }
}

/// The path and query to ask the target for: those of the request, or the root
/// where it has none.
pub open spec fn path_or_root(path_and_query: Option<Seq<char>>) -> Seq<char> {
    match path_and_query {
        Some(pq) => pq,
        None => "/"@,
    }
}

/// The characters of an optional text.
pub open spec fn opt_text(text: Option<&str>) -> Option<Seq<char>> {
    match text {
        Some(t) => Some(t@),
        None => None,
    }
}

/// The URL of a plain request at the target.
pub open spec fn target_url(target: Seq<char>, path_and_query: Option<Seq<char>>) -> Seq<char> {
    target + path_or_root(path_and_query)
}

/// Builds the URL of a plain request at the target.
pub fn build_target_url(target: &str, path_and_query: Option<&str>) -> (url: String)
    ensures
        url@ == target_url(target@, opt_text(path_and_query)),
        match path_and_query {
            Some(pq) => url@ == target@ + pq@,
            None => url@ == target@.push('/'),
        },
{
    proof {
        reveal_strlit("/");
        assert(target@ + "/"@ =~= target@.push('/'));
    }
    match path_and_query {
        Some(pq) => target.to_owned().concat(pq),
        None => target.to_owned().concat("/"),
    }
}

} // verus!

//! What holds of the URLs that requests get at the target.

use crate::target::{
    after_scheme, authority, authority_len, ends_authority, host_of, lemma_authority_len, opt_text,
    path_or_root, target_url, ws_url, AppState,
};
use crate::text::{behind_last, without_trailing};
use crate::text_laws::{
    law_prefix_is_cut_off, law_rest_behind_last_is_found, law_trailing_run_is_cut_off,
};
use vstd::prelude::*;

verus! {

/// The authority, described by what stands in it and behind it.
proof fn lemma_authority_splits(rest: Seq<char>)
    ensures
        authority_len(rest) <= rest.len(),
        forall|j: int| 0 <= j < authority_len(rest) ==> !ends_authority(#[trigger] rest[j]),
        authority_len(rest) < rest.len() ==> ends_authority(rest[authority_len(rest) as int]),
    decreases rest.len(),
{
    if rest.len() > 0 && !ends_authority(rest[0]) {
        let more = rest.skip(1);
        lemma_authority_splits(more);
        assert forall|j: int| 0 <= j < authority_len(rest) implies !ends_authority(
            #[trigger] rest[j],
        ) by {
            if j > 0 {
                assert(!ends_authority(more[j - 1]));
            }
        }
    }
}

/// What stands behind the last `c` is the end of the text, holds no `c`, and has
/// `c` in front of it unless it is the whole text.
proof fn lemma_behind_last_splits(s: Seq<char>, c: char)
    ensures
        behind_last(s, c).len() <= s.len(),
        s.skip(s.len() - behind_last(s, c).len()) == behind_last(s, c),
        !behind_last(s, c).contains(c),
        behind_last(s, c).len() < s.len() ==> s[s.len() - behind_last(s, c).len() - 1] == c,
    decreases s.len(),
{
    if s.len() == 0 || s.last() == c {
        assert(s.skip(s.len() as int) =~= Seq::<char>::empty());
    } else {
        let shorter = s.drop_last();
        lemma_behind_last_splits(shorter, c);
        let short = behind_last(shorter, c);
        let long = behind_last(s, c);
        assert(s.skip(s.len() - long.len()) =~= shorter.skip(shorter.len() - short.len()).push(
            s.last(),
        ));
        assert forall|j: int| 0 <= j < long.len() implies long[j] != c by {
            if j < short.len() {
                assert(short[j] == long[j]);
            }
        }
    }
}

/// A text keeps its HTTP scheme when something is put behind it.
proof fn lemma_scheme_of_longer(url: Seq<char>, more: Seq<char>)
    requires
        after_scheme(url) is Some,
    ensures
        after_scheme(url + more) == Some(after_scheme(url).unwrap() + more),
{
    reveal_strlit("https://");
    reveal_strlit("http://");
    let long = url + more;
    if "https://"@.is_prefix_of(url) {
        assert("https://"@ =~= long.subrange(0, 8));
        assert(long.skip(8) =~= url.skip(8) + more);
    } else {
        assert("http://"@ =~= url.subrange(0, 7));
        assert(url[4] == "http://"@[4]);
        assert(!"https://"@.is_prefix_of(long)) by {
            if "https://"@.is_prefix_of(long) {
                assert(long.subrange(0, 8)[4] == "https://"@[4]);
            }
        }
        assert("http://"@ =~= long.subrange(0, 7));
        assert(long.skip(7) =~= url.skip(7) + more);
    }
}

/// The host that is read out of a URL is nothing but host and port: it holds no
/// part of a path, a query, a fragment or user information.
pub proof fn law_host_is_bare(url: Seq<char>)
    requires
        host_of(url) is Some,
    ensures
        ({
            let host = host_of(url).unwrap();
            &&& !host.contains('/')
            &&& !host.contains('?')
            &&& !host.contains('#')
            &&& !host.contains('@')
        }),
{
    let rest = after_scheme(url).unwrap();
    let whole = authority(rest);
    let host = host_of(url).unwrap();
    lemma_authority_splits(rest);
    lemma_behind_last_splits(whole, '@');
    assert forall|j: int| 0 <= j < host.len() implies !ends_authority(#[trigger] host[j]) by {
        let k = whole.len() - host.len() + j;
        assert(host[j] == whole.skip(whole.len() - host.len())[j]);
        assert(host[j] == rest[k]);
        assert(!ends_authority(rest[k]));
    }
}

/// The host stands in the URL, at the end of the authority: behind it comes
/// nothing, or what begins a path, a query or a fragment; before it comes the
/// scheme, or user information up to its `@`.
pub proof fn law_host_stands_in_url(url: Seq<char>)
    requires
        host_of(url) is Some,
    ensures
        ({
            let host = host_of(url).unwrap();
            let rest = after_scheme(url).unwrap();
            let end = authority_len(rest) as int;
            &&& host.len() <= end <= rest.len()
            &&& rest.subrange(end - host.len(), end) == host
            &&& end == rest.len() || ends_authority(rest[end])
            &&& host.len() == end || rest[end - host.len() - 1] == '@'
        }),
{
    let rest = after_scheme(url).unwrap();
    let whole = authority(rest);
    let host = host_of(url).unwrap();
    let end = authority_len(rest) as int;
    lemma_authority_splits(rest);
    lemma_behind_last_splits(whole, '@');
    assert(rest.subrange(end - host.len(), end) =~= whole.skip(whole.len() - host.len()));
}

/// A request is sent to the target's host and to no other, whatever path it
/// asks for.
pub proof fn law_requests_stay_at_target_host(state: AppState, path_and_query: Seq<char>)
    requires
        state.wf(),
        path_and_query.len() > 0,
        path_and_query[0] == '/',
    ensures
        host_of(target_url(state.target@, Some(path_and_query))) == Some(state.target_host@),
{
    let target = state.target@;
    let rest = after_scheme(target).unwrap();
    lemma_scheme_of_longer(target, path_and_query);
    lemma_authority_splits(rest);
    let n = authority_len(rest) as int;
    let long = rest + path_and_query;
    assert forall|j: int| 0 <= j < n implies !ends_authority(#[trigger] long[j]) by {
        assert(!ends_authority(rest[j]));
    }
    lemma_authority_len(long, n);
    assert(long.take(n) =~= rest.take(n));
}

/// A request without a path goes to the target's host too.
pub proof fn law_pathless_requests_stay_at_target_host(state: AppState)
    requires
        state.wf(),
    ensures
        host_of(target_url(state.target@, None)) == Some(state.target_host@),
{
    reveal_strlit("/");
    law_requests_stay_at_target_host(state, "/"@);
}

/// The base URL never contributes the slash in front of a path, so a path that
/// starts with one slash is asked for with one slash.
pub proof fn law_base_ends_without_slash(state: AppState)
    requires
        state.wf(),
    ensures
        state.target@.len() > 0,
        state.target@.last() != '/',
{
    reveal_strlit("https://");
    reveal_strlit("http://");
    let target = state.target@;
    assert(target.len() > 0);
    if target.last() == '/' {
        lemma_trimmed_is_not_longer(target.drop_last());
    }
}

proof fn lemma_trimmed_is_not_longer(s: Seq<char>)
    ensures
        without_trailing(s, '/').len() <= s.len(),
    decreases s.len(),
{
    if s.len() > 0 && s.last() == '/' {
        lemma_trimmed_is_not_longer(s.drop_last());
    }
}

/// The WebSocket URL of a request is its plain URL with the leading `http`
/// replaced by `ws`, so `https` becomes `wss`.
pub proof fn law_ws_url_differs_in_scheme_only(state: AppState, path_and_query: Seq<char>)
    requires
        state.wf(),
    ensures
        "http"@.is_prefix_of(target_url(state.target@, Some(path_and_query))),
        ws_url(state.target@, path_and_query) == "ws"@ + target_url(
            state.target@,
            Some(path_and_query),
        ).skip(4),
{
    reveal_strlit("https://");
    reveal_strlit("http://");
    reveal_strlit("wss://");
    reveal_strlit("ws://");
    reveal_strlit("ws");
    reveal_strlit("http");
    let target = state.target@;
    let plain = target_url(target, Some(path_and_query));
    if "https://"@.is_prefix_of(target) {
        assert forall|j: int| 0 <= j < 8 implies target[j] == "https://"@[j] by {
            assert(target.subrange(0, 8)[j] == "https://"@[j]);
        }
    } else {
        assert forall|j: int| 0 <= j < 7 implies target[j] == "http://"@[j] by {
            assert(target.subrange(0, 7)[j] == "http://"@[j]);
        }
    }
    assert("http"@ =~= plain.subrange(0, 4));
    assert(ws_url(target, path_and_query) =~= "ws"@ + plain.skip(4));
}

/// The URL of a plain request is the base URL followed by the whole path and
/// query, character for character, so nothing of either is lost or added. Without
/// a path it is the base URL and one slash.
pub proof fn law_url_is_base_and_path(target: Seq<char>, path_and_query: Seq<char>)
    ensures
        ({
            let url = target_url(target, Some(path_and_query));
            &&& url.len() == target.len() + path_and_query.len()
            &&& url.take(target.len() as int) == target
            &&& url.skip(target.len() as int) == path_and_query
        }),
        ({
            let root = target_url(target, None);
            &&& root.len() == target.len() + 1
            &&& root.take(target.len() as int) == target
            &&& root.last() == '/'
        }),
{
    reveal_strlit("/");
    let url = target_url(target, Some(path_and_query));
    assert(url.take(target.len() as int) =~= target);
    assert(url.skip(target.len() as int) =~= path_and_query);
    assert(target_url(target, None).take(target.len() as int) =~= target);
}

/// Two requests with different paths or queries get different URLs, plain ones and
/// WebSocket ones alike.
pub proof fn law_different_paths_different_urls(
    target: Seq<char>,
    path_and_query: Seq<char>,
    other: Seq<char>,
)
    requires
        path_and_query != other,
    ensures
        target_url(target, Some(path_and_query)) != target_url(target, Some(other)),
        ws_url(target, path_and_query) != ws_url(target, other),
{
    law_url_is_base_and_path(target, path_and_query);
    law_url_is_base_and_path(target, other);
    law_ws_url_keeps_path_and_query(target, path_and_query);
    law_ws_url_keeps_path_and_query(target, other);
}

/// The WebSocket URL ends with the whole path and query, and what stands before
/// them depends on the base URL alone.
pub proof fn law_ws_url_keeps_path_and_query(target: Seq<char>, path_and_query: Seq<char>)
    ensures
        ({
            let url = ws_url(target, path_and_query);
            let base = ws_url(target, Seq::<char>::empty());
            &&& url.len() == base.len() + path_and_query.len()
            &&& url.take(base.len() as int) == base
            &&& url.skip(base.len() as int) == path_and_query
            &&& url.skip(url.len() - path_and_query.len()) == path_and_query
        }),
{
    let url = ws_url(target, path_and_query);
    let base = ws_url(target, Seq::<char>::empty());
    assert(url.take(base.len() as int) =~= base);
    assert(url.skip(base.len() as int) =~= path_and_query);
}

/// The WebSocket URL has the scheme `wss` where the base URL has `https`, and `ws`
/// where it has `http`; all the rest of both the base URL and the path is kept. A
/// base URL without these schemes is kept as it is.
pub proof fn law_ws_url_by_scheme(target: Seq<char>, path_and_query: Seq<char>)
    ensures
        forall|rest: Seq<char>|
            target == #[trigger] ("https://"@ + rest) ==> ws_url(target, path_and_query)
                == "wss://"@ + rest + path_and_query,
        forall|rest: Seq<char>|
            target == #[trigger] ("http://"@ + rest) ==> ws_url(target, path_and_query)
                == "ws://"@ + rest + path_and_query,
        !"https://"@.is_prefix_of(target) && !"http://"@.is_prefix_of(target) ==> ws_url(
            target,
            path_and_query,
        ) == target + path_and_query,
{
    assert forall|rest: Seq<char>| target == #[trigger] ("https://"@ + rest) implies ws_url(
        target,
        path_and_query,
    ) == "wss://"@ + rest + path_and_query by {
        law_prefix_is_cut_off("https://"@, rest);
    }
    assert forall|rest: Seq<char>| target == #[trigger] ("http://"@ + rest) implies ws_url(
        target,
        path_and_query,
    ) == "ws://"@ + rest + path_and_query by {
        lemma_http_is_not_https(rest);
        law_prefix_is_cut_off("http://"@, rest);
    }
}

/// What begins with `http://` does not begin with `https://`.
proof fn lemma_http_is_not_https(rest: Seq<char>)
    ensures
        !"https://"@.is_prefix_of("http://"@ + rest),
{
    reveal_strlit("https://");
    reveal_strlit("http://");
    let url = "http://"@ + rest;
    if "https://"@.is_prefix_of(url) {
        assert(url.subrange(0, 8)[4] == "https://"@[4]);
        assert(url[4] == "http://"@[4]);
    }
}

/// The host is read out of a URL wherever it stands in one: behind the scheme and
/// behind user information that ends in `@`, if there is any, up to what begins a
/// path, a query or a fragment.
pub proof fn law_host_is_found(
    scheme: Seq<char>,
    user: Seq<char>,
    host: Seq<char>,
    tail: Seq<char>,
)
    requires
        scheme == "https://"@ || scheme == "http://"@,
        user.len() == 0 || user.last() == '@',
        forall|j: int|
            0 <= j < user.len() ==> #[trigger] user[j] != '/' && user[j] != '?' && user[j] != '#',
        forall|j: int|
            0 <= j < host.len() ==> #[trigger] host[j] != '/' && host[j] != '?' && host[j] != '#'
                && host[j] != '@',
        tail.len() == 0 || tail[0] == '/' || tail[0] == '?' || tail[0] == '#',
    ensures
        host_of(scheme + user + host + tail) == Some(host),
{
    let rest = user + host + tail;
    let url = scheme + user + host + tail;
    assert(url =~= scheme + rest);
    law_prefix_is_cut_off(scheme, rest);
    if scheme == "http://"@ {
        lemma_http_is_not_https(rest);
    }
    assert(after_scheme(url) == Some(rest));
    let n = (user.len() + host.len()) as int;
    assert forall|j: int| 0 <= j < n implies !ends_authority(#[trigger] rest[j]) by {
        if j < user.len() {
            assert(rest[j] == user[j]);
        } else {
            assert(rest[j] == host[j - user.len()]);
        }
    }
    lemma_authority_len(rest, n);
    assert(authority(rest) =~= user + host);
    law_rest_behind_last_is_found(user, host, '@');
}

/// A host can be read out of a text exactly if it begins with `https://` or
/// `http://`.
pub proof fn law_host_needs_http_scheme(url: Seq<char>)
    ensures
        host_of(url) is Some <==> "https://"@.is_prefix_of(url) || "http://"@.is_prefix_of(url),
{
}

/// A state is fit for use exactly if its base URL does not end in a slash and its
/// host is the one in that URL.
pub proof fn law_states_fit_for_use(state: AppState)
    ensures
        state.wf() <==> {
            &&& state.target@.len() == 0 || state.target@.last() != '/'
            &&& host_of(state.target@) == Some(state.target_host@)
        },
{
    let target = state.target@;
    if target.len() > 0 && target.last() == '/' {
        lemma_trimmed_is_not_longer(target.drop_last());
    }
}

/// Slashes behind a base URL make no difference to the URLs that requests get.
pub proof fn law_slashes_behind_base_do_not_matter(base: Seq<char>, n: nat)
    requires
        base.len() == 0 || base.last() != '/',
    ensures
        without_trailing(base + Seq::new(n, |i: int| '/'), '/') == base,
{
    law_trailing_run_is_cut_off(base, '/', n);
}

/// A request asks the target for its own path and query, and for the root, a
/// single slash, where it has none.
pub proof fn law_path_is_taken_as_it_is(path_and_query: Seq<char>, text: &str)
    ensures
        path_or_root(Some(path_and_query)) == path_and_query,
        path_or_root(None) == seq!['/'],
        opt_text(Some(text)) == Some(text@),
        opt_text(None) is None,
{
    reveal_strlit("/");
}

} // verus!

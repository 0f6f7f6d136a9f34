//! What holds of the header fields that travel on, whatever fields came in.

use crate::forward::{
    handshake_base, handshake_entries, handshake_keeps, request_entries, request_keeps,
    response_entries, response_keeps, stays_on_hop, travels_on, Entry, Journey,
};
use crate::headers::{
    connection_lists, field_lists, is_hop_by_hop_name, is_item, is_visible, item_name,
    lemma_values_of, text_of, trimmed, values_of,
};
use crate::headers_laws::law_nine_names_stay;
use crate::text::{ascii_lower, lower};
use vstd::prelude::*;
use vstd::utf8::encode_utf8;

verus! {

/// The values with a name among fields and one field more.
proof fn lemma_values_of_push(entries: Seq<Entry>, entry: Entry, name: Seq<char>)
    ensures
        values_of(entries.push(entry), name) == if entry.0 == name {
            values_of(entries, name).push(entry.1)
        } else {
            values_of(entries, name)
        },
{
    assert(entries.push(entry).drop_last() =~= entries);
}

/// The values with a name among two lists of fields.
proof fn lemma_values_of_add(front: Seq<Entry>, back: Seq<Entry>, name: Seq<char>)
    ensures
        values_of(front + back, name) == values_of(front, name) + values_of(back, name),
    decreases back.len(),
{
    if back.len() == 0 {
        assert(front + back =~= front);
        assert(values_of(front, name) + values_of(back, name) =~= values_of(front, name));
    } else {
        let whole = front + back;
        assert(whole.drop_last() =~= front + back.drop_last());
        lemma_values_of_add(front, back.drop_last(), name);
        assert(values_of(whole, name) =~= values_of(front, name) + values_of(back, name));
    }
}

/// Filtering keeps all values with a name if it keeps all fields with that name.
proof fn lemma_values_kept(entries: Seq<Entry>, keeps: spec_fn(Entry) -> bool, name: Seq<char>)
    requires
        forall|e: Entry| e.0 == name ==> #[trigger] keeps(e),
    ensures
        values_of(entries.filter(keeps), name) == values_of(entries, name),
    decreases entries.len(),
{
    reveal(Seq::filter);
    if entries.len() > 0 {
        let shorter = entries.drop_last();
        lemma_values_kept(shorter, keeps, name);
        lemma_values_of_push(shorter.filter(keeps), entries.last(), name);
    }
}

/// Filtering drops all values with a name if it drops all fields with that name.
proof fn lemma_values_dropped(entries: Seq<Entry>, keeps: spec_fn(Entry) -> bool, name: Seq<char>)
    requires
        forall|e: Entry| e.0 == name ==> !#[trigger] keeps(e),
    ensures
        values_of(entries.filter(keeps), name) == Seq::<Seq<u8>>::empty(),
    decreases entries.len(),
{
    reveal(Seq::filter);
    if entries.len() > 0 {
        let shorter = entries.drop_last();
        lemma_values_dropped(shorter, keeps, name);
        lemma_values_of_push(shorter.filter(keeps), entries.last(), name);
    }
}

/// The nine names of fields that belong to one hop, and those that a `Connection`
/// field lists, are never part of the request to the target. Every other field but
/// `Host` arrives there with all its values, in order. `Host` arrives once, naming
/// the target's host.
pub proof fn law_request_values(entries: Seq<Entry>, host: Seq<char>, name: Seq<char>)
    ensures
        values_of(request_entries(entries, host), name) == if name == "host"@ {
            seq![encode_utf8(host)]
        } else if seq![
            "connection"@,
            "keep-alive"@,
            "proxy-authenticate"@,
            "proxy-authorization"@,
            "te"@,
            "trailers"@,
            "transfer-encoding"@,
            "upgrade"@,
            "proxy-connection"@,
        ].contains(name) || connection_lists(entries, name) {
            Seq::<Seq<u8>>::empty()
        } else {
            values_of(entries, name)
        },
{
    law_nine_names_stay(name);
    let keeps = request_keeps(entries);
    lemma_values_of_push(entries.filter(keeps), ("host"@, encode_utf8(host)), name);
    if name == "host"@ || stays_on_hop(entries, name) {
        lemma_values_dropped(entries, keeps, name);
    } else {
        lemma_values_kept(entries, keeps, name);
    }
    assert(Seq::<Seq<u8>>::empty().push(encode_utf8(host)) =~= seq![encode_utf8(host)]);
}

/// The nine names of fields that belong to one hop, and those that a `Connection`
/// field lists, are never part of the response to the client. Every other field
/// arrives there with all its values, in order.
pub proof fn law_response_values(entries: Seq<Entry>, name: Seq<char>)
    ensures
        values_of(response_entries(entries), name) == if seq![
            "connection"@,
            "keep-alive"@,
            "proxy-authenticate"@,
            "proxy-authorization"@,
            "te"@,
            "trailers"@,
            "transfer-encoding"@,
            "upgrade"@,
            "proxy-connection"@,
        ].contains(name) || connection_lists(entries, name) {
            Seq::<Seq<u8>>::empty()
        } else {
            values_of(entries, name)
        },
{
    law_nine_names_stay(name);
    let keeps = response_keeps(entries);
    if stays_on_hop(entries, name) {
        lemma_values_dropped(entries, keeps, name);
    } else {
        lemma_values_kept(entries, keeps, name);
    }
}

/// A compressed body stays marked as such: `Content-Encoding` arrives as the
/// target sent it, unless the target itself ties it to the connection.
pub proof fn law_content_encoding_passes(entries: Seq<Entry>)
    requires
        !connection_lists(entries, "content-encoding"@),
    ensures
        values_of(response_entries(entries), "content-encoding"@) == values_of(
            entries,
            "content-encoding"@,
        ),
{
    reveal_strlit("content-encoding");
    lemma_hop_by_hop_lengths("content-encoding"@);
    law_response_values(entries, "content-encoding"@);
}

/// Without a `Connection` field nothing is tied to the connection.
proof fn lemma_nothing_listed(entries: Seq<Entry>, name: Seq<char>)
    requires
        values_of(entries, "connection"@).len() == 0,
    ensures
        !connection_lists(entries, name),
{
    if connection_lists(entries, name) {
        let i = choose|i: int| 0 <= i < entries.len() && field_lists(#[trigger] entries[i], name);
        lemma_values_of(entries, "connection"@, entries[i].1);
        assert(entries[i] == ("connection"@, entries[i].1));
        assert(values_of(entries, "connection"@).contains(entries[i].1));
    }
}

/// The names that are found listed are in lower case, so a name is recognised in
/// whatever case the list has it.
pub proof fn law_listed_names_are_lower(entries: Seq<Entry>, name: Seq<char>)
    requires
        connection_lists(entries, name),
    ensures
        ascii_lower(name) == name,
{
    let i = choose|i: int| 0 <= i < entries.len() && field_lists(#[trigger] entries[i], name);
    let list = text_of(entries[i].1);
    let (a, b) = choose|a: int, b: int| #[trigger]
        is_item(list, a, b) && item_name(list, a, b) == name;
    let item = trimmed(list.subrange(a, b));
    assert(ascii_lower(ascii_lower(item)) =~= ascii_lower(item));
}

/// Filtering keeps everything if it keeps each of the fields.
proof fn lemma_filter_all(entries: Seq<Entry>, keeps: spec_fn(Entry) -> bool)
    requires
        forall|i: int| 0 <= i < entries.len() ==> keeps(#[trigger] entries[i]),
    ensures
        entries.filter(keeps) == entries,
    decreases entries.len(),
{
    reveal(Seq::filter);
    if entries.len() > 0 {
        let shorter = entries.drop_last();
        assert forall|i: int| 0 <= i < shorter.len() implies keeps(#[trigger] shorter[i]) by {
            assert(keeps(entries[i]));
        }
        lemma_filter_all(shorter, keeps);
        assert(keeps(entries[entries.len() - 1]));
        assert(shorter.push(entries.last()) =~= entries);
    }
}

/// A response that passed one proxy passes the next one unchanged.
pub proof fn law_response_filter_is_final(entries: Seq<Entry>)
    ensures
        response_entries(response_entries(entries)) == response_entries(entries),
{
    let once = response_entries(entries);
    let keeps = response_keeps(once);
    law_response_values(entries, "connection"@);
    assert(values_of(once, "connection"@).len() == 0);
    assert forall|i: int| 0 <= i < once.len() implies keeps(#[trigger] once[i]) by {
        lemma_nothing_listed(once, once[i].0);
        entries.lemma_filter_pred(response_keeps(entries), i);
    }
    lemma_filter_all(once, keeps);
}

/// A request that passed one proxy is changed by the next one in nothing but the
/// host it names.
pub proof fn law_request_filter_is_final(
    entries: Seq<Entry>,
    host: Seq<char>,
    next_host: Seq<char>,
)
    ensures
        request_entries(request_entries(entries, host), next_host) == request_entries(
            entries,
            next_host,
        ),
{
    let kept = entries.filter(request_keeps(entries));
    let once = request_entries(entries, host);
    let keeps = request_keeps(once);
    law_request_values(entries, host, "connection"@);
    lemma_handshake_names();
    assert(values_of(once, "connection"@).len() == 0);
    assert forall|i: int| 0 <= i < kept.len() implies keeps(#[trigger] kept[i]) by {
        lemma_nothing_listed(once, kept[i].0);
        entries.lemma_filter_pred(request_keeps(entries), i);
    }
    lemma_filter_all(kept, keeps);
    assert(once.filter(keeps) == kept) by {
        reveal(Seq::filter);
        assert(once.drop_last() =~= kept);
        assert(once.last().0 == "host"@);
    }
}

/// The handshake with the target names its host, asks for a WebSocket of the
/// right version and carries its own key, each of them once, whatever the client
/// sent under these names.
pub proof fn law_handshake_own_fields(entries: Seq<Entry>, host: Seq<char>, key: Seq<char>)
    ensures
        values_of(handshake_entries(entries, host, key), "host"@) == seq![encode_utf8(host)],
        values_of(handshake_entries(entries, host, key), "connection"@) == seq![
            encode_utf8("Upgrade"@),
        ],
        values_of(handshake_entries(entries, host, key), "upgrade"@) == seq![
            encode_utf8("websocket"@),
        ],
        values_of(handshake_entries(entries, host, key), "sec-websocket-version"@) == seq![
            encode_utf8("13"@),
        ],
        values_of(handshake_entries(entries, host, key), "sec-websocket-key"@) == seq![
            encode_utf8(key),
        ],
        values_of(handshake_entries(entries, host, key), "sec-websocket-accept"@) == Seq::<
            Seq<u8>,
        >::empty(),
{
    lemma_handshake_values(entries, host, key, "host"@);
    lemma_handshake_values(entries, host, key, "connection"@);
    lemma_handshake_values(entries, host, key, "upgrade"@);
    lemma_handshake_values(entries, host, key, "sec-websocket-version"@);
    lemma_handshake_values(entries, host, key, "sec-websocket-key"@);
    lemma_handshake_values(entries, host, key, "sec-websocket-accept"@);
    lemma_handshake_names();
}

/// The values with a name that are visible ASCII, in order.
pub open spec fn visible_values(entries: Seq<Entry>, name: Seq<char>) -> Seq<Seq<u8>> {
    values_of(entries, name).filter(|v: Seq<u8>| is_visible(v))
}

/// Filtering keeps the visible values with a name if it keeps exactly the fields
/// with that name that have them.
proof fn lemma_visible_values_kept(
    entries: Seq<Entry>,
    keeps: spec_fn(Entry) -> bool,
    name: Seq<char>,
)
    requires
        forall|e: Entry| e.0 == name ==> #[trigger] keeps(e) == is_visible(e.1),
    ensures
        values_of(entries.filter(keeps), name) == visible_values(entries, name),
    decreases entries.len(),
{
    reveal(Seq::filter);
    if entries.len() > 0 {
        let shorter = entries.drop_last();
        let last = entries.last();
        lemma_visible_values_kept(shorter, keeps, name);
        lemma_values_of_push(shorter.filter(keeps), last, name);
        if last.0 == name {
            assert(values_of(entries, name).drop_last() =~= values_of(shorter, name));
            assert(keeps(last) == is_visible(last.1));
        }
    }
}

/// Whether a handshake makes the fields with a name for itself, or has none.
pub open spec fn is_handshake_own(name: Seq<char>) -> bool {
    ||| name == "host"@
    ||| name == "sec-websocket-key"@
    ||| name == "sec-websocket-version"@
    ||| name == "sec-websocket-accept"@
}

/// Under the names that a handshake takes for itself, it carries the same values
/// whatever the client sent.
pub proof fn law_client_does_not_set_own_fields(
    entries: Seq<Entry>,
    others: Seq<Entry>,
    host: Seq<char>,
    key: Seq<char>,
    name: Seq<char>,
)
    requires
        is_handshake_own(name) || name == "connection"@ || name == "upgrade"@,
    ensures
        values_of(handshake_entries(entries, host, key), name) == values_of(
            handshake_entries(others, host, key),
            name,
        ),
{
    law_handshake_own_fields(entries, host, key);
    law_handshake_own_fields(others, host, key);
}

/// All other fields of the client's request arrive with the handshake, with all
/// values that are visible ASCII, in order, unless they have one of the nine names
/// of fields that belong to one hop or a `Connection` field lists them.
pub proof fn law_handshake_passes_the_rest(
    entries: Seq<Entry>,
    host: Seq<char>,
    key: Seq<char>,
    name: Seq<char>,
)
    requires
        name != "host"@,
        name != "sec-websocket-key"@,
        name != "sec-websocket-version"@,
        name != "sec-websocket-accept"@,
        !seq![
            "connection"@,
            "keep-alive"@,
            "proxy-authenticate"@,
            "proxy-authorization"@,
            "te"@,
            "trailers"@,
            "transfer-encoding"@,
            "upgrade"@,
            "proxy-connection"@,
        ].contains(name),
        !connection_lists(entries, name),
    ensures
        values_of(handshake_entries(entries, host, key), name) == visible_values(entries, name),
{
    law_nine_names_stay(name);
    lemma_handshake_values(entries, host, key, name);
    lemma_visible_values_kept(entries, handshake_keeps(entries), name);
    assert(values_of(handshake_entries(entries, host, key), name) =~= visible_values(
        entries,
        name,
    ));
}

/// The client and the target can agree on a subprotocol and on extensions: what
/// the client offers arrives at the target.
pub proof fn law_subprotocols_pass(entries: Seq<Entry>, host: Seq<char>, key: Seq<char>)
    ensures
        !connection_lists(entries, "sec-websocket-protocol"@) ==> values_of(
            handshake_entries(entries, host, key),
            "sec-websocket-protocol"@,
        ) == visible_values(entries, "sec-websocket-protocol"@),
        !connection_lists(entries, "sec-websocket-extensions"@) ==> values_of(
            handshake_entries(entries, host, key),
            "sec-websocket-extensions"@,
        ) == visible_values(entries, "sec-websocket-extensions"@),
{
    lemma_handshake_names();
    lemma_hop_by_hop_lengths("sec-websocket-protocol"@);
    lemma_hop_by_hop_lengths("sec-websocket-extensions"@);
    reveal_strlit("sec-websocket-protocol");
    reveal_strlit("sec-websocket-extensions");
    if !connection_lists(entries, "sec-websocket-protocol"@) {
        law_handshake_passes_the_rest(entries, host, key, "sec-websocket-protocol"@);
    }
    if !connection_lists(entries, "sec-websocket-extensions"@) {
        law_handshake_passes_the_rest(entries, host, key, "sec-websocket-extensions"@);
    }
}

/// How long the names are that belong to one hop, and which of the long ones
/// start how.
proof fn lemma_hop_by_hop_lengths(name: Seq<char>)
    ensures
        is_hop_by_hop_name(name) ==> name.len() <= 19 && (name.len() == 16 ==> name[0] == 'p'),
{
    reveal_strlit("connection");
    reveal_strlit("keep-alive");
    reveal_strlit("proxy-authenticate");
    reveal_strlit("proxy-authorization");
    reveal_strlit("te");
    reveal_strlit("trailers");
    reveal_strlit("transfer-encoding");
    reveal_strlit("upgrade");
    reveal_strlit("proxy-connection");
}

/// The names that a handshake uses differ.
proof fn lemma_handshake_names()
    ensures
        "host"@.len() == 4,
        "connection"@.len() == 10,
        "upgrade"@.len() == 7,
        "sec-websocket-version"@.len() == 21,
        "sec-websocket-key"@.len() == 17,
        "sec-websocket-accept"@.len() == 20,
{
    reveal_strlit("host");
    reveal_strlit("connection");
    reveal_strlit("upgrade");
    reveal_strlit("sec-websocket-version");
    reveal_strlit("sec-websocket-key");
    reveal_strlit("sec-websocket-accept");
}

/// The values that a handshake carries under a name: its own ones, then those of
/// the client that are let through.
proof fn lemma_handshake_values(
    entries: Seq<Entry>,
    host: Seq<char>,
    key: Seq<char>,
    name: Seq<char>,
)
    ensures
        values_of(handshake_entries(entries, host, key), name) == values_of(
            handshake_base(host, key),
            name,
        ) + values_of(entries.filter(handshake_keeps(entries)), name),
        name == "host"@ || stays_on_hop(entries, name) || name == "sec-websocket-key"@ || name
            == "sec-websocket-version"@ || name == "sec-websocket-accept"@ ==> values_of(
            entries.filter(handshake_keeps(entries)),
            name,
        ) == Seq::<Seq<u8>>::empty(),
        values_of(handshake_base(host, key), name) == if name == "host"@ {
            seq![encode_utf8(host)]
        } else if name == "connection"@ {
            seq![encode_utf8("Upgrade"@)]
        } else if name == "upgrade"@ {
            seq![encode_utf8("websocket"@)]
        } else if name == "sec-websocket-version"@ {
            seq![encode_utf8("13"@)]
        } else if name == "sec-websocket-key"@ {
            seq![encode_utf8(key)]
        } else {
            Seq::<Seq<u8>>::empty()
        },
{
    let keeps = handshake_keeps(entries);
    lemma_values_of_add(handshake_base(host, key), entries.filter(keeps), name);
    if name == "host"@ || stays_on_hop(entries, name) || name == "sec-websocket-key"@ || name
        == "sec-websocket-version"@ || name == "sec-websocket-accept"@ {
        lemma_values_dropped(entries, keeps, name);
    }
    lemma_handshake_names();
    let e0 = Seq::<Entry>::empty();
    let e1 = e0.push(("host"@, encode_utf8(host)));
    let e2 = e1.push(("connection"@, encode_utf8("Upgrade"@)));
    let e3 = e2.push(("upgrade"@, encode_utf8("websocket"@)));
    let e4 = e3.push(("sec-websocket-version"@, encode_utf8("13"@)));
    let e5 = e4.push(("sec-websocket-key"@, encode_utf8(key)));
    lemma_values_of_push(e0, ("host"@, encode_utf8(host)), name);
    lemma_values_of_push(e1, ("connection"@, encode_utf8("Upgrade"@)), name);
    lemma_values_of_push(e2, ("upgrade"@, encode_utf8("websocket"@)), name);
    lemma_values_of_push(e3, ("sec-websocket-version"@, encode_utf8("13"@)), name);
    lemma_values_of_push(e4, ("sec-websocket-key"@, encode_utf8(key)), name);
    assert(handshake_base(host, key) =~= e5);
}

/// Filtering by two tests that agree on all fields.
pub proof fn lemma_filter_alike(
    entries: Seq<Entry>,
    p: spec_fn(Entry) -> bool,
    q: spec_fn(Entry) -> bool,
)
    requires
        forall|e: Entry| #[trigger] p(e) == q(e),
    ensures
        entries.filter(p) == entries.filter(q),
    decreases entries.len(),
{
    reveal(Seq::filter);
    if entries.len() > 0 {
        lemma_filter_alike(entries.drop_last(), p, q);
        assert(p(entries.last()) == q(entries.last()));
    }
}

/// The request to the target has, in the order in which they came, all fields but
/// those named `host`, those with one of the nine names and those that a
/// `Connection` field lists, each with its name and its value, and behind them the
/// one that names the target's host.
pub proof fn law_request_field_by_field(entries: Seq<Entry>, host: Seq<char>)
    ensures
        request_entries(entries, host) == entries.filter(
            |e: Entry|
                {
                    &&& e.0 != "host"@
                    &&& !seq![
                        "connection"@,
                        "keep-alive"@,
                        "proxy-authenticate"@,
                        "proxy-authorization"@,
                        "te"@,
                        "trailers"@,
                        "transfer-encoding"@,
                        "upgrade"@,
                        "proxy-connection"@,
                    ].contains(e.0)
                    &&& !connection_lists(entries, e.0)
                },
        ).push(("host"@, encode_utf8(host))),
{
    let told = |e: Entry|
        {
            &&& e.0 != "host"@
            &&& !seq![
                "connection"@,
                "keep-alive"@,
                "proxy-authenticate"@,
                "proxy-authorization"@,
                "te"@,
                "trailers"@,
                "transfer-encoding"@,
                "upgrade"@,
                "proxy-connection"@,
            ].contains(e.0)
            &&& !connection_lists(entries, e.0)
        };
    assert forall|e: Entry| #[trigger] request_keeps(entries)(e) == told(e) by {
        law_nine_names_stay(e.0);
    }
    lemma_filter_alike(entries, request_keeps(entries), told);
}

/// The response to the client has, in the order in which they came, all fields but
/// those with one of the nine names and those that a `Connection` field lists,
/// each with its name and its value.
pub proof fn law_response_field_by_field(entries: Seq<Entry>)
    ensures
        response_entries(entries) == entries.filter(
            |e: Entry|
                {
                    &&& !seq![
                        "connection"@,
                        "keep-alive"@,
                        "proxy-authenticate"@,
                        "proxy-authorization"@,
                        "te"@,
                        "trailers"@,
                        "transfer-encoding"@,
                        "upgrade"@,
                        "proxy-connection"@,
                    ].contains(e.0)
                    &&& !connection_lists(entries, e.0)
                },
        ),
{
    let told = |e: Entry|
        {
            &&& !seq![
                "connection"@,
                "keep-alive"@,
                "proxy-authenticate"@,
                "proxy-authorization"@,
                "te"@,
                "trailers"@,
                "transfer-encoding"@,
                "upgrade"@,
                "proxy-connection"@,
            ].contains(e.0)
            &&& !connection_lists(entries, e.0)
        };
    assert forall|e: Entry| #[trigger] response_keeps(entries)(e) == told(e) by {
        law_nine_names_stay(e.0);
    }
    lemma_filter_alike(entries, response_keeps(entries), told);
}

/// The handshake with the target has five fields of its own, and behind them, in
/// the order in which they came, the fields of the client's request that are
/// visible and that are not named `host`, are not made by every handshake for
/// itself, have none of the nine names and are listed by no `Connection` field.
pub proof fn law_handshake_field_by_field(entries: Seq<Entry>, host: Seq<char>, key: Seq<char>)
    ensures
        handshake_entries(entries, host, key) == seq![
            ("host"@, encode_utf8(host)),
            ("connection"@, encode_utf8("Upgrade"@)),
            ("upgrade"@, encode_utf8("websocket"@)),
            ("sec-websocket-version"@, encode_utf8("13"@)),
            ("sec-websocket-key"@, encode_utf8(key)),
        ] + entries.filter(
            |e: Entry|
                {
                    &&& e.0 != "host"@
                    &&& e.0 != "sec-websocket-key"@
                    &&& e.0 != "sec-websocket-version"@
                    &&& e.0 != "sec-websocket-accept"@
                    &&& !seq![
                        "connection"@,
                        "keep-alive"@,
                        "proxy-authenticate"@,
                        "proxy-authorization"@,
                        "te"@,
                        "trailers"@,
                        "transfer-encoding"@,
                        "upgrade"@,
                        "proxy-connection"@,
                    ].contains(e.0)
                    &&& !connection_lists(entries, e.0)
                    &&& is_visible(e.1)
                },
        ),
{
    let told = |e: Entry|
        {
            &&& e.0 != "host"@
            &&& e.0 != "sec-websocket-key"@
            &&& e.0 != "sec-websocket-version"@
            &&& e.0 != "sec-websocket-accept"@
            &&& !seq![
                "connection"@,
                "keep-alive"@,
                "proxy-authenticate"@,
                "proxy-authorization"@,
                "te"@,
                "trailers"@,
                "transfer-encoding"@,
                "upgrade"@,
                "proxy-connection"@,
            ].contains(e.0)
            &&& !connection_lists(entries, e.0)
            &&& is_visible(e.1)
        };
    assert forall|e: Entry| #[trigger] handshake_keeps(entries)(e) == told(e) by {
        law_nine_names_stay(e.0);
    }
    lemma_filter_alike(entries, handshake_keeps(entries), told);
}

/// Whether a picked field travels on, by its name in lower case: never with one of
/// the nine names or a listed one; to the target never as `host`; with a handshake
/// never as a field that every handshake makes for itself, and only if its value
/// is visible. All other fields travel on.
pub proof fn law_fields_that_travel_on(journey: Journey, listed: Set<Seq<char>>, entry: Entry)
    ensures
        travels_on(journey, listed, entry) <==> {
            let name = lower(entry.0);
            &&& !seq![
                "connection"@,
                "keep-alive"@,
                "proxy-authenticate"@,
                "proxy-authorization"@,
                "te"@,
                "trailers"@,
                "transfer-encoding"@,
                "upgrade"@,
                "proxy-connection"@,
            ].contains(name)
            &&& !listed.contains(name)
            &&& journey is Request || journey is Handshake ==> name != "host"@
            &&& journey is Handshake ==> name != "sec-websocket-key"@ && name
                != "sec-websocket-version"@ && name != "sec-websocket-accept"@
            &&& journey is Handshake ==> forall|j: int|
                0 <= j < entry.1.len() ==> 32 <= #[trigger] entry.1[j] <= 126 || entry.1[j] == 9
        },
{
    law_nine_names_stay(lower(entry.0));
}

} // verus!

//! Which header fields travel on: with a request, with its response, and with a
//! WebSocket handshake.

use crate::headers::{
    all_fields, connection_listed_headers, connection_lists, fields_view, header_entries,
    is_hop_by_hop_exact, is_hop_by_hop_name, is_lower_ascii, is_visible, value_text, HeaderField,
};
use crate::text::{ascii_lower, lower, same_text, to_lower};
use axum::http::HeaderMap;
use vstd::hash_set::StringHashSet;
use vstd::prelude::*;
use vstd::string::StrSliceExecFns;
use vstd::utf8::encode_utf8;

verus! {

/// A header field as contracts see it: its name and its value.
pub type Entry = (Seq<char>, Seq<u8>);

/// Whether the fields with the name `name` stay on this hop.
pub open spec fn stays_on_hop(entries: Seq<Entry>, name: Seq<char>) -> bool {
    is_hop_by_hop_name(name) || connection_lists(entries, name)
}

/// The fields of a request that the target gets to see as they are.
pub open spec fn request_keeps(entries: Seq<Entry>) -> spec_fn(Entry) -> bool {
    |e: Entry| e.0 != "host"@ && !stays_on_hop(entries, e.0)
}

/// The field that names the host of the target.
pub open spec fn host_entry(host: Seq<char>) -> Entry {
    ("host"@, encode_utf8(host))
}

/// The fields of the request to the target.
pub open spec fn request_entries(entries: Seq<Entry>, host: Seq<char>) -> Seq<Entry> {
    entries.filter(request_keeps(entries)).push(host_entry(host))
}

/// The fields of a response that the client gets to see.
pub open spec fn response_keeps(entries: Seq<Entry>) -> spec_fn(Entry) -> bool {
    |e: Entry| !stays_on_hop(entries, e.0)
}

/// The fields of the response to the client.
pub open spec fn response_entries(entries: Seq<Entry>) -> Seq<Entry> {
    entries.filter(response_keeps(entries))
}

/// The fields of a WebSocket request that the target gets to see as they are.
/// The ones that every handshake makes for itself are left out, and so are
/// values that are not visible ASCII.
pub open spec fn handshake_keeps(entries: Seq<Entry>) -> spec_fn(Entry) -> bool {
    |e: Entry|
        {
            &&& e.0 != "host"@
            &&& !stays_on_hop(entries, e.0)
            &&& e.0 != "sec-websocket-key"@
            &&& e.0 != "sec-websocket-version"@
            &&& e.0 != "sec-websocket-accept"@
            &&& is_visible(e.1)
        }
}

/// The fields that a handshake makes for itself.
pub open spec fn handshake_base(host: Seq<char>, key: Seq<char>) -> Seq<Entry> {
    seq![
        host_entry(host),
        ("connection"@, encode_utf8("Upgrade"@)),
        ("upgrade"@, encode_utf8("websocket"@)),
        ("sec-websocket-version"@, encode_utf8("13"@)),
        ("sec-websocket-key"@, encode_utf8(key)),
    ]
}

/// The fields of the handshake with the target.
pub open spec fn handshake_entries(
    entries: Seq<Entry>,
    host: Seq<char>,
    key: Seq<char>,
) -> Seq<Entry> {
    handshake_base(host, key) + entries.filter(handshake_keeps(entries))
}

/// The ways that header fields can go.
#[derive(Clone, Copy, Debug, PartialEq, Eq, Structural)]
pub enum Journey {
    /// To the target, with a request.
    Request,
    /// To the client, with a response.
    Response,
    /// To the target, with a WebSocket handshake.
    Handshake,
}

/// Whether a field travels on. `listed` holds the names that the `Connection`
/// fields list. The case of the field's name does not matter.
pub open spec fn travels_on(journey: Journey, listed: Set<Seq<char>>, entry: Entry) -> bool {
    let name = lower(entry.0);
    &&& !is_hop_by_hop_name(name)
    &&& !listed.contains(name)
    &&& match journey {
        Journey::Request => name != "host"@,
        Journey::Response => true,
        Journey::Handshake => {
            &&& name != "host"@
            &&& name != "sec-websocket-key"@
            &&& name != "sec-websocket-version"@
            &&& name != "sec-websocket-accept"@
            &&& is_visible(entry.1)
        },
    }
}

/// Filtering one field more.
proof fn lemma_filter_next<A>(s: Seq<A>, i: int, keeps: spec_fn(A) -> bool)
    requires
        0 <= i < s.len(),
    ensures
        s.take(i + 1).filter(keeps) == if keeps(s[i]) {
            s.take(i).filter(keeps).push(s[i])
        } else {
            s.take(i).filter(keeps)
        },
{
    reveal(Seq::filter);
    assert(s.take(i + 1).drop_last() =~= s.take(i));
    assert(s.take(i + 1).last() == s[i]);
}

/// A name in lower case is its own lower-case form.
proof fn lemma_lower_of_lower(name: Seq<char>)
    requires
        is_lower_ascii(name),
    ensures
        lower(name) == name,
{
    assert(ascii_lower(name) =~= name);
}

/// Copies a header field.
fn copy_field(field: &HeaderField) -> (copy: HeaderField)
    ensures
        copy@ == field@,
{
    let copy = HeaderField { name: field.name.clone(), value: field.value.clone() };
    assert(copy.value@ =~= field.value@);
    copy
}

/// Filtering by two tests that agree on all items.
proof fn lemma_filter_same<A>(s: Seq<A>, p: spec_fn(A) -> bool, q: spec_fn(A) -> bool)
    requires
        forall|i: int| 0 <= i < s.len() ==> p(#[trigger] s[i]) == q(s[i]),
    ensures
        s.filter(p) == s.filter(q),
    decreases s.len(),
{
    reveal(Seq::filter);
    if s.len() > 0 {
        let shorter = s.drop_last();
        assert forall|i: int| 0 <= i < shorter.len() implies p(#[trigger] shorter[i]) == q(
            shorter[i],
        ) by {
            assert(p(s[i]) == q(s[i]));
        }
        lemma_filter_same(shorter, p, q);
        assert(p(s[s.len() - 1]) == q(s[s.len() - 1]));
    }
}

/// Picks the fields that travel on. `listed` holds the names that the
/// `Connection` fields list, in lower case.
pub fn pick_fields(fields: &Vec<HeaderField>, listed: &StringHashSet, journey: Journey) -> (out:
    Vec<HeaderField>)
    ensures
        fields_view(out@) == fields_view(fields@).filter(
            |e: Entry| travels_on(journey, listed@, e),
        ),
{
    let ghost entries = fields_view(fields@);
    let ghost keeps = |e: Entry| travels_on(journey, listed@, e);
    let mut out: Vec<HeaderField> = Vec::new();
    let mut i: usize = 0;
    assert(fields_view(out@) =~= entries.take(0).filter(keeps)) by {
        reveal(Seq::filter);
    }
    while i < fields.len()
        invariant
            i <= fields@.len(),
            entries == fields_view(fields@),
            keeps == (|e: Entry| travels_on(journey, listed@, e)),
            fields_view(out@) == entries.take(i as int).filter(keeps),
        decreases fields@.len() - i,
    {
        let field = &fields[i];
        proof {
            lemma_filter_next(entries, i as int, keeps);
            assert(entries[i as int] == field@);
        }
        let ghost before = out@;
        if field_travels_on(journey, listed, field) {
            out.push(copy_field(field));
            assert(fields_view(out@) =~= fields_view(before).push(field@));
        }
        i = i + 1;
    }
    assert(entries.take(entries.len() as int) =~= entries);
    out
}

/// Whether a field travels on.
fn field_travels_on(journey: Journey, listed: &StringHashSet, field: &HeaderField) -> (travels:
    bool)
    ensures
        travels == travels_on(journey, listed@, field@),
{
    let folded = to_lower(field.name.as_str());
    let name = folded.as_str();
    if is_hop_by_hop_exact(name, listed) {
        return false;
    }
    match journey {
        Journey::Request => !same_text(name, "host"),
        Journey::Response => true,
        Journey::Handshake => !same_text(name, "host") && !same_text(name, "sec-websocket-key")
            && !same_text(name, "sec-websocket-version") && !same_text(
            name,
            "sec-websocket-accept",
        ) && value_text(field.value.as_slice()).is_some(),
    }
}

/// Picks the fields of a request that travel on, and names the target's host.
pub fn forward_request_headers(headers: &HeaderMap, target_host: &str) -> (out: Vec<HeaderField>)
    ensures
        fields_view(out@) == request_entries(header_entries(*headers), target_host@),
{
    let fields = all_fields(headers);
    let listed = connection_listed_headers(headers);
    let mut out = pick_fields(&fields, &listed, Journey::Request);
    proof {
        let entries = header_entries(*headers);
        let picks = |e: Entry| travels_on(Journey::Request, listed@, e);
        assert forall|i: int| 0 <= i < entries.len() implies picks(#[trigger] entries[i])
            == request_keeps(entries)(entries[i]) by {
            lemma_lower_of_lower(fields@[i].name@);
            assert(entries[i] == fields@[i]@);
        }
        lemma_filter_same(entries, picks, request_keeps(entries));
    }
    let ghost before = out@;
    out.push(make_field("host", target_host));
    assert(fields_view(out@) =~= fields_view(before).push(host_entry(target_host@)));
    out
}

/// Picks the fields of a response that travel on.
pub fn forward_response_headers(headers: &HeaderMap) -> (out: Vec<HeaderField>)
    ensures
        fields_view(out@) == response_entries(header_entries(*headers)),
{
    let fields = all_fields(headers);
    let listed = connection_listed_headers(headers);
    proof {
        let entries = header_entries(*headers);
        let picks = |e: Entry| travels_on(Journey::Response, listed@, e);
        assert forall|i: int| 0 <= i < entries.len() implies picks(#[trigger] entries[i])
            == response_keeps(entries)(entries[i]) by {
            lemma_lower_of_lower(fields@[i].name@);
            assert(entries[i] == fields@[i]@);
        }
        lemma_filter_same(entries, picks, response_keeps(entries));
    }
    pick_fields(&fields, &listed, Journey::Response)
}

fn make_field(name: &str, value: &str) -> (field: HeaderField)
    ensures
        field@ == (name@, encode_utf8(value@)),
{
    HeaderField { name: name.to_owned(), value: value.as_bytes_vec() }
}

/// Builds the fields of the handshake with the target, with `key` as its
/// `Sec-WebSocket-Key`.
pub fn handshake_headers(headers: &HeaderMap, target_host: &str, key: &str) -> (out: Vec<
    HeaderField,
>)
    ensures
        fields_view(out@) == handshake_entries(header_entries(*headers), target_host@, key@),
{
    let fields = all_fields(headers);
    let listed = connection_listed_headers(headers);
    let mut rest = pick_fields(&fields, &listed, Journey::Handshake);
    proof {
        let entries = header_entries(*headers);
        let picks = |e: Entry| travels_on(Journey::Handshake, listed@, e);
        assert forall|i: int| 0 <= i < entries.len() implies picks(#[trigger] entries[i])
            == handshake_keeps(entries)(entries[i]) by {
            lemma_lower_of_lower(fields@[i].name@);
            assert(entries[i] == fields@[i]@);
        }
        lemma_filter_same(entries, picks, handshake_keeps(entries));
    }
    let ghost passed = rest@;
    let mut out: Vec<HeaderField> = Vec::new();
    out.push(make_field("host", target_host));
    out.push(make_field("connection", "Upgrade"));
    out.push(make_field("upgrade", "websocket"));
    out.push(make_field("sec-websocket-version", "13"));
    out.push(make_field("sec-websocket-key", key));
    assert(fields_view(out@) =~= handshake_base(target_host@, key@));
    let ghost base = out@;
    out.append(&mut rest);
    assert(fields_view(out@) =~= fields_view(base) + fields_view(passed));
    out
}

} // verus!

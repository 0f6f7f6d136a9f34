//! Header fields: which of them belong to one hop only, and what they say about
//! the connection.

use crate::headers_laws::{law_nine_names_stay, law_websocket_in_any_case};
use crate::text::{ascii_lower, lower, same_text, to_chars, to_lower};
use axum::http::{HeaderMap, HeaderValue};
use vstd::hash_set::StringHashSet;
use vstd::prelude::*;
use vstd::string::StrSliceExecFns;
use vstd::utf8::is_ascii_chars;

verus! {

/// A header value of the `http` crate.
#[verifier::external_type_specification]
#[verifier::external_body]
pub struct ExHeaderValue(axum::http::HeaderValue);

/// A header map of the `http` crate.
#[verifier::external_type_specification]
#[verifier::external_body]
#[verifier::reject_recursive_types(T)]
pub struct ExHeaderMap<T>(axum::http::HeaderMap<T>);

/// The fields of a header map, each with its name and its value, in the order in
/// which the map is walked.
pub uninterp spec fn header_entries(headers: HeaderMap) -> Seq<(Seq<char>, Seq<u8>)>;

/// One header field.
#[derive(Debug, PartialEq, Eq)]
pub struct HeaderField {
    pub name: String,
    pub value: Vec<u8>,
}

impl View for HeaderField {
    type V = (Seq<char>, Seq<u8>);

    open spec fn view(&self) -> (Seq<char>, Seq<u8>) {
        (self.name@, self.value@)
    }
}

/// What a list of header fields says.
pub open spec fn fields_view(fields: Seq<HeaderField>) -> Seq<(Seq<char>, Seq<u8>)> {
    fields.map_values(|f: HeaderField| f@)
}

/// Whether a text is ASCII without capital letters.
pub open spec fn is_lower_ascii(s: Seq<char>) -> bool {
    is_ascii_chars(s) && forall|i: int| 0 <= i < s.len() ==> !('A' <= #[trigger] s[i] <= 'Z')
}

/// Whether a text is a short name of small letters, digits and hyphens. A header
/// map looks such names up as they are.
pub open spec fn is_plain_name(s: Seq<char>) -> bool {
    0 < s.len() <= 64 && forall|i: int|
        0 <= i < s.len() ==> 'a' <= #[trigger] s[i] <= 'z' || '0' <= s[i] <= '9' || s[i] == '-'
}

/// The values of the fields with the name `name`, in order.
pub open spec fn values_of(entries: Seq<(Seq<char>, Seq<u8>)>, name: Seq<char>) -> Seq<Seq<u8>>
    decreases entries.len(),
{
    if entries.len() == 0 {
        Seq::<Seq<u8>>::empty()
    } else {
        let earlier = values_of(entries.drop_last(), name);
        if entries.last().0 == name {
            earlier.push(entries.last().1)
        } else {
            earlier
        }
    }
}

/// Calls `HeaderMap::iter`, which walks all fields of a map and gives one pair
/// of name and value for each. The map keeps its names as ASCII text in lower
/// case.
#[verifier::external_body]
pub(crate) fn all_fields(headers: &HeaderMap) -> (fields: Vec<HeaderField>)
    ensures
        fields_view(fields@) == header_entries(*headers),
        forall|i: int| 0 <= i < fields@.len() ==> is_lower_ascii(#[trigger] fields@[i].name@),
{
    headers
        .iter()
        .map(|(n, v)| HeaderField { name: n.as_str().to_owned(), value: v.as_bytes().to_vec() })
        .collect()
}

/// Calls `HeaderMap::get_all`, which finds the values of all fields with one
/// name, in the order in which they were added. Among themselves they are walked
/// in that order too. This is claimed of plain names only: a map can hold odder
/// names that a look-up by text does not find.
#[verifier::external_body]
fn values_named(headers: &HeaderMap, name: &str) -> (values: Vec<Vec<u8>>)
    requires
        is_plain_name(name@),
    ensures
        values_view(values@) == values_of(header_entries(*headers), name@),
{
    headers.get_all(name).iter().map(|v| v.as_bytes().to_vec()).collect()
}

/// Calls `HeaderMap::get`, which finds the first of the values that `get_all`
/// finds. This is claimed of plain names only, as it is there.
#[verifier::external_body]
fn first_value_named(headers: &HeaderMap, name: &str) -> (value: Option<Vec<u8>>)
    requires
        is_plain_name(name@),
    ensures
        match value {
            Some(v) => values_of(header_entries(*headers), name@).len() > 0 && v@ == values_of(
                header_entries(*headers),
                name@,
            )[0],
            None => values_of(header_entries(*headers), name@).len() == 0,
        },
{
    headers.get(name).map(|v| v.as_bytes().to_vec())
}

/// Whether a value holds nothing but visible ASCII characters, spaces and tabs.
pub open spec fn is_visible(value: Seq<u8>) -> bool {
    forall|i: int| 0 <= i < value.len() ==> 32 <= #[trigger] value[i] < 127 || value[i] == 9
}

/// A visible value as text.
pub open spec fn text_of(value: Seq<u8>) -> Seq<char> {
    value.map_values(|b: u8| b as char)
}

/// Calls `HeaderValue::to_str`, which gives a value as text if it is visible
/// ASCII throughout. A value that cannot be a header value at all is not.
#[verifier::external_body]
pub(crate) fn value_text(value: &[u8]) -> (text: Option<String>)
    ensures
        match text {
            Some(t) => is_visible(value@) && t@ == text_of(value@),
            None => !is_visible(value@),
        },
{
    HeaderValue::from_bytes(value).ok()?.to_str().ok().map(|t| t.to_owned())
}

/// A value is among those with a name exactly if some field has that name and
/// value.
pub proof fn lemma_values_of(entries: Seq<(Seq<char>, Seq<u8>)>, name: Seq<char>, value: Seq<u8>)
    ensures
        values_of(entries, name).contains(value) <==> entries.contains((name, value)),
    decreases entries.len(),
{
    if entries.len() > 0 {
        let shorter = entries.drop_last();
        let last = entries.last();
        lemma_values_of(shorter, name, value);
        assert(entries =~= shorter.push(last));
        let earlier = values_of(shorter, name);
        if entries.contains((name, value)) && last != (name, value) {
            let i = entries.index_of((name, value));
            assert(shorter[i] == (name, value));
        }
        if shorter.contains((name, value)) {
            let i = shorter.index_of((name, value));
            assert(entries[i] == (name, value));
        }
        if last.0 == name {
            assert(values_of(entries, name).last() == last.1);
            assert(values_of(entries, name) =~= earlier.push(last.1));
            if earlier.contains(value) {
                let i = earlier.index_of(value);
                assert(values_of(entries, name)[i] == value);
            }
            if last.1 == value {
                assert(entries[entries.len() - 1] == (name, value));
            }
        }
    }
}

/// The white space that header text can hold.
pub open spec fn is_blank(c: char) -> bool {
    c == ' ' || c == '\t'
}

/// A text without the blanks in front of it.
pub open spec fn without_leading_blanks(s: Seq<char>) -> Seq<char>
    decreases s.len(),
{
    if s.len() > 0 && is_blank(s[0]) {
        without_leading_blanks(s.skip(1))
    } else {
        s
    }
}

/// A text without the blanks behind it.
pub open spec fn without_trailing_blanks(s: Seq<char>) -> Seq<char>
    decreases s.len(),
{
    if s.len() > 0 && is_blank(s.last()) {
        without_trailing_blanks(s.drop_last())
    } else {
        s
    }
}

/// A text without the blanks on either side.
pub open spec fn trimmed(s: Seq<char>) -> Seq<char> {
    without_trailing_blanks(without_leading_blanks(s))
}

/// Cuts the blanks on either side off a text.
fn trim_blanks(s: &str) -> (out: &str)
    ensures
        out@ == trimmed(s@),
{
    let whole = to_chars(s);
    let len: usize = whole.len();
    let mut a: usize = 0;
    assert(s@.skip(0) =~= s@);
    while a < len && (whole[a] == ' ' || whole[a] == '\t')
        invariant
            a <= len,
            len == whole@.len(),
            whole@ == s@,
            without_leading_blanks(s@) == without_leading_blanks(s@.skip(a as int)),
        decreases len - a,
    {
        assert(s@.skip(a as int).skip(1) =~= s@.skip(a + 1));
        a = a + 1;
    }
    let ghost front = s@.skip(a as int);
    let mut b: usize = len;
    assert(front.take(b - a) =~= front);
    while b > a && (whole[b - 1] == ' ' || whole[b - 1] == '\t')
        invariant
            a <= b <= len,
            len == whole@.len(),
            whole@ == s@,
            front == s@.skip(a as int),
            without_trailing_blanks(front) == without_trailing_blanks(front.take(b - a)),
        decreases b,
    {
        assert(front.take(b - a).drop_last() =~= front.take(b - a - 1));
        assert(front.take(b - a).last() == whole@[b - 1]);
        b = b - 1;
    }
    assert(b > a ==> front.take(b - a).last() == whole@[b - 1]);
    assert(s@.subrange(a as int, b as int) =~= front.take(b - a));
    s.substring_char(a, b)
}

/// Whether the places from `a` up to `b` hold one item of a list: nothing in
/// them is a comma, and they reach to a comma or an end on either side.
pub open spec fn is_item(s: Seq<char>, a: int, b: int) -> bool {
    &&& 0 <= a <= b <= s.len()
    &&& forall|j: int| a <= j < b ==> s[j] != ','
    &&& a == 0 || s[a - 1] == ','
    &&& b == s.len() || s[b] == ','
}

/// The name that an item of a list stands for.
pub open spec fn item_name(s: Seq<char>, a: int, b: int) -> Seq<char> {
    ascii_lower(trimmed(s.subrange(a, b)))
}

/// Whether a comma-separated list holds a name, whatever its case and the blanks
/// around it. An empty item stands for no name.
pub open spec fn list_has(s: Seq<char>, name: Seq<char>) -> bool {
    name.len() > 0 && exists|a: int, b: int| #[trigger]
        is_item(s, a, b) && item_name(s, a, b) == name
}

/// Whether a field lists `name` as belonging to this connection.
pub open spec fn field_lists(entry: (Seq<char>, Seq<u8>), name: Seq<char>) -> bool {
    &&& entry.0 == "connection"@
    &&& is_visible(entry.1)
    &&& list_has(text_of(entry.1), name)
}

/// Whether some `Connection` field lists `name`.
pub open spec fn connection_lists(
    entries: Seq<(Seq<char>, Seq<u8>)>,
    name: Seq<char>,
) -> bool {
    exists|i: int| 0 <= i < entries.len() && field_lists(#[trigger] entries[i], name)
}

/// Two items of a list that meet are one.
proof fn lemma_items_apart(s: Seq<char>, a: int, b: int, c: int, d: int)
    requires
        is_item(s, a, b),
        is_item(s, c, d),
        c <= b <= d,
    ensures
        a == c,
        b == d,
{
    if b < d {
        assert(s[b] == ',');
    }
    if a > c {
        assert(s[a - 1] == ',');
    }
    if a < c {
        assert(s[c - 1] == ',');
    }
}

/// Trimming ASCII text leaves ASCII text.
proof fn lemma_trimmed_is_ascii(s: Seq<char>)
    requires
        is_ascii_chars(s),
    ensures
        is_ascii_chars(trimmed(s)),
{
    lemma_leading_is_ascii(s);
    lemma_trailing_is_ascii(without_leading_blanks(s));
}

proof fn lemma_leading_is_ascii(s: Seq<char>)
    requires
        is_ascii_chars(s),
    ensures
        is_ascii_chars(without_leading_blanks(s)),
    decreases s.len(),
{
    if s.len() > 0 && is_blank(s[0]) {
        lemma_leading_is_ascii(s.skip(1));
    }
}

proof fn lemma_trailing_is_ascii(s: Seq<char>)
    requires
        is_ascii_chars(s),
    ensures
        is_ascii_chars(without_trailing_blanks(s)),
    decreases s.len(),
{
    if s.len() > 0 && is_blank(s.last()) {
        lemma_trailing_is_ascii(s.drop_last());
    }
}

/// Adds the names in a comma-separated list to a set.
fn add_items(list: &str, names: &mut StringHashSet)
    requires
        is_ascii_chars(list@),
    ensures
        forall|n: Seq<char>| #[trigger]
            final(names)@.contains(n) <==> old(names)@.contains(n) || list_has(list@, n),
{
    let whole = to_chars(list);
    let len: usize = whole.len();
    let ghost before = names@;
    let mut start: usize = 0;
    let mut i: usize = 0;
    loop
        invariant_except_break
            forall|n: Seq<char>| #[trigger]
                names@.contains(n) <==> before.contains(n) || n.len() > 0 && exists|
                    a: int,
                    b: int,
                |
                    b < start && #[trigger] is_item(list@, a, b) && item_name(list@, a, b) == n,
        invariant
            start <= i <= len,
            len == whole@.len(),
            whole@ == list@,
            is_ascii_chars(list@),
            start == 0 || list@[start - 1] == ',',
            forall|j: int| start <= j < i ==> list@[j] != ',',
        ensures
            forall|n: Seq<char>| #[trigger]
                names@.contains(n) <==> before.contains(n) || list_has(list@, n),
        decreases len - i,
    {
        if i == len || whole[i] == ',' {
            let item = list.substring_char(start, i);
            let name = to_lower(trim_blanks(item));
            proof {
                lemma_trimmed_is_ascii(item@);
                assert(is_item(list@, start as int, i as int));
                assert(name@ == item_name(list@, start as int, i as int));
            }
            let ghost earlier = names@;
            if !name.as_str().is_empty() {
                names.insert(name);
            }
            proof {
                assert forall|a: int, b: int| is_item(list@, a, b) && start <= b <= i implies a
                    == start && b == i by {
                    lemma_items_apart(list@, a, b, start as int, i as int);
                }
                assert forall|n: Seq<char>| #[trigger]
                    names@.contains(n) <==> before.contains(n) || n.len() > 0 && exists|
                        a: int,
                        b: int,
                    |
                        b < i + 1 && #[trigger] is_item(list@, a, b) && item_name(list@, a, b)
                            == n by {
                    if earlier.contains(n) && !before.contains(n) {
                        let (a, b) = choose|a: int, b: int|
                            b < start && #[trigger] is_item(list@, a, b) && item_name(list@, a, b)
                                == n;
                        assert(is_item(list@, a, b));
                    }
                }
            }
            if i == len {
                break;
            }
            start = i + 1;
        }
        i = i + 1;
    }
}

/// Visible values are ASCII text.
proof fn lemma_visible_is_ascii(value: Seq<u8>)
    requires
        is_visible(value),
    ensures
        is_ascii_chars(text_of(value)),
{
    assert forall|i: int| 0 <= i < value.len() implies '\0' <= #[trigger] text_of(value)[i]
        <= '\u{7f}' by {
        assert(32 <= value[i] < 127 || value[i] == 9);
    }
}

/// Whether one of several values lists `name`.
pub open spec fn values_list(values: Seq<Seq<u8>>, name: Seq<char>) -> bool {
    exists|k: int|
        0 <= k < values.len() && is_visible(#[trigger] values[k]) && list_has(
            text_of(values[k]),
            name,
        )
}

/// What several values hold.
pub open spec fn values_view(values: Seq<Vec<u8>>) -> Seq<Seq<u8>> {
    values.map_values(|v: Vec<u8>| v@)
}

/// Collects the names that values list. Values that are not visible ASCII list
/// none.
pub fn collect_listed(values: &Vec<Vec<u8>>) -> (listed: StringHashSet)
    ensures
        forall|n: Seq<char>| #[trigger]
            listed@.contains(n) <==> values_list(values_view(values@), n),
{
    let ghost found = values_view(values@);
    let mut listed = StringHashSet::new();
    let mut i: usize = 0;
    while i < values.len()
        invariant
            i <= values@.len(),
            found == values_view(values@),
            forall|n: Seq<char>| #[trigger]
                listed@.contains(n) <==> values_list(found.take(i as int), n),
        decreases values@.len() - i,
    {
        assert(found[i as int] == values@[i as int]@);
        let ghost earlier = listed@;
        let ghost sooner = found.take(i as int);
        let ghost later = found.take(i + 1);
        if let Some(text) = value_text(values[i].as_slice()) {
            proof {
                lemma_visible_is_ascii(found[i as int]);
            }
            add_items(text.as_str(), &mut listed);
        }
        proof {
            assert forall|n: Seq<char>| #[trigger]
                listed@.contains(n) <==> values_list(later, n) by {
                if earlier.contains(n) {
                    let k = choose|k: int|
                        0 <= k < sooner.len() && is_visible(#[trigger] sooner[k]) && list_has(
                            text_of(sooner[k]),
                            n,
                        );
                    assert(later[k] == sooner[k]);
                }
                if values_list(later, n) {
                    let k = choose|k: int|
                        0 <= k < later.len() && is_visible(#[trigger] later[k]) && list_has(
                            text_of(later[k]),
                            n,
                        );
                    if k < i {
                        assert(sooner[k] == later[k]);
                    }
                }
                if is_visible(found[i as int]) && list_has(text_of(found[i as int]), n) {
                    assert(later[i as int] == found[i as int]);
                }
            }
        }
        i = i + 1;
    }
    assert(found.take(found.len() as int) =~= found);
    listed
}

/// Collects the names that the `Connection` fields list: the fields with those
/// names belong to this connection alone.
pub fn connection_listed_headers(headers: &HeaderMap) -> (listed: StringHashSet)
    ensures
        forall|n: Seq<char>| #[trigger]
            listed@.contains(n) <==> connection_lists(header_entries(*headers), n),
{
    proof {
        reveal_strlit("connection");
    }
    let values = values_named(headers, "connection");
    let listed = collect_listed(&values);
    proof {
        let entries = header_entries(*headers);
        let found = values_of(entries, "connection"@);
        assert forall|n: Seq<char>| #[trigger]
            listed@.contains(n) <==> connection_lists(entries, n) by {
            if values_list(found, n) {
                let k = choose|k: int|
                    0 <= k < found.len() && is_visible(#[trigger] found[k]) && list_has(
                        text_of(found[k]),
                        n,
                    );
                lemma_values_of(entries, "connection"@, found[k]);
                let j = entries.index_of(("connection"@, found[k]));
                assert(field_lists(entries[j], n));
            }
            if connection_lists(entries, n) {
                let j = choose|j: int|
                    0 <= j < entries.len() && field_lists(#[trigger] entries[j], n);
                lemma_values_of(entries, "connection"@, entries[j].1);
                assert(entries[j] == ("connection"@, entries[j].1));
                let k = found.index_of(entries[j].1);
                assert(is_visible(found[k]));
            }
        }
    }
    listed
}

/// The names of the fields that never travel further than one hop.
pub open spec fn is_hop_by_hop_name(name: Seq<char>) -> bool {
    ||| name == "connection"@
    ||| name == "keep-alive"@
    ||| name == "proxy-authenticate"@
    ||| name == "proxy-authorization"@
    ||| name == "te"@
    ||| name == "trailers"@
    ||| name == "transfer-encoding"@
    ||| name == "upgrade"@
    ||| name == "proxy-connection"@
}

/// Whether a field must not be forwarded, by its name or since `extra` lists it.
/// The name is taken as it is.
pub fn is_hop_by_hop_exact(name: &str, extra: &StringHashSet) -> (stays: bool)
    ensures
        stays == (is_hop_by_hop_name(name@) || extra@.contains(name@)),
        stays <==> seq![
            "connection"@,
            "keep-alive"@,
            "proxy-authenticate"@,
            "proxy-authorization"@,
            "te"@,
            "trailers"@,
            "transfer-encoding"@,
            "upgrade"@,
            "proxy-connection"@,
        ].contains(name@) || extra@.contains(name@),
{
    proof {
        law_nine_names_stay(name@);
    }
    same_text(name, "connection") || same_text(name, "keep-alive") || same_text(
        name,
        "proxy-authenticate",
    ) || same_text(name, "proxy-authorization") || same_text(name, "te") || same_text(
        name,
        "trailers",
    ) || same_text(name, "transfer-encoding") || same_text(name, "upgrade") || same_text(
        name,
        "proxy-connection",
    ) || extra.contains(name)
}

/// Whether a field must not be forwarded, by its name or since `extra` lists it.
/// The name may be written in any case; `extra` holds names in lower case.
pub fn is_hop_by_hop(name: &str, extra: &StringHashSet) -> (stays: bool)
    ensures
        stays == (is_hop_by_hop_name(lower(name@)) || extra@.contains(lower(name@))),
        stays <==> seq![
            "connection"@,
            "keep-alive"@,
            "proxy-authenticate"@,
            "proxy-authorization"@,
            "te"@,
            "trailers"@,
            "transfer-encoding"@,
            "upgrade"@,
            "proxy-connection"@,
        ].contains(lower(name@)) || extra@.contains(lower(name@)),
{
    is_hop_by_hop_exact(to_lower(name).as_str(), extra)
}

/// Whether the value of an `Upgrade` field is `websocket`, in any case.
pub open spec fn is_websocket(value: Seq<u8>) -> bool {
    is_visible(value) && ascii_lower(text_of(value)) == "websocket"@
}

/// Whether the value of an `Upgrade` field is `websocket`, in any case.
pub fn says_websocket(value: &[u8]) -> (says: bool)
    ensures
        says == is_websocket(value@),
        says <==> value@.len() == 9 && forall|k: int|
            0 <= k < 9 ==> #[trigger] value@[k] as char == "websocket"@[k] || value@[k] as char
                == "WEBSOCKET"@[k],
{
    proof {
        law_websocket_in_any_case(value@);
    }
    match value_text(value) {
        Some(text) => {
            proof {
                lemma_visible_is_ascii(value@);
            }
            same_text(to_lower(text.as_str()).as_str(), "websocket")
        },
        None => false,
    }
}

/// Whether header fields ask for a WebSocket: the first `Upgrade` field does.
pub open spec fn asks_for_websocket(entries: Seq<(Seq<char>, Seq<u8>)>) -> bool {
    let values = values_of(entries, "upgrade"@);
    values.len() > 0 && is_websocket(values[0])
}

/// Whether a request asks for a WebSocket.
pub fn is_websocket_upgrade(headers: &HeaderMap) -> (asks: bool)
    ensures
        asks == asks_for_websocket(header_entries(*headers)),
{
    proof {
        reveal_strlit("upgrade");
    }
    match first_value_named(headers, "upgrade") {
        Some(value) => says_websocket(value.as_slice()),
        None => false,
    }
}

} // verus!

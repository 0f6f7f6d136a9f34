//! What holds of header fields, told by the characters and bytes they hold.

use crate::forward::Entry;
use crate::headers::{
    asks_for_websocket, connection_lists, field_lists, fields_view, is_blank, is_hop_by_hop_name,
    is_item, is_lower_ascii, is_plain_name, is_visible, is_websocket, item_name, lemma_values_of,
    list_has, text_of, trimmed, values_list, values_of, values_view, without_leading_blanks,
    without_trailing_blanks, HeaderField,
};
use crate::text::{ascii_lower, ascii_lower_char};
use vstd::prelude::*;

verus! {

/// The values with a name are those of the fields with that name, in the order of
/// the fields: a field more adds its value at the end if it has the name, and
/// changes nothing otherwise.
pub proof fn law_values_follow_the_fields(entries: Seq<Entry>, entry: Entry, name: Seq<char>)
    ensures
        values_of(Seq::<Entry>::empty(), name) == Seq::<Seq<u8>>::empty(),
        entry.0 == name ==> values_of(entries.push(entry), name) == values_of(entries, name).push(
            entry.1,
        ),
        entry.0 != name ==> values_of(entries.push(entry), name) == values_of(entries, name),
{
    assert(entries.push(entry).drop_last() =~= entries);
}

/// A list of fields shows each field's name and value, in the same order.
pub proof fn law_fields_show_names_and_values(fields: Seq<HeaderField>, values: Seq<Vec<u8>>)
    ensures
        fields_view(fields).len() == fields.len(),
        forall|i: int|
            0 <= i < fields.len() ==> #[trigger] fields_view(fields)[i] == (
                fields[i].name@,
                fields[i].value@,
            ),
        values_view(values).len() == values.len(),
        forall|i: int|
            0 <= i < values.len() ==> #[trigger] values_view(values)[i] == values[i]@,
{
}

/// A value is visible exactly if each of its bytes is a tab or stands from the
/// space to the tilde, and its text has a character for each byte.
pub proof fn law_visible_values(value: Seq<u8>)
    ensures
        is_visible(value) <==> forall|i: int|
            0 <= i < value.len() ==> #[trigger] value[i] as char == '\t' || ' ' <= value[i] as char
                <= '~',
        text_of(value).len() == value.len(),
        forall|i: int| 0 <= i < value.len() ==> #[trigger] text_of(value)[i] == value[i] as char,
{
    if forall|i: int|
        0 <= i < value.len() ==> #[trigger] value[i] as char == '\t' || ' ' <= value[i] as char
            <= '~' {
        assert forall|i: int| 0 <= i < value.len() implies 32 <= #[trigger] value[i] < 127
            || value[i] == 9 by {
            assert(value[i] as char == '\t' || ' ' <= value[i] as char <= '~');
        }
    }
}

/// A name is plain exactly if it has up to 64 characters, at least one, each of
/// them a small letter, a digit or a hyphen.
pub proof fn law_plain_names(name: Seq<char>)
    ensures
        is_plain_name(name) <==> 1 <= name.len() <= 64 && forall|i: int|
            0 <= i < name.len() ==> "abcdefghijklmnopqrstuvwxyz0123456789-"@.contains(
                #[trigger] name[i],
            ),
        is_plain_name(name) ==> is_lower_ascii(name),
{
    reveal_strlit("abcdefghijklmnopqrstuvwxyz0123456789-");
    let all = "abcdefghijklmnopqrstuvwxyz0123456789-"@;
    assert forall|i: int| 0 <= i < name.len() implies ('a' <= #[trigger] name[i] <= 'z' || '0'
        <= name[i] <= '9' || name[i] == '-') == all.contains(name[i]) by {
        let c = name[i];
        if 'a' <= c <= 'z' {
            assert(all[c as int - 'a' as int] == c);
        } else if '0' <= c <= '9' {
            assert(all[26 + (c as int - '0' as int)] == c);
        } else if c == '-' {
            assert(all[36] == c);
        }
    }
}

/// A field stays on its hop by its name exactly if the name is one of nine.
pub proof fn law_nine_names_stay(name: Seq<char>)
    ensures
        is_hop_by_hop_name(name) <==> seq![
            "connection"@,
            "keep-alive"@,
            "proxy-authenticate"@,
            "proxy-authorization"@,
            "te"@,
            "trailers"@,
            "transfer-encoding"@,
            "upgrade"@,
            "proxy-connection"@,
        ].contains(name),
{
    let nine = seq![
        "connection"@,
        "keep-alive"@,
        "proxy-authenticate"@,
        "proxy-authorization"@,
        "te"@,
        "trailers"@,
        "transfer-encoding"@,
        "upgrade"@,
        "proxy-connection"@,
    ];
    assert(nine[0] == "connection"@);
    assert(nine[1] == "keep-alive"@);
    assert(nine[2] == "proxy-authenticate"@);
    assert(nine[3] == "proxy-authorization"@);
    assert(nine[4] == "te"@);
    assert(nine[5] == "trailers"@);
    assert(nine[6] == "transfer-encoding"@);
    assert(nine[7] == "upgrade"@);
    assert(nine[8] == "proxy-connection"@);
}

/// Cutting blanks off the front cuts off all of them and nothing else.
proof fn lemma_leading(s: Seq<char>, p: int)
    requires
        0 <= p <= s.len(),
        forall|j: int| 0 <= j < p ==> is_blank(#[trigger] s[j]),
        p < s.len() ==> !is_blank(s[p]),
    ensures
        without_leading_blanks(s) == s.skip(p),
    decreases s.len(),
{
    if p > 0 {
        assert(is_blank(s[0]));
        let more = s.skip(1);
        assert forall|j: int| 0 <= j < p - 1 implies is_blank(#[trigger] more[j]) by {
            assert(is_blank(s[j + 1]));
        }
        lemma_leading(more, p - 1);
        assert(more.skip(p - 1) =~= s.skip(p));
    } else {
        assert(s.skip(0) =~= s);
    }
}

/// Cutting blanks off the end cuts off all of them and nothing else.
proof fn lemma_trailing(s: Seq<char>, q: int)
    requires
        0 <= q <= s.len(),
        forall|j: int| q <= j < s.len() ==> is_blank(#[trigger] s[j]),
        q > 0 ==> !is_blank(s[q - 1]),
    ensures
        without_trailing_blanks(s) == s.take(q),
    decreases s.len(),
{
    if q < s.len() {
        assert(is_blank(s[s.len() - 1]));
        let fewer = s.drop_last();
        assert forall|j: int| q <= j < fewer.len() implies is_blank(#[trigger] fewer[j]) by {
            assert(is_blank(s[j]));
        }
        lemma_trailing(fewer, q);
        assert(fewer.take(q) =~= s.take(q));
    } else {
        assert(s.take(q) =~= s);
    }
}

/// How many blanks a text begins with.
spec fn leading(s: Seq<char>) -> int
    decreases s.len(),
{
    if s.len() > 0 && is_blank(s[0]) {
        1 + leading(s.skip(1))
    } else {
        0
    }
}

proof fn lemma_leading_counts(s: Seq<char>)
    ensures
        0 <= leading(s) <= s.len(),
        forall|j: int| 0 <= j < leading(s) ==> is_blank(#[trigger] s[j]),
        leading(s) < s.len() ==> !is_blank(s[leading(s)]),
    decreases s.len(),
{
    if s.len() > 0 && is_blank(s[0]) {
        let more = s.skip(1);
        lemma_leading_counts(more);
        assert forall|j: int| 0 <= j < leading(s) implies is_blank(#[trigger] s[j]) by {
            if j > 0 {
                assert(is_blank(more[j - 1]));
            }
        }
    }
}

/// Where a text ends once the blanks behind it are cut off.
spec fn kept(s: Seq<char>) -> int
    decreases s.len(),
{
    if s.len() > 0 && is_blank(s.last()) {
        kept(s.drop_last())
    } else {
        s.len() as int
    }
}

proof fn lemma_kept_counts(s: Seq<char>)
    ensures
        0 <= kept(s) <= s.len(),
        forall|j: int| kept(s) <= j < s.len() ==> is_blank(#[trigger] s[j]),
        kept(s) > 0 ==> !is_blank(s[kept(s) - 1]),
    decreases s.len(),
{
    if s.len() > 0 && is_blank(s.last()) {
        let fewer = s.drop_last();
        lemma_kept_counts(fewer);
        assert forall|j: int| kept(s) <= j < s.len() implies is_blank(#[trigger] s[j]) by {
            if j < s.len() - 1 {
                assert(is_blank(fewer[j]));
            }
        }
    }
}

/// Whether the places from `p` up to `q` of a list hold `name` in any case, as an
/// item of the list from `a` up to `b`: between commas or ends, with nothing but
/// spaces and tabs around it.
pub open spec fn stands_at(
    list: Seq<char>,
    name: Seq<char>,
    a: int,
    p: int,
    q: int,
    b: int,
) -> bool {
    &&& 0 <= a <= p < q <= b <= list.len()
    &&& a == 0 || list[a - 1] == ','
    &&& b == list.len() || list[b] == ','
    &&& forall|j: int| a <= j < b ==> #[trigger] list[j] != ','
    &&& forall|j: int|
        a <= j < p || q <= j < b ==> #[trigger] list[j] == ' ' || list[j] == '\t'
    &&& list[p] != ' ' && list[p] != '\t'
    &&& list[q - 1] != ' ' && list[q - 1] != '\t'
    &&& name.len() == q - p
    &&& forall|k: int|
        0 <= k < name.len() ==> if 'A' <= list[p + k] <= 'Z' {
            #[trigger] name[k] as int == list[p + k] as int + 32
        } else {
            name[k] == list[p + k]
        }
}

/// What trimming leaves of a part of a text whose blanks are known.
proof fn lemma_trimmed_part(list: Seq<char>, a: int, p: int, q: int, b: int)
    requires
        0 <= a <= p < q <= b <= list.len(),
        forall|j: int| a <= j < p || q <= j < b ==> is_blank(#[trigger] list[j]),
        !is_blank(list[p]),
        !is_blank(list[q - 1]),
    ensures
        trimmed(list.subrange(a, b)) == list.subrange(p, q),
{
    let item = list.subrange(a, b);
    assert forall|j: int| 0 <= j < p - a implies is_blank(#[trigger] item[j]) by {
        assert(is_blank(list[a + j]));
    }
    lemma_leading(item, p - a);
    let front = item.skip(p - a);
    assert forall|j: int| q - p <= j < front.len() implies is_blank(#[trigger] front[j]) by {
        assert(is_blank(list[p + j]));
    }
    assert(front[q - p - 1] == list[q - 1]);
    lemma_trailing(front, q - p);
    assert(front.take(q - p) =~= list.subrange(p, q));
}

/// A comma-separated list holds a name exactly if the name stands in it: between
/// commas or the ends of the list, whatever its case, with nothing around it but
/// spaces and tabs. An empty item holds no name.
pub proof fn law_lists_hold_their_items(list: Seq<char>, name: Seq<char>)
    ensures
        list_has(list, name) <==> exists|a: int, p: int, q: int, b: int|
            stands_at(list, name, a, p, q, b),
{
    if list_has(list, name) {
        let (a, b) = choose|a: int, b: int| #[trigger]
            is_item(list, a, b) && item_name(list, a, b) == name;
        let item = list.subrange(a, b);
        lemma_leading_counts(item);
        lemma_leading(item, leading(item));
        let front = item.skip(leading(item));
        lemma_kept_counts(front);
        lemma_trailing(front, kept(front));
        let core = trimmed(item);
        assert(core == front.take(kept(front)));
        assert(core.len() == name.len());
        let p = a + leading(item);
        let q = p + kept(front);
        assert forall|j: int| a <= j < p || q <= j < b implies #[trigger] list[j] == ' ' || list[j]
            == '\t' by {
            if j < p {
                assert(is_blank(item[j - a]));
            } else {
                assert(is_blank(front[j - p]));
            }
        }
        assert(front[0] == item[leading(item)]);
        assert(list[p] == item[p - a]);
        assert(list[q - 1] == front[kept(front) - 1]);
        assert forall|k: int| 0 <= k < name.len() implies if 'A' <= list[p + k] <= 'Z' {
            #[trigger] name[k] as int == list[p + k] as int + 32
        } else {
            name[k] == list[p + k]
        } by {
            assert(core[k] == list[p + k]);
            assert(ascii_lower(core)[k] == ascii_lower_char(core[k]));
        }
        assert(stands_at(list, name, a, p, q, b));
    }
    if exists|a: int, p: int, q: int, b: int| stands_at(list, name, a, p, q, b) {
        let (a, p, q, b) = choose|a: int, p: int, q: int, b: int|
            stands_at(list, name, a, p, q, b);
        assert(is_item(list, a, b));
        lemma_trimmed_part(list, a, p, q, b);
        let core = list.subrange(p, q);
        assert forall|k: int| 0 <= k < name.len() implies #[trigger] ascii_lower(core)[k]
            == name[k] by {
            assert(core[k] == list[p + k]);
            assert(ascii_lower(core)[k] == ascii_lower_char(core[k]));
        }
        assert(ascii_lower(core) =~= name);
        assert(item_name(list, a, b) == name);
    }
}

/// A name is tied to the connection exactly if some field named `connection`,
/// whose value holds nothing but tabs and characters from the space to the tilde,
/// has it as an item of its list.
pub proof fn law_connection_fields_list_names(entries: Seq<Entry>, name: Seq<char>)
    ensures
        connection_lists(entries, name) <==> exists|i: int|
            {
                &&& 0 <= i < entries.len()
                &&& (#[trigger] entries[i]).0 == "connection"@
                &&& forall|j: int|
                    0 <= j < entries[i].1.len() ==> 32 <= #[trigger] entries[i].1[j] <= 126
                        || entries[i].1[j] == 9
                &&& list_has(
                    Seq::new(entries[i].1.len(), |j: int| entries[i].1[j] as char),
                    name,
                )
            },
{
    assert forall|i: int| 0 <= i < entries.len() implies #[trigger] text_of(entries[i].1)
        == Seq::new(entries[i].1.len(), |j: int| entries[i].1[j] as char) by {
        assert(text_of(entries[i].1) =~= Seq::new(
            entries[i].1.len(),
            |j: int| entries[i].1[j] as char,
        ));
    }
    if connection_lists(entries, name) {
        let i = choose|i: int| 0 <= i < entries.len() && field_lists(#[trigger] entries[i], name);
        assert(text_of(entries[i].1) == Seq::new(
            entries[i].1.len(),
            |j: int| entries[i].1[j] as char,
        ));
        assert(entries[i].0 == "connection"@);
    }
    if exists|i: int|
        {
            &&& 0 <= i < entries.len()
            &&& (#[trigger] entries[i]).0 == "connection"@
            &&& forall|j: int|
                0 <= j < entries[i].1.len() ==> 32 <= #[trigger] entries[i].1[j] <= 126
                    || entries[i].1[j] == 9
            &&& list_has(Seq::new(entries[i].1.len(), |j: int| entries[i].1[j] as char), name)
        } {
        let i = choose|i: int|
            {
                &&& 0 <= i < entries.len()
                &&& (#[trigger] entries[i]).0 == "connection"@
                &&& forall|j: int|
                    0 <= j < entries[i].1.len() ==> 32 <= #[trigger] entries[i].1[j] <= 126
                        || entries[i].1[j] == 9
                &&& list_has(
                    Seq::new(entries[i].1.len(), |j: int| entries[i].1[j] as char),
                    name,
                )
            };
        assert(text_of(entries[i].1) == Seq::new(
            entries[i].1.len(),
            |j: int| entries[i].1[j] as char,
        ));
        assert(field_lists(entries[i], name));
    }
}

/// What the `Connection` fields list depends on their values alone, and on them
/// one by one: no other field can tie a name to the connection or untie it.
pub proof fn law_listing_depends_on_connection_values(
    entries: Seq<Entry>,
    others: Seq<Entry>,
    name: Seq<char>,
)
    requires
        values_of(entries, "connection"@) == values_of(others, "connection"@),
    ensures
        connection_lists(entries, name) == connection_lists(others, name),
        connection_lists(entries, name) == values_list(values_of(entries, "connection"@), name),
{
    lemma_listing_by_values(entries, name);
    lemma_listing_by_values(others, name);
}

proof fn lemma_listing_by_values(entries: Seq<Entry>, name: Seq<char>)
    ensures
        connection_lists(entries, name) == values_list(values_of(entries, "connection"@), name),
{
    let found = values_of(entries, "connection"@);
    if values_list(found, name) {
        let k = choose|k: int|
            0 <= k < found.len() && is_visible(#[trigger] found[k]) && list_has(
                text_of(found[k]),
                name,
            );
        lemma_values_of(entries, "connection"@, found[k]);
        let j = entries.index_of(("connection"@, found[k]));
        assert(field_lists(entries[j], name));
    }
    if connection_lists(entries, name) {
        let j = choose|j: int| 0 <= j < entries.len() && field_lists(#[trigger] entries[j], name);
        lemma_values_of(entries, "connection"@, entries[j].1);
        assert(entries[j] == ("connection"@, entries[j].1));
        let k = found.index_of(entries[j].1);
        assert(is_visible(found[k]));
    }
}

/// A value is `websocket` in any case exactly if it has nine bytes, each of them
/// the letter in its place, small or capital.
pub proof fn law_websocket_in_any_case(value: Seq<u8>)
    ensures
        is_websocket(value) <==> value.len() == 9 && forall|k: int|
            0 <= k < 9 ==> #[trigger] value[k] as char == "websocket"@[k] || value[k] as char
                == "WEBSOCKET"@[k],
{
    reveal_strlit("websocket");
    reveal_strlit("WEBSOCKET");
    let text = text_of(value);
    if is_websocket(value) {
        assert(ascii_lower(text).len() == 9);
        assert forall|k: int| 0 <= k < 9 implies #[trigger] value[k] as char == "websocket"@[k]
            || value[k] as char == "WEBSOCKET"@[k] by {
            assert(ascii_lower(text)[k] == ascii_lower_char(value[k] as char));
        }
    }
    if value.len() == 9 && forall|k: int|
        0 <= k < 9 ==> #[trigger] value[k] as char == "websocket"@[k] || value[k] as char
            == "WEBSOCKET"@[k] {
        assert forall|k: int| 0 <= k < 9 implies #[trigger] ascii_lower(text)[k]
            == "websocket"@[k] by {
            assert(value[k] as char == "websocket"@[k] || value[k] as char == "WEBSOCKET"@[k]);
            assert(ascii_lower(text)[k] == ascii_lower_char(value[k] as char));
        }
        assert(ascii_lower(text) =~= "websocket"@);
        assert forall|k: int| 0 <= k < value.len() implies 32 <= #[trigger] value[k] < 127
            || value[k] == 9 by {
            assert(value[k] as char == "websocket"@[k] || value[k] as char == "WEBSOCKET"@[k]);
        }
    }
}

/// The first of the values with a name is that of the first field with it.
proof fn lemma_first_value(entries: Seq<Entry>, name: Seq<char>, i: int)
    requires
        0 <= i < entries.len(),
        entries[i].0 == name,
        forall|j: int| 0 <= j < i ==> (#[trigger] entries[j]).0 != name,
    ensures
        values_of(entries, name).len() > 0,
        values_of(entries, name)[0] == entries[i].1,
    decreases entries.len(),
{
    let shorter = entries.drop_last();
    if i < entries.len() - 1 {
        assert forall|j: int| 0 <= j < i implies (#[trigger] shorter[j]).0 != name by {
            assert(entries[j].0 != name);
        }
        lemma_first_value(shorter, name, i);
    } else {
        lemma_no_value(shorter, name);
    }
}

/// Without a field of a name there is no value with it.
proof fn lemma_no_value(entries: Seq<Entry>, name: Seq<char>)
    requires
        forall|j: int| 0 <= j < entries.len() ==> (#[trigger] entries[j]).0 != name,
    ensures
        values_of(entries, name).len() == 0,
    decreases entries.len(),
{
    if entries.len() > 0 {
        let shorter = entries.drop_last();
        assert forall|j: int| 0 <= j < shorter.len() implies (#[trigger] shorter[j]).0 != name by {
            assert(entries[j].0 != name);
        }
        lemma_no_value(shorter, name);
        assert(entries[entries.len() - 1].0 != name);
    }
}

/// The first field named `upgrade` decides alone whether fields ask for a
/// WebSocket: they do exactly if its value is `websocket`, letter by letter, small
/// or capital, whatever other fields there are.
pub proof fn law_first_upgrade_field_decides(entries: Seq<Entry>, i: int)
    requires
        0 <= i < entries.len(),
        entries[i].0 == "upgrade"@,
        forall|j: int| 0 <= j < i ==> (#[trigger] entries[j]).0 != "upgrade"@,
    ensures
        asks_for_websocket(entries) <==> entries[i].1.len() == 9 && forall|k: int|
            0 <= k < 9 ==> #[trigger] entries[i].1[k] as char == "websocket"@[k]
                || entries[i].1[k] as char == "WEBSOCKET"@[k],
{
    lemma_first_value(entries, "upgrade"@, i);
    law_websocket_in_any_case(entries[i].1);
}

/// Without a field named `upgrade` no fields ask for a WebSocket.
pub proof fn law_no_upgrade_field_no_websocket(entries: Seq<Entry>)
    requires
        forall|j: int| 0 <= j < entries.len() ==> (#[trigger] entries[j]).0 != "upgrade"@,
    ensures
        !asks_for_websocket(entries),
{
    lemma_no_value(entries, "upgrade"@);
}

/// Two lists of fields with the same values under `upgrade` are decided alike,
/// whatever other fields they hold.
pub proof fn law_same_upgrade_values_same_decision(entries: Seq<Entry>, others: Seq<Entry>)
    requires
        values_of(entries, "upgrade"@) == values_of(others, "upgrade"@),
    ensures
        asks_for_websocket(entries) == asks_for_websocket(others),
{
}

/// A field with another name than `upgrade`, put in anywhere, never changes
/// whether fields ask for a WebSocket.
pub proof fn law_other_fields_do_not_decide(front: Seq<Entry>, entry: Entry, back: Seq<Entry>)
    requires
        entry.0 != "upgrade"@,
    ensures
        asks_for_websocket(front.push(entry) + back) == asks_for_websocket(front + back),
{
    lemma_values_without(front, entry, back, "upgrade"@);
}

proof fn lemma_values_without(
    front: Seq<Entry>,
    entry: Entry,
    back: Seq<Entry>,
    name: Seq<char>,
)
    requires
        entry.0 != name,
    ensures
        values_of(front.push(entry) + back, name) == values_of(front + back, name),
    decreases back.len(),
{
    let long = front.push(entry) + back;
    let short = front + back;
    if back.len() == 0 {
        assert(long.drop_last() =~= short);
        assert(long.last() == entry);
    } else {
        lemma_values_without(front, entry, back.drop_last(), name);
        assert(long.drop_last() =~= front.push(entry) + back.drop_last());
        assert(short.drop_last() =~= front + back.drop_last());
    }
}

} // verus!

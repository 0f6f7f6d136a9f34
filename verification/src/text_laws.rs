//! What the operations on text give, character by character.

use crate::text::{
    ascii_lower, behind_last, behind_prefix, lemma_behind_last, lower, same_text, strip_prefix,
    take_behind_last, to_chars, to_lower, trim_end_char, unicode_lower, without_trailing,
};
use vstd::prelude::*;
use vstd::utf8::is_ascii_chars;

verus! {

/// Lowering changes the letters `A` to `Z`, each by its distance to the small
/// letter, and nothing else.
pub proof fn law_lowering_by_characters(s: Seq<char>)
    ensures
        ascii_lower(s).len() == s.len(),
        forall|i: int|
            0 <= i < s.len() ==> if 'A' <= s[i] <= 'Z' {
                #[trigger] ascii_lower(s)[i] as int == s[i] as int + ('a' as int - 'A' as int)
            } else {
                ascii_lower(s)[i] == s[i]
            },
{
}

/// ASCII text is lowered by characters, all other text as Unicode says.
pub proof fn law_lower_by_kind_of_text(s: Seq<char>)
    ensures
        is_ascii_chars(s) ==> lower(s) == ascii_lower(s),
        !is_ascii_chars(s) ==> lower(s) == unicode_lower(s),
{
}

/// Cutting a prefix off what it was put in front of gives that back.
pub proof fn law_prefix_is_cut_off(prefix: Seq<char>, rest: Seq<char>)
    ensures
        behind_prefix(prefix + rest, prefix) == Some(rest),
{
    let whole = prefix + rest;
    assert(prefix =~= whole.subrange(0, prefix.len() as int));
    assert(whole.skip(prefix.len() as int) =~= rest);
}

/// A text has a prefix exactly if it begins with its characters.
pub proof fn law_prefix_is_found(s: Seq<char>, prefix: Seq<char>)
    ensures
        behind_prefix(s, prefix) is Some <==> prefix.len() <= s.len() && forall|i: int|
            0 <= i < prefix.len() ==> s[i] == prefix[i],
{
    if prefix.len() <= s.len() {
        let front = s.subrange(0, prefix.len() as int);
        if forall|i: int| 0 <= i < prefix.len() ==> s[i] == prefix[i] {
            assert(prefix =~= front);
        }
        if prefix == front {
            assert forall|i: int| 0 <= i < prefix.len() implies s[i] == prefix[i] by {
                assert(front[i] == prefix[i]);
            }
        }
    }
}

/// Trimming takes off exactly the run that was put behind a text.
pub proof fn law_trailing_run_is_cut_off(base: Seq<char>, c: char, n: nat)
    requires
        base.len() == 0 || base.last() != c,
    ensures
        without_trailing(base + Seq::new(n, |i: int| c), c) == base,
    decreases n,
{
    let run = Seq::new(n, |i: int| c);
    if n == 0 {
        assert(base + run =~= base);
    } else {
        let fewer = (n - 1) as nat;
        law_trailing_run_is_cut_off(base, c, fewer);
        assert((base + run).last() == c);
        assert((base + run).drop_last() =~= base + Seq::new(fewer, |i: int| c));
    }
}

/// What was put behind the last `c` of a text, or behind nothing, is what is
/// found behind it.
pub proof fn law_rest_behind_last_is_found(front: Seq<char>, rest: Seq<char>, c: char)
    requires
        front.len() == 0 || front.last() == c,
        !rest.contains(c),
    ensures
        behind_last(front + rest, c) == rest,
{
    let whole = front + rest;
    let n = front.len() as int;
    assert forall|j: int| n <= j < whole.len() implies whole[j] != c by {
        assert(rest[j - n] != c);
    }
    lemma_behind_last(whole, c, n);
    assert(whole.skip(n) =~= rest);
}

/// Texts are the same exactly if they have the same characters, and taking a text
/// apart gives its characters.
pub proof fn law_texts_are_told_by_characters(
    a: &str,
    b: &str,
    same: bool,
    chars: Vec<char>,
    low: String,
)
    requires
        call_ensures(same_text, (a, b), same),
        call_ensures(to_chars, (a,), chars),
        call_ensures(to_lower, (a,), low),
    ensures
        same <==> a@ == b@,
        chars@ == a@,
        is_ascii_chars(a@) ==> low@.len() == a@.len() && forall|i: int|
            0 <= i < a@.len() ==> if 'A' <= a@[i] <= 'Z' {
                #[trigger] low@[i] as int == a@[i] as int + 32
            } else {
                low@[i] == a@[i]
            },
{
}

/// Cutting parts off a text takes off exactly those parts: a prefix that is there,
/// the whole run of a character at the end, or all up to the last place of a
/// character.
pub proof fn law_cutting_parts_off(
    s: &str,
    prefix: &str,
    c: char,
    rest: Option<&str>,
    front: &str,
    back: &str,
)
    requires
        call_ensures(strip_prefix, (s, prefix), rest),
        call_ensures(trim_end_char, (s, c), front),
        call_ensures(take_behind_last, (s, c), back),
    ensures
        match rest {
            Some(r) => s@ == prefix@ + r@,
            None => !prefix@.is_prefix_of(s@),
        },
        front@.len() == 0 || front@.last() != c,
        front@ == s@.take(front@.len() as int),
        forall|j: int| front@.len() <= j < s@.len() ==> s@[j] == c,
        !back@.contains(c),
        back@.len() <= s@.len() && back@ == s@.skip(s@.len() - back@.len()),
        back@.len() < s@.len() ==> s@[s@.len() - back@.len() - 1] == c,
{
}

} // verus!

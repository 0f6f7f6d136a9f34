//! Small operations on text, stated over sequences of characters.

use vstd::prelude::*;
use vstd::string::StrSliceExecFns;
use vstd::string::StringSliceAdditionalSpecFns;
use vstd::utf8::is_ascii_chars;

verus! {

/// The lower-case form of an ASCII letter; any other character stays as it is.
pub open spec fn ascii_lower_char(c: char) -> char {
    if 'A' <= c <= 'Z' {
        (c as u32 + 32) as char
    } else {
        c
    }
}

/// A text with its ASCII letters in lower case.
pub open spec fn ascii_lower(s: Seq<char>) -> Seq<char> {
    s.map_values(|c: char| ascii_lower_char(c))
}

/// The lower-case form that Unicode gives a text.
pub uninterp spec fn unicode_lower(s: Seq<char>) -> Seq<char>;

/// A text in lower case: letter by letter where it is ASCII, by Unicode's rules
/// otherwise.
pub open spec fn lower(s: Seq<char>) -> Seq<char> {
    if is_ascii_chars(s) {
        ascii_lower(s)
    } else {
        unicode_lower(s)
    }
}

/// Calls `str::to_lowercase`. The result depends on the text alone, and for
/// ASCII text it is the text with the letters `A` to `Z` replaced by `a` to `z`.
/// For other text its value is only named.
#[verifier::external_body]
fn std_to_lowercase(s: &str) -> (out: String)
    ensures
        out@ == unicode_lower(s@),
        is_ascii_chars(s@) ==> out@ == ascii_lower(s@),
{
    s.to_lowercase()
}

/// The lower-case form of a text.
pub fn to_lower(s: &str) -> (out: String)
    ensures
        out@ == lower(s@),
        is_ascii_chars(s@) ==> out@.len() == s@.len() && forall|i: int|
            0 <= i < s@.len() ==> if 'A' <= s@[i] <= 'Z' {
                #[trigger] out@[i] as int == s@[i] as int + 32
            } else {
                out@[i] == s@[i]
            },
{
    std_to_lowercase(s)
}

/// The characters of a text.
pub fn to_chars(s: &str) -> (out: Vec<char>)
    ensures
        out@ == s@,
{
    let mut out: Vec<char> = Vec::new();
    for c in iter: s.chars()
        invariant
            out@ == s@.take(iter.index()),
            iter.seq() == s@,
    {
        out.push(c);
    }
    out
}

/// Whether two texts are the same.
pub fn same_text(a: &str, b: &str) -> (same: bool)
    ensures
        same == (a@ == b@),
{
    let x = a.as_bytes();
    let y = b.as_bytes();
    proof {
        vstd::utf8::encode_utf8_decode_utf8(a@);
        vstd::utf8::encode_utf8_decode_utf8(b@);
    }
    if x.len() != y.len() {
        return false;
    }
    let mut i: usize = 0;
    while i < x.len()
        invariant
            i <= x@.len(),
            x@.len() == y@.len(),
            x@ == a.spec_bytes(),
            y@ == b.spec_bytes(),
            forall|j: int| 0 <= j < i ==> x@[j] == y@[j],
        decreases x@.len() - i,
    {
        if x[i] != y[i] {
            assert(a.spec_bytes()[i as int] != b.spec_bytes()[i as int]);
            return false;
        }
        i = i + 1;
    }
    assert(x@ =~= y@);
    true
}

/// What is left of a text behind a prefix, if it has that prefix.
pub open spec fn behind_prefix(s: Seq<char>, prefix: Seq<char>) -> Option<Seq<char>> {
    if prefix.is_prefix_of(s) {
        Some(s.skip(prefix.len() as int))
    } else {
        None
    }
}

/// Cuts a prefix off a text, if the text has it.
pub fn strip_prefix<'a>(s: &'a str, prefix: &str) -> (rest: Option<&'a str>)
    ensures
        match rest {
            Some(r) => behind_prefix(s@, prefix@) == Some(r@),
            None => behind_prefix(s@, prefix@) is None,
        },
        match rest {
            Some(r) => s@ == prefix@ + r@,
            None => !prefix@.is_prefix_of(s@),
        },
{
    let whole = to_chars(s);
    let head = to_chars(prefix);
    if whole.len() < head.len() {
        return None;
    }
    let mut i: usize = 0;
    while i < head.len()
        invariant
            i <= head@.len() <= whole@.len(),
            whole@ == s@,
            head@ == prefix@,
            forall|j: int| 0 <= j < i ==> whole@[j] == head@[j],
        decreases head@.len() - i,
    {
        if whole[i] != head[i] {
            assert(prefix@[i as int] != s@.subrange(0, prefix@.len() as int)[i as int]);
            return None;
        }
        i = i + 1;
    }
    assert(prefix@ =~= s@.subrange(0, prefix@.len() as int));
    let rest = s.substring_char(head.len(), whole.len());
    assert(rest@ =~= s@.skip(prefix@.len() as int));
    Some(rest)
}

/// A text without the run of `c` at its end.
pub open spec fn without_trailing(s: Seq<char>, c: char) -> Seq<char>
    decreases s.len(),
{
    if s.len() > 0 && s.last() == c {
        without_trailing(s.drop_last(), c)
    } else {
        s
    }
}

/// Cuts the run of `c` at the end off a text.
pub fn trim_end_char(s: &str, c: char) -> (out: &str)
    ensures
        out@ == without_trailing(s@, c),
        out@.len() == 0 || out@.last() != c,
        out@.is_prefix_of(s@),
        forall|j: int| out@.len() <= j < s@.len() ==> s@[j] == c,
{
    let whole = to_chars(s);
    let mut n: usize = whole.len();
    assert(s@.take(n as int) =~= s@);
    while n > 0 && whole[n - 1] == c
        invariant
            n <= whole@.len(),
            whole@ == s@,
            without_trailing(s@, c) == without_trailing(s@.take(n as int), c),
            forall|j: int| n <= j < s@.len() ==> s@[j] == c,
        decreases n,
    {
        assert(s@.take(n as int).drop_last() =~= s@.take(n - 1));
        n = n - 1;
    }
    assert(s@.subrange(0, n as int) =~= s@.take(n as int));
    s.substring_char(0, n)
}

/// The part of a text behind the last `c` in it; the whole text where there is
/// none.
pub open spec fn behind_last(s: Seq<char>, c: char) -> Seq<char>
    decreases s.len(),
{
    if s.len() == 0 || s.last() == c {
        Seq::<char>::empty()
    } else {
        behind_last(s.drop_last(), c).push(s.last())
    }
}

/// The part behind a place is the part behind the last `c` if `c` stands before
/// that place, or the text begins there, and not behind it.
pub proof fn lemma_behind_last(s: Seq<char>, c: char, n: int)
    requires
        0 <= n <= s.len(),
        n > 0 ==> s[n - 1] == c,
        forall|j: int| n <= j < s.len() ==> s[j] != c,
    ensures
        behind_last(s, c) == s.skip(n),
    decreases s.len(),
{
    if n < s.len() {
        assert(s[s.len() - 1] != c);
        lemma_behind_last(s.drop_last(), c, n);
        assert(s.drop_last().skip(n).push(s.last()) =~= s.skip(n));
    } else {
        assert(s.skip(n) =~= Seq::<char>::empty());
    }
}

/// Takes the part of a text behind the last `c` in it.
pub fn take_behind_last(s: &str, c: char) -> (out: &str)
    ensures
        out@ == behind_last(s@, c),
        !out@.contains(c),
        out@.len() <= s@.len(),
        out@ == s@.skip(s@.len() - out@.len()),
        out@.len() < s@.len() ==> s@[s@.len() - out@.len() - 1] == c,
{
    let whole = to_chars(s);
    let len: usize = whole.len();
    let mut n: usize = len;
    while n > 0 && whole[n - 1] != c
        invariant
            n <= len,
            len == whole@.len(),
            whole@ == s@,
            forall|j: int| n <= j < len ==> s@[j] != c,
        decreases n,
    {
        n = n - 1;
    }
    proof {
        lemma_behind_last(s@, c, n as int);
    }
    assert(s@.subrange(n as int, len as int) =~= s@.skip(n as int));
    s.substring_char(n, len)
}

} // verus!

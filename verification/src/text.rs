//! Operations on text as sequences of characters: searching, splitting,
//! replacing a character, trimming, and comparing without regard to case.

use vstd::prelude::*;

verus! {

/// The number of characters of `s` that stand before its first `c`: the index
/// of that `c`, or the length of `s` where `c` does not occur.
pub open spec fn position(s: Seq<char>, c: char) -> int
    decreases s.len(),
{
    if s.len() == 0 || s[0] == c {
        0
    } else {
        1 + position(s.drop_first(), c)
    }
}

/// What stands before the first `c` in `s`: all of `s` where `c` does not occur.
pub open spec fn before(s: Seq<char>, c: char) -> Seq<char> {
    s.subrange(0, position(s, c))
}

/// What stands after the first `c` in `s`. Meant for an `s` that contains `c`.
pub open spec fn after(s: Seq<char>, c: char) -> Seq<char>
    recommends
        s.contains(c),
{
    s.subrange(position(s, c) + 1, s.len() as int)
}

/// The pieces of `s` between the occurrences of `sep`, in order. There is one
/// piece more than there are separators, so the empty text has one empty piece.
pub open spec fn split(s: Seq<char>, sep: char) -> Seq<Seq<char>>
    decreases s.len(),
{
    if s.contains(sep) {
        proof {
            lemma_position(s, sep);
        }
        seq![before(s, sep)] + split(after(s, sep), sep)
    } else {
        seq![s]
    }
}

/// `s` with `with` in place of every `c`.
pub open spec fn char_replaced(s: Seq<char>, c: char, with: Seq<char>) -> Seq<char>
    decreases s.len(),
{
    if s.len() == 0 {
        s
    } else if s.last() == c {
        char_replaced(s.drop_last(), c, with) + with
    } else {
        char_replaced(s.drop_last(), c, with).push(s.last())
    }
}

/// Whether `c` is white space: a tab, a line feed, a vertical tab, a form
/// feed, a carriage return, a space, or one of the spaces beyond ASCII.
pub open spec fn is_space(c: char) -> bool {
    let code = c as u32;
    ||| 0x09 <= code <= 0x0D
    ||| code == 0x20
    ||| code == 0x85
    ||| code == 0xA0
    ||| code == 0x1680
    ||| 0x2000 <= code <= 0x200A
    ||| code == 0x2028
    ||| code == 0x2029
    ||| code == 0x202F
    ||| code == 0x205F
    ||| code == 0x3000
}

/// Whether `s` holds nothing but white space.
pub open spec fn is_blank(s: Seq<char>) -> bool {
    forall|i: int| 0 <= i < s.len() ==> is_space(#[trigger] s[i])
}

/// The number of white-space characters that `s` starts with.
pub open spec fn leading_spaces(s: Seq<char>) -> nat
    decreases s.len(),
{
    if s.len() > 0 && is_space(s[0]) {
        1 + leading_spaces(s.drop_first())
    } else {
        0
    }
}

/// The number of white-space characters that `s` ends with.
pub open spec fn trailing_spaces(s: Seq<char>) -> nat
    decreases s.len(),
{
    if s.len() > 0 && is_space(s.last()) {
        1 + trailing_spaces(s.drop_last())
    } else {
        0
    }
}

/// `s` without the white space that it starts and ends with.
pub open spec fn trimmed(s: Seq<char>) -> Seq<char> {
    if is_blank(s) {
        Seq::empty()
    } else {
        s.subrange(leading_spaces(s) as int, s.len() - trailing_spaces(s))
    }
}

/// `c` in lower case where it is one of the letters `A` to `Z`, else `c`.
pub open spec fn lower(c: char) -> char {
    if 'A' <= c && c <= 'Z' {
        (c as nat + 32) as char
    } else {
        c
    }
}

/// Whether `a` and `b` are the same but for the case of the letters `a` to
/// `z`.
pub open spec fn same_ignoring_case(a: Seq<char>, b: Seq<char>) -> bool {
    a.len() == b.len() && forall|i: int| 0 <= i < a.len() ==> lower(a[i]) == lower(b[i])
}

/// `position` is in range, nothing before it is `c`, and what stands there is `c`.
pub proof fn lemma_position(s: Seq<char>, c: char)
    ensures
        0 <= position(s, c) <= s.len(),
        forall|j: int| 0 <= j < position(s, c) ==> s[j] != c,
        position(s, c) < s.len() ==> s[position(s, c)] == c,
        position(s, c) == s.len() <==> !s.contains(c),
    decreases s.len(),
{
    if s.len() == 0 || s[0] == c {
    } else {
        let t = s.drop_first();
        lemma_position(t, c);
        assert forall|j: int| 0 <= j < position(s, c) implies s[j] != c by {
            if j > 0 {
                assert(s[j] == t[j - 1]);
            }
        }
        if position(s, c) < s.len() {
            assert(s[position(s, c)] == t[position(t, c)]);
        }
        if t.contains(c) {
            let k = choose|k: int| 0 <= k < t.len() && t[k] == c;
            assert(s[k + 1] == c);
        }
        if s.contains(c) {
            let k = choose|k: int| 0 <= k < s.len() && s[k] == c;
            assert(t[k - 1] == c);
        }
    }
}

/// An index with no `c` before it, which is the length of `s` or holds `c`, is
/// the `position`.
pub proof fn lemma_position_is(s: Seq<char>, c: char, i: int)
    requires
        0 <= i <= s.len(),
        forall|j: int| 0 <= j < i ==> s[j] != c,
        i < s.len() ==> s[i] == c,
    ensures
        position(s, c) == i,
{
    lemma_position(s, c);
}

/// The index of the first `c` in `s`, or `None` where `s` holds no `c`.
pub fn find_char(s: &str, c: char) -> (found: Option<usize>)
    ensures
        found is Some <==> s@.contains(c),
        found matches Some(i) ==> i == position(s@, c) && i < s@.len(),
{
    broadcast use vstd::string::axiom_spec_iter;

    let n: usize = s.unicode_len();
    let mut i: usize = 0;
    for ch in it: s.chars()
        invariant
            it.seq() == s@,
            n == s@.len(),
            i == it.index(),
            forall|j: int| 0 <= j < i ==> s@[j] != c,
    {
        if ch == c {
            proof {
                lemma_position_is(s@, c, i as int);
            }
            return Some(i);
        }
        i = i + 1;
    }
    proof {
        lemma_position_is(s@, c, s@.len() as int);
        lemma_position(s@, c);
    }
    None
}

/// Whether `c` occurs in `s`.
pub fn contains_char(s: &str, c: char) -> (found: bool)
    ensures
        found == s@.contains(c),
{
    find_char(s, c).is_some()
}

/// Splits `s` at its first `c` into what stands before and what stands after
/// it; `None` where `s` holds no `c`.
pub fn split_once(s: &str, c: char) -> (parts: Option<(&str, &str)>)
    ensures
        parts is Some <==> s@.contains(c),
        parts matches Some((head, tail)) ==> head@ == before(s@, c) && tail@ == after(s@, c),
{
    match find_char(s, c) {
        Some(i) => {
            let n: usize = s.unicode_len();
            Some((s.substring_char(0, i), s.substring_char(i + 1, n)))
        },
        None => None,
    }
}

/// `s` with `with` in place of every `c`.
pub fn replace_char(s: &str, c: char, with: &str) -> (out: String)
    ensures
        out@ == char_replaced(s@, c, with@),
{
    broadcast use vstd::string::axiom_spec_iter;

    let n: usize = s.unicode_len();
    let mut out = String::new();
    // What stands from `start` up to the character at hand holds no `c` and
    // is not in `out` yet.
    let mut start: usize = 0;
    let mut i: usize = 0;
    for ch in it: s.chars()
        invariant
            it.seq() == s@,
            n == s@.len(),
            i == it.index(),
            start <= i,
            out@ + s@.subrange(start as int, i as int) == char_replaced(
                s@.subrange(0, i as int),
                c,
                with@,
            ),
    {
        proof {
            let upto = s@.subrange(0, i + 1);
            assert(upto.drop_last() == s@.subrange(0, i as int));
            assert(upto.last() == ch);
            assert(s@.subrange(start as int, i + 1) == s@.subrange(start as int, i as int).push(
                ch,
            ));
        }
        if ch == c {
            out.append(s.substring_char(start, i));
            out.append(with);
            start = i + 1;
            assert(s@.subrange(start as int, i + 1) == Seq::<char>::empty());
        }
        i = i + 1;
    }
    out.append(s.substring_char(start, n));
    assert(s@.subrange(0, n as int) == s@);
    out
}

/// Where only white space stands before `k`, and `k` is the end of `s` or
/// holds none, `s` starts with `k` white-space characters.
pub proof fn lemma_leading_spaces(s: Seq<char>, k: int)
    requires
        0 <= k <= s.len(),
        forall|j: int| 0 <= j < k ==> is_space(#[trigger] s[j]),
        k < s.len() ==> !is_space(s[k]),
    ensures
        leading_spaces(s) == k,
    decreases s.len(),
{
    if k > 0 {
        let rest = s.drop_first();
        assert forall|j: int| 0 <= j < k - 1 implies is_space(#[trigger] rest[j]) by {
            assert(rest[j] == s[j + 1]);
        }
        lemma_leading_spaces(rest, k - 1);
    }
}

/// Where only white space stands from `k` on, and `k` is the start of `s` or
/// follows a character that is none, `s` ends with as many white-space
/// characters as stand from `k` on.
pub proof fn lemma_trailing_spaces(s: Seq<char>, k: int)
    requires
        0 <= k <= s.len(),
        forall|j: int| k <= j < s.len() ==> is_space(#[trigger] s[j]),
        0 < k ==> !is_space(s[k - 1]),
    ensures
        trailing_spaces(s) == s.len() - k,
    decreases s.len(),
{
    if k < s.len() {
        let rest = s.drop_last();
        assert forall|j: int| k <= j < rest.len() implies is_space(#[trigger] rest[j]) by {
            assert(rest[j] == s[j]);
        }
        lemma_trailing_spaces(rest, k);
    }
}

/// Whether `c` is white space.
pub fn is_whitespace(c: char) -> (space: bool)
    ensures
        space == is_space(c),
{
    let code: u32 = c as u32;
    (0x09 <= code && code <= 0x0D) || code == 0x20 || code == 0x85 || code == 0xA0 || code
        == 0x1680 || (0x2000 <= code && code <= 0x200A) || code == 0x2028 || code == 0x2029
        || code == 0x202F || code == 0x205F || code == 0x3000
}

/// `s` without the white space that it starts and ends with. A text of
/// white space alone gives the empty text.
pub fn trim(s: &str) -> (inner: &str)
    ensures
        inner@ == trimmed(s@),
        inner@.len() == 0 <==> is_blank(s@),
{
    broadcast use vstd::string::axiom_spec_iter;

    let n: usize = s.unicode_len();
    // The index of the first character that is no white space, and the index
    // behind the last one; both are 0 while none was seen.
    let mut start: usize = 0;
    let mut end: usize = 0;
    let mut i: usize = 0;
    for ch in it: s.chars()
        invariant
            it.seq() == s@,
            n == s@.len(),
            i == it.index(),
            start <= end <= i,
            end == 0 ==> start == 0 && forall|j: int| 0 <= j < i ==> is_space(#[trigger] s@[j]),
            end > 0 ==> start < end && !is_space(s@[start as int]) && !is_space(s@[end - 1]),
            end > 0 ==> forall|j: int| 0 <= j < start ==> is_space(#[trigger] s@[j]),
            end > 0 ==> forall|j: int| end <= j < i ==> is_space(#[trigger] s@[j]),
    {
        if !is_whitespace(ch) {
            if end == 0 {
                start = i;
            }
            end = i + 1;
        }
        i = i + 1;
    }
    proof {
        if end > 0 {
            lemma_leading_spaces(s@, start as int);
            lemma_trailing_spaces(s@, end as int);
            assert(!is_blank(s@));
        }
    }
    s.substring_char(start, end)
}

/// `c` in lower case where it is one of the letters `A` to `Z`, else `c`.
pub fn to_lower(c: char) -> (l: char)
    ensures
        l == lower(c),
{
    if c >= 'A' && c <= 'Z' {
        ((c as u8) + 32) as char
    } else {
        c
    }
}

/// Whether `a` and `b` are the same but for the case of the letters `a` to
/// `z`.
pub fn eq_ignore_case(a: &str, b: &str) -> (same: bool)
    ensures
        same == same_ignoring_case(a@, b@),
{
    let n: usize = a.unicode_len();
    if n != b.unicode_len() {
        return false;
    }
    let mut i: usize = 0;
    while i < n
        invariant
            n == a@.len(),
            n == b@.len(),
            i <= n,
            forall|j: int| 0 <= j < i ==> lower(a@[j]) == lower(b@[j]),
        decreases n - i,
    {
        if to_lower(a.get_char(i)) != to_lower(b.get_char(i)) {
            return false;
        }
        i = i + 1;
    }
    true
}

} // verus!

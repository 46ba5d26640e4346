//! Decimal numerals of any length: the number that one stands for, the
//! numeral of a number, and the numeral of the number that follows.

use vstd::prelude::*;
use vstd::string::StringExecFns;

verus! {

/// Whether `c` is one of the ten digits `0` to `9`.
pub open spec fn is_digit(c: char) -> bool {
    '0' <= c && c <= '9'
}

/// The digit that stands for `d`, for `d` below ten.
pub open spec fn digit_char(d: nat) -> char
    recommends
        d < 10,
{
    ('0' as nat + d) as char
}

/// The number that the digit `c` stands for.
pub open spec fn digit_value(c: char) -> nat
    recommends
        is_digit(c),
{
    (c as nat - '0' as nat) as nat
}

/// Whether `s` is a decimal numeral: one or more of the digits `0` to `9`.
pub open spec fn is_numeral(s: Seq<char>) -> bool {
    s.len() > 0 && forall|i: int| 0 <= i < s.len() ==> is_digit(#[trigger] s[i])
}

/// The number that the decimal numeral `s` stands for. Leading zeros count
/// for nothing.
pub open spec fn numeral_value(s: Seq<char>) -> nat
    decreases s.len(),
{
    if s.len() == 0 {
        0
    } else {
        10 * numeral_value(s.drop_last()) + digit_value(s.last())
    }
}

/// The decimal numeral of `n`, without leading zeros.
pub open spec fn numeral(n: nat) -> Seq<char>
    decreases n,
{
    if n < 10 {
        seq![digit_char(n)]
    } else {
        numeral(n / 10).push(digit_char(n % 10))
    }
}

/// `head`, followed by `count` zeros.
pub open spec fn with_zeros(head: Seq<char>, count: nat) -> Seq<char> {
    head + Seq::new(count, |i: int| '0')
}

/// What adding one makes of the digits `s`, where the nines that `s` ends
/// with start at `p`: the digit before them is raised by one, or a `1` is
/// put in front where there is none, and every one of the nines becomes a
/// zero.
pub open spec fn carried(s: Seq<char>, p: int) -> Seq<char>
    recommends
        0 <= p <= s.len(),
{
    let head = if p == 0 {
        seq!['1']
    } else {
        s.subrange(0, p - 1).push(digit_char(digit_value(s[p - 1]) + 1))
    };
    with_zeros(head, (s.len() - p) as nat)
}

/// The numeral of a number is a numeral, and its value is the number.
pub proof fn lemma_numeral_value_of_numeral(n: nat)
    ensures
        is_numeral(numeral(n)),
        numeral_value(numeral(n)) == n,
    decreases n,
{
    let text = numeral(n);
    assert(is_digit(digit_char(n % 10)) && digit_value(digit_char(n % 10)) == n % 10);
    assert(text.last() == digit_char(n % 10));
    if n < 10 {
        assert(text.drop_last() == Seq::<char>::empty());
        assert(numeral_value(text.drop_last()) == 0);
    } else {
        lemma_numeral_value_of_numeral(n / 10);
        assert(text.drop_last() == numeral(n / 10));
    }
}

/// The one-character text of the digit for `d`.
fn digit_text(d: u8) -> (text: &'static str)
    requires
        d < 10,
    ensures
        text@ == seq![digit_char(d as nat)],
{
    proof {
        reveal_strlit("0");
        reveal_strlit("1");
        reveal_strlit("2");
        reveal_strlit("3");
        reveal_strlit("4");
        reveal_strlit("5");
        reveal_strlit("6");
        reveal_strlit("7");
        reveal_strlit("8");
        reveal_strlit("9");
    }
    let text = match d {
        0 => "0",
        1 => "1",
        2 => "2",
        3 => "3",
        4 => "4",
        5 => "5",
        6 => "6",
        7 => "7",
        8 => "8",
        _ => "9",
    };
    assert(text@ =~= seq![digit_char(d as nat)]);
    text
}

/// Zeros in front of digits count for nothing.
pub proof fn lemma_leading_zeros(s: Seq<char>, z: int)
    requires
        0 <= z <= s.len(),
        forall|j: int| 0 <= j < z ==> s[j] == '0',
    ensures
        numeral_value(s.subrange(z, s.len() as int)) == numeral_value(s),
    decreases s.len(),
{
    let tail = s.subrange(z, s.len() as int);
    if s.len() > 0 {
        let init = s.drop_last();
        if z == s.len() {
            lemma_leading_zeros(init, z - 1);
            assert(init.subrange(z - 1, init.len() as int) == Seq::<char>::empty());
            assert(tail == Seq::<char>::empty());
        } else {
            lemma_leading_zeros(init, z);
            assert(tail.drop_last() == init.subrange(z, init.len() as int));
        }
    }
}

/// `carried` stands for the number that follows: its digits are digits, and
/// its value is one above the value of the digits that it was made from.
pub proof fn lemma_carried(s: Seq<char>, p: int)
    requires
        0 <= p <= s.len(),
        forall|j: int| 0 <= j < s.len() ==> is_digit(#[trigger] s[j]),
        forall|j: int| p <= j < s.len() ==> s[j] == '9',
        p > 0 ==> s[p - 1] != '9',
    ensures
        is_numeral(carried(s, p)),
        numeral_value(carried(s, p)) == numeral_value(s) + 1,
        carried(s, p).len() == if p == 0 {
            s.len() + 1
        } else {
            s.len()
        },
        p == 0 ==> carried(s, p)[0] == '1',
        p == 1 ==> carried(s, p)[0] != '0',
        p > 1 ==> carried(s, p)[0] == s[0],
    decreases s.len() - p,
{
    let out = carried(s, p);
    if p == s.len() {
        if p == 0 {
            assert(out == seq!['1']);
            assert(out.drop_last() == Seq::<char>::empty());
            assert(numeral_value(out.drop_last()) == 0);
        } else {
            let raised = digit_char(digit_value(s[p - 1]) + 1);
            assert(is_digit(s[p - 1]));
            assert(is_digit(raised) && digit_value(raised) == digit_value(s[p - 1]) + 1);
            assert(out == s.subrange(0, p - 1).push(raised));
            assert(out.drop_last() == s.drop_last());
            assert(out.last() == raised);
        }
    } else {
        let init = s.drop_last();
        lemma_carried(init, p);
        assert(out == carried(init, p).push('0'));
        assert(out.drop_last() == carried(init, p));
        assert(s.last() == '9');
        assert(carried(init, p)[0] == out[0]);
        if p > 1 {
            assert(init[0] == s[0]);
        }
    }
}

/// Digits that do not start with a zero stand for a number above zero.
pub proof fn lemma_value_above_zero(s: Seq<char>)
    requires
        is_numeral(s),
        s[0] != '0',
    ensures
        numeral_value(s) > 0,
    decreases s.len(),
{
    assert(is_digit(s[0]));
    if s.len() == 1 {
        assert(s.drop_last() == Seq::<char>::empty());
        assert(numeral_value(s.drop_last()) == 0);
    } else {
        let init = s.drop_last();
        assert(init[0] == s[0]);
        assert forall|i: int| 0 <= i < init.len() implies is_digit(#[trigger] init[i]) by {
            assert(init[i] == s[i]);
        }
        lemma_value_above_zero(init);
    }
}

/// A numeral that does not start with a zero is the numeral of its value.
pub proof fn lemma_numeral_of_value(s: Seq<char>)
    requires
        is_numeral(s),
        s[0] != '0',
    ensures
        numeral(numeral_value(s)) == s,
    decreases s.len(),
{
    let last = s.last();
    let init = s.drop_last();
    assert(is_digit(last));
    assert(digit_char(digit_value(last)) == last);
    if s.len() == 1 {
        assert(init == Seq::<char>::empty());
        assert(numeral_value(init) == 0);
        assert(s == seq![last]);
    } else {
        assert(init[0] == s[0]);
        assert forall|i: int| 0 <= i < init.len() implies is_digit(#[trigger] init[i]) by {
            assert(init[i] == s[i]);
        }
        lemma_value_above_zero(init);
        lemma_numeral_of_value(init);
        let value = numeral_value(s);
        assert(value == 10 * numeral_value(init) + digit_value(last));
        assert(value / 10 == numeral_value(init) && value % 10 == digit_value(last));
        assert(s == init.push(last));
    }
}

/// The numeral of the number that follows the one that `digits` stands for;
/// `None` where `digits` is no numeral. The numeral may be of any length and
/// start with zeros; the outcome starts with none.
pub fn successor(digits: &str) -> (next: Option<String>)
    ensures
        next is Some <==> is_numeral(digits@),
        next matches Some(text) ==> text@ == numeral(numeral_value(digits@) + 1),
{
    broadcast use vstd::string::axiom_spec_iter;

    let n: usize = digits.unicode_len();
    // `zeros` counts the zeros that the digits start with; `leading` says
    // that nothing else was seen yet. The nines that the digits end with
    // start at `nines`, and `low` is the digit before them.
    let mut zeros: usize = 0;
    let mut leading: bool = true;
    let mut nines: usize = 0;
    let mut low: char = '0';
    let mut i: usize = 0;
    for ch in it: digits.chars()
        invariant
            it.seq() == digits@,
            n == digits@.len(),
            i == it.index(),
            forall|j: int| 0 <= j < i ==> is_digit(#[trigger] digits@[j]),
            zeros <= i,
            forall|j: int| 0 <= j < zeros ==> digits@[j] == '0',
            leading ==> zeros == i,
            !leading ==> zeros < i && digits@[zeros as int] != '0',
            zeros <= nines <= i,
            forall|j: int| nines <= j < i ==> digits@[j] == '9',
            nines > 0 ==> digits@[nines - 1] != '9' && low == digits@[nines - 1],
    {
        if !(ch >= '0' && ch <= '9') {
            return None;
        }
        if leading {
            if ch == '0' {
                zeros = i + 1;
            } else {
                leading = false;
            }
        }
        if ch != '9' {
            nines = i + 1;
            low = ch;
        }
        i = i + 1;
    }
    if n == 0 {
        return None;
    }
    let ghost core = digits@.subrange(zeros as int, n as int);
    let ghost p = nines - zeros;
    proof {
        lemma_leading_zeros(digits@, zeros as int);
        lemma_carried(core, p);
        lemma_numeral_of_value(carried(core, p));
    }
    let mut text = String::new();
    if nines > zeros {
        text.append(digits.substring_char(zeros, nines - 1));
        text.append(digit_text((low as u8) - 48 + 1));
        assert(text@ == core.subrange(0, p - 1).push(digit_char(digit_value(core[p - 1]) + 1)));
    } else {
        text.append(digit_text(1));
    }
    let ghost head = text@;
    let mut written: usize = 0;
    while written < n - nines
        invariant
            nines <= n,
            written <= n - nines,
            text@ == with_zeros(head, written as nat),
        decreases n - nines - written,
    {
        proof {
            reveal_strlit("0");
        }
        text.append("0");
        written = written + 1;
        assert(text@ == with_zeros(head, written as nat));
    }
    assert(text@ == carried(core, p));
    Some(text)
}

} // verus!

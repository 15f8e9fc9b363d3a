//! Decimal numbers and `_`-separated tokens as sequences of characters.

use vstd::prelude::*;
use vstd::string::*;

verus! {

/// The character that stands for a digit.
pub open spec fn digit_char(d: nat) -> char {
    if d == 0 {
        '0'
    } else if d == 1 {
        '1'
    } else if d == 2 {
        '2'
    } else if d == 3 {
        '3'
    } else if d == 4 {
        '4'
    } else if d == 5 {
        '5'
    } else if d == 6 {
        '6'
    } else if d == 7 {
        '7'
    } else if d == 8 {
        '8'
    } else {
        '9'
    }
}

/// The digit that a character stands for, if it is one of `0` to `9`.
pub open spec fn digit_value(c: char) -> Option<nat> {
    if c == '0' {
        Some(0)
    } else if c == '1' {
        Some(1)
    } else if c == '2' {
        Some(2)
    } else if c == '3' {
        Some(3)
    } else if c == '4' {
        Some(4)
    } else if c == '5' {
        Some(5)
    } else if c == '6' {
        Some(6)
    } else if c == '7' {
        Some(7)
    } else if c == '8' {
        Some(8)
    } else if c == '9' {
        Some(9)
    } else {
        None
    }
}

/// Every character is a digit.
pub open spec fn all_digits(s: Seq<char>) -> bool {
    forall|i: int| 0 <= i < s.len() ==> (#[trigger] digit_value(s[i])) is Some
}

/// The number that a run of digits writes, the first digit weighing most. A
/// character that is no digit counts as 0.
pub open spec fn digits_value(s: Seq<char>) -> nat
    decreases s.len(),
{
    if s.len() == 0 {
        0
    } else {
        digits_value(s.drop_last()) * 10 + match digit_value(s.last()) {
            Some(d) => d,
            None => 0,
        }
    }
}

/// A number in decimal, without sign and without leading zeros.
pub open spec fn decimal(n: nat) -> Seq<char>
    decreases n,
{
    if n < 10 {
        seq![digit_char(n)]
    } else {
        decimal(n / 10).push(digit_char(n % 10))
    }
}

/// What a text means as a `u64`: an optional `+`, then at least one digit and
/// nothing but digits, writing a number that fits. Leading zeros are allowed.
pub open spec fn parse_u64(s: Seq<char>) -> Option<u64> {
    let digits = if s.len() > 0 && s[0] == '+' {
        s.skip(1)
    } else {
        s
    };
    if digits.len() > 0 && all_digits(digits) && digits_value(digits) <= u64::MAX {
        Some(digits_value(digits) as u64)
    } else {
        None
    }
}

/// A number in decimal is a run of digits that writes the number.
pub proof fn lemma_decimal(n: nat)
    ensures
        decimal(n).len() > 0,
        all_digits(decimal(n)),
        digits_value(decimal(n)) == n,
    decreases n,
{
    if n < 10 {
        assert(decimal(n).drop_last() =~= Seq::empty());
        assert(digits_value(decimal(n).drop_last()) == 0);
    } else {
        lemma_decimal(n / 10);
        assert(decimal(n).drop_last() =~= decimal(n / 10));
    }
}

/// Reading a number back from its decimal form gives the number.
pub proof fn lemma_parse_decimal(n: u64)
    ensures
        parse_u64(decimal(n as nat)) == Some(n),
{
    lemma_decimal(n as nat);
    assert(digit_value(decimal(n as nat)[0]) is Some);
}

/// Digits that follow can only make the number larger.
pub proof fn lemma_digits_value_grows(s: Seq<char>, k: int)
    requires
        0 <= k <= s.len(),
    ensures
        digits_value(s.take(k)) <= digits_value(s),
    decreases s.len() - k,
{
    if k < s.len() {
        lemma_digits_value_grows(s, k + 1);
        assert(s.take(k + 1).drop_last() =~= s.take(k));
    } else {
        assert(s.take(k) =~= s);
    }
}

/// One digit as a string.
fn digit_str(d: u8) -> (r: &'static str)
    requires
        d < 10,
    ensures
        r@ == seq![digit_char(d as nat)],
{
    proof {
        reveal_strlit("0");
        reveal_strlit("1");
        reveal_strlit("2");
        reveal_strlit("3");
        reveal_strlit("4");
        reveal_strlit("5");
        reveal_strlit("6");
        reveal_strlit("7");
        reveal_strlit("8");
        reveal_strlit("9");
    }
    let r = match d {
        0 => "0",
        1 => "1",
        2 => "2",
        3 => "3",
        4 => "4",
        5 => "5",
        6 => "6",
        7 => "7",
        8 => "8",
        _ => "9",
    };
    assert(r@ =~= seq![digit_char(d as nat)]);
    r
}

/// Appends a number in decimal.
pub(crate) fn push_decimal(out: &mut String, n: u64)
    ensures
        final(out)@ == old(out)@ + decimal(n as nat),
{
    // The digits, the last one first.
    let mut digits: Vec<u8> = Vec::new();
    let mut rest: u64 = n;
    while rest >= 10
        invariant
            forall|i: int| 0 <= i < digits@.len() ==> digits@[i] < 10,
            decimal(n as nat) == decimal(rest as nat) + Seq::new(
                digits@.len(),
                |i: int| digit_char(digits@[digits@.len() - 1 - i] as nat),
            ),
        decreases rest,
    {
        let ghost before = digits@;
        digits.push((rest % 10) as u8);
        proof {
            let tail_before = Seq::new(
                before.len(),
                |i: int| digit_char(before[before.len() - 1 - i] as nat),
            );
            let tail = Seq::new(
                digits@.len(),
                |i: int| digit_char(digits@[digits@.len() - 1 - i] as nat),
            );
            assert(tail =~= seq![digit_char((rest % 10) as nat)] + tail_before);
            assert(decimal(rest as nat) + tail_before =~= decimal((rest / 10) as nat) + tail);
        }
        rest = rest / 10;
    }
    out.append(digit_str(rest as u8));
    let mut k: usize = digits.len();
    while k > 0
        invariant
            k <= digits@.len(),
            forall|i: int| 0 <= i < digits@.len() ==> digits@[i] < 10,
            out@ == old(out)@ + decimal(rest as nat) + Seq::new(
                (digits@.len() - k) as nat,
                |i: int| digit_char(digits@[digits@.len() - 1 - i] as nat),
            ),
        decreases k,
    {
        k -= 1;
        let ghost before = out@;
        out.append(digit_str(digits[k]));
        assert(out@ =~= old(out)@ + decimal(rest as nat) + Seq::new(
            (digits@.len() - k) as nat,
            |i: int| digit_char(digits@[digits@.len() - 1 - i] as nat),
        ));
    }
    assert(out@ =~= old(out)@ + decimal(n as nat));
}

/// The digit that a character stands for.
fn digit_of(c: char) -> (r: Option<u8>)
    ensures
        match r {
            Some(d) => digit_value(c) == Some(d as nat),
            None => digit_value(c) is None,
        },
{
    match c {
        '0' => Some(0),
        '1' => Some(1),
        '2' => Some(2),
        '3' => Some(3),
        '4' => Some(4),
        '5' => Some(5),
        '6' => Some(6),
        '7' => Some(7),
        '8' => Some(8),
        '9' => Some(9),
        _ => None,
    }
}

/// Reads the characters from `from` up to `to` as a `u64`.
pub(crate) fn parse_decimal(cs: &Vec<char>, from: usize, to: usize) -> (r: Option<u64>)
    requires
        from <= to <= cs@.len(),
    ensures
        r == parse_u64(cs@.subrange(from as int, to as int)),
{
    let ghost text = cs@.subrange(from as int, to as int);
    let first: usize = if from < to && cs[from] == '+' {
        from + 1
    } else {
        from
    };
    let ghost digits = cs@.subrange(first as int, to as int);
    assert(digits =~= if text.len() > 0 && text[0] == '+' {
        text.skip(1)
    } else {
        text
    });
    if first == to {
        return None;
    }
    let mut value: u64 = 0;
    let mut k: usize = first;
    while k < to
        invariant
            from <= first <= k <= to <= cs@.len(),
            text == cs@.subrange(from as int, to as int),
            digits == cs@.subrange(first as int, to as int),
            digits == if text.len() > 0 && text[0] == '+' {
                text.skip(1)
            } else {
                text
            },
            all_digits(digits.take(k - first)),
            value == digits_value(digits.take(k - first)),
        decreases to - k,
    {
        proof {
            lemma_digits_value_grows(digits, k - first + 1);
            assert(digits.take(k - first + 1).drop_last() =~= digits.take(k - first));
            assert(digits.take(k - first + 1).last() == cs@[k as int]);
            assert(digits[k - first] == cs@[k as int]);
        }
        let d = match digit_of(cs[k]) {
            Some(d) => d,
            None => {
                return None;
            },
        };
        let shifted = match value.checked_mul(10) {
            Some(v) => v,
            None => {
                return None;
            },
        };
        value = match shifted.checked_add(d as u64) {
            Some(v) => v,
            None => {
                return None;
            },
        };
        k += 1;
    }
    assert(digits.take(to - first) =~= digits);
    Some(value)
}

/// The characters of a string, one by one.
pub(crate) fn chars_of(s: &str) -> (r: Vec<char>)
    ensures
        r@ == s@,
{
    let mut out: Vec<char> = Vec::new();
    for c in it: s.chars()
        invariant
            out@ == it.seq().take(it.index() as int),
            it.seq() == s@,
    {
        out.push(c);
    }
    out
}

} // verus!

//! Whole numbers in decimal: how an `i32` is written, and which runs of
//! characters are read as one.
//!
//! A number is written with its digits and, where it is negative, a `-` in
//! front. It is read from an optional sign, `+` or `-`, and at least one
//! digit after it; zeros in front are allowed. Whatever else, or a value that
//! an `i32` cannot hold, is no number.

use vstd::prelude::*;
use vstd::string::*;

verus! {

/// The character of the digit `d`.
pub open spec fn digit_char(d: nat) -> char
    recommends
        d < 10,
{
    (0x30 + d) as char
}

/// What the digit `c` counts, or `None` where `c` is no digit.
pub open spec fn digit_value(c: char) -> Option<nat> {
    if 0x30 <= c as u32 <= 0x39 {
        Some((c as u32 - 0x30) as nat)
    } else {
        None
    }
}

/// The digits of `v`, the first of them no zero unless `v` is 0.
pub open spec fn digits(v: nat) -> Seq<char>
    decreases v,
{
    if v < 10 {
        seq![digit_char(v)]
    } else {
        digits(v / 10).push(digit_char(v % 10))
    }
}

/// How `n` is written.
pub open spec fn decimal(n: int) -> Seq<char> {
    if n < 0 {
        seq!['-'] + digits((-n) as nat)
    } else {
        digits(n as nat)
    }
}

/// What the digits `s` count, or `None` where `s` is empty or holds
/// something that is no digit.
pub open spec fn digits_value(s: Seq<char>) -> Option<nat>
    decreases s.len(),
{
    if s.len() == 0 {
        None
    } else if s.len() == 1 {
        digit_value(s[0])
    } else {
        match (digits_value(s.drop_last()), digit_value(s.last())) {
            (Some(front), Some(unit)) => Some(10 * front + unit),
            _ => None,
        }
    }
}

/// The `i32` that `s` is read as, if it is one.
pub open spec fn parse_i32(s: Seq<char>) -> Option<i32> {
    if s.len() > 0 && s[0] == '-' {
        match digits_value(s.skip(1)) {
            Some(v) => if v <= 0x8000_0000 {
                Some((-v) as i32)
            } else {
                None
            },
            None => None,
        }
    } else {
        let body = if s.len() > 0 && s[0] == '+' {
            s.skip(1)
        } else {
            s
        };
        match digits_value(body) {
            Some(v) => if v <= 0x7fff_ffff {
                Some(v as i32)
            } else {
                None
            },
            None => None,
        }
    }
}

/// Digits that do not count as a number stay so when more characters follow.
pub proof fn lemma_no_value_stays(s: Seq<char>, k: int)
    requires
        0 < k <= s.len(),
        digits_value(s.take(k)) is None,
    ensures
        digits_value(s) is None,
    decreases s.len() - k,
{
    if k < s.len() {
        assert(s.take(k + 1).drop_last() =~= s.take(k));
        lemma_no_value_stays(s, k + 1);
    } else {
        assert(s.take(k) =~= s);
    }
}

/// More digits do not make a number smaller.
pub proof fn lemma_value_grows(s: Seq<char>, k: int)
    requires
        0 < k <= s.len(),
        digits_value(s) is Some,
    ensures
        digits_value(s.take(k)) is Some,
        digits_value(s.take(k))->0 <= digits_value(s)->0,
    decreases s.len() - k,
{
    if k < s.len() {
        if digits_value(s.take(k)) is None {
            lemma_no_value_stays(s, k);
        }
        assert(s.take(k + 1).drop_last() =~= s.take(k));
        if digits_value(s.take(k + 1)) is None {
            lemma_no_value_stays(s, k + 1);
        }
        lemma_value_grows(s, k + 1);
    } else {
        assert(s.take(k) =~= s);
    }
}

/// Reads `chars[lo..hi]` as an `i32`.
#[verifier::loop_isolation(false)]
pub fn parse_i32_range(chars: &Vec<char>, lo: usize, hi: usize) -> (number: Option<i32>)
    requires
        lo <= hi <= chars.len(),
    ensures
        number == parse_i32(chars@.subrange(lo as int, hi as int)),
{
    let ghost s = chars@.subrange(lo as int, hi as int);
    if lo == hi {
        return None;
    }
    let negative = chars[lo] == '-';
    let start = if negative || chars[lo] == '+' {
        lo + 1
    } else {
        lo
    };
    let ghost body = chars@.subrange(start as int, hi as int);
    assert(body =~= if start > lo {
        s.skip(1)
    } else {
        s
    });
    if start == hi {
        return None;
    }
    let mut total: u64 = 0;
    let mut at = start;
    while at < hi
        invariant
            start <= at <= hi <= chars.len(),
            start < hi,
            body == chars@.subrange(start as int, hi as int),
            at == start ==> total == 0,
            at > start ==> digits_value(body.take(at - start)) == Some(total as nat),
            total <= 0x8000_0000,
        decreases hi - at,
    {
        let u = chars[at] as u32;
        assert(body.take(at - start + 1).drop_last() =~= body.take(at - start));
        assert(body.take(at - start + 1).last() == chars@[at as int]);
        if u < 0x30 || u > 0x39 {
            proof {
                lemma_no_value_stays(body, at - start + 1);
            }
            return None;
        }
        total = total * 10 + (u - 0x30) as u64;
        if total > 0x8000_0000 {
            proof {
                if digits_value(body) is Some {
                    lemma_value_grows(body, at - start + 1);
                }
            }
            return None;
        }
        at = at + 1;
    }
    assert(body.take(hi - start) =~= body);
    if negative {
        if total == 0x8000_0000 {
            Some(i32::MIN)
        } else {
            Some(-(total as i32))
        }
    } else if total > 0x7fff_ffff {
        None
    } else {
        Some(total as i32)
    }
}

/// The one-character text of the digit `d`.
fn digit_str(d: u32) -> (text: &'static str)
    requires
        d < 10,
    ensures
        text@ == seq![digit_char(d as nat)],
{
    proof {
        reveal_strlit("0");
        reveal_strlit("1");
        reveal_strlit("2");
        reveal_strlit("3");
        reveal_strlit("4");
        reveal_strlit("5");
        reveal_strlit("6");
        reveal_strlit("7");
        reveal_strlit("8");
        reveal_strlit("9");
    }
    let text = if d == 0 {
        "0"
    } else if d == 1 {
        "1"
    } else if d == 2 {
        "2"
    } else if d == 3 {
        "3"
    } else if d == 4 {
        "4"
    } else if d == 5 {
        "5"
    } else if d == 6 {
        "6"
    } else if d == 7 {
        "7"
    } else if d == 8 {
        "8"
    } else {
        "9"
    };
    assert(text@ =~= seq![digit_char(d as nat)]);
    text
}

/// Appends the digits of `v` to `out`.
pub fn push_digits(out: &mut String, v: u64)
    ensures
        final(out)@ == old(out)@ + digits(v as nat),
    decreases v,
{
    if v >= 10 {
        push_digits(out, v / 10);
    }
    out.append(digit_str((v % 10) as u32));
    proof {
        if v >= 10 {
            assert(out@ =~= old(out)@ + digits((v / 10) as nat).push(digit_char((v % 10) as nat)));
        } else {
            assert(out@ =~= old(out)@ + seq![digit_char(v as nat)]);
        }
    }
}

/// Appends `n`, written in decimal, to `out`.
pub fn push_decimal(out: &mut String, n: i32)
    ensures
        final(out)@ == old(out)@ + decimal(n as int),
{
    if n < 0 {
        proof {
            reveal_strlit("-");
        }
        out.append("-");
        let size: u64 = if n == i32::MIN {
            0x8000_0000
        } else {
            (-n) as u64
        };
        push_digits(out, size);
        assert(out@ =~= old(out)@ + (seq!['-'] + digits((-n) as nat)));
    } else {
        push_digits(out, n as u64);
    }
}

/// The characters that writing a number uses: the digits and `-`.
pub open spec fn is_number_char(c: char) -> bool {
    digit_value(c) is Some || c == '-'
}

/// The digits of a number are digits, at least one, and count that number.
pub proof fn lemma_digits(v: nat)
    ensures
        digits(v).len() > 0,
        forall|i: int| 0 <= i < digits(v).len() ==> digit_value(#[trigger] digits(v)[i]) is Some,
        digits_value(digits(v)) == Some(v),
    decreases v,
{
    if v >= 10 {
        lemma_digits(v / 10);
        assert(digits(v).drop_last() =~= digits(v / 10));
        assert(digits(v).last() == digit_char(v % 10));
    }
}

/// A number that is written is made of digits and `-` alone, and is not
/// empty.
pub proof fn lemma_decimal_chars(n: int)
    ensures
        decimal(n).len() > 0,
        forall|i: int| 0 <= i < decimal(n).len() ==> is_number_char(#[trigger] decimal(n)[i]),
{
    if n < 0 {
        lemma_digits((-n) as nat);
    } else {
        lemma_digits(n as nat);
    }
}

/// What is written is read back as the same number.
pub proof fn lemma_parse_decimal(n: i32)
    ensures
        parse_i32(decimal(n as int)) == Some(n),
{
    if n < 0 {
        lemma_digits((-n) as nat);
        assert(decimal(n as int).skip(1) =~= digits((-n) as nat));
    } else {
        lemma_digits(n as nat);
        assert(digit_value(digits(n as nat)[0]) is Some);
    }
}

} // verus!

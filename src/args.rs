//! The command-line values: the directory to scan and the depth argument, a
//! decimal number or the default when the text is not one.
use vstd::prelude::*;

verus! {

/// Depth used when none is given or the given text is not a number.
pub const DEFAULT_DEPTH: usize = 3;

pub open spec fn is_digit(c: char) -> bool {
    '0' <= c && c <= '9'
}

pub open spec fn digit_value(c: char) -> nat {
    (c as u32 - '0' as u32) as nat
}

/// The number that a string of decimal digits spells, most significant first.
pub open spec fn decimal_value(s: Seq<char>) -> nat
    decreases s.len(),
{
    if s.len() == 0 {
        0
    } else {
        decimal_value(s.drop_last()) * 10 + digit_value(s.last())
    }
}

pub open spec fn all_digits(s: Seq<char>) -> bool {
    forall|i: int| 0 <= i < s.len() ==> is_digit(#[trigger] s[i])
}

/// The digits of a number written with an optional leading `+`.
pub open spec fn unsigned_digits(s: Seq<char>) -> Seq<char> {
    if s.len() > 0 && s[0] == '+' {
        s.drop_first()
    } else {
        s
    }
}

/// Whether `s` is the decimal text of a value of `usize`: an optional `+`,
/// then one digit or more, of a value that fits.
pub open spec fn is_usize_text(s: Seq<char>) -> bool {
    let d = unsigned_digits(s);
    d.len() > 0 && all_digits(d) && decimal_value(d) <= usize::MAX
}

/// The depth that a depth argument stands for.
pub open spec fn depth_of_text(s: Seq<char>) -> nat {
    if is_usize_text(s) {
        decimal_value(unsigned_digits(s))
    } else {
        DEFAULT_DEPTH as nat
    }
}

/// Each further digit keeps the value at least as large.
proof fn lemma_decimal_value_grows(s: Seq<char>, k: int)
    requires
        0 <= k <= s.len(),
        all_digits(s),
    ensures
        decimal_value(s.take(k)) <= decimal_value(s),
    decreases s.len() - k,
{
    if k < s.len() {
        lemma_decimal_value_grows(s, k + 1);
        assert(s.take(k + 1).drop_last() =~= s.take(k));
        assert(s.take(k + 1).last() == s[k]);
    } else {
        assert(s.take(k) =~= s);
    }
}

/// Reads a depth argument. Text that is not the decimal form of a `usize`
/// (empty, with a sign other than a leading `+`, with another character, or
/// too large) gives the default depth.
pub fn parse_depth(text: &str) -> (r: usize)
    ensures
        r as nat == depth_of_text(text@),
{
    let len = text.unicode_len();
    let mut start: usize = 0;
    if len > 0 && text.get_char(0) == '+' {
        start = 1;
    }
    let ghost digits = unsigned_digits(text@);
    assert(digits =~= text@.subrange(start as int, len as int));
    if start == len {
        return DEFAULT_DEPTH;
    }
    let mut value: usize = 0;
    let mut i: usize = start;
    while i < len
        invariant
            start <= i <= len,
            len == text@.len(),
            digits =~= text@.subrange(start as int, len as int),
            digits == unsigned_digits(text@),
            all_digits(digits.take(i - start)),
            value as nat == decimal_value(digits.take(i - start)),
        decreases len - i,
    {
        let c = text.get_char(i);
        assert(digits[i - start] == c);
        if c < '0' || c > '9' {
            assert(!is_digit(digits[i - start]));
            assert(!is_usize_text(text@));
            return DEFAULT_DEPTH;
        }
        let d = (c as u32 - '0' as u32) as usize;
        let ghost next = digits.take(i + 1 - start);
        assert(next.drop_last() =~= digits.take(i - start));
        assert(next.last() == c);
        if value > (usize::MAX - d) / 10 {
            assert(decimal_value(next) > usize::MAX) by (nonlinear_arith)
                requires
                    decimal_value(next) == value * 10 + d,
                    value > (usize::MAX - d) / 10,
                    d <= 9,
            ;
            proof {
                if all_digits(digits) {
                    lemma_decimal_value_grows(digits, i + 1 - start);
                }
            }
            assert(!is_usize_text(text@));
            return DEFAULT_DEPTH;
        }
        assert(value * 10 + d <= usize::MAX) by (nonlinear_arith)
            requires
                value <= (usize::MAX - d) / 10,
                d <= 9,
        ;
        value = value * 10 + d;
        i = i + 1;
        assert(all_digits(next)) by {
            assert forall|j: int| 0 <= j < next.len() implies is_digit(#[trigger] next[j]) by {
                if j < next.len() - 1 {
                    assert(next[j] == digits.take(i - 1 - start)[j]);
                }
            }
        }
    }
    assert(digits.take(len - start) =~= digits);
    value
}

/// The directory to scan: the one given, else the current directory.
pub fn directory_or_default(given: Option<String>) -> (r: String)
    ensures
        r@ == (match given {
            Some(d) => d@,
            None => "."@,
        }),
{
    match given {
        Some(d) => d,
        None => String::from_str("."),
    }
}

} // verus!

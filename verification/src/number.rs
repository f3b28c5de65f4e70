//! Unsigned decimal numbers in text.

use crate::error::IntErrorKind;
use crate::error::ParseIntError;
use crate::text::Span;
use vstd::prelude::*;

verus! {

/// `c` is one of the ten decimal digits.
pub open spec fn is_digit(c: char) -> bool {
    0x30 <= c as u32 <= 0x39
}

/// The number that a decimal digit stands for.
pub open spec fn digit_value(c: char) -> int {
    c as u32 - 0x30
}

/// Every character of `s` is a decimal digit.
pub open spec fn all_digits(s: Seq<char>) -> bool {
    forall|j: int| 0 <= j < s.len() ==> is_digit(#[trigger] s[j])
}

/// The number that a text of decimal digits stands for.
pub open spec fn decimal_value(s: Seq<char>) -> int
    decreases s.len(),
{
    if s.len() == 0 {
        0
    } else {
        10 * decimal_value(s.drop_last()) + digit_value(s.last())
    }
}

/// A number's text without the plus sign that may stand before its digits.
pub open spec fn unsigned_part(s: Seq<char>) -> Seq<char> {
    if s.len() > 1 && s[0] == '+' {
        s.skip(1)
    } else {
        s
    }
}

/// The first `n` characters of `d` are digits, and the number they stand
/// for fits in 16 bits.
pub open spec fn accepted(d: Seq<char>, n: int) -> bool {
    &&& 0 <= n <= d.len()
    &&& all_digits(d.take(n))
    &&& decimal_value(d.take(n)) <= u16::MAX
}

/// Length of the longest accepted prefix of `d` that has at least `n`
/// characters, for an accepted `n`.
pub open spec fn accepted_len(d: Seq<char>, n: int) -> int
    decreases d.len() - n,
{
    if 0 <= n < d.len() && is_digit(d[n]) && decimal_value(d.take(n + 1)) <= u16::MAX {
        accepted_len(d, n + 1)
    } else {
        n
    }
}

/// What reading `s` as a 16-bit unsigned decimal number gives. The text is
/// one or more digits, with an optional plus sign before them. It is read
/// from the left, and the first character that is no digit, or that makes
/// the number too large, decides the error.
pub open spec fn parse_u16_spec(s: Seq<char>) -> Result<u16, IntErrorKind> {
    if s.len() == 0 {
        Err(IntErrorKind::Empty)
    } else {
        let d = unsigned_part(s);
        let n = accepted_len(d, 0);
        if n == d.len() {
            Ok(decimal_value(d) as u16)
        } else if !is_digit(d[n]) {
            Err(IntErrorKind::InvalidDigit)
        } else {
            Err(IntErrorKind::PosOverflow)
        }
    }
}

/// The value of a text of digits is not negative, and grows with each digit
/// added.
pub proof fn lemma_decimal_value_grows(s: Seq<char>, n: int)
    requires
        all_digits(s),
        0 <= n <= s.len(),
    ensures
        0 <= decimal_value(s.take(n)) <= decimal_value(s),
    decreases s.len(),
{
    if s.len() == 0 {
        assert(s.take(n) =~= s);
    } else if n == s.len() {
        assert(s.take(n) =~= s);
        assert(all_digits(s.drop_last()));
        lemma_decimal_value_grows(s.drop_last(), 0);
        assert(is_digit(s.last()));
    } else {
        assert(all_digits(s.drop_last()));
        assert(s.drop_last().take(n) =~= s.take(n));
        lemma_decimal_value_grows(s.drop_last(), n);
        assert(is_digit(s.last()));
    }
}

/// The longest accepted prefix is accepted, and the character after it is
/// not.
pub proof fn lemma_accepted_len(d: Seq<char>, n: int)
    requires
        accepted(d, n),
    ensures
        n <= accepted_len(d, n) <= d.len(),
        accepted(d, accepted_len(d, n)),
        accepted_len(d, n) < d.len() ==> !accepted(d, accepted_len(d, n) + 1),
    decreases d.len() - n,
{
    if 0 <= n < d.len() && is_digit(d[n]) && decimal_value(d.take(n + 1)) <= u16::MAX {
        assert forall|j: int| 0 <= j < n + 1 implies is_digit(#[trigger] d.take(n + 1)[j]) by {
            if j < n {
                assert(d.take(n)[j] == d[j]);
            }
        }
        lemma_accepted_len(d, n + 1);
    } else if n < d.len() {
        if is_digit(d[n]) {
        } else {
            assert(d.take(n + 1)[n] == d[n]);
        }
    }
}

/// Every prefix of a text of digits whose value fits is accepted, so the
/// longest accepted prefix is the whole text.
proof fn lemma_accepted_len_of_digits(d: Seq<char>, n: int)
    requires
        all_digits(d),
        decimal_value(d) <= u16::MAX,
        0 <= n <= d.len(),
    ensures
        accepted_len(d, n) == d.len(),
    decreases d.len() - n,
{
    if n < d.len() {
        lemma_decimal_value_grows(d, n + 1);
        lemma_accepted_len_of_digits(d, n + 1);
    }
}

/// A text is read as a number exactly if it is not empty, its characters
/// after an optional plus sign are all digits, and their value fits in 16
/// bits. The number is then that value.
pub proof fn lemma_parse_u16_ok(s: Seq<char>)
    ensures
        parse_u16_spec(s) is Ok <==> s.len() > 0 && all_digits(unsigned_part(s)) && decimal_value(
            unsigned_part(s),
        ) <= u16::MAX,
        parse_u16_spec(s) is Ok ==> parse_u16_spec(s)->Ok_0 == decimal_value(unsigned_part(s)),
{
    let d = unsigned_part(s);
    if s.len() > 0 {
        assert(d.take(0) =~= Seq::<char>::empty());
        assert(accepted(d, 0));
        lemma_accepted_len(d, 0);
        let n = accepted_len(d, 0);
        if n == d.len() {
            assert(d.take(n) =~= d);
        } else if all_digits(d) && decimal_value(d) <= u16::MAX {
            lemma_accepted_len_of_digits(d, 0);
        }
        if parse_u16_spec(s) is Ok {
            lemma_decimal_value_grows(d, 0);
        }
    }
}

/// A text that is read as a number holds digits and at most a plus sign:
/// no other character occurs in it.
pub proof fn lemma_parse_u16_chars(s: Seq<char>, i: int)
    requires
        parse_u16_spec(s) is Ok,
        0 <= i < s.len(),
    ensures
        is_digit(s[i]) || s[i] == '+',
{
    lemma_parse_u16_ok(s);
    let d = unsigned_part(s);
    if s.len() > 1 && s[0] == '+' {
        if i > 0 {
            assert(d[i - 1] == s[i]);
        }
    } else {
        assert(d[i] == s[i]);
    }
}

/// Reads the characters of `text` under `span` as a 16-bit unsigned decimal
/// number.
pub fn parse_u16(text: &Vec<char>, span: Span) -> (r: Result<u16, ParseIntError>)
    requires
        span.fits(text@.len()),
    ensures
        match r {
            Ok(v) => parse_u16_spec(span.of(text@)) == Ok::<u16, IntErrorKind>(v),
            Err(e) => parse_u16_spec(span.of(text@)) == Err::<u16, IntErrorKind>(e.kind),
        },
{
    if span.start == span.end {
        return Err(ParseIntError { kind: IntErrorKind::Empty });
    }
    let ghost s = span.of(text@);
    let ghost d = unsigned_part(s);
    let first: usize = if span.end - span.start > 1 && text[span.start] == '+' {
        span.start + 1
    } else {
        span.start
    };
    let mut i: usize = first;
    let mut value: u32 = 0;
    proof {
        assert(d =~= text@.subrange(first as int, span.end as int));
        assert(d.take(0) =~= Seq::<char>::empty());
    }
    while i < span.end
        invariant
            first <= i <= span.end <= text.len(),
            span.start < span.end,
            s == span.of(text@),
            d == unsigned_part(s),
            d == text@.subrange(first as int, span.end as int),
            value == decimal_value(d.take(i - first)),
            value <= u16::MAX,
            accepted_len(d, 0) == accepted_len(d, i - first),
        decreases span.end - i,
    {
        let c = text[i];
        let u: u32 = c as u32;
        proof {
            assert(d[i - first] == c);
            assert(d.take(i - first + 1).drop_last() =~= d.take(i - first));
            assert(d.take(i - first + 1).last() == c);
        }
        if u < 0x30 || u > 0x39 {
            return Err(ParseIntError { kind: IntErrorKind::InvalidDigit });
        }
        let next: u32 = value * 10 + (u - 0x30);
        if next > 0xFFFF {
            return Err(ParseIntError { kind: IntErrorKind::PosOverflow });
        }
        value = next;
        i = i + 1;
    }
    proof {
        assert(d.take(i - first) =~= d);
    }
    Ok(value as u16)
}

} // verus!

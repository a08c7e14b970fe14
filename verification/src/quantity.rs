//! Quantities written as decimal text.
//!
//! A quantity is an optional sign, then digits with at most one decimal point
//! among them and at least one digit in all, then optionally an exponent: the
//! letter `e` in either case, an optional sign and at least one digit.
//! `250`, `12.5`, `.5`, `5.`, `+3` and `2.5e2` are quantities. Nothing else
//! is: no blanks, no digit separators, no words.
//!
//! Only the sign of a quantity is decided here: whether it is greater than
//! zero, as a decimal number, however small. Its size is left to those who
//! reckon with it.

use crate::text::chars_of;
use vstd::prelude::*;

verus! {

/// Whether `c` is one of `0` to `9`.
pub open spec fn is_digit(c: char) -> bool {
    '0' <= c <= '9'
}

/// Whether every character of `s` is a digit.
pub open spec fn all_digits(s: Seq<char>) -> bool {
    forall|i: int| 0 <= i < s.len() ==> is_digit(#[trigger] s[i])
}

/// Whether the text starts with a sign.
pub open spec fn has_sign(s: Seq<char>) -> bool {
    s.len() > 0 && (s[0] == '+' || s[0] == '-')
}

/// Whether the text starts with a minus sign.
pub open spec fn has_minus(s: Seq<char>) -> bool {
    s.len() > 0 && s[0] == '-'
}

/// The text after its sign, if it has one.
pub open spec fn unsigned_part(s: Seq<char>) -> Seq<char> {
    if has_sign(s) {
        s.skip(1)
    } else {
        s
    }
}

/// `n` is the length of the run of digits that `body` starts with.
pub open spec fn is_run_len(body: Seq<char>, n: nat) -> bool {
    &&& n <= body.len()
    &&& all_digits(body.take(n as int))
    &&& n < body.len() ==> !is_digit(body[n as int])
}

/// The length of the run of digits that `body` starts with.
pub open spec fn run_len(body: Seq<char>) -> nat {
    choose|n: nat| is_run_len(body, n)
}

/// The run of digits that `body` starts with.
pub open spec fn leading_digits(body: Seq<char>) -> Seq<char> {
    body.take(run_len(body) as int)
}

/// The digits before the decimal point.
pub open spec fn whole_digits(s: Seq<char>) -> Seq<char> {
    leading_digits(unsigned_part(s))
}

/// Whether a decimal point follows the digits before it.
pub open spec fn has_point(s: Seq<char>) -> bool {
    let body = unsigned_part(s);
    let n = whole_digits(s).len() as int;
    n < body.len() && body[n] == '.'
}

/// The digits after the decimal point; none where there is no point.
pub open spec fn fraction_digits(s: Seq<char>) -> Seq<char> {
    if has_point(s) {
        leading_digits(unsigned_part(s).skip(whole_digits(s).len() as int + 1))
    } else {
        Seq::empty()
    }
}

/// What follows the digits and the point: the exponent, if the text is a
/// quantity and has one.
pub open spec fn after_mantissa(s: Seq<char>) -> Seq<char> {
    let point: int = if has_point(s) {
        1
    } else {
        0
    };
    unsigned_part(s).skip(whole_digits(s).len() + point + fraction_digits(s).len())
}

/// Whether `tail` is an exponent: the letter `e`, an optional sign, and
/// digits, at least one, to the end.
pub open spec fn is_exponent(tail: Seq<char>) -> bool {
    &&& tail.len() > 0
    &&& tail[0] == 'e' || tail[0] == 'E'
    &&& unsigned_part(tail.skip(1)).len() > 0
    &&& all_digits(unsigned_part(tail.skip(1)))
}

/// Whether `s` is written as a decimal number.
pub open spec fn decimal_syntax(s: Seq<char>) -> bool {
    &&& whole_digits(s).len() + fraction_digits(s).len() > 0
    &&& after_mantissa(s).len() == 0 || is_exponent(after_mantissa(s))
}

/// Whether some digit of `digits` is not `0`.
pub open spec fn some_nonzero(digits: Seq<char>) -> bool {
    exists|i: int| 0 <= i < digits.len() && #[trigger] digits[i] != '0'
}

/// Whether `s` is a decimal number greater than zero: well written, without a
/// minus sign, and with a digit other than `0` before its exponent.
pub open spec fn decimal_positive(s: Seq<char>) -> bool {
    &&& decimal_syntax(s)
    &&& !has_minus(s)
    &&& some_nonzero(whole_digits(s)) || some_nonzero(fraction_digits(s))
}

/// A text starts with at most one run of digits.
pub proof fn lemma_run_len_unique(body: Seq<char>, a: nat, b: nat)
    requires
        is_run_len(body, a),
        is_run_len(body, b),
    ensures
        a == b,
{
    if a < b {
        assert(body.take(b as int)[a as int] == body[a as int]);
    } else if b < a {
        assert(body.take(a as int)[b as int] == body[b as int]);
    }
}

/// A length that fits the description is the one that `run_len` names.
pub proof fn lemma_run_len_is(body: Seq<char>, n: nat)
    requires
        is_run_len(body, n),
    ensures
        run_len(body) == n,
        leading_digits(body) == body.take(n as int),
{
    lemma_run_len_unique(body, n, run_len(body));
}

/// Whether `c` is one of `0` to `9`.
fn is_digit_char(c: char) -> (b: bool)
    ensures
        b == is_digit(c),
{
    '0' <= c && c <= '9'
}

/// The end of the run of digits that starts at `from`.
fn scan_digits(chars: &Vec<char>, from: usize) -> (to: usize)
    requires
        from <= chars.len(),
    ensures
        from <= to <= chars.len(),
        is_run_len(chars@.skip(from as int), (to - from) as nat),
        leading_digits(chars@.skip(from as int)) == chars@.subrange(from as int, to as int),
{
    let mut to: usize = from;
    while to < chars.len() && is_digit_char(chars[to])
        invariant
            from <= to <= chars.len(),
            all_digits(chars@.subrange(from as int, to as int)),
        decreases chars.len() - to,
    {
        to += 1;
    }
    proof {
        let rest = chars@.skip(from as int);
        assert(rest.take(to - from) =~= chars@.subrange(from as int, to as int));
        lemma_run_len_is(rest, (to - from) as nat);
    }
    to
}

/// Whether some digit of `chars[from..to]` is not `0`.
fn any_nonzero(chars: &Vec<char>, from: usize, to: usize) -> (found: bool)
    requires
        from <= to <= chars.len(),
    ensures
        found == some_nonzero(chars@.subrange(from as int, to as int)),
{
    let ghost run = chars@.subrange(from as int, to as int);
    let mut i: usize = from;
    while i < to
        invariant
            from <= i <= to <= chars.len(),
            run == chars@.subrange(from as int, to as int),
            forall|k: int| 0 <= k < i - from ==> run[k] == '0',
        decreases to - i,
    {
        if chars[i] != '0' {
            assert(run[i - from] != '0');
            return true;
        }
        i += 1;
    }
    false
}

/// Whether `chars[from..]` is an exponent.
fn exponent_at(chars: &Vec<char>, from: usize) -> (found: bool)
    requires
        from < chars.len(),
    ensures
        found == is_exponent(chars@.skip(from as int)),
{
    let n = chars.len();
    let ghost tail = chars@.skip(from as int);
    if chars[from] != 'e' && chars[from] != 'E' {
        return false;
    }
    let signed = from + 1 < n && (chars[from + 1] == '+' || chars[from + 1] == '-');
    let digits_from: usize = if signed {
        from + 2
    } else {
        from + 1
    };
    proof {
        assert(tail.skip(1) =~= chars@.skip(from + 1));
        assert(unsigned_part(tail.skip(1)) =~= chars@.skip(digits_from as int));
    }
    let digits_to = scan_digits(&chars, digits_from);
    proof {
        let digits = chars@.skip(digits_from as int);
        if digits_to == n {
            assert(digits.take(n - digits_from) =~= digits);
        } else {
            assert(digits[digits_to - digits_from] == chars@[digits_to as int]);
        }
    }
    digits_from < n && digits_to == n
}

/// Decides whether `text` is a quantity greater than zero.
///
/// `false` for a text that is not a quantity, for zero and for a negative
/// number.
pub fn is_positive_quantity(text: &str) -> (positive: bool)
    ensures
        positive == decimal_positive(text@),
{
    let chars = chars_of(text);
    let n = chars.len();
    let signed = n > 0 && (chars[0] == '+' || chars[0] == '-');
    let negative = n > 0 && chars[0] == '-';
    let start: usize = if signed {
        1
    } else {
        0
    };
    let ghost body = unsigned_part(text@);
    assert(body =~= chars@.skip(start as int));
    let whole_end = scan_digits(&chars, start);
    let point = whole_end < n && chars[whole_end] == '.';
    proof {
        assert(whole_digits(text@) == chars@.subrange(start as int, whole_end as int));
        if whole_end < n {
            assert(body[whole_end - start] == chars@[whole_end as int]);
        }
        assert(point == has_point(text@));
    }
    let frac_start: usize = if point {
        whole_end + 1
    } else {
        whole_end
    };
    let frac_end: usize = if point {
        scan_digits(&chars, frac_start)
    } else {
        whole_end
    };
    proof {
        if point {
            assert(body.skip(whole_end - start + 1) =~= chars@.skip(frac_start as int));
        } else {
            assert(chars@.subrange(frac_start as int, frac_end as int) =~= Seq::<char>::empty());
        }
        assert(fraction_digits(text@) == chars@.subrange(frac_start as int, frac_end as int));
        assert(after_mantissa(text@) =~= chars@.skip(frac_end as int));
    }
    if (whole_end - start) + (frac_end - frac_start) == 0 {
        return false;
    }
    if frac_end < n && !exponent_at(&chars, frac_end) {
        return false;
    }
    assert(decimal_syntax(text@));
    if negative {
        return false;
    }
    any_nonzero(&chars, start, whole_end) || any_nonzero(&chars, frac_start, frac_end)
}

} // verus!

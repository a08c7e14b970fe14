//! Width-aware text helpers for menu labels: display width, truncation with an
//! ellipsis, and decimal rendering of integers.

use vstd::prelude::*;

verus! {

/// The marker appended to a name that was cut short.
pub const ELLIPSIS: char = '…';

/// `String::push` appends exactly one character to the end of the string.
pub assume_specification[ String::push ](s: &mut String, ch: char)
    ensures
        final(s)@ == old(s)@.push(ch),
;

/// Columns taken by one character: one for basic Latin, two for anything else.
pub open spec fn char_width(c: char) -> nat {
    if c <= '\u{7f}' {
        1
    } else {
        2
    }
}

/// Columns taken by a text: the sum of the widths of its characters.
pub open spec fn display_width(s: Seq<char>) -> nat
    decreases s.len(),
{
    if s.len() == 0 {
        0
    } else {
        display_width(s.drop_last()) + char_width(s.last())
    }
}

/// `n` blanks.
pub open spec fn spaces(n: nat) -> Seq<char> {
    Seq::new(n, |i: int| ' ')
}

/// `n` is the number of leading characters of `name` that are kept within
/// `max_width` columns: they fit, and one more would not.
pub open spec fn is_kept_len(name: Seq<char>, max_width: nat, n: nat) -> bool {
    &&& n <= name.len()
    &&& display_width(name.take(n as int)) <= max_width
    &&& n < name.len() ==> display_width(name.take(n as int + 1)) > max_width
}

/// The number of leading characters of `name` kept within `max_width` columns.
pub open spec fn kept_len(name: Seq<char>, max_width: nat) -> nat {
    choose|n: nat| is_kept_len(name, max_width, n)
}

/// `name` cut to `max_width` columns: the kept characters, the ellipsis if
/// anything was dropped, then blanks up to `max_width` (the ellipsis is not
/// counted when padding).
pub open spec fn truncated(name: Seq<char>, max_width: nat) -> Seq<char> {
    let n = kept_len(name, max_width);
    let kept = name.take(n as int);
    let marked = if n < name.len() {
        kept.push(ELLIPSIS)
    } else {
        kept
    };
    marked + spaces((max_width - display_width(kept)) as nat)
}

/// The width of a text with one more character at its end.
pub proof fn lemma_width_push(s: Seq<char>, c: char)
    ensures
        display_width(s.push(c)) == display_width(s) + char_width(c),
{
    assert(s.push(c).drop_last() =~= s);
}

/// Widths add up over concatenation.
pub proof fn lemma_width_concat(a: Seq<char>, b: Seq<char>)
    ensures
        display_width(a + b) == display_width(a) + display_width(b),
    decreases b.len(),
{
    if b.len() == 0 {
        assert(a + b =~= a);
    } else {
        lemma_width_concat(a, b.drop_last());
        assert((a + b).drop_last() =~= a + b.drop_last());
    }
}

/// Blanks are one column each.
pub proof fn lemma_width_spaces(n: nat)
    ensures
        display_width(spaces(n)) == n,
    decreases n,
{
    if n > 0 {
        lemma_width_spaces((n - 1) as nat);
        assert(spaces(n).drop_last() =~= spaces((n - 1) as nat));
    }
}

/// A longer prefix is at least as wide.
pub proof fn lemma_width_prefix_monotone(s: Seq<char>, m: int, n: int)
    requires
        0 <= m <= n <= s.len(),
    ensures
        display_width(s.take(m)) <= display_width(s.take(n)),
    decreases n - m,
{
    if m < n {
        lemma_width_prefix_monotone(s, m, n - 1);
        assert(s.take(n).drop_last() =~= s.take(n - 1));
    }
}

/// At most one length is the kept length.
pub proof fn lemma_kept_len_unique(name: Seq<char>, max_width: nat, a: nat, b: nat)
    requires
        is_kept_len(name, max_width, a),
        is_kept_len(name, max_width, b),
    ensures
        a == b,
{
    if a < b {
        lemma_width_prefix_monotone(name, a as int + 1, b as int);
    } else if b < a {
        lemma_width_prefix_monotone(name, b as int + 1, a as int);
    }
}

/// The whole name is kept exactly when it fits.
pub proof fn lemma_kept_all_iff_fits(name: Seq<char>, max_width: nat, n: nat)
    requires
        is_kept_len(name, max_width, n),
    ensures
        n == kept_len(name, max_width),
        n == name.len() <==> display_width(name) <= max_width,
{
    lemma_kept_len_unique(name, max_width, n, kept_len(name, max_width));
    assert(name.take(name.len() as int) =~= name);
    if n < name.len() {
        lemma_width_prefix_monotone(name, n as int + 1, name.len() as int);
    }
}

/// From any prefix that fits, a kept length is reached.
proof fn lemma_kept_len_from(name: Seq<char>, max_width: nat, n: nat)
    requires
        n <= name.len(),
        display_width(name.take(n as int)) <= max_width,
    ensures
        exists|m: nat| is_kept_len(name, max_width, m),
    decreases name.len() - n,
{
    if n < name.len() && display_width(name.take(n as int + 1)) <= max_width {
        lemma_kept_len_from(name, max_width, n + 1);
    } else {
        assert(is_kept_len(name, max_width, n));
    }
}

/// Every name has a kept length.
pub proof fn lemma_kept_len_exists(name: Seq<char>, max_width: nat)
    ensures
        is_kept_len(name, max_width, kept_len(name, max_width)),
{
    assert(name.take(0) =~= Seq::<char>::empty());
    lemma_kept_len_from(name, max_width, 0);
}

/// A name that fits into `max_width` columns comes out exactly `max_width`
/// columns wide, and unchanged but for the blanks behind it.
pub proof fn lemma_width_of_fitting_name(name: Seq<char>, max_width: nat)
    requires
        display_width(name) <= max_width,
    ensures
        truncated(name, max_width) == name + spaces((max_width - display_width(name)) as nat),
        display_width(truncated(name, max_width)) == max_width,
{
    lemma_kept_len_exists(name, max_width);
    lemma_kept_all_iff_fits(name, max_width, kept_len(name, max_width));
    assert(name.take(name.len() as int) =~= name);
    lemma_width_concat(name, spaces((max_width - display_width(name)) as nat));
    lemma_width_spaces((max_width - display_width(name)) as nat);
}

/// A name that does not fit comes out wider than `max_width` by the width of
/// the ellipsis, which is not counted against the limit.
pub proof fn lemma_width_of_cut_name(name: Seq<char>, max_width: nat)
    requires
        display_width(name) > max_width,
    ensures
        display_width(truncated(name, max_width)) == max_width + char_width(ELLIPSIS),
        truncated(name, max_width).contains(ELLIPSIS),
{
    lemma_kept_len_exists(name, max_width);
    let n = kept_len(name, max_width);
    lemma_kept_all_iff_fits(name, max_width, n);
    let kept = name.take(n as int);
    let pad = spaces((max_width - display_width(kept)) as nat);
    lemma_width_push(kept, ELLIPSIS);
    lemma_width_concat(kept.push(ELLIPSIS), pad);
    lemma_width_spaces((max_width - display_width(kept)) as nat);
    assert(truncated(name, max_width)[n as int] == ELLIPSIS);
}

/// The characters of `text`, in order.
pub fn chars_of(text: &str) -> (out: Vec<char>)
    ensures
        out@ == text@,
{
    let mut out: Vec<char> = Vec::new();
    for c in it: text.chars()
        invariant
            it.seq() == text@,
            out@ == text@.take(it.index() as int),
    {
        out.push(c);
    }
    out
}

/// Appends `chars[from..to]` to `out`.
pub(crate) fn push_chars(out: &mut String, chars: &Vec<char>, from: usize, to: usize)
    requires
        from <= to <= chars.len(),
    ensures
        final(out)@ == old(out)@ + chars@.subrange(from as int, to as int),
{
    let mut i: usize = from;
    while i < to
        invariant
            from <= i <= to <= chars.len(),
            out@ == old(out)@ + chars@.subrange(from as int, i as int),
        decreases to - i,
    {
        out.push(chars[i]);
        i += 1;
    }
}

/// Appends `n` blanks to `out`.
fn push_spaces(out: &mut String, n: usize)
    ensures
        final(out)@ == old(out)@ + spaces(n as nat),
{
    let mut i: usize = 0;
    while i < n
        invariant
            i <= n,
            out@ == old(out)@ + spaces(i as nat),
        decreases n - i,
    {
        out.push(' ');
        i += 1;
    }
}

/// Columns taken by `c`.
pub fn width_of(c: char) -> (w: usize)
    ensures
        w == char_width(c),
{
    if c <= '\u{7f}' {
        1
    } else {
        2
    }
}

/// Cuts or pads `name` to `max_width` display columns.
///
/// Characters are kept while they fit. If any had to be dropped, the ellipsis
/// follows the kept part. Blanks then fill the kept part up to `max_width`;
/// the ellipsis is not counted, so a cut name is two columns wider than a
/// name that fits.
pub fn truncate_name(name: &str, max_width: usize) -> (out: String)
    ensures
        out@ == truncated(name@, max_width as nat),
        display_width(name@) <= max_width ==> display_width(out@) == max_width,
        display_width(name@) > max_width ==> display_width(out@) == max_width + char_width(
            ELLIPSIS,
        ),
{
    let chars = chars_of(name);
    let mut width: usize = 0;
    let mut kept: usize = 0;
    while kept < chars.len() && width_of(chars[kept]) <= max_width - width
        invariant
            kept <= chars.len(),
            width <= max_width,
            width == display_width(chars@.take(kept as int)),
        decreases chars.len() - kept,
    {
        proof {
            assert(chars@.take(kept + 1).drop_last() =~= chars@.take(kept as int));
        }
        width += width_of(chars[kept]);
        kept += 1;
    }
    proof {
        if kept < chars.len() {
            assert(chars@.take(kept + 1).drop_last() =~= chars@.take(kept as int));
        }
        assert(is_kept_len(name@, max_width as nat, kept as nat));
        lemma_kept_all_iff_fits(name@, max_width as nat, kept as nat);
    }
    let mut out = String::new();
    push_chars(&mut out, &chars, 0, kept);
    if kept < chars.len() {
        out.push(ELLIPSIS);
    }
    let ghost marked = out@;
    push_spaces(&mut out, max_width - width);
    proof {
        let head = name@.take(kept as int);
        assert(chars@.subrange(0, kept as int) =~= head);
        assert(Seq::<char>::empty() + head =~= head);
        lemma_width_concat(marked, spaces((max_width - width) as nat));
        lemma_width_spaces((max_width - width) as nat);
        lemma_width_push(head, ELLIPSIS);
    }
    out
}

/// The character for one decimal digit.
pub open spec fn digit_char(d: nat) -> char
    recommends
        d < 10,
{
    (48 + d) as char
}

/// The decimal digits of `n`, most significant first, without leading zeros.
pub open spec fn decimal_digits(n: nat) -> Seq<char>
    decreases n,
{
    if n < 10 {
        seq![digit_char(n)]
    } else {
        decimal_digits(n / 10).push(digit_char(n % 10))
    }
}

/// The decimal text of a signed integer: a minus sign for a negative one,
/// then the digits of its magnitude.
pub open spec fn signed_decimal(i: int) -> Seq<char> {
    if i < 0 {
        seq!['-'] + decimal_digits((-i) as nat)
    } else {
        decimal_digits(i as nat)
    }
}

/// `s` moved to the right edge of a field of `width` characters; a longer
/// text is left as it is.
pub open spec fn right_justified(s: Seq<char>, width: nat) -> Seq<char> {
    if s.len() >= width {
        s
    } else {
        spaces((width - s.len()) as nat) + s
    }
}

/// Every number has at least one digit.
pub proof fn lemma_decimal_digits_nonempty(n: nat)
    ensures
        decimal_digits(n).len() >= 1,
        n >= 10 ==> decimal_digits(n).len() >= 2,
    decreases n,
{
    if n >= 10 {
        lemma_decimal_digits_nonempty(n / 10);
    }
}

/// Appends the decimal digits of `n` to `out`.
pub fn push_decimal(out: &mut String, n: u128)
    ensures
        final(out)@ == old(out)@ + decimal_digits(n as nat),
    decreases n,
{
    if n >= 10 {
        push_decimal(out, n / 10);
    }
    let d: u8 = (n % 10) as u8;
    out.push((48u8 + d) as char);
    proof {
        let digits = decimal_digits(n as nat);
        if n >= 10 {
            assert(old(out)@ + decimal_digits((n / 10) as nat).push(digit_char((n % 10) as nat))
                =~= (old(out)@ + decimal_digits((n / 10) as nat)).push(
                digit_char((n % 10) as nat),
            ));
        } else {
            assert(old(out)@ + seq![digit_char(n as nat)] =~= old(out)@.push(
                digit_char(n as nat),
            ));
        }
    }
}

/// Appends the decimal text of `value` to `out`.
pub fn push_signed(out: &mut String, value: i128)
    ensures
        final(out)@ == old(out)@ + signed_decimal(value as int),
{
    if value < 0 {
        out.push('-');
        push_decimal(out, (-(value + 1)) as u128 + 1);
        proof {
            assert(out@ =~= old(out)@ + signed_decimal(value as int));
        }
    } else {
        push_decimal(out, value as u128);
    }
}

/// Appends the decimal text of `value` to `out`, right-justified in a field
/// of two characters.
pub fn push_day_count(out: &mut String, value: i128)
    ensures
        final(out)@ == old(out)@ + right_justified(signed_decimal(value as int), 2),
{
    let ghost text = signed_decimal(value as int);
    proof {
        if value < 0 {
            lemma_decimal_digits_nonempty((-value) as nat);
        } else {
            lemma_decimal_digits_nonempty(value as nat);
        }
    }
    if 0 <= value && value < 10 {
        out.push(' ');
        proof {
            assert(spaces(1) =~= seq![' ']);
            assert(text.len() == 1);
        }
    } else {
        proof {
            assert(text.len() >= 2);
        }
    }
    let ghost padded = out@;
    push_signed(out, value);
    proof {
        assert(out@ =~= padded + text);
        assert(out@ =~= old(out)@ + right_justified(text, 2));
    }
}

} // verus!

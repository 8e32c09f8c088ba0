//! Text that file names, run identifiers and messages are made of.

use vstd::prelude::*;

verus! {

/// The decimal digit for a value below ten.
pub open spec fn decimal_digit(value: nat) -> char {
    (('0' as nat) + value) as char
}

/// A number in decimal, without leading zeros.
pub open spec fn decimal(value: nat) -> Seq<char>
    decreases value,
{
    if value < 10 {
        seq![decimal_digit(value)]
    } else {
        decimal(value / 10).push(decimal_digit(value % 10))
    }
}

/// Two numbers with one decimal text are one number.
pub proof fn decimal_is_injective(a: nat, b: nat)
    requires
        decimal(a) == decimal(b),
    ensures
        a == b,
    decreases a,
{
    let (s, t) = (decimal(a), decimal(b));
    decimal_is_not_empty(a);
    decimal_is_not_empty(b);
    assert(s.last() == decimal_digit(a % 10) && t.last() == decimal_digit(b % 10));
    assert(a % 10 == b % 10);
    if a >= 10 && b >= 10 {
        assert(s.drop_last() =~= decimal(a / 10));
        assert(t.drop_last() =~= decimal(b / 10));
        decimal_is_injective(a / 10, b / 10);
    } else if a >= 10 {
        decimal_is_not_empty(a / 10);
        assert(s.len() == decimal(a / 10).len() + 1);
    } else if b >= 10 {
        decimal_is_not_empty(b / 10);
        assert(t.len() == decimal(b / 10).len() + 1);
    }
}

/// No number has an empty decimal text.
proof fn decimal_is_not_empty(value: nat)
    ensures
        decimal(value).len() > 0,
{
}

/// The value of a decimal digit.
pub open spec fn digit_value(c: char) -> int {
    c as int - '0' as int
}

/// The number that a text of decimal digits writes.
pub open spec fn decimal_value(text: Seq<char>) -> int
    decreases text.len(),
{
    if text.len() == 0 {
        0
    } else {
        10 * decimal_value(text.drop_last()) + digit_value(text.last())
    }
}

/// A number in decimal is read back as that number; it has nothing but digits, at least one, and
/// no zero stands in front of another digit.
pub proof fn decimal_is_read_back(value: nat)
    ensures
        decimal(value).len() > 0,
        decimal_value(decimal(value)) == value,
        forall|i: int| 0 <= i < decimal(value).len() ==> '0' <= #[trigger] decimal(value)[i] <= '9',
        decimal(value).len() > 1 ==> decimal(value)[0] != '0',
    decreases value,
{
    let text = decimal(value);
    reveal_with_fuel(decimal_value, 2);
    if value >= 10 {
        decimal_is_read_back(value / 10);
        assert(text.drop_last() =~= decimal(value / 10));
        assert(text[0] == decimal(value / 10)[0]);
        assert forall|i: int| 0 <= i < text.len() implies '0' <= #[trigger] text[i] <= '9' by {
            if i < text.len() - 1 {
                assert(decimal(value / 10)[i] == text[i]);
            }
        }
        if value / 10 < 10 {
            assert(text[0] == decimal_digit(value / 10));
        }
    } else {
        assert(text.drop_last() =~= Seq::<char>::empty());
    }
}

/// Whether `text` is `head`, a decimal number and `tail`, and the number is `value`.
pub open spec fn carries_number(
    text: Seq<char>,
    head: Seq<char>,
    value: nat,
    tail: Seq<char>,
) -> bool {
    &&& head.is_prefix_of(text)
    &&& tail.is_suffix_of(text)
    &&& text.len() > head.len() + tail.len()
    &&& decimal_value(text.subrange(head.len() as int, text.len() - tail.len())) == value
    &&& forall|i: int|
        head.len() <= i < text.len() - tail.len() ==> '0' <= #[trigger] text[i] <= '9'
}

/// A number between a fixed head and a fixed tail can be read out of the text.
pub proof fn numbered_text_carries_number(head: Seq<char>, value: nat, tail: Seq<char>)
    ensures
        carries_number(head + decimal(value) + tail, head, value, tail),
{
    let text = head + decimal(value) + tail;
    decimal_is_read_back(value);
    assert(text.subrange(0, head.len() as int) =~= head);
    assert(text.subrange(text.len() - tail.len(), text.len() as int) =~= tail);
    assert(text.subrange(head.len() as int, text.len() - tail.len()) =~= decimal(value));
    assert forall|i: int| head.len() <= i < text.len() - tail.len() implies '0'
        <= #[trigger] text[i] <= '9' by {
        assert(text[i] == decimal(value)[i - head.len()]);
    }
}

/// Text that differs only in a number between a fixed head and a fixed tail has one number.
pub proof fn numbered_text_is_injective(head: Seq<char>, a: nat, b: nat, tail: Seq<char>)
    requires
        head + decimal(a) + tail == head + decimal(b) + tail,
    ensures
        a == b,
{
    let s = head + decimal(a) + tail;
    let t = head + decimal(b) + tail;
    assert(s.len() == head.len() + decimal(a).len() + tail.len());
    assert(t.len() == head.len() + decimal(b).len() + tail.len());
    assert(s == t);
    assert(decimal(a) =~= s.subrange(head.len() as int, (head.len() + decimal(a).len()) as int));
    assert(decimal(b) =~= t.subrange(head.len() as int, (head.len() + decimal(b).len()) as int));
    decimal_is_injective(a, b);
}

/// Appends `value` in decimal.
pub fn push_decimal(out: &mut String, value: u64)
    ensures
        final(out)@ == old(out)@ + decimal(value as nat),
    decreases value,
{
    let ghost before = out@;
    if value >= 10 {
        push_decimal(out, value / 10);
    }
    let digit: usize = (value % 10) as usize;
    let digits = "0123456789";
    proof {
        reveal_strlit("0123456789");
        assert(vstd::utf8::is_ascii_chars(digits@));
    }
    out.append(digits.substring_ascii(digit, digit + 1));
    proof {
        assert(digits@[digit as int] == decimal_digit(value as nat % 10));
        assert(out@ =~= before + decimal(value as nat));
    }
}

/// `head`, then `value` in decimal, then `tail`.
pub fn numbered(head: &str, value: u64, tail: &str) -> (text: String)
    ensures
        text@ == head@ + decimal(value as nat) + tail@,
{
    let mut text = String::from_str(head);
    push_decimal(&mut text, value);
    text.append(tail);
    text
}

/// Whether `text` begins with `head`.
pub fn starts_with(text: &str, head: &str) -> (starts: bool)
    ensures
        starts == head@.is_prefix_of(text@),
{
    let (n, k): (usize, usize) = (text.unicode_len(), head.unicode_len());
    if n < k {
        return false;
    }
    let mut i: usize = 0;
    while i < k
        invariant
            i <= k,
            k == head@.len(),
            k <= text@.len(),
            forall|j: int| 0 <= j < i ==> text@[j] == head@[j],
        decreases k - i,
    {
        if text.get_char(i) != head.get_char(i) {
            proof {
                assert(text@.subrange(0, k as int)[i as int] != head@[i as int]);
            }
            return false;
        }
        i = i + 1;
    }
    assert(text@.subrange(0, k as int) =~= head@);
    true
}

/// Whether `text` ends with `tail`.
pub fn ends_with(text: &str, tail: &str) -> (ends: bool)
    ensures
        ends == tail@.is_suffix_of(text@),
{
    let (n, k): (usize, usize) = (text.unicode_len(), tail.unicode_len());
    if n < k {
        return false;
    }
    let mut i: usize = 0;
    while i < k
        invariant
            i <= k,
            k == tail@.len(),
            n == text@.len(),
            k <= n,
            forall|j: int| 0 <= j < i ==> text@[n - k + j] == tail@[j],
        decreases k - i,
    {
        if text.get_char(n - k + i) != tail.get_char(i) {
            proof {
                assert(text@.subrange(n - k, n as int)[i as int] != tail@[i as int]);
            }
            return false;
        }
        i = i + 1;
    }
    assert(text@.subrange(n - k, n as int) =~= tail@);
    true
}

/// The characters with the Unicode property White_Space.
pub open spec fn white_space(c: char) -> bool {
    ||| '\u{9}' <= c <= '\u{d}'
    ||| c == ' '
    ||| c == '\u{85}'
    ||| c == '\u{a0}'
    ||| c == '\u{1680}'
    ||| '\u{2000}' <= c <= '\u{200a}'
    ||| c == '\u{2028}'
    ||| c == '\u{2029}'
    ||| c == '\u{202f}'
    ||| c == '\u{205f}'
    ||| c == '\u{3000}'
}

/// Whether `c` is white space.
fn is_white_space(c: char) -> (white: bool)
    ensures
        white == white_space(c),
{
    ('\u{9}' <= c && c <= '\u{d}') || c == ' ' || c == '\u{85}' || c == '\u{a0}' || c == '\u{1680}'
        || ('\u{2000}' <= c && c <= '\u{200a}') || c == '\u{2028}' || c == '\u{2029}' || c
        == '\u{202f}' || c == '\u{205f}' || c == '\u{3000}'
}

/// `text` without the white space at its beginning.
pub open spec fn trimmed_start(text: Seq<char>) -> Seq<char>
    decreases text.len(),
{
    if text.len() > 0 && white_space(text[0]) {
        trimmed_start(text.drop_first())
    } else {
        text
    }
}

/// `text` without the white space at its end.
pub open spec fn trimmed_end(text: Seq<char>) -> Seq<char>
    decreases text.len(),
{
    if text.len() > 0 && white_space(text.last()) {
        trimmed_end(text.drop_last())
    } else {
        text
    }
}

/// `text` without the white space at its two ends.
pub open spec fn trimmed(text: Seq<char>) -> Seq<char> {
    trimmed_end(trimmed_start(text))
}

/// What is left of a text is a piece of it that neither begins nor ends with white space, and
/// there is nothing but white space on either side of the piece.
pub proof fn trimming_drops_only_white_space(text: Seq<char>) -> (ends: (int, int))
    ensures
        0 <= ends.0 <= ends.1 <= text.len(),
        trimmed(text) == text.subrange(ends.0, ends.1),
        forall|i: int| 0 <= i < ends.0 ==> white_space(#[trigger] text[i]),
        forall|i: int| ends.1 <= i < text.len() ==> white_space(#[trigger] text[i]),
        trimmed(text).len() > 0 ==> !white_space(trimmed(text)[0]) && !white_space(
            trimmed(text).last(),
        ),
{
    let from = trimmed_start_skips(text);
    let rest = text.skip(from);
    let to = trimmed_end_takes(rest);
    assert(trimmed(text) =~= text.subrange(from, from + to));
    assert forall|i: int| from + to <= i < text.len() implies white_space(#[trigger] text[i]) by {
        assert(rest[i - from] == text[i]);
    }
    (from, from + to)
}

/// How many characters are dropped at the beginning.
proof fn trimmed_start_skips(text: Seq<char>) -> (from: int)
    ensures
        0 <= from <= text.len(),
        trimmed_start(text) == text.skip(from),
        forall|i: int| 0 <= i < from ==> white_space(#[trigger] text[i]),
        from < text.len() ==> !white_space(text[from]),
    decreases text.len(),
{
    if text.len() > 0 && white_space(text[0]) {
        let from = trimmed_start_skips(text.drop_first());
        assert(text.drop_first().skip(from) =~= text.skip(from + 1));
        assert forall|i: int| 0 <= i < from + 1 implies white_space(#[trigger] text[i]) by {
            if i > 0 {
                assert(text.drop_first()[i - 1] == text[i]);
            }
        }
        if from < text.drop_first().len() {
            assert(text.drop_first()[from] == text[from + 1]);
        }
        from + 1
    } else {
        assert(text.skip(0) =~= text);
        0
    }
}

/// How many characters are kept when those at the end are dropped.
proof fn trimmed_end_takes(text: Seq<char>) -> (to: int)
    ensures
        0 <= to <= text.len(),
        trimmed_end(text) == text.take(to),
        forall|i: int| to <= i < text.len() ==> white_space(#[trigger] text[i]),
        to > 0 ==> !white_space(text[to - 1]),
    decreases text.len(),
{
    if text.len() > 0 && white_space(text.last()) {
        let to = trimmed_end_takes(text.drop_last());
        assert(text.drop_last().take(to) =~= text.take(to));
        assert forall|i: int| to <= i < text.len() implies white_space(#[trigger] text[i]) by {
            if i < text.len() - 1 {
                assert(text.drop_last()[i] == text[i]);
            }
        }
        if to > 0 {
            assert(text.drop_last()[to - 1] == text[to - 1]);
        }
        to
    } else {
        assert(text.take(text.len() as int) =~= text);
        text.len() as int
    }
}

/// Drops the white space at the two ends of `text`.
pub fn trim(text: &str) -> (rest: &str)
    ensures
        rest@ == trimmed(text@),
{
    let n: usize = text.unicode_len();
    let mut from: usize = 0;
    proof {
        assert(text@.skip(0) =~= text@);
    }
    while from < n && is_white_space(text.get_char(from))
        invariant
            from <= n,
            n == text@.len(),
            trimmed_start(text@.skip(from as int)) == trimmed_start(text@),
        decreases n - from,
    {
        proof {
            assert(text@.skip(from as int).drop_first() =~= text@.skip(from + 1));
        }
        from = from + 1;
    }
    let mut to: usize = n;
    proof {
        assert(text@.subrange(from as int, n as int) =~= text@.skip(from as int));
        assert(trimmed_start(text@) == text@.skip(from as int));
    }
    while from < to && is_white_space(text.get_char(to - 1))
        invariant
            from <= to <= n,
            n == text@.len(),
            trimmed_end(text@.subrange(from as int, to as int)) == trimmed(text@),
        decreases to - from,
    {
        proof {
            assert(text@.subrange(from as int, to as int).drop_last() =~= text@.subrange(
                from as int,
                to - 1,
            ));
        }
        to = to - 1;
    }
    text.substring_char(from, to)
}

/// What was entered on a line, without the white space around it; `None` where that is nothing.
pub fn entered(line: &str) -> (name: Option<String>)
    ensures
        match name {
            Some(n) => n@ == trimmed(line@) && n@.len() > 0,
            None => trimmed(line@).len() == 0,
        },
{
    let name = trim(line);
    if name.unicode_len() == 0 {
        None
    } else {
        Some(String::from_str(name))
    }
}

} // verus!

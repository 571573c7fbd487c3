//! Text helpers: UTF-8 lengths, decimal numbers, brackets and character classes.
use vstd::prelude::*;
use vstd::string::{StrSliceExecFns, StringExecFns};
use vstd::utf8::encode_utf8;

verus! {

/// The decimal notation of `n`, without leading zeros.
pub open spec fn decimal(n: nat) -> Seq<char>
    decreases n,
{
    if n < 10 {
        seq![digit(n)]
    } else {
        decimal(n / 10).push(digit(n % 10))
    }
}

/// The decimal digit `d`, which is less than ten.
pub open spec fn digit(d: nat) -> char {
    (('0' as u32) + d) as char
}

/// Whether `c` is an ASCII decimal digit.
pub open spec fn is_digit(c: char) -> bool {
    '0' <= c <= '9'
}

/// Whether `c` is a control character: U+0000 to U+001F or U+007F to U+009F.
pub open spec fn is_control(c: char) -> bool {
    c <= '\u{1f}' || '\u{7f}' <= c <= '\u{9f}'
}

/// Whether any character of `text` is a control character.
pub open spec fn has_control(text: Seq<char>) -> bool {
    exists|i: int| 0 <= i < text.len() && is_control(#[trigger] text[i])
}

/// Whether `text` starts with `[` and, apart from that character, ends with `]`.
pub open spec fn is_bracketed(text: Seq<char>) -> bool {
    text.len() >= 2 && text[0] == '[' && text.last() == ']'
}

/// `text` without one pair of surrounding brackets, if it has one.
pub open spec fn strip_brackets_spec(text: Seq<char>) -> Seq<char> {
    if is_bracketed(text) {
        text.subrange(1, text.len() - 1)
    } else {
        text
    }
}

/// `text` without any leading `[` and without any trailing `]`.
pub open spec fn trim_brackets_spec(text: Seq<char>) -> Seq<char>
    decreases text.len(),
{
    if text.len() > 0 && text[0] == '[' {
        trim_brackets_spec(text.drop_first())
    } else if text.len() > 0 && text.last() == ']' {
        trim_brackets_spec(text.drop_last())
    } else {
        text
    }
}

/// The UTF-8 encoding of a concatenation is the concatenation of the encodings.
pub proof fn lemma_encode_utf8_concat(a: Seq<char>, b: Seq<char>)
    ensures
        encode_utf8(a + b) == encode_utf8(a) + encode_utf8(b),
    decreases a.len(),
{
    if a.len() == 0 {
        assert(a + b =~= b);
    } else {
        lemma_encode_utf8_concat(a.drop_first(), b);
        assert((a + b).drop_first() =~= a.drop_first() + b);
    }
}

/// Decimal notation consists of digits, and of no more than five of them below 2^16.
pub proof fn lemma_decimal_digits(n: nat)
    ensures
        decimal(n).len() > 0,
        forall|i: int| 0 <= i < decimal(n).len() ==> is_digit(#[trigger] decimal(n)[i]),
        n < 0x10000 ==> decimal(n).len() <= 5,
    decreases n,
{
    reveal_with_fuel(decimal, 6);
    if n >= 10 {
        lemma_decimal_digits(n / 10);
    }
}

/// Different numbers have different decimal notations.
pub proof fn lemma_decimal_injective(m: nat, n: nat)
    requires
        decimal(m) == decimal(n),
    ensures
        m == n,
    decreases m,
{
    lemma_decimal_digits(m / 10);
    lemma_decimal_digits(n / 10);
    if m >= 10 && n >= 10 {
        assert(decimal(m).drop_last() =~= decimal(m / 10));
        assert(decimal(n).drop_last() =~= decimal(n / 10));
        lemma_decimal_injective(m / 10, n / 10);
        assert(decimal(m).last() == digit(m % 10));
        assert(decimal(n).last() == digit(n % 10));
    } else if m < 10 && n < 10 {
        assert(decimal(m)[0] == digit(m));
        assert(decimal(n)[0] == digit(n));
    } else if m >= 10 {
        assert(decimal(m).len() >= 2);
    } else {
        assert(decimal(n).len() >= 2);
    }
}

fn digit_text(d: u16) -> (text: &'static str)
    requires
        d < 10,
    ensures
        text@ == seq![digit(d as nat)],
{
    proof {
        reveal_strlit("0");
        reveal_strlit("1");
        reveal_strlit("2");
        reveal_strlit("3");
        reveal_strlit("4");
        reveal_strlit("5");
        reveal_strlit("6");
        reveal_strlit("7");
        reveal_strlit("8");
        reveal_strlit("9");
    }
    if d == 0 {
        "0"
    } else if d == 1 {
        "1"
    } else if d == 2 {
        "2"
    } else if d == 3 {
        "3"
    } else if d == 4 {
        "4"
    } else if d == 5 {
        "5"
    } else if d == 6 {
        "6"
    } else if d == 7 {
        "7"
    } else if d == 8 {
        "8"
    } else {
        "9"
    }
}

/// Writes `n` in decimal notation.
pub fn decimal_text(n: u16) -> (text: String)
    ensures
        text@ == decimal(n as nat),
    decreases n,
{
    if n < 10 {
        digit_text(n).to_owned()
    } else {
        let mut text = decimal_text(n / 10);
        text.append(digit_text(n % 10));
        text
    }
}

/// Whether `text` holds a control character.
pub fn contains_control(text: &str) -> (found: bool)
    ensures
        found == has_control(text@),
{
    for c in it: text.chars()
        invariant
            forall|i: int| 0 <= i < it.index() ==> !is_control(#[trigger] text@[i]),
            it.seq() == text@,
    {
        if c <= '\u{1f}' || ('\u{7f}' <= c && c <= '\u{9f}') {
            assert(is_control(text@[it.index() as int]));
            return true;
        }
    }
    false
}

/// Whether `text` holds the character `wanted`.
pub fn contains_char(text: &str, wanted: char) -> (found: bool)
    ensures
        found == text@.contains(wanted),
{
    for c in it: text.chars()
        invariant
            forall|i: int| 0 <= i < it.index() ==> #[trigger] text@[i] != wanted,
            it.seq() == text@,
    {
        if c == wanted {
            assert(text@[it.index() as int] == wanted);
            return true;
        }
    }
    false
}

/// Removes one pair of surrounding brackets, if there is one.
pub fn strip_brackets(text: &str) -> (inner: &str)
    ensures
        inner@ == strip_brackets_spec(text@),
{
    let len = text.unicode_len();
    if len >= 2 && text.get_char(0) == '[' && text.get_char(len - 1) == ']' {
        text.substring_char(1, len - 1)
    } else {
        text
    }
}

/// Removes every leading `[` and then every trailing `]`.
pub fn trim_brackets(text: &str) -> (inner: &str)
    ensures
        inner@ == trim_brackets_spec(text@),
{
    let len = text.unicode_len();
    let mut start: usize = 0;
    assert(text@.skip(0) =~= text@);
    while start < len && text.get_char(start) == '['
        invariant
            len == text@.len(),
            start <= len,
            trim_brackets_spec(text@) == trim_brackets_spec(text@.skip(start as int)),
        decreases len - start,
    {
        assert(text@.skip(start as int).drop_first() =~= text@.skip(start + 1));
        start = start + 1;
    }
    let mut end: usize = len;
    assert(text@.subrange(start as int, len as int) =~= text@.skip(start as int));
    while end > start && text.get_char(end - 1) == ']'
        invariant
            len == text@.len(),
            start <= end <= len,
            start < len ==> text@[start as int] != '[',
            trim_brackets_spec(text@) == trim_brackets_spec(
                text@.subrange(start as int, end as int),
            ),
        decreases end,
    {
        let ghost rest = text@.subrange(start as int, end as int);
        assert(rest.drop_last() =~= text@.subrange(start as int, end - 1));
        assert(rest[0] == text@[start as int]);
        end = end - 1;
    }
    assert(text@.subrange(start as int, end as int).len() > 0 ==> text@.subrange(
        start as int,
        end as int,
    )[0] != '[');
    text.substring_char(start, end)
}

/// The number that decimal digits stand for.
pub open spec fn decimal_value(text: Seq<char>) -> int
    decreases text.len(),
{
    if text.len() == 0 {
        0
    } else {
        decimal_value(text.drop_last()) * 10 + (text.last() as int - 48)
    }
}

/// The decimal notation of a number holds ASCII digits alone, reads as that number, and has no
/// leading zero but for zero itself.
pub proof fn decimal_reads_as_the_number(n: nat)
    ensures
        decimal_value(decimal(n)) == n,
        decimal(n).len() > 0,
        forall|i: int| 0 <= i < decimal(n).len() ==> 48 <= #[trigger] decimal(n)[i] as int <= 57,
        n > 0 ==> decimal(n)[0] as int != 48,
        n == 0 ==> decimal(n).len() == 1,
    decreases n,
{
    if n < 10 {
        assert(decimal(n).drop_last() =~= seq![]);
        assert(decimal_value(decimal(n).drop_last()) == 0);
    } else {
        decimal_reads_as_the_number(n / 10);
        assert(decimal(n).drop_last() =~= decimal(n / 10));
    }
}

/// A text holds a control character if and only if one of its parts does, and a single character
/// is one exactly from U+0000 to U+001F and from U+007F to U+009F.
pub proof fn control_characters_are_found_anywhere(a: Seq<char>, b: Seq<char>, c: char)
    ensures
        !has_control(seq![]),
        has_control(seq![c]) <==> c as int <= 0x1f || 0x7f <= c as int <= 0x9f,
        has_control(a + b) <==> has_control(a) || has_control(b),
{
    let single = seq![c];
    assert(single[0] == c);
    let joined = a + b;
    assert forall|i: int| 0 <= i < a.len() implies joined[i] == #[trigger] a[i] by {}
    assert forall|i: int| 0 <= i < b.len() implies joined[a.len() + i] == #[trigger] b[i] by {}
    if has_control(joined) {
        let i = choose|i: int| 0 <= i < joined.len() && is_control(#[trigger] joined[i]);
        if i < a.len() {
            assert(is_control(a[i]));
        } else {
            assert(is_control(b[i - a.len()]));
        }
    }
    if has_control(a) {
        let i = choose|i: int| 0 <= i < a.len() && is_control(#[trigger] a[i]);
        assert(is_control(joined[i]));
    }
    if has_control(b) {
        let i = choose|i: int| 0 <= i < b.len() && is_control(#[trigger] b[i]);
        assert(is_control(joined[a.len() + i]));
    }
}

/// Stripping takes one pair of brackets off and nothing else; trimming takes every leading `[` and
/// every trailing `]` off and nothing else.
pub proof fn brackets_come_off(text: Seq<char>)
    ensures
        strip_brackets_spec(seq!['['] + text + seq![']']) == text,
        text.len() < 2 || text[0] != '[' || text.last() != ']' ==> strip_brackets_spec(text) == text,
        trim_brackets_spec(seq!['['] + text) == trim_brackets_spec(text),
        trim_brackets_spec(text + seq![']']) == trim_brackets_spec(text),
        text.len() == 0 || (text[0] != '[' && text.last() != ']') ==> trim_brackets_spec(text)
            == text,
    decreases text.len(),
{
    let bracketed = seq!['['] + text + seq![']'];
    assert(bracketed.subrange(1, bracketed.len() - 1) =~= text);
    assert((seq!['['] + text).drop_first() =~= text);
    let closed = text + seq![']'];
    assert(closed.drop_last() =~= text);
    if text.len() > 0 && text[0] == '[' {
        assert(closed.drop_first() =~= text.drop_first() + seq![']']);
        brackets_come_off(text.drop_first());
    } else if text.len() > 0 {
        assert(closed[0] == text[0]);
    }
}

} // verus!

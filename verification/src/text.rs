//! Building and taking apart the short texts that the client shows, sends and receives.

use vstd::prelude::*;

verus! {

/// The character that stands for a single decimal digit.
pub open spec fn digit(n: nat) -> char {
    (('0' as u32) + n) as char
}

/// The decimal notation of a number, without leading zeros.
pub open spec fn decimal(n: nat) -> Seq<char>
    decreases n,
{
    if n < 10 {
        seq![digit(n)]
    } else {
        decimal(n / 10).push(digit(n % 10))
    }
}

/// `s` without the `c`s that it ends in.
pub open spec fn without_trailing(s: Seq<char>, c: char) -> Seq<char>
    decreases s.len(),
{
    if s.len() > 0 && s.last() == c {
        without_trailing(s.drop_last(), c)
    } else {
        s
    }
}

/// The characters with the Unicode property `White_Space`.
pub open spec fn is_space(c: char) -> bool {
    let code = c as u32;
    ||| 0x09 <= code <= 0x0d
    ||| code == 0x20
    ||| code == 0x85
    ||| code == 0xa0
    ||| code == 0x1680
    ||| 0x2000 <= code <= 0x200a
    ||| code == 0x2028
    ||| code == 0x2029
    ||| code == 0x202f
    ||| code == 0x205f
    ||| code == 0x3000
}

/// `s` without the white space that it ends in.
pub open spec fn trimmed_end(s: Seq<char>) -> Seq<char>
    decreases s.len(),
{
    if s.len() > 0 && is_space(s.last()) {
        trimmed_end(s.drop_last())
    } else {
        s
    }
}

/// `s` without the white space that it begins with.
pub open spec fn trimmed_start(s: Seq<char>) -> Seq<char>
    decreases s.len(),
{
    if s.len() > 0 && is_space(s[0]) {
        trimmed_start(s.drop_first())
    } else {
        s
    }
}

/// `s` without white space at either end.
pub open spec fn trimmed(s: Seq<char>) -> Seq<char> {
    trimmed_end(trimmed_start(s))
}

/// The number that decimal digits stand for.
pub open spec fn value_of(digits: Seq<char>) -> int
    decreases digits.len(),
{
    if digits.len() == 0 {
        0
    } else {
        10 * value_of(digits.drop_last()) + (digits.last() as u32 - '0' as u32)
    }
}

/// The decimal notation of a number can be read back. It holds nothing but digits, and begins
/// with a zero only if that is all there is.
pub proof fn numbers_read_back(n: nat)
    ensures
        value_of(decimal(n)) == n,
        decimal(n).len() > 0,
        forall|i: int| 0 <= i < decimal(n).len() ==> '0' <= #[trigger] decimal(n)[i] <= '9',
        decimal(n).len() > 1 ==> decimal(n)[0] != '0',
    decreases n,
{
    if n < 10 {
        assert(decimal(n).drop_last() =~= Seq::empty());
        assert(value_of(Seq::<char>::empty()) == 0);
    } else {
        numbers_read_back(n / 10);
        let before = decimal(n / 10);
        assert(decimal(n).drop_last() =~= before);
        assert(decimal(n)[0] == before[0]);
        if before.len() == 1 && before[0] == '0' {
            assert(before.drop_last() =~= Seq::empty());
            assert(value_of(before.drop_last()) == 0);
            assert(value_of(before) == 0);
        }
    }
}

/// Only what a text ends in is cut off, and all of it: what is left with what was cut off is the
/// text, what was cut off is nothing but `c`, and what is left does not end in `c`. A text that
/// does not end in `c` is left as it is.
pub proof fn only_what_trails_is_cut_off(s: Seq<char>, c: char)
    ensures
        without_trailing(s, c).len() <= s.len(),
        s == without_trailing(s, c) + Seq::new(
            (s.len() - without_trailing(s, c).len()) as nat,
            |i: int| c,
        ),
        without_trailing(s, c).len() == 0 || without_trailing(s, c).last() != c,
        s.len() == 0 || s.last() != c ==> without_trailing(s, c) == s,
    decreases s.len(),
{
    let rest = without_trailing(s, c);
    if s.len() > 0 && s.last() == c {
        only_what_trails_is_cut_off(s.drop_last(), c);
        let cut = Seq::new((s.len() - 1 - rest.len()) as nat, |i: int| c);
        assert(s =~= s.drop_last().push(c));
        assert(s.drop_last() =~= rest + cut);
    }
    assert(s =~= rest + Seq::new((s.len() - rest.len()) as nat, |i: int| c));
}

/// White space at either end of a text is cut off, and nothing else is.
pub proof fn padding_is_cut_off(before: Seq<char>, kept: Seq<char>, after: Seq<char>)
    requires
        forall|i: int| 0 <= i < before.len() ==> is_space(#[trigger] before[i]),
        forall|i: int| 0 <= i < after.len() ==> is_space(#[trigger] after[i]),
        kept.len() > 0 ==> !is_space(kept[0]) && !is_space(kept.last()),
    ensures
        trimmed(before + kept + after) == kept,
    decreases before.len() + after.len(),
{
    let all = before + kept + after;
    if before.len() > 0 {
        assert(all[0] == before[0]);
        assert(all.drop_first() =~= before.drop_first() + kept + after);
        padding_is_cut_off(before.drop_first(), kept, after);
    } else if kept.len() == 0 {
        if after.len() > 0 {
            assert(all[0] == after[0]);
            assert(all.drop_first() =~= before + kept + after.drop_first());
            padding_is_cut_off(before, kept, after.drop_first());
        } else {
            assert(all =~= kept);
        }
    } else {
        assert(all[0] == kept[0]);
        assert(trimmed_start(all) == all);
        if after.len() > 0 {
            let shorter = before + kept + after.drop_last();
            assert(all.last() == after.last());
            assert(all.drop_last() =~= shorter);
            assert(shorter[0] == kept[0]);
            padding_is_cut_off(before, kept, after.drop_last());
        } else {
            assert(all =~= kept);
        }
    }
}

/// Every text is white space, then what is left when that is cut off, then white space.
pub proof fn only_padding_is_cut_off(s: Seq<char>) -> (cut: (Seq<char>, Seq<char>))
    ensures
        s == cut.0 + trimmed(s) + cut.1,
        forall|i: int| 0 <= i < cut.0.len() ==> is_space(#[trigger] cut.0[i]),
        forall|i: int| 0 <= i < cut.1.len() ==> is_space(#[trigger] cut.1[i]),
        trimmed(s).len() > 0 ==> !is_space(trimmed(s)[0]) && !is_space(trimmed(s).last()),
    decreases s.len(),
{
    if s.len() == 0 {
        assert(s =~= s + trimmed(s) + s);
        (s, s)
    } else if is_space(s[0]) {
        let (before, after) = only_padding_is_cut_off(s.drop_first());
        assert(trimmed(s) == trimmed(s.drop_first()));
        let more = seq![s[0]] + before;
        assert(s =~= seq![s[0]] + s.drop_first());
        assert(s =~= more + trimmed(s) + after);
        assert forall|i: int| 0 <= i < more.len() implies is_space(#[trigger] more[i]) by {
            if i > 0 {
                assert(more[i] == before[i - 1]);
            }
        }
        (more, after)
    } else if is_space(s.last()) {
        let (before, after) = only_padding_is_cut_off(s.drop_last());
        assert(s.drop_last()[0] == s[0]);
        assert(trimmed(s) == trimmed(s.drop_last()));
        let more = after.push(s.last());
        assert(s =~= s.drop_last().push(s.last()));
        assert(s =~= before + trimmed(s) + more);
        (before, more)
    } else {
        assert(s =~= Seq::empty() + trimmed(s) + Seq::empty());
        (Seq::empty(), Seq::empty())
    }
}

/// What is left when white space is cut off stands in the text, with white space around it.
proof fn what_is_left_lies_inside(s: Seq<char>)
    ensures
        trimmed(s).len() > 0 ==> !is_space(trimmed(s)[0]) && !is_space(trimmed(s).last()),
        exists|start: int, end: int|
            0 <= start <= end <= s.len() && trimmed(s) == #[trigger] s.subrange(start, end) && (
            forall|i: int|
                0 <= i < start || end <= i < s.len() ==> is_space(#[trigger] s[i])),
{
    let (before, after) = only_padding_is_cut_off(s);
    let start = before.len() as int;
    let end = start + trimmed(s).len();
    assert(trimmed(s) =~= s.subrange(start, end));
    assert forall|i: int| 0 <= i < start || end <= i < s.len() implies is_space(
        #[trigger] s[i],
    ) by {
        if i < start {
            assert(s[i] == before[i]);
        } else {
            assert(s[i] == after[i - end]);
        }
    }
}

/// Of the characters that ASCII has, the space, the tabs and what ends a line or a page are white
/// space. What can be seen, as letters, digits and marks, is not.
pub proof fn ascii_space_cannot_be_seen(c: char)
    requires
        c as u32 <= 0x7f,
    ensures
        is_space(c) <==> c == ' ' || c == '\t' || c == '\n' || c == '\r' || c == '\u{b}' || c
            == '\u{c}',
        '!' <= c <= '~' ==> !is_space(c),
{
}

/// Beyond ASCII, white space is what ends lines, and spaces of some width: those from the en quad
/// to the hair space, the two that do not break, and those for mathematics, Ogham and ideographs.
pub proof fn wide_space_has_a_width(c: char)
    requires
        c as u32 > 0x7f,
    ensures
        is_space(c) <==> '\u{2000}' <= c <= '\u{200a}' || c == '\u{85}' || c == '\u{2028}' || c
            == '\u{2029}' || c == '\u{a0}' || c == '\u{202f}' || c == '\u{205f}' || c == '\u{1680}'
            || c == '\u{3000}',
{
}

/// Whether two texts hold the same characters.
pub fn same_text(a: &str, b: &str) -> (same: bool)
    ensures
        same == (a@ == b@),
{
    a.to_owned() == b.to_owned()
}

/// The text of one decimal digit.
fn digit_text(n: u64) -> (text: &'static str)
    requires
        n < 10,
    ensures
        text@ == seq![digit(n as nat)],
{
    proof {
        reveal_strlit("0");
        reveal_strlit("1");
        reveal_strlit("2");
        reveal_strlit("3");
        reveal_strlit("4");
        reveal_strlit("5");
        reveal_strlit("6");
        reveal_strlit("7");
        reveal_strlit("8");
        reveal_strlit("9");
    }
    let text = match n {
        0 => "0",
        1 => "1",
        2 => "2",
        3 => "3",
        4 => "4",
        5 => "5",
        6 => "6",
        7 => "7",
        8 => "8",
        _ => "9",
    };
    assert(text@ =~= seq![digit(n as nat)]);
    text
}

/// Appends the decimal notation of `n`.
pub fn push_decimal(out: &mut String, n: u64)
    ensures
        final(out)@ == old(out)@ + decimal(n as nat),
    decreases n,
{
    if n >= 10 {
        push_decimal(out, n / 10);
    }
    out.append(digit_text(n % 10));
    assert(out@ =~= old(out)@ + decimal(n as nat));
}

/// The characters of a text.
fn chars_of(s: &str) -> (chars: Vec<char>)
    ensures
        chars@ == s@,
{
    let mut chars: Vec<char> = Vec::new();
    for c in it: s.chars()
        invariant
            it.seq() == s@,
            chars@ == s@.take(it.index() as int),
    {
        chars.push(c);
    }
    chars
}

/// `s` without the `c`s that it ends in.
pub fn trim_trailing<'a>(s: &'a str, c: char) -> (rest: &'a str)
    ensures
        rest@ == without_trailing(s@, c),
        rest@.len() <= s@.len(),
        s@ == rest@ + Seq::new((s@.len() - rest@.len()) as nat, |i: int| c),
        rest@.len() == 0 || rest@.last() != c,
        s@.len() == 0 || s@.last() != c ==> rest@ == s@,
{
    proof {
        only_what_trails_is_cut_off(s@, c);
    }
    let chars = chars_of(s);
    let mut end: usize = chars.len();
    assert(s@.take(end as int) =~= s@);
    while end > 0 && chars[end - 1] == c
        invariant
            chars@ == s@,
            end <= chars@.len(),
            without_trailing(s@.take(end as int), c) == without_trailing(s@, c),
        decreases end,
    {
        assert(s@.take(end as int).drop_last() =~= s@.take(end - 1));
        end = end - 1;
    }
    let rest = s.substring_char(0, end);
    assert(rest@ =~= s@.take(end as int));
    rest
}

/// Whether a character is white space.
fn space(c: char) -> (b: bool)
    ensures
        b == is_space(c),
{
    let code: u32 = c as u32;
    (0x09 <= code && code <= 0x0d) || code == 0x20 || code == 0x85 || code == 0xa0 || code == 0x1680
        || (0x2000 <= code && code <= 0x200a) || code == 0x2028 || code == 0x2029 || code == 0x202f
        || code == 0x205f || code == 0x3000
}

/// `s` without white space at either end.
pub fn trim<'a>(s: &'a str) -> (rest: &'a str)
    ensures
        rest@ == trimmed(s@),
        rest@.len() > 0 ==> !is_space(rest@[0]) && !is_space(rest@.last()),
        exists|start: int, end: int|
            0 <= start <= end <= s@.len() && rest@ == #[trigger] s@.subrange(start, end) && (forall|
                i: int,
            |
                0 <= i < start || end <= i < s@.len() ==> is_space(#[trigger] s@[i])),
{
    let chars = chars_of(s);
    let mut start: usize = 0;
    assert(s@.skip(0) =~= s@);
    while start < chars.len() && space(chars[start])
        invariant
            chars@ == s@,
            start <= chars@.len(),
            trimmed_start(s@.skip(start as int)) == trimmed_start(s@),
        decreases chars@.len() - start,
    {
        assert(s@.skip(start as int).drop_first() =~= s@.skip(start + 1));
        start = start + 1;
    }
    let ghost kept = s@.skip(start as int);
    let mut end: usize = chars.len();
    assert(kept.take(end - start) =~= kept);
    while end > start && space(chars[end - 1])
        invariant
            chars@ == s@,
            start <= end <= chars@.len(),
            kept == s@.skip(start as int),
            trimmed_end(kept.take(end - start)) == trimmed_end(kept),
        decreases end,
    {
        assert(kept.take(end - start).drop_last() =~= kept.take(end - start - 1));
        end = end - 1;
    }
    let rest = s.substring_char(start, end);
    assert(rest@ =~= kept.take(end - start));
    proof {
        what_is_left_lies_inside(s@);
    }
    rest
}

/// The text that a byte string encodes, through `String::from_utf8`: there is one exactly if the
/// bytes are well-formed UTF-8, and it is then the text that they decode to.
#[verifier::external_body]
pub(crate) fn decode_text(bytes: Vec<u8>) -> (text: Option<String>)
    ensures
        text is Some <==> vstd::utf8::valid_utf8(bytes@),
        text matches Some(t) ==> t@ == vstd::utf8::decode_utf8(bytes@),
{
    String::from_utf8(bytes).ok()
}

/// However often `c` follows a text that does not end in it, what is left is the text.
pub proof fn all_that_trails_is_cut_off(rest: Seq<char>, c: char, count: nat)
    requires
        rest.len() == 0 || rest.last() != c,
    ensures
        without_trailing(rest + Seq::new(count, |i: int| c), c) == rest,
    decreases count,
{
    let all = rest + Seq::new(count, |i: int| c);
    if count == 0 {
        assert(all =~= rest);
    } else {
        all_that_trails_is_cut_off(rest, c, (count - 1) as nat);
        assert(all.drop_last() =~= rest + Seq::new((count - 1) as nat, |i: int| c));
    }
}

} // verus!

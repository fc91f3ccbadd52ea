//! Texts: comparison, white space, words, prefixes and decimal numbers.
use vstd::prelude::*;

verus! {

/// Whether two texts are equal.
pub fn text_equal(a: &str, b: &str) -> (res: bool)
    ensures
        res == (a@ == b@),
{
    a.to_owned() == b.to_owned()
}

/// The characters of a text.
pub fn characters(text: &str) -> (res: Vec<char>)
    ensures
        res@ == text@,
{
    let mut res: Vec<char> = Vec::new();
    let len: usize = text.unicode_len();
    let mut i: usize = 0;
    while i < len
        invariant
            i <= len,
            len == text@.len(),
            res@ == text@.take(i as int),
        decreases len - i,
    {
        res.push(text.get_char(i));
        i += 1;
        assert(res@ =~= text@.take(i as int));
    }
    assert(res@ =~= text@);
    res
}

/// The code point of a character.
fn code_point(c: char) -> (res: u32)
    ensures
        res as int == c as int,
{
    c as u32
}

/// Whether a character is white space by the Unicode property of that name.
pub open spec fn is_white_space(c: char) -> bool {
    let v = c as int;
    ||| 0x9 <= v <= 0xd
    ||| v == 0x20
    ||| v == 0x85
    ||| v == 0xa0
    ||| v == 0x1680
    ||| 0x2000 <= v <= 0x200a
    ||| v == 0x2028
    ||| v == 0x2029
    ||| v == 0x202f
    ||| v == 0x205f
    ||| v == 0x3000
}

/// Whether a character is white space.
pub fn white_space(c: char) -> (res: bool)
    ensures
        res == is_white_space(c),
{
    let v: u32 = code_point(c);
    (0x9 <= v && v <= 0xd) || v == 0x20 || v == 0x85 || v == 0xa0 || v == 0x1680 || (0x2000 <= v
        && v <= 0x200a) || v == 0x2028 || v == 0x2029 || v == 0x202f || v == 0x205f || v == 0x3000
}

/// How many characters the first word of a text has that starts with one.
pub open spec fn word_length(text: Seq<char>) -> nat
    decreases text.len(),
{
    if text.len() == 0 || is_white_space(text[0]) {
        0
    } else {
        1 + word_length(text.skip(1))
    }
}

/// The words of a text: its longest runs of characters that are not white space, in order.
pub open spec fn words_of(text: Seq<char>) -> Seq<Seq<char>>
    decreases text.len(),
{
    if text.len() == 0 {
        Seq::empty()
    } else if is_white_space(text[0]) {
        words_of(text.skip(1))
    } else {
        let n = word_length(text);
        proof {
            word_length_bounds(text);
        }
        seq![text.take(n as int)] + words_of(text.skip(n as int))
    }
}

/// A word is not longer than the text that starts with it.
pub proof fn word_length_bounds(text: Seq<char>)
    ensures
        word_length(text) <= text.len(),
        text.len() > 0 && !is_white_space(text[0]) ==> word_length(text) > 0,
    decreases text.len(),
{
    if text.len() > 0 {
        word_length_bounds(text.skip(1));
    }
}

/// A word reaches from a place with no white space in between up to white space or the end.
proof fn word_length_at(text: Seq<char>, n: int)
    requires
        0 <= n <= text.len(),
        forall|j: int| 0 <= j < n ==> !is_white_space(#[trigger] text[j]),
        n == text.len() || is_white_space(text[n]),
    ensures
        word_length(text) == n,
    decreases text.len(),
{
    if n > 0 {
        let rest = text.skip(1);
        assert forall|j: int| 0 <= j < n - 1 implies !is_white_space(#[trigger] rest[j]) by {
            assert(rest[j] == text[j + 1]);
        }
        word_length_at(rest, n - 1);
    }
}

/// The texts that a list of strings holds.
pub open spec fn texts(list: Seq<String>) -> Seq<Seq<char>> {
    list.map_values(|s: String| s@)
}

/// Splits a text into its words.
pub fn words(text: &str) -> (res: Vec<String>)
    ensures
        texts(res@) == words_of(text@),
{
    let chars = characters(text);
    let mut res: Vec<String> = Vec::new();
    let mut i: usize = 0;
    assert(texts(res@) + words_of(text@.skip(0)) =~= words_of(text@)) by {
        assert(text@.skip(0) =~= text@);
    }
    while i < chars.len()
        invariant
            chars@ == text@,
            i <= chars.len(),
            texts(res@) + words_of(text@.skip(i as int)) == words_of(text@),
        decreases chars.len() - i,
    {
        let ghost rest = text@.skip(i as int);
        if white_space(chars[i]) {
            assert(rest.skip(1) =~= text@.skip(i + 1));
            i += 1;
        } else {
            let mut end: usize = i;
            while end < chars.len() && !white_space(chars[end])
                invariant
                    chars@ == text@,
                    i <= end <= chars.len(),
                    forall|j: int| i <= j < end ==> !is_white_space(#[trigger] text@[j]),
                decreases chars.len() - end,
            {
                end += 1;
            }
            proof {
                let n = end - i;
                assert forall|j: int| 0 <= j < n implies !is_white_space(#[trigger] rest[j]) by {
                    assert(rest[j] == text@[i + j]);
                }
                word_length_at(rest, n);
                assert(rest.take(n) =~= text@.subrange(i as int, end as int));
                assert(rest.skip(n) =~= text@.skip(end as int));
            }
            let word = text.substring_char(i, end).to_owned();
            let ghost before = res@;
            res.push(word);
            proof {
                assert(texts(res@) =~= texts(before).push(word@));
                assert(texts(res@) + words_of(text@.skip(end as int)) =~= texts(before)
                    + words_of(rest));
            }
            i = end;
        }
    }
    assert(text@.skip(i as int).len() == 0);
    assert(texts(res@) + words_of(text@.skip(i as int)) =~= texts(res@));
    res
}

/// A text without the white space that it starts with.
pub open spec fn trimmed_start(text: Seq<char>) -> Seq<char>
    decreases text.len(),
{
    if text.len() > 0 && is_white_space(text[0]) {
        trimmed_start(text.skip(1))
    } else {
        text
    }
}

/// A text without the white space that it ends with.
pub open spec fn trimmed_end(text: Seq<char>) -> Seq<char>
    decreases text.len(),
{
    if text.len() > 0 && is_white_space(text.last()) {
        trimmed_end(text.drop_last())
    } else {
        text
    }
}

/// Takes the white space off both ends of a text.
pub fn trim(text: &str) -> (res: &str)
    ensures
        res@ == trimmed_end(trimmed_start(text@)),
{
    let chars = characters(text);
    let mut start: usize = 0;
    assert(text@.skip(0) =~= text@);
    while start < chars.len() && white_space(chars[start])
        invariant
            chars@ == text@,
            start <= chars.len(),
            trimmed_start(text@.skip(start as int)) == trimmed_start(text@),
        decreases chars.len() - start,
    {
        assert(text@.skip(start as int).skip(1) =~= text@.skip(start + 1));
        start += 1;
    }
    let mut end: usize = chars.len();
    assert(text@.subrange(start as int, end as int) =~= text@.skip(start as int));
    while end > start && white_space(chars[end - 1])
        invariant
            chars@ == text@,
            start <= end <= chars.len(),
            trimmed_end(text@.subrange(start as int, end as int)) == trimmed_end(
                trimmed_start(text@),
            ),
        decreases end,
    {
        assert(text@.subrange(start as int, end as int).drop_last() =~= text@.subrange(
            start as int,
            end - 1,
        ));
        end -= 1;
    }
    text.substring_char(start, end)
}

/// A text without the `0x` that it starts with, however often.
pub open spec fn without_0x(text: Seq<char>) -> Seq<char>
    decreases text.len(),
{
    if text.len() >= 2 && text[0] == '0' && text[1] == 'x' {
        without_0x(text.skip(2))
    } else {
        text
    }
}

/// Takes every leading `0x` off a text.
pub fn strip_0x(text: &str) -> (res: &str)
    ensures
        res@ == without_0x(text@),
{
    let chars = characters(text);
    let len: usize = chars.len();
    let mut start: usize = 0;
    assert(text@.skip(0) =~= text@);
    while len - start >= 2 && chars[start] == '0' && chars[start + 1] == 'x'
        invariant
            chars@ == text@,
            len == chars.len(),
            start <= len,
            without_0x(text@.skip(start as int)) == without_0x(text@),
        decreases len - start,
    {
        assert(text@.skip(start as int).skip(2) =~= text@.skip(start + 2));
        start += 2;
    }
    assert(text@.subrange(start as int, len as int) =~= text@.skip(start as int));
    text.substring_char(start, len)
}

/// Whether `part` stands in `text` at place `i`.
pub open spec fn stands_at(text: Seq<char>, part: Seq<char>, i: int) -> bool {
    &&& 0 <= i <= text.len() - part.len()
    &&& text.subrange(i, i + part.len()) == part
}

/// Whether `part` stands somewhere in `text`.
pub open spec fn contains_text(text: Seq<char>, part: Seq<char>) -> bool {
    exists|i: int| stands_at(text, part, i)
}

/// Whether one text stands somewhere in another.
pub fn contains(text: &str, part: &str) -> (res: bool)
    ensures
        res == contains_text(text@, part@),
{
    let text_len: usize = text.unicode_len();
    let part_len: usize = part.unicode_len();
    if text_len < part_len {
        return false;
    }
    let mut i: usize = 0;
    while i <= text_len - part_len
        invariant
            text_len == text@.len(),
            part_len == part@.len(),
            part_len <= text_len,
            i <= text_len - part_len + 1,
            forall|j: int| 0 <= j < i ==> !stands_at(text@, part@, j),
        decreases text_len - part_len + 1 - i,
    {
        if text_equal(text.substring_char(i, i + part_len), part) {
            assert(stands_at(text@, part@, i as int));
            return true;
        }
        if i == text_len - part_len {
            assert forall|j: int| !stands_at(text@, part@, j) by {
                if stands_at(text@, part@, j) {
                    assert(j <= i);
                }
            }
            return false;
        }
        i += 1;
    }
    false
}

/// The value of a decimal digit.
pub open spec fn digit_value(c: char) -> int {
    c as int - 48
}

/// Whether a character is a decimal digit.
pub open spec fn is_digit(c: char) -> bool {
    48 <= c as int <= 57
}

/// The integer that a text of decimal digits stands for.
pub open spec fn decimal_value(digits: Seq<char>) -> int
    decreases digits.len(),
{
    if digits.len() == 0 {
        0
    } else {
        decimal_value(digits.drop_last()) * 10 + digit_value(digits.last())
    }
}

/// The digits of a number that may have a plus sign in front.
pub open spec fn unsigned_digits(text: Seq<char>) -> Seq<char> {
    if text.len() > 0 && text[0] == '+' {
        text.skip(1)
    } else {
        text
    }
}

/// The 64-bit integer that a text stands for: decimal digits, at least one, with or without a plus
/// sign in front.
pub open spec fn u64_of(text: Seq<char>) -> Option<u64> {
    let digits = unsigned_digits(text);
    if digits.len() > 0 && (forall|i: int| 0 <= i < digits.len() ==> is_digit(#[trigger] digits[i]))
        && decimal_value(digits) <= u64::MAX {
        Some(decimal_value(digits) as u64)
    } else {
        None
    }
}

/// The value of a text of digits grows with every digit.
proof fn decimal_value_grows(digits: Seq<char>, i: int)
    requires
        0 <= i <= digits.len(),
        forall|j: int| 0 <= j < digits.len() ==> is_digit(#[trigger] digits[j]),
    ensures
        0 <= decimal_value(digits.take(i)) <= decimal_value(digits),
    decreases digits.len(),
{
    if i == digits.len() {
        assert(digits.take(i) =~= digits);
        if i > 0 {
            let head = digits.drop_last();
            decimal_value_grows(head, i - 1);
            assert(head.take(i - 1) =~= head);
            assert(is_digit(digits[i - 1]));
        }
    } else {
        let head = digits.drop_last();
        decimal_value_grows(head, i);
        assert(head.take(i) =~= digits.take(i));
        assert(is_digit(digits.last()));
    }
}

/// Reads a 64-bit integer.
pub fn parse_u64(text: &str) -> (res: Option<u64>)
    ensures
        res == u64_of(text@),
{
    let chars = characters(text);
    let len: usize = chars.len();
    let start: usize = if len > 0 && chars[0] == '+' {
        1
    } else {
        0
    };
    let ghost digits = unsigned_digits(text@);
    assert(digits =~= text@.skip(start as int));
    if start == len {
        return None;
    }
    let mut value: u64 = 0;
    let mut i: usize = start;
    assert(digits.take(0).len() == 0);
    while i < len
        invariant
            chars@ == text@,
            len == chars.len(),
            digits == unsigned_digits(text@),
            digits == text@.skip(start as int),
            digits.len() > 0,
            start <= i <= len,
            forall|j: int| 0 <= j < i - start ==> is_digit(#[trigger] digits[j]),
            value == decimal_value(digits.take(i - start)),
        decreases len - i,
    {
        let c: char = chars[i];
        let code: u32 = code_point(c);
        assert(digits[i - start] == c);
        if code < 48 || code > 57 {
            assert(!is_digit(digits[i - start]));
            return None;
        }
        let d: u64 = (code - 48) as u64;
        proof {
            let next = digits.take(i - start + 1);
            assert(next.drop_last() =~= digits.take(i - start));
            assert(next.last() == c);
            if forall|j: int| 0 <= j < digits.len() ==> is_digit(#[trigger] digits[j]) {
                decimal_value_grows(digits, i - start + 1);
            }
        }
        if value > (u64::MAX - d) / 10 {
            return None;
        }
        value = value * 10 + d;
        i += 1;
    }
    assert(digits.take(i - start) =~= digits);
    Some(value)
}

/// Whether one text comes before another: at the first place where they differ it has the lower
/// character, or it has ended.
pub open spec fn text_less(a: Seq<char>, b: Seq<char>) -> bool
    decreases a.len(),
{
    if b.len() == 0 {
        false
    } else if a.len() == 0 {
        true
    } else if a[0] == b[0] {
        text_less(a.skip(1), b.skip(1))
    } else {
        (a[0] as int) < (b[0] as int)
    }
}

/// Whether one text comes before another.
pub fn precedes(a: &str, b: &str) -> (res: bool)
    ensures
        res == text_less(a@, b@),
{
    let x = characters(a);
    let y = characters(b);
    let mut i: usize = 0;
    assert(a@.skip(0) =~= a@ && b@.skip(0) =~= b@);
    while i < x.len() && i < y.len()
        invariant
            x@ == a@,
            y@ == b@,
            i <= x.len(),
            i <= y.len(),
            text_less(a@.skip(i as int), b@.skip(i as int)) == text_less(a@, b@),
        decreases x.len() - i,
    {
        if x[i] != y[i] {
            return code_point(x[i]) < code_point(y[i]);
        }
        assert(a@.skip(i as int).skip(1) =~= a@.skip(i + 1));
        assert(b@.skip(i as int).skip(1) =~= b@.skip(i + 1));
        i += 1;
    }
    i < y.len()
}

/// Of two texts one comes before the other, unless they are equal.
pub proof fn text_less_total(a: Seq<char>, b: Seq<char>)
    ensures
        text_less(a, b) || text_less(b, a) || a == b,
        !(text_less(a, b) && text_less(b, a)),
        !text_less(a, a),
    decreases a.len(),
{
    if a.len() > 0 && b.len() > 0 && a[0] == b[0] {
        text_less_total(a.skip(1), b.skip(1));
        if a.skip(1) == b.skip(1) {
            assert(a =~= seq![a[0]] + a.skip(1));
            assert(b =~= seq![b[0]] + b.skip(1));
        }
    } else {
        if a.len() == 0 && b.len() == 0 {
            assert(a =~= b);
        }
        if a.len() > 0 {
            text_less_total(a.skip(1), a.skip(1));
        }
    }
}

/// What comes before a text that comes before another comes before that one.
pub proof fn text_less_transitive(a: Seq<char>, b: Seq<char>, c: Seq<char>)
    requires
        text_less(a, b),
        text_less(b, c),
    ensures
        text_less(a, c),
    decreases a.len(),
{
    if a.len() > 0 && b.len() > 0 && c.len() > 0 && a[0] == b[0] && b[0] == c[0] {
        text_less_transitive(a.skip(1), b.skip(1), c.skip(1));
    }
}

/// White space is made of these characters and no others: the tabulator and the line ends from 9 to 13,
/// the space, and the next line, no-break, ogham, en, em and thinner, line and paragraph separator,
/// mathematical and ideographic spaces.
pub proof fn white_space_characters(c: char, res: bool)
    requires
        call_ensures(white_space, (c,), res),
    ensures
        res <==> set![
            0x9int, 0xa, 0xb, 0xc, 0xd, 0x20, 0x85, 0xa0, 0x1680, 0x2000, 0x2001, 0x2002, 0x2003,
            0x2004, 0x2005, 0x2006, 0x2007, 0x2008, 0x2009, 0x200a, 0x2028, 0x2029, 0x202f, 0x205f,
            0x3000,
        ].contains(c as int),
        res == is_white_space(c),
{
}

/// Taking the white space off the start leaves the rest of the text from some place on, before which
/// there is white space alone, and at which there is none.
pub proof fn trimmed_start_cuts(text: Seq<char>) -> (n: int)
    ensures
        0 <= n <= text.len(),
        trimmed_start(text) == text.skip(n),
        forall|i: int| 0 <= i < n ==> is_white_space(#[trigger] text[i]),
        n < text.len() ==> !is_white_space(text[n]),
    decreases text.len(),
{
    if text.len() > 0 && is_white_space(text[0]) {
        let rest = text.skip(1);
        let n = trimmed_start_cuts(rest);
        assert(rest.skip(n) =~= text.skip(n + 1));
        assert forall|i: int| 0 <= i < n + 1 implies is_white_space(#[trigger] text[i]) by {
            if i > 0 {
                assert(rest[i - 1] == text[i]);
            }
        }
        n + 1
    } else {
        assert(text.skip(0) =~= text);
        0
    }
}

/// Taking the white space off the end leaves the text up to some place, behind which there is white
/// space alone, and before which there is none.
pub proof fn trimmed_end_cuts(text: Seq<char>) -> (n: int)
    ensures
        0 <= n <= text.len(),
        trimmed_end(text) == text.take(n),
        forall|i: int| n <= i < text.len() ==> is_white_space(#[trigger] text[i]),
        n > 0 ==> !is_white_space(text[n - 1]),
    decreases text.len(),
{
    if text.len() > 0 && is_white_space(text.last()) {
        let rest = text.drop_last();
        let n = trimmed_end_cuts(rest);
        assert(rest.take(n) =~= text.take(n));
        assert forall|i: int| n <= i < text.len() implies is_white_space(#[trigger] text[i]) by {
            if i < rest.len() {
                assert(rest[i] == text[i]);
            }
        }
        n
    } else {
        assert(text.take(text.len() as int) =~= text);
        text.len() as int
    }
}

/// Trimming takes white space off both ends and nothing else: the text is what is left with white space
/// around it, and what is left neither starts nor ends with white space.
pub proof fn trimming_takes_white_space(text: &str, res: &str)
    requires
        call_ensures(trim, (text,), res),
    ensures
        exists|start: int, end: int|
            {
                &&& 0 <= start <= end <= text@.len()
                &&& res@ == #[trigger] text@.subrange(start, end)
                &&& forall|i: int| 0 <= i < start ==> is_white_space(#[trigger] text@[i])
                &&& forall|i: int| end <= i < text@.len() ==> is_white_space(#[trigger] text@[i])
            },
        res@.len() > 0 ==> !is_white_space(res@[0]) && !is_white_space(res@.last()),
{
    let start = trimmed_start_cuts(text@);
    let middle = text@.skip(start);
    let n = trimmed_end_cuts(middle);
    let end = start + n;
    assert(res@ =~= text@.subrange(start, end));
    assert forall|i: int| end <= i < text@.len() implies is_white_space(#[trigger] text@[i]) by {
        assert(middle[i - start] == text@[i]);
    }
    if n > 0 {
        assert(middle[n - 1] == res@.last());
    }
}

/// White space around a text that neither starts nor ends with it is trimmed off.
pub proof fn trimming_undoes_padding(before: Seq<char>, text: Seq<char>, after: Seq<char>)
    requires
        forall|i: int| 0 <= i < before.len() ==> is_white_space(#[trigger] before[i]),
        forall|i: int| 0 <= i < after.len() ==> is_white_space(#[trigger] after[i]),
        text.len() > 0,
        !is_white_space(text[0]),
        !is_white_space(text.last()),
    ensures
        trimmed_end(trimmed_start(before + text + after)) == text,
{
    let all = before + text + after;
    let start = trimmed_start_cuts(all);
    assert(start == before.len()) by {
        if start < before.len() {
            assert(all[start] == before[start]);
        }
        if start > before.len() {
            assert(all[before.len() as int] == text[0]);
        }
    }
    let middle = all.skip(start);
    assert(middle =~= text + after);
    let end = trimmed_end_cuts(middle);
    assert(end == text.len()) by {
        if end < text.len() {
            assert(middle[text.len() - 1] == text.last());
        }
        if end > text.len() {
            assert(middle[end - 1] == after[end - 1 - text.len()]);
        }
    }
    assert(middle.take(end) =~= text);
}

/// A prefix is taken off as often as it is there: the text is some number of `0x` and then the rest,
/// which does not start with it.
pub proof fn prefixes_are_taken_off(text: Seq<char>) -> (n: int)
    ensures
        n >= 0,
        2 * n <= text.len(),
        without_0x(text) == text.skip(2 * n),
        forall|i: int| 0 <= i < n ==> #[trigger] text[2 * i] == '0' && text[2 * i + 1] == 'x',
        !(without_0x(text).len() >= 2 && without_0x(text)[0] == '0' && without_0x(text)[1] == 'x'),
    decreases text.len(),
{
    if text.len() >= 2 && text[0] == '0' && text[1] == 'x' {
        let rest = text.skip(2);
        let n = prefixes_are_taken_off(rest);
        assert(rest.skip(2 * n) =~= text.skip(2 * (n + 1)));
        assert forall|i: int| 0 <= i < n + 1 implies #[trigger] text[2 * i] == '0' && text[2 * i + 1]
            == 'x' by {
            if i > 0 {
                assert(rest[2 * (i - 1)] == text[2 * i]);
                assert(rest[2 * (i - 1) + 1] == text[2 * i + 1]);
            }
        }
        n + 1
    } else {
        assert(text.skip(0) =~= text);
        0
    }
}

/// Taking the prefixes off a text is the same with one more in front of it.
pub proof fn one_more_prefix_is_taken_off(text: Seq<char>)
    ensures
        without_0x(seq!['0', 'x'] + text) == without_0x(text),
        text.len() == 0 || text[0] != '0' ==> without_0x(text) == text,
        text.len() >= 2 && text[1] != 'x' ==> without_0x(text) == text,
{
    assert((seq!['0', 'x'] + text).skip(2) =~= text);
}

/// What is taken off by `strip_0x` is that.
pub proof fn stripping_takes_prefixes(text: &str, res: &str)
    requires
        call_ensures(strip_0x, (text,), res),
    ensures
        exists|n: int|
            {
                &&& 0 <= 2 * n <= text@.len()
                &&& res@ == #[trigger] text@.skip(2 * n)
                &&& forall|i: int|
                    0 <= i < n ==> #[trigger] text@[2 * i] == '0' && text@[2 * i + 1] == 'x'
            },
        !(res@.len() >= 2 && res@[0] == '0' && res@[1] == 'x'),
{
    let n = prefixes_are_taken_off(text@);
    assert(res@ == text@.skip(2 * n));
}

/// A text contains a part exactly where it is some text, the part and some text.
pub proof fn containing_is_surrounding(text: &str, part: &str, res: bool)
    requires
        call_ensures(contains, (text, part), res),
    ensures
        res <==> exists|before: Seq<char>, after: Seq<char>|
            text@ == #[trigger] (before + part@ + after),
{
    if res {
        let i = choose|i: int| stands_at(text@, part@, i);
        let before = text@.take(i);
        let after = text@.skip(i + part@.len());
        assert(text@ =~= before + part@ + after);
    }
    if exists|before: Seq<char>, after: Seq<char>| text@ == #[trigger] (before + part@ + after) {
        let (before, after) = choose|before: Seq<char>, after: Seq<char>|
            text@ == #[trigger] (before + part@ + after);
        let i = before.len() as int;
        assert(text@.subrange(i, i + part@.len()) =~= part@);
        assert(stands_at(text@, part@, i));
    }
}

/// Words come one by one: white space in front of a text adds no word, and a run of other characters
/// that white space or the end follows is the first word.
pub proof fn words_come_one_by_one(text: Seq<char>, c: char, word: Seq<char>)
    ensures
        words_of(Seq::empty()) == Seq::<Seq<char>>::empty(),
        is_white_space(c) ==> words_of(seq![c] + text) == words_of(text),
        word.len() > 0 && (forall|i: int| 0 <= i < word.len() ==> !is_white_space(
            #[trigger] word[i],
        )) && (text.len() == 0 || is_white_space(text[0])) ==> words_of(word + text) == seq![word]
            + words_of(text),
{
    assert((seq![c] + text).skip(1) =~= text);
    if word.len() > 0 && (forall|i: int| 0 <= i < word.len() ==> !is_white_space(
        #[trigger] word[i],
    )) && (text.len() == 0 || is_white_space(text[0])) {
        let all = word + text;
        let n = word.len() as int;
        assert forall|j: int| 0 <= j < n implies !is_white_space(#[trigger] all[j]) by {
            assert(all[j] == word[j]);
        }
        if n < all.len() {
            assert(all[n] == text[0]);
        }
        word_length_at(all, n);
        assert(all[0] == word[0]);
        assert(all.take(n) =~= word);
        assert(all.skip(n) =~= text);
    }
}

/// The words of a text are made of all its characters that are not white space, in order, and of no
/// others; no word is empty.
pub proof fn words_keep_all_but_white_space(text: Seq<char>)
    ensures
        words_of(text).flatten() == text.filter(|c: char| !is_white_space(c)),
        forall|i: int| 0 <= i < words_of(text).len() ==> (#[trigger] words_of(text)[i]).len() > 0,
    decreases text.len(),
{
    let solid = |c: char| !is_white_space(c);
    if text.len() == 0 {
        reveal(Seq::filter);
        assert(words_of(text).flatten() =~= Seq::<char>::empty());
        assert(text.filter(solid) =~= Seq::<char>::empty());
    } else if is_white_space(text[0]) {
        let rest = text.skip(1);
        words_keep_all_but_white_space(rest);
        filter_splits(text, 1, solid);
        filter_none(text.take(1), solid);
    } else {
        let n = word_length(text) as int;
        word_length_bounds(text);
        word_is_solid(text);
        let rest = text.skip(n);
        words_keep_all_but_white_space(rest);
        filter_splits(text, n, solid);
        filter_all(text.take(n), solid);
        let words = words_of(text);
        assert(words =~= seq![text.take(n)] + words_of(rest));
        assert(words.first() == text.take(n));
        assert(words.drop_first() =~= words_of(rest));
        assert forall|i: int| 0 <= i < words.len() implies (#[trigger] words[i]).len() > 0 by {
            if i > 0 {
                assert(words[i] == words_of(rest)[i - 1]);
            }
        }
    }
}

/// The characters of a word are not white space.
proof fn word_is_solid(text: Seq<char>)
    ensures
        forall|i: int| 0 <= i < word_length(text) ==> !is_white_space(#[trigger] text[i]),
    decreases text.len(),
{
    if text.len() > 0 && !is_white_space(text[0]) {
        let rest = text.skip(1);
        word_is_solid(rest);
        word_length_bounds(text);
        assert forall|i: int| 0 <= i < word_length(text) implies !is_white_space(
            #[trigger] text[i],
        ) by {
            if i > 0 {
                assert(rest[i - 1] == text[i]);
            }
        }
    }
}

/// Filtering a text filters its parts.
proof fn filter_splits(text: Seq<char>, n: int, keep: spec_fn(char) -> bool)
    requires
        0 <= n <= text.len(),
    ensures
        text.filter(keep) == text.take(n).filter(keep) + text.skip(n).filter(keep),
{
    assert(text =~= text.take(n) + text.skip(n));
    Seq::filter_distributes_over_add(text.take(n), text.skip(n), keep);
}

/// Filtering what is all kept changes nothing.
proof fn filter_all(text: Seq<char>, keep: spec_fn(char) -> bool)
    requires
        forall|i: int| 0 <= i < text.len() ==> keep(#[trigger] text[i]),
    ensures
        text.filter(keep) == text,
    decreases text.len(),
{
    reveal(Seq::filter);
    if text.len() > 0 {
        filter_all(text.drop_last(), keep);
        assert(text =~= text.drop_last().push(text.last()));
    }
}

/// Filtering what is not kept leaves nothing.
proof fn filter_none(text: Seq<char>, keep: spec_fn(char) -> bool)
    requires
        forall|i: int| 0 <= i < text.len() ==> !keep(#[trigger] text[i]),
    ensures
        text.filter(keep).len() == 0,
    decreases text.len(),
{
    reveal(Seq::filter);
    if text.len() > 0 {
        filter_none(text.drop_last(), keep);
    }
}

/// Splitting gives the words.
pub proof fn splitting_gives_words(text: &str, res: Vec<String>)
    requires
        call_ensures(words, (text,), res),
    ensures
        res@.len() == words_of(text@).len(),
        forall|i: int| 0 <= i < res@.len() ==> (#[trigger] res@[i])@ == words_of(text@)[i],
{
    assert forall|i: int| 0 <= i < res@.len() implies (#[trigger] res@[i])@ == words_of(
        text@,
    )[i] by {
        assert(texts(res@)[i] == res@[i]@);
    }
}

/// A number is read digit by digit: one more digit makes ten times as much and the digit, as long as
/// that has 64 bits.
pub proof fn numbers_are_read_by_digits(text: Seq<char>, c: char)
    ensures
        u64_of(Seq::empty()) is None,
        48 <= c as int <= 57 ==> u64_of(seq![c]) == Some((c as int - 48) as u64),
        u64_of(text) is Some && 48 <= c as int <= 57 ==> u64_of(text.push(c)) == (if u64_of(
            text,
        ).unwrap() as int * 10 + (c as int - 48) <= 0xffff_ffff_ffff_ffff {
            Some((u64_of(text).unwrap() as int * 10 + (c as int - 48)) as u64)
        } else {
            None
        }),
        !(48 <= c as int <= 57) && text.len() > 0 ==> u64_of(text.push(c)) is None,
        !(48 <= c as int <= 57) ==> u64_of(seq![c]) is None,
        text.len() > 0 && text[0] != '+' ==> u64_of(seq!['+'] + text) == u64_of(text),
{
    let one = seq![c];
    assert(one.drop_last() =~= Seq::<char>::empty());
    assert(one.len() == 1 && one.last() == c && one[0] == c);
    assert(decimal_value(Seq::<char>::empty()) == 0);
    assert(decimal_value(one) == c as int - 48);
    if c == '+' {
        assert(one.skip(1).len() == 0);
    } else {
        assert(unsigned_digits(one) == one);
    }
    if 48 <= c as int <= 57 {
        assert(c != '+');
        assert forall|i: int| 0 <= i < one.len() implies is_digit(#[trigger] one[i]) by {}
    } else {
        assert(!is_digit(one[0]));
    }
    if text.len() > 0 {
        let more = text.push(c);
        let digits = unsigned_digits(text);
        let all = unsigned_digits(more);
        assert(more[0] == text[0]);
        assert(all =~= digits.push(c));
        assert(all.drop_last() =~= digits);
        assert(all.last() == c);
        assert(all[all.len() - 1] == c);
        if u64_of(text) is Some && 48 <= c as int <= 57 {
            assert forall|i: int| 0 <= i < all.len() implies is_digit(#[trigger] all[i]) by {
                if i < digits.len() {
                    assert(all[i] == digits[i]);
                }
            }
            decimal_value_grows(digits, 0);
            assert(digits.take(0).len() == 0);
        }
        if !(48 <= c as int <= 57) {
            assert(!is_digit(all[all.len() - 1]));
        }
        if text[0] != '+' {
            assert((seq!['+'] + text).skip(1) =~= text);
        }
    }
}

/// What is not a number of 64 bits with one more digit is not with it either, unless it is empty or a
/// plus sign.
pub proof fn what_is_no_number_stays_none(text: Seq<char>, c: char)
    requires
        text.len() > 0,
        text != seq!['+'],
        u64_of(text) is None,
    ensures
        u64_of(text.push(c)) is None,
{
    let more = text.push(c);
    let digits = unsigned_digits(text);
    let all = unsigned_digits(more);
    assert(more[0] == text[0]);
    assert(all =~= digits.push(c));
    assert(all.drop_last() =~= digits);
    if digits.len() == 0 {
        assert(text =~= seq!['+']);
    }
    if u64_of(more) is Some {
        assert forall|i: int| 0 <= i < digits.len() implies is_digit(#[trigger] digits[i]) by {
            assert(all[i] == digits[i]);
        }
        decimal_value_grows(all, digits.len() as int);
        assert(all.take(digits.len() as int) =~= digits);
    }
}

/// Reading gives the number.
pub proof fn reading_gives_the_number(text: &str, res: Option<u64>)
    requires
        call_ensures(parse_u64, (text,), res),
    ensures
        res == u64_of(text@),
{
}

/// Texts are ordered by the first place at which they differ: there the one that comes first has ended
/// or has the lower character.
pub proof fn order_is_by_first_difference(a: Seq<char>, b: Seq<char>)
    ensures
        text_less(a, b) <==> exists|k: int|
            {
                &&& 0 <= k < b.len()
                &&& k <= a.len()
                &&& #[trigger] a.take(k) == b.take(k)
                &&& k == a.len() || (a[k] as int) < (b[k] as int)
            },
    decreases a.len(),
{
    if b.len() == 0 {
    } else if a.len() == 0 {
        assert(a.take(0) =~= b.take(0));
    } else if a[0] == b[0] {
        let (x, y) = (a.skip(1), b.skip(1));
        order_is_by_first_difference(x, y);
        if text_less(a, b) {
            let k = choose|k: int|
                {
                    &&& 0 <= k < y.len()
                    &&& k <= x.len()
                    &&& #[trigger] x.take(k) == y.take(k)
                    &&& k == x.len() || (x[k] as int) < (y[k] as int)
                };
            assert(a.take(k + 1) =~= seq![a[0]] + x.take(k));
            assert(b.take(k + 1) =~= seq![b[0]] + y.take(k));
        }
        if exists|k: int|
            {
                &&& 0 <= k < b.len()
                &&& k <= a.len()
                &&& #[trigger] a.take(k) == b.take(k)
                &&& k == a.len() || (a[k] as int) < (b[k] as int)
            } {
            let k = choose|k: int|
                {
                    &&& 0 <= k < b.len()
                    &&& k <= a.len()
                    &&& #[trigger] a.take(k) == b.take(k)
                    &&& k == a.len() || (a[k] as int) < (b[k] as int)
                };
            assert(k > 0);
            assert(x.take(k - 1) =~= a.take(k).skip(1));
            assert(y.take(k - 1) =~= b.take(k).skip(1));
        }
    } else {
        assert(a.take(0) =~= b.take(0));
        if exists|k: int|
            {
                &&& 0 <= k < b.len()
                &&& k <= a.len()
                &&& #[trigger] a.take(k) == b.take(k)
                &&& k == a.len() || (a[k] as int) < (b[k] as int)
            } {
            let k = choose|k: int|
                {
                    &&& 0 <= k < b.len()
                    &&& k <= a.len()
                    &&& #[trigger] a.take(k) == b.take(k)
                    &&& k == a.len() || (a[k] as int) < (b[k] as int)
                };
            if k > 0 {
                assert(a.take(k)[0] == b.take(k)[0]);
            }
        }
    }
}

} // verus!

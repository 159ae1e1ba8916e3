//! Small operations on text that the rest of the library shares.

use vstd::prelude::*;
use vstd::string::StringExecFns;

verus! {

/// Whether a character is white space: one of the code points with the
/// Unicode property `White_Space`.
pub open spec fn is_space(c: char) -> bool {
    let n = c as int;
    ||| 0x09 <= n <= 0x0D
    ||| n == 0x20
    ||| n == 0x85
    ||| n == 0xA0
    ||| n == 0x1680
    ||| 0x2000 <= n <= 0x200A
    ||| n == 0x2028
    ||| n == 0x2029
    ||| n == 0x202F
    ||| n == 0x205F
    ||| n == 0x3000
}

/// A text without the white space at its start.
pub open spec fn skip_leading_space(s: Seq<char>) -> Seq<char>
    decreases s.len(),
{
    if s.len() > 0 && is_space(s[0]) {
        skip_leading_space(s.drop_first())
    } else {
        s
    }
}

/// A text without the white space at its end.
pub open spec fn skip_trailing_space(s: Seq<char>) -> Seq<char>
    decreases s.len(),
{
    if s.len() > 0 && is_space(s.last()) {
        skip_trailing_space(s.drop_last())
    } else {
        s
    }
}

/// A text without the white space at either end.
pub open spec fn trimmed(s: Seq<char>) -> Seq<char> {
    skip_trailing_space(skip_leading_space(s))
}

/// Whether a character is white space.
pub fn is_whitespace(c: char) -> (b: bool)
    ensures
        b == is_space(c),
{
    let n: u32 = c as u32;
    (0x09 <= n && n <= 0x0D) || n == 0x20 || n == 0x85 || n == 0xA0 || n == 0x1680 || (0x2000
        <= n && n <= 0x200A) || n == 0x2028 || n == 0x2029 || n == 0x202F || n == 0x205F || n
        == 0x3000
}

/// The decimal digit of a number below ten.
pub open spec fn digit_of(d: nat) -> char {
    (48 + d) as char
}

/// A number in decimal notation, without leading zeros.
pub open spec fn decimal_of(n: nat) -> Seq<char>
    decreases n,
{
    if n < 10 {
        seq![digit_of(n)]
    } else {
        decimal_of(n / 10).push(digit_of(n % 10))
    }
}

/// Calls `String::push`, which appends one character.
#[verifier::external_body]
pub(crate) fn push_char(s: &mut String, c: char)
    ensures
        final(s)@ == old(s)@.push(c),
{
    s.push(c)
}

/// Calls `str::ends_with` with a character: whether the text's last character is that one.
#[verifier::external_body]
pub(crate) fn ends_with_char(s: &str, c: char) -> (b: bool)
    ensures
        b == (s@.len() > 0 && s@.last() == c),
{
    s.ends_with(c)
}

/// Two texts, one after the other.
pub fn joined(a: &str, b: &str) -> (s: String)
    ensures
        s@ == a@ + b@,
{
    let mut s = a.to_owned();
    s.append(b);
    s
}


/// A text without the occurrences of `c` at its start.
pub open spec fn skip_leading_char(s: Seq<char>, c: char) -> Seq<char>
    decreases s.len(),
{
    if s.len() > 0 && s[0] == c {
        skip_leading_char(s.drop_first(), c)
    } else {
        s
    }
}

/// A text without the occurrences of `c` at its end.
pub open spec fn skip_trailing_char(s: Seq<char>, c: char) -> Seq<char>
    decreases s.len(),
{
    if s.len() > 0 && s.last() == c {
        skip_trailing_char(s.drop_last(), c)
    } else {
        s
    }
}

/// The words of a text: its maximal runs of characters that are no white
/// space, in order.
pub open spec fn words_of(s: Seq<char>) -> Seq<Seq<char>>
    decreases s.len(),
{
    if s.len() == 0 {
        Seq::empty()
    } else if is_space(s.last()) {
        words_of(s.drop_last())
    } else if s.len() >= 2 && !is_space(s[s.len() - 2]) {
        let before = words_of(s.drop_last());
        before.drop_last().push(before.last().push(s.last()))
    } else {
        words_of(s.drop_last()).push(seq![s.last()])
    }
}

/// The pieces of a text for a separating character: the stretches between
/// its occurrences, in order, empty ones too; one more than it occurs.
pub open spec fn pieces_of(s: Seq<char>, separator: char) -> Seq<Seq<char>>
    decreases s.len(),
{
    if s.len() == 0 {
        seq![Seq::empty()]
    } else if s.last() == separator {
        pieces_of(s.drop_last(), separator).push(Seq::empty())
    } else {
        let before = pieces_of(s.drop_last(), separator);
        before.drop_last().push(before.last().push(s.last()))
    }
}

/// Whether two texts are the same.
pub fn same_text(a: &str, b: &str) -> (same: bool)
    ensures
        same == (a@ == b@),
{
    let x = a.to_owned();
    let y = b.to_owned();
    x == y
}


/// A text with every occurrence of one character replaced by another.
pub open spec fn replaced(s: Seq<char>, from: char, to: char) -> Seq<char> {
    s.map_values(|c: char| if c == from { to } else { c })
}

/// The characters of a text.
pub fn chars_of(s: &str) -> (chars: Vec<char>)
    ensures
        chars@ == s@,
{
    let mut chars: Vec<char> = Vec::new();
    for c in it: s.chars()
        invariant
            it.seq() == s@,
            chars@ == it.seq().subrange(0, it.index() as int),
    {
        chars.push(c);
        assert(chars@ =~= it.seq().subrange(0, it.index() + 1));
    }
    assert(chars@ =~= s@);
    chars
}

/// The text made of the characters from `from` up to `to`.
pub fn text_between(chars: &Vec<char>, from: usize, to: usize) -> (text: String)
    requires
        from <= to <= chars@.len(),
    ensures
        text@ == chars@.subrange(from as int, to as int),
{
    let mut text = String::new();
    let mut i: usize = from;
    assert(text@ =~= chars@.subrange(from as int, from as int));
    while i < to
        invariant
            from <= i <= to <= chars@.len(),
            text@ == chars@.subrange(from as int, i as int),
        decreases to - i,
    {
        push_char(&mut text, chars[i]);
        assert(text@ =~= chars@.subrange(from as int, i as int + 1));
        i += 1;
    }
    text
}


/// The text without the white space at either end.
pub fn trim(s: &str) -> (t: String)
    ensures
        t@ == trimmed(s@),
{
    let chars = chars_of(s);
    let n = chars.len();
    let mut start: usize = 0;
    assert(chars@.subrange(0, n as int) =~= chars@);
    while start < n && is_whitespace(chars[start])
        invariant
            n == chars@.len(),
            start <= n,
            skip_leading_space(chars@) == skip_leading_space(
                chars@.subrange(start as int, n as int),
            ),
        decreases n - start,
    {
        assert(chars@.subrange(start as int, n as int).drop_first() =~= chars@.subrange(
            start as int + 1,
            n as int,
        ));
        start += 1;
    }
    let ghost rest = chars@.subrange(start as int, n as int);
    assert(skip_leading_space(chars@) == rest) by {
        if start < n {
            assert(rest[0] == chars@[start as int]);
        }
    }
    let mut end: usize = n;
    while end > start && is_whitespace(chars[end - 1])
        invariant
            n == chars@.len(),
            start <= end <= n,
            skip_trailing_space(chars@.subrange(start as int, end as int)) == skip_trailing_space(
                rest,
            ),
        decreases end,
    {
        assert(chars@.subrange(start as int, end as int).drop_last() =~= chars@.subrange(
            start as int,
            end as int - 1,
        ));
        end -= 1;
    }
    assert(skip_trailing_space(rest) == chars@.subrange(start as int, end as int)) by {
        let cut = chars@.subrange(start as int, end as int);
        if cut.len() > 0 {
            assert(cut.last() == chars@[end as int - 1]);
        }
    }
    text_between(&chars, start, end)
}

/// The text without the occurrences of `c` at either end.
pub fn trim_char(s: &str, c: char) -> (t: String)
    ensures
        t@ == skip_trailing_char(skip_leading_char(s@, c), c),
{
    let chars = chars_of(s);
    let n = chars.len();
    let mut start: usize = 0;
    assert(chars@.subrange(0, n as int) =~= chars@);
    while start < n && chars[start] == c
        invariant
            n == chars@.len(),
            start <= n,
            skip_leading_char(chars@, c) == skip_leading_char(
                chars@.subrange(start as int, n as int),
                c,
            ),
        decreases n - start,
    {
        assert(chars@.subrange(start as int, n as int).drop_first() =~= chars@.subrange(
            start as int + 1,
            n as int,
        ));
        start += 1;
    }
    let ghost rest = chars@.subrange(start as int, n as int);
    assert(skip_leading_char(chars@, c) == rest) by {
        if start < n {
            assert(rest[0] == chars@[start as int]);
        }
    }
    let mut end: usize = n;
    while end > start && chars[end - 1] == c
        invariant
            n == chars@.len(),
            start <= end <= n,
            skip_trailing_char(chars@.subrange(start as int, end as int), c) == skip_trailing_char(
                rest,
                c,
            ),
        decreases end,
    {
        assert(chars@.subrange(start as int, end as int).drop_last() =~= chars@.subrange(
            start as int,
            end as int - 1,
        ));
        end -= 1;
    }
    assert(skip_trailing_char(rest, c) == chars@.subrange(start as int, end as int)) by {
        let cut = chars@.subrange(start as int, end as int);
        if cut.len() > 0 {
            assert(cut.last() == chars@[end as int - 1]);
        }
    }
    text_between(&chars, start, end)
}

/// The text with every occurrence of one character replaced by another.
pub fn replace_char(s: &str, from: char, to: char) -> (out: String)
    ensures
        out@ == replaced(s@, from, to),
{
    let chars = chars_of(s);
    let n = chars.len();
    let mut out = String::new();
    let mut i: usize = 0;
    assert(out@ =~= replaced(chars@.subrange(0, 0), from, to));
    while i < n
        invariant
            n == chars@.len(),
            i <= n,
            out@ == replaced(chars@.subrange(0, i as int), from, to),
        decreases n - i,
    {
        let c = chars[i];
        push_char(&mut out, if c == from { to } else { c });
        assert(out@ =~= replaced(chars@.subrange(0, i as int + 1), from, to));
        i += 1;
    }
    assert(chars@.subrange(0, n as int) =~= chars@);
    out
}


/// The texts of a list.
pub open spec fn text_views(list: Seq<String>) -> Seq<Seq<char>> {
    list.map_values(|t: String| t@)
}

/// The words of a text: its maximal runs of characters that are no white
/// space, in order.
pub fn words(s: &str) -> (list: Vec<String>)
    ensures
        text_views(list@) == words_of(s@),
{
    let chars = chars_of(s);
    let n = chars.len();
    let mut list: Vec<String> = Vec::new();
    let mut current = String::new();
    let mut in_word = false;
    let mut i: usize = 0;
    assert(text_views(list@) =~= words_of(chars@.subrange(0, 0)));
    while i < n
        invariant
            n == chars@.len(),
            i <= n,
            in_word == (i > 0 && !is_space(chars@[i as int - 1])),
            !in_word ==> current@.len() == 0,
            words_of(chars@.subrange(0, i as int)) == if in_word {
                text_views(list@).push(current@)
            } else {
                text_views(list@)
            },
        decreases n - i,
    {
        let c = chars[i];
        let ghost before = words_of(chars@.subrange(0, i as int));
        let ghost old_list = list@;
        let ghost old_current = current@;
        proof {
            let upto = chars@.subrange(0, i as int + 1);
            assert(upto.drop_last() =~= chars@.subrange(0, i as int));
            assert(upto.last() == c);
            if i > 0 {
                assert(upto[upto.len() - 2] == chars@[i as int - 1]);
            }
        }
        if is_whitespace(c) {
            if in_word {
                list.push(current);
                current = String::new();
                assert(text_views(list@) =~= text_views(old_list).push(old_current));
            }
            in_word = false;
        } else {
            push_char(&mut current, c);
            proof {
                if in_word {
                    assert(before.drop_last() =~= text_views(old_list));
                    assert(before.last() == old_current);
                } else {
                    assert(current@ =~= seq![c]);
                }
            }
            in_word = true;
        }
        i += 1;
    }
    assert(chars@.subrange(0, n as int) =~= chars@);
    if in_word {
        let ghost old_list = list@;
        list.push(current);
        assert(text_views(list@) =~= text_views(old_list).push(current@));
    }
    list
}

/// The pieces of a text for a separating character: the stretches between
/// its occurrences, in order, empty ones too.
pub fn pieces(s: &str, separator: char) -> (list: Vec<String>)
    ensures
        text_views(list@) == pieces_of(s@, separator),
{
    let chars = chars_of(s);
    let n = chars.len();
    let mut list: Vec<String> = Vec::new();
    let mut current = String::new();
    let mut i: usize = 0;
    assert(text_views(list@).push(current@) =~= pieces_of(chars@.subrange(0, 0), separator));
    while i < n
        invariant
            n == chars@.len(),
            i <= n,
            pieces_of(chars@.subrange(0, i as int), separator) == text_views(list@).push(current@),
        decreases n - i,
    {
        let c = chars[i];
        let ghost before = pieces_of(chars@.subrange(0, i as int), separator);
        let ghost old_list = list@;
        let ghost old_current = current@;
        proof {
            let upto = chars@.subrange(0, i as int + 1);
            assert(upto.drop_last() =~= chars@.subrange(0, i as int));
            assert(upto.last() == c);
        }
        if c == separator {
            list.push(current);
            current = String::new();
            assert(text_views(list@) =~= text_views(old_list).push(old_current));
        } else {
            push_char(&mut current, c);
            assert(before.drop_last() =~= text_views(old_list));
            assert(before.last() == old_current);
        }
        i += 1;
    }
    assert(chars@.subrange(0, n as int) =~= chars@);
    let ghost old_list = list@;
    list.push(current);
    assert(text_views(list@) =~= text_views(old_list).push(current@));
    list
}


/// The decimal digit of a number below ten.
pub fn digit(d: u32) -> (c: char)
    requires
        d < 10,
    ensures
        c == digit_of(d as nat),
{
    if d == 0 {
        '0'
    } else if d == 1 {
        '1'
    } else if d == 2 {
        '2'
    } else if d == 3 {
        '3'
    } else if d == 4 {
        '4'
    } else if d == 5 {
        '5'
    } else if d == 6 {
        '6'
    } else if d == 7 {
        '7'
    } else if d == 8 {
        '8'
    } else {
        '9'
    }
}

/// A number in decimal notation, without leading zeros.
pub fn decimal(n: u32) -> (text: String)
    ensures
        text@ == decimal_of(n as nat),
    decreases n,
{
    if n < 10 {
        let mut text = String::new();
        push_char(&mut text, digit(n));
        assert(text@ =~= seq![digit_of(n as nat)]);
        text
    } else {
        let mut text = decimal(n / 10);
        push_char(&mut text, digit(n % 10));
        text
    }
}

} // verus!

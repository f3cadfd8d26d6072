//! Text helpers: the few string operations that listings, events and messages
//! are read and written with, each stated over the sequence of its characters.

use vstd::prelude::*;
use vstd::string::*;

verus! {

/// Whether `needle` occurs in `s`, at any position.
pub open spec fn occurs_in(needle: Seq<char>, s: Seq<char>) -> bool {
    exists|i: int|
        0 <= i <= s.len() - needle.len() && #[trigger] s.subrange(i, i + needle.len()) == needle
}

/// What stands in `s` before the last `sep`, if `s` holds one.
pub open spec fn before_last(s: Seq<char>, sep: char) -> Option<Seq<char>>
    decreases s.len(),
{
    if s.len() == 0 {
        None
    } else if s.last() == sep {
        Some(s.drop_last())
    } else {
        before_last(s.drop_last(), sep)
    }
}

/// Whether `s` stands before `t` in the order of texts: it has the smaller character at
/// the first place where they differ, or it is what `t` begins with.
pub open spec fn precedes(s: Seq<char>, t: Seq<char>) -> bool {
    ||| s.len() < t.len() && s == t.take(s.len() as int)
    ||| exists|i: int|
        0 <= i < s.len() && i < t.len() && s.take(i) == t.take(i) && #[trigger] s[i] < t[i]
}

/// `s` without the square brackets around it, where it stands in brackets.
pub open spec fn unbracketed(s: Seq<char>) -> Seq<char> {
    if s.len() >= 2 && s.first() == '[' && s.last() == ']' {
        s.subrange(1, s.len() - 1)
    } else {
        s
    }
}

/// The characters with the Unicode property `White_Space`.
pub open spec fn is_space(c: char) -> bool {
    ||| '\u{9}' <= c <= '\u{d}'
    ||| c == ' '
    ||| c == '\u{85}'
    ||| c == '\u{a0}'
    ||| c == '\u{1680}'
    ||| '\u{2000}' <= c <= '\u{200a}'
    ||| c == '\u{2028}'
    ||| c == '\u{2029}'
    ||| c == '\u{202f}'
    ||| c == '\u{205f}'
    ||| c == '\u{3000}'
}

/// `s` without the white space that it starts with.
pub open spec fn trimmed_start(s: Seq<char>) -> Seq<char>
    decreases s.len(),
{
    if s.len() > 0 && is_space(s.first()) {
        trimmed_start(s.drop_first())
    } else {
        s
    }
}

/// `s` without the white space that it ends with.
pub open spec fn trimmed_end(s: Seq<char>) -> Seq<char>
    decreases s.len(),
{
    if s.len() > 0 && is_space(s.last()) {
        trimmed_end(s.drop_last())
    } else {
        s
    }
}

/// `s` without the white space at either end.
pub open spec fn trimmed(s: Seq<char>) -> Seq<char> {
    trimmed_end(trimmed_start(s))
}

/// The decimal digit `d`.
pub open spec fn digit(d: nat) -> char {
    if d == 0 {
        '0'
    } else if d == 1 {
        '1'
    } else if d == 2 {
        '2'
    } else if d == 3 {
        '3'
    } else if d == 4 {
        '4'
    } else if d == 5 {
        '5'
    } else if d == 6 {
        '6'
    } else if d == 7 {
        '7'
    } else if d == 8 {
        '8'
    } else {
        '9'
    }
}

/// `n` in decimal, without leading zeros.
pub open spec fn decimal(n: nat) -> Seq<char>
    decreases n,
{
    if n < 10 {
        seq![digit(n)]
    } else {
        decimal(n / 10).push(digit(n % 10))
    }
}

/// The hexadecimal digit `d`, in lower case.
pub open spec fn hex_digit(d: nat) -> char {
    if d < 10 {
        digit(d)
    } else if d == 10 {
        'a'
    } else if d == 11 {
        'b'
    } else if d == 12 {
        'c'
    } else if d == 13 {
        'd'
    } else if d == 14 {
        'e'
    } else {
        'f'
    }
}

/// `n` copies of `c`.
pub open spec fn copies(c: char, n: nat) -> Seq<char> {
    Seq::new(n, |i: int| c)
}

/// `s` filled up with spaces on its right to `width` characters.
pub open spec fn left_aligned(s: Seq<char>, width: nat) -> Seq<char> {
    if s.len() < width {
        s + copies(' ', (width - s.len()) as nat)
    } else {
        s
    }
}

/// `s` filled up with spaces on its left to `width` characters.
pub open spec fn right_aligned(s: Seq<char>, width: nat) -> Seq<char> {
    if s.len() < width {
        copies(' ', (width - s.len()) as nat) + s
    } else {
        s
    }
}

/// The characters of each text.
pub open spec fn texts(v: Seq<String>) -> Seq<Seq<char>> {
    v.map_values(|s: String| s@)
}

/// The characters of `s`, as a vector.
pub fn chars_of(s: &str) -> (v: Vec<char>)
    ensures
        v@ == s@,
{
    let mut v: Vec<char> = Vec::new();
    for c in it: s.chars()
        invariant
            v@ == it.seq().take(it.index() as int),
            it.seq() == s@,
    {
        v.push(c);
        proof {
            assert(it.seq().take(it.index() as int + 1) =~= it.seq().take(it.index() as int).push(
                c,
            ));
        }
    }
    proof {
        assert(s@.take(s@.len() as int) =~= s@);
    }
    v
}

/// Whether `s` and `t` hold the same characters.
pub fn same_text(s: &str, t: &str) -> (r: bool)
    ensures
        r == (s@ == t@),
{
    s.to_owned() == t.to_owned()
}

/// Whether `p` stands in `v` from position `at` on.
fn matches_at(v: &Vec<char>, p: &Vec<char>, at: usize) -> (r: bool)
    requires
        at + p@.len() <= v@.len(),
    ensures
        r == (v@.subrange(at as int, at + p@.len()) == p@),
{
    let end: usize = v.len();
    let mut i: usize = 0;
    while i < p.len()
        invariant
            at + p@.len() <= v@.len() == end,
            i <= p@.len(),
            forall|j: int| 0 <= j < i ==> v@[at + j] == p@[j],
        decreases p@.len() - i,
    {
        if v[at + i] != p[i] {
            proof {
                assert(v@.subrange(at as int, at + p@.len())[i as int] != p@[i as int]);
            }
            return false;
        }
        i += 1;
    }
    proof {
        assert(v@.subrange(at as int, at + p@.len()) =~= p@);
    }
    true
}

/// Whether `s` ends with `suffix`.
pub fn ends_with(s: &str, suffix: &str) -> (r: bool)
    ensures
        r == suffix@.is_suffix_of(s@),
{
    let v = chars_of(s);
    let p = chars_of(suffix);
    p.len() <= v.len() && matches_at(&v, &p, v.len() - p.len())
}

/// Whether `needle` occurs in `s`.
pub fn contains_text(s: &str, needle: &str) -> (r: bool)
    ensures
        r == occurs_in(needle@, s@),
{
    let v = chars_of(s);
    let p = chars_of(needle);
    if p.len() > v.len() {
        return false;
    }
    let mut i: usize = 0;
    while i <= v.len() - p.len()
        invariant
            v@ == s@,
            p@ == needle@,
            p@.len() <= v@.len(),
            i <= v@.len() - p@.len() + 1,
            forall|j: int|
                0 <= j < i ==> #[trigger] s@.subrange(j, j + needle@.len()) != needle@,
        decreases v@.len() - i + 1,
    {
        if matches_at(&v, &p, i) {
            return true;
        }
        if i == v.len() - p.len() {
            return false;
        }
        i += 1;
    }
    false
}

/// What stands in `s` before the last `sep`, if `s` holds one.
pub fn split_before_last<'a>(s: &'a str, sep: char) -> (r: Option<&'a str>)
    ensures
        match r {
            Some(head) => before_last(s@, sep) == Some(head@),
            None => before_last(s@, sep) is None,
        },
{
    let v = chars_of(s);
    let mut i: usize = v.len();
    proof {
        assert(s@.take(i as int) =~= s@);
    }
    while i > 0
        invariant
            v@ == s@,
            i <= v@.len(),
            before_last(s@, sep) == before_last(s@.take(i as int), sep),
        decreases i,
    {
        i -= 1;
        proof {
            assert(s@.take(i + 1).drop_last() =~= s@.take(i as int));
        }
        if v[i] == sep {
            let head = s.substring_char(0, i);
            proof {
                assert(head@ =~= s@.take(i as int));
            }
            return Some(head);
        }
    }
    None
}

/// `s` without the square brackets around it, where it stands in brackets.
pub fn unbracket<'a>(s: &'a str) -> (r: &'a str)
    ensures
        r@ == unbracketed(s@),
{
    let v = chars_of(s);
    let end: usize = v.len();
    if end >= 2 && v[0] == '[' && v[end - 1] == ']' {
        s.substring_char(1, end - 1)
    } else {
        s
    }
}

/// What stands before the last separator is all but the separator and what follows it.
pub proof fn before_last_separator(head: Seq<char>, sep: char, tail: Seq<char>)
    requires
        !tail.contains(sep),
    ensures
        before_last(head.push(sep) + tail, sep) == Some(head),
    decreases tail.len(),
{
    let s = head.push(sep) + tail;
    if tail.len() == 0 {
        assert(s =~= head.push(sep));
        assert(s.drop_last() =~= head);
    } else {
        let rest = tail.drop_last();
        assert(tail.last() != sep) by {
            assert(tail.contains(tail[tail.len() - 1]));
        }
        assert forall|i: int| 0 <= i < rest.len() implies rest[i] != sep by {
            assert(tail.contains(tail[i]));
        }
        assert(s.drop_last() =~= head.push(sep) + rest);
        before_last_separator(head, sep, rest);
    }
}

/// Without a separator, nothing stands before the last one.
pub proof fn no_separator_nothing_before(s: Seq<char>, sep: char)
    ensures
        before_last(s, sep) is None <==> !s.contains(sep),
    decreases s.len(),
{
    if s.len() > 0 {
        let init = s.drop_last();
        no_separator_nothing_before(init, sep);
        if s.last() == sep {
            assert(s[s.len() - 1] == sep);
        } else {
            if init.contains(sep) {
                let i = choose|i: int| 0 <= i < init.len() && init[i] == sep;
                assert(s[i] == sep);
            }
            if s.contains(sep) {
                let i = choose|i: int| 0 <= i < s.len() && s[i] == sep;
                assert(init[i] == sep);
            }
        }
    }
}

/// Whether `c` is white space.
fn is_space_char(c: char) -> (r: bool)
    ensures
        r == is_space(c),
{
    (c >= '\u{9}' && c <= '\u{d}') || c == ' ' || c == '\u{85}' || c == '\u{a0}' || c == '\u{1680}'
        || (c >= '\u{2000}' && c <= '\u{200a}') || c == '\u{2028}' || c == '\u{2029}' || c
        == '\u{202f}' || c == '\u{205f}' || c == '\u{3000}'
}

/// `s` without the white space at either end.
pub fn trim<'a>(s: &'a str) -> (r: &'a str)
    ensures
        r@ == trimmed(s@),
{
    let v = chars_of(s);
    let n: usize = v.len();
    let mut from: usize = 0;
    proof {
        assert(s@.skip(0) =~= s@);
    }
    while from < n && is_space_char(v[from])
        invariant
            v@ == s@,
            n == v@.len(),
            from <= n,
            trimmed_start(s@) == trimmed_start(s@.skip(from as int)),
        decreases n - from,
    {
        proof {
            assert(s@.skip(from as int).drop_first() =~= s@.skip(from + 1));
        }
        from += 1;
    }
    let mut to: usize = n;
    let ghost body = s@.skip(from as int);
    proof {
        assert(trimmed_start(s@) == body);
        assert(s@.subrange(from as int, to as int) =~= body);
    }
    while to > from && is_space_char(v[to - 1])
        invariant
            v@ == s@,
            n == v@.len(),
            from <= to <= n,
            trimmed_end(body) == trimmed_end(s@.subrange(from as int, to as int)),
        decreases to,
    {
        proof {
            assert(s@.subrange(from as int, to as int).drop_last() =~= s@.subrange(
                from as int,
                to - 1,
            ));
        }
        to -= 1;
    }
    s.substring_char(from, to)
}

/// The digit of `d`, as text.
fn digit_text(d: u64) -> (r: &'static str)
    requires
        d < 10,
    ensures
        r@ == seq![digit(d as nat)],
{
    proof {
        reveal_strlit("0");
        reveal_strlit("1");
        reveal_strlit("2");
        reveal_strlit("3");
        reveal_strlit("4");
        reveal_strlit("5");
        reveal_strlit("6");
        reveal_strlit("7");
        reveal_strlit("8");
        reveal_strlit("9");
    }
    if d == 0 {
        "0"
    } else if d == 1 {
        "1"
    } else if d == 2 {
        "2"
    } else if d == 3 {
        "3"
    } else if d == 4 {
        "4"
    } else if d == 5 {
        "5"
    } else if d == 6 {
        "6"
    } else if d == 7 {
        "7"
    } else if d == 8 {
        "8"
    } else {
        "9"
    }
}

/// `n` in decimal.
pub fn decimal_text(n: u64) -> (r: String)
    ensures
        r@ == decimal(n as nat),
    decreases n,
{
    if n < 10 {
        digit_text(n).to_owned()
    } else {
        let mut r = decimal_text(n / 10);
        let d = digit_text(n % 10);
        r.append(d);
        proof {
            assert(r@ =~= decimal((n / 10) as nat).push(digit((n % 10) as nat)));
        }
        r
    }
}

/// The hexadecimal digit of `d`, as text.
fn hex_digit_text(d: u8) -> (r: &'static str)
    requires
        d < 16,
    ensures
        r@ == seq![hex_digit(d as nat)],
{
    proof {
        reveal_strlit("a");
        reveal_strlit("b");
        reveal_strlit("c");
        reveal_strlit("d");
        reveal_strlit("e");
        reveal_strlit("f");
    }
    if d < 10 {
        digit_text(d as u64)
    } else if d == 10 {
        "a"
    } else if d == 11 {
        "b"
    } else if d == 12 {
        "c"
    } else if d == 13 {
        "d"
    } else if d == 14 {
        "e"
    } else {
        "f"
    }
}

/// The two hexadecimal digits of `b`.
pub open spec fn byte_hex(b: u8) -> Seq<char> {
    seq![hex_digit((b / 16) as nat), hex_digit((b % 16) as nat)]
}

/// `b` as two hexadecimal digits.
pub fn byte_hex_text(b: u8) -> (r: String)
    ensures
        r@ == byte_hex(b),
{
    let mut r = hex_digit_text(b / 16).to_owned();
    r.append(hex_digit_text(b % 16));
    proof {
        assert(r@ =~= byte_hex(b));
    }
    r
}

/// `n` copies of the single character of `unit`.
pub fn repeat_text(unit: &str, n: usize) -> (r: String)
    requires
        unit@.len() == 1,
    ensures
        r@ == copies(unit@[0], n as nat),
{
    let mut r = String::new();
    let mut i: usize = 0;
    while i < n
        invariant
            unit@.len() == 1,
            i <= n,
            r@ == copies(unit@[0], i as nat),
        decreases n - i,
    {
        r.append(unit);
        i += 1;
        proof {
            assert(r@ =~= copies(unit@[0], i as nat));
        }
    }
    r
}

/// `s`, filled up on its right to `width` characters.
pub fn align_left(s: &str, width: usize) -> (r: String)
    ensures
        r@ == left_aligned(s@, width as nat),
{
    let n: usize = s.unicode_len();
    let mut r = s.to_owned();
    if n < width {
        proof {
            reveal_strlit(" ");
        }
        let fill = repeat_text(" ", width - n);
        r.append(fill.as_str());
    }
    r
}

/// `s`, filled up on its left to `width` characters.
pub fn align_right(s: &str, width: usize) -> (r: String)
    ensures
        r@ == right_aligned(s@, width as nat),
{
    let n: usize = s.unicode_len();
    if n < width {
        proof {
            reveal_strlit(" ");
        }
        let mut r = repeat_text(" ", width - n);
        r.append(s);
        r
    } else {
        s.to_owned()
    }
}

/// The number that decimal digits write.
pub open spec fn number_of(digits: Seq<char>) -> int
    decreases digits.len(),
{
    if digits.len() == 0 {
        0
    } else {
        10 * number_of(digits.drop_last()) + (digits.last() as int - '0' as int)
    }
}

/// A number in decimal consists of digits, has no leading zero and writes the number.
pub proof fn decimals_write_their_number(n: nat)
    ensures
        number_of(decimal(n)) == n,
        forall|i: int| 0 <= i < decimal(n).len() ==> '0' <= #[trigger] decimal(n)[i] <= '9',
        1 <= decimal(n).len(),
        n > 0 ==> decimal(n)[0] != '0',
        n == 0 ==> decimal(n) == seq!['0'],
    decreases n,
{
    let s = decimal(n);
    if n < 10 {
        assert(s.drop_last() =~= seq![]);
        assert(number_of(s.drop_last()) == 0);
    } else {
        decimals_write_their_number(n / 10);
        assert(s.drop_last() =~= decimal(n / 10));
        assert(s[0] == decimal(n / 10)[0]);
        assert forall|i: int| 0 <= i < s.len() implies '0' <= #[trigger] s[i] <= '9' by {
            if i < s.len() - 1 {
                assert(s[i] == decimal(n / 10)[i]);
            }
        }
    }
}

/// A text occurs in another if and only if the other is made of it and of what stands
/// around it.
pub proof fn occurring_texts_stand_between_others(
    needle: Seq<char>,
    before: Seq<char>,
    after: Seq<char>,
    s: Seq<char>,
)
    ensures
        occurs_in(needle, before + needle + after),
        occurs_in(needle, s) ==> exists|a: Seq<char>, b: Seq<char>| s == #[trigger] (a + needle + b),
{
    let whole = before + needle + after;
    let at = before.len() as int;
    assert(whole.subrange(at, at + needle.len()) =~= needle);
    if occurs_in(needle, s) {
        let i = choose|i: int|
            0 <= i <= s.len() - needle.len() && #[trigger] s.subrange(i, i + needle.len()) == needle;
        let a = s.take(i);
        let b = s.skip(i + needle.len());
        assert forall|k: int| 0 <= k < needle.len() implies needle[k] == s[i + k] by {
            assert(s.subrange(i, i + needle.len())[k] == needle[k]);
        }
        assert(s =~= a + needle + b);
    }
}

/// Brackets come off where a text stands in them, and nothing else does.
pub proof fn brackets_come_off_in_pairs(s: Seq<char>)
    ensures
        unbracketed(seq!['['] + s + seq![']']) == s,
        s.len() == 0 || s[0] != '[' || s[s.len() - 1] != ']' ==> unbracketed(s) == s,
{
    let whole = seq!['['] + s + seq![']'];
    assert(whole.subrange(1, whole.len() - 1) =~= s);
}

/// What stands before the last separator, the separator and what follows it, which holds
/// no further one, are the whole text.
pub proof fn the_last_separator_splits_the_text(s: Seq<char>, sep: char) -> (tail: Seq<char>)
    ensures
        before_last(s, sep) matches Some(head) ==> s == head.push(sep) + tail && !tail.contains(
            sep,
        ),
    decreases s.len(),
{
    if s.len() == 0 {
        seq![]
    } else if s.last() == sep {
        assert(s =~= s.drop_last().push(sep) + Seq::<char>::empty());
        seq![]
    } else {
        let tail = the_last_separator_splits_the_text(s.drop_last(), sep);
        let longer = tail.push(s.last());
        if let Some(head) = before_last(s, sep) {
            assert(s =~= s.drop_last().push(s.last()));
            assert((head.push(sep) + tail).push(s.last()) =~= head.push(sep) + longer);
            assert forall|i: int| 0 <= i < longer.len() implies longer[i] != sep by {
                if i < tail.len() {
                    assert(tail.contains(tail[i]));
                }
            }
        }
        longer
    }
}

/// Trimming takes white space from both ends and nothing else, and leaves none there.
pub proof fn trimming_takes_white_space_alone(s: Seq<char>)
    ensures
        exists|a: Seq<char>, b: Seq<char>|
            {
                &&& s == #[trigger] (a + trimmed(s) + b)
                &&& forall|k: int| 0 <= k < a.len() ==> is_space(#[trigger] a[k])
                &&& forall|k: int| 0 <= k < b.len() ==> is_space(#[trigger] b[k])
            },
        trimmed(s).len() > 0 ==> !is_space(trimmed(s)[0]) && !is_space(
            trimmed(s)[trimmed(s).len() - 1],
        ),
{
    let a = lemma_trimmed_start(s);
    let b = lemma_trimmed_end(trimmed_start(s));
    assert(s =~= a + trimmed(s) + b);
    if trimmed(s).len() > 0 {
        assert(trimmed_start(s)[0] == trimmed(s)[0]);
    }
}

proof fn lemma_trimmed_start(s: Seq<char>) -> (a: Seq<char>)
    ensures
        s == a + trimmed_start(s),
        forall|k: int| 0 <= k < a.len() ==> is_space(#[trigger] a[k]),
        trimmed_start(s).len() > 0 ==> !is_space(trimmed_start(s)[0]),
    decreases s.len(),
{
    if s.len() > 0 && is_space(s.first()) {
        let rest = lemma_trimmed_start(s.drop_first());
        let a = seq![s.first()] + rest;
        assert(s =~= seq![s.first()] + s.drop_first());
        assert(a + trimmed_start(s) =~= seq![s.first()] + (rest + trimmed_start(s)));
        a
    } else {
        assert(s =~= seq![] + s);
        seq![]
    }
}

proof fn lemma_trimmed_end(s: Seq<char>) -> (b: Seq<char>)
    ensures
        s == trimmed_end(s) + b,
        forall|k: int| 0 <= k < b.len() ==> is_space(#[trigger] b[k]),
        trimmed_end(s).len() > 0 ==> !is_space(trimmed_end(s)[trimmed_end(s).len() - 1]),
    decreases s.len(),
{
    if s.len() > 0 && is_space(s.last()) {
        let rest = lemma_trimmed_end(s.drop_last());
        let b = rest.push(s.last());
        assert(s =~= s.drop_last().push(s.last()));
        assert(trimmed_end(s) + b =~= (trimmed_end(s) + rest).push(s.last()));
        b
    } else {
        assert(s =~= s + seq![]);
        seq![]
    }
}

/// Of the characters of ASCII, tab, the line breaks and the blank are white space, and no
/// others.
pub proof fn ascii_white_space(c: char)
    requires
        c as int <= 0x7f,
    ensures
        is_space(c) <==> 9 <= c as int <= 13 || c as int == 32,
{
}

/// Filling up keeps the text, at the left or at the right end of the width, adds blanks
/// alone, and cuts nothing off.
pub proof fn filling_up_keeps_the_text(s: Seq<char>, width: nat)
    ensures
        s.is_prefix_of(left_aligned(s, width)),
        s.is_suffix_of(right_aligned(s, width)),
        s.len() <= width ==> left_aligned(s, width).len() == width && right_aligned(
            s,
            width,
        ).len() == width,
        s.len() > width ==> left_aligned(s, width) == s && right_aligned(s, width) == s,
        forall|i: int|
            s.len() <= i < left_aligned(s, width).len() ==> #[trigger] left_aligned(s, width)[i]
                == ' ',
        forall|i: int|
            0 <= i < right_aligned(s, width).len() - s.len() ==> #[trigger] right_aligned(s, width)[i]
                == ' ',
{
}

/// A text that neither begins nor ends with white space is what is left of it, whatever
/// white space stands around it.
pub proof fn white_space_around_a_text_goes(a: Seq<char>, core: Seq<char>, b: Seq<char>)
    requires
        forall|k: int| 0 <= k < a.len() ==> is_space(#[trigger] a[k]),
        forall|k: int| 0 <= k < b.len() ==> is_space(#[trigger] b[k]),
        core.len() > 0,
        !is_space(core[0]),
        !is_space(core[core.len() - 1]),
    ensures
        trimmed(a + core + b) == core,
{
    lemma_spaces_before(a, core + b);
    assert(a + core + b =~= a + (core + b));
    lemma_spaces_behind(core, b);
}

proof fn lemma_spaces_before(a: Seq<char>, s: Seq<char>)
    requires
        forall|k: int| 0 <= k < a.len() ==> is_space(#[trigger] a[k]),
        s.len() > 0,
        !is_space(s[0]),
    ensures
        trimmed_start(a + s) == s,
    decreases a.len(),
{
    if a.len() == 0 {
        assert(a + s =~= s);
    } else {
        let rest = a.drop_first();
        assert(is_space(a[0]));
        assert forall|k: int| 0 <= k < rest.len() implies is_space(#[trigger] rest[k]) by {
            assert(is_space(a[k + 1]));
        }
        lemma_spaces_before(rest, s);
        assert((a + s).drop_first() =~= rest + s);
        assert((a + s).first() == a[0]);
    }
}

proof fn lemma_spaces_behind(s: Seq<char>, b: Seq<char>)
    requires
        forall|k: int| 0 <= k < b.len() ==> is_space(#[trigger] b[k]),
        s.len() > 0,
        !is_space(s[s.len() - 1]),
    ensures
        trimmed_end(s + b) == s,
    decreases b.len(),
{
    if b.len() == 0 {
        assert(s + b =~= s);
    } else {
        let rest = b.drop_last();
        assert(is_space(b[b.len() - 1]));
        assert forall|k: int| 0 <= k < rest.len() implies is_space(#[trigger] rest[k]) by {
            assert(is_space(b[k]));
        }
        lemma_spaces_behind(s, rest);
        assert((s + b).drop_last() =~= s + rest);
        assert((s + b).last() == b[b.len() - 1]);
    }
}

/// The texts of strings are those of each of them, in its place.
pub proof fn texts_keep_their_places(v: Seq<String>, i: int)
    requires
        0 <= i < v.len(),
    ensures
        texts(v).len() == v.len(),
        texts(v)[i] == v[i]@,
{
}

}

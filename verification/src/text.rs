//! Text primitives shared by the other modules: character classes, decimal and
//! hexadecimal rendering, trimming, and JSON string escaping.

use vstd::prelude::*;
use vstd::string::*;

verus! {

/// `String::push` appends one character at the end.
pub assume_specification[ String::push ](s: &mut String, c: char)
    ensures
        final(s)@ == old(s)@.push(c),
;

/// The characters of `s`, in order.
pub fn chars_of(s: &str) -> (v: Vec<char>)
    ensures
        v@ == s@,
{
    let mut v: Vec<char> = Vec::new();
    for c in it: s.chars()
        invariant
            it.seq() == s@,
            v@ == s@.take(it.index() as int),
    {
        proof {
            assert(s@.take(it.index() as int).push(c) =~= s@.take(it.index() as int + 1));
        }
        v.push(c);
    }
    proof {
        assert(s@.take(s@.len() as int) =~= s@);
    }
    v
}

/// The string that consists of `chars`, in order.
pub fn string_of(chars: &[char]) -> (s: String)
    ensures
        s@ == chars@,
{
    let mut s: String = String::new();
    let mut i: usize = 0;
    while i < chars.len()
        invariant
            i <= chars.len(),
            s@ == chars@.take(i as int),
        decreases chars.len() - i,
    {
        proof {
            assert(chars@.take(i as int).push(chars@[i as int]) =~= chars@.take(i as int + 1));
        }
        s.push(chars[i]);
        i = i + 1;
    }
    proof {
        assert(chars@.take(chars@.len() as int) =~= chars@);
    }
    s
}

/// The code point of `c`.
pub fn code_point(c: char) -> (n: u32)
    ensures
        n as int == c as int,
        n <= 0x10ffff,
{
    c as u32
}

/// Whether `c` has the Unicode `White_Space` property.
pub open spec fn whitespace(c: char) -> bool {
    let n = c as int;
    ||| 0x9 <= n <= 0xd
    ||| n == 0x20
    ||| n == 0x85
    ||| n == 0xa0
    ||| n == 0x1680
    ||| 0x2000 <= n <= 0x200a
    ||| n == 0x2028
    ||| n == 0x2029
    ||| n == 0x202f
    ||| n == 0x205f
    ||| n == 0x3000
}

/// Decides [`whitespace`].
pub fn is_whitespace(c: char) -> (b: bool)
    ensures
        b == whitespace(c),
{
    let n: u32 = c as u32;
    (0x9 <= n && n <= 0xd) || n == 0x20 || n == 0x85 || n == 0xa0 || n == 0x1680
        || (0x2000 <= n && n <= 0x200a) || n == 0x2028 || n == 0x2029 || n == 0x202f || n == 0x205f
        || n == 0x3000
}

/// Whether `s` holds nothing but white space, so that trimming leaves nothing.
pub open spec fn blank(s: Seq<char>) -> bool {
    forall|i: int| 0 <= i < s.len() ==> whitespace(#[trigger] s[i])
}

/// Decides [`blank`].
pub fn is_blank(s: &str) -> (b: bool)
    ensures
        b == blank(s@),
{
    let chars = chars_of(s);
    let mut i: usize = 0;
    while i < chars.len()
        invariant
            i <= chars.len(),
            chars@ == s@,
            forall|j: int| 0 <= j < i ==> whitespace(#[trigger] chars@[j]),
        decreases chars.len() - i,
    {
        if !is_whitespace(chars[i]) {
            assert(!whitespace(s@[i as int]));
            return false;
        }
        i = i + 1;
    }
    true
}

/// `s` without its leading white space.
pub open spec fn trim_start(s: Seq<char>) -> Seq<char>
    decreases s.len(),
{
    if s.len() > 0 && whitespace(s[0]) {
        trim_start(s.skip(1))
    } else {
        s
    }
}

/// `s` without its trailing white space.
pub open spec fn trim_end(s: Seq<char>) -> Seq<char>
    decreases s.len(),
{
    if s.len() > 0 && whitespace(s.last()) {
        trim_end(s.drop_last())
    } else {
        s
    }
}

/// `s` without its leading and trailing white space.
pub open spec fn trimmed(s: Seq<char>) -> Seq<char> {
    trim_end(trim_start(s))
}

/// Removes leading and trailing white space.
pub fn trim(s: &str) -> (t: String)
    ensures
        t@ == trimmed(s@),
{
    let chars = chars_of(s);
    let mut start: usize = 0;
    assert(s@.skip(0) =~= s@);
    while start < chars.len() && is_whitespace(chars[start])
        invariant
            start <= chars.len(),
            chars@ == s@,
            trim_start(s@) == trim_start(s@.skip(start as int)),
        decreases chars.len() - start,
    {
        proof {
            assert(s@.skip(start as int).skip(1) =~= s@.skip(start as int + 1));
        }
        start = start + 1;
    }
    let ghost body = s@.skip(start as int);
    assert(trim_start(s@) == body);
    let mut end: usize = chars.len();
    assert(body.take(end - start) =~= body);
    while start < end && is_whitespace(chars[end - 1])
        invariant
            start <= end <= chars.len(),
            chars@ == s@,
            body == s@.skip(start as int),
            trim_end(body) == trim_end(body.take(end - start)),
        decreases end - start,
    {
        proof {
            assert(body.take(end - start).drop_last() =~= body.take(end - start - 1));
        }
        end = end - 1;
    }
    assert(trim_end(body) == body.take(end - start));
    assert(chars@.subrange(start as int, end as int) =~= body.take(end - start));
    string_of(&chars[start..end])
}

/// The ASCII lower-case form of `c`.
pub open spec fn ascii_lower(c: char) -> char {
    if 'A' as int <= c as int <= 'Z' as int {
        (c as int + 32) as char
    } else {
        c
    }
}

/// The ASCII lower-case form of `s`.
pub open spec fn ascii_lowercase(s: Seq<char>) -> Seq<char> {
    s.map_values(|c: char| ascii_lower(c))
}

/// Maps `A..=Z` to `a..=z` and keeps every other character.
pub fn to_ascii_lowercase(s: &str) -> (t: String)
    ensures
        t@ == ascii_lowercase(s@),
{
    let chars = chars_of(s);
    let mut out: String = String::new();
    let mut i: usize = 0;
    while i < chars.len()
        invariant
            i <= chars.len(),
            chars@ == s@,
            out@ == ascii_lowercase(s@).take(i as int),
        decreases chars.len() - i,
    {
        let n: u32 = code_point(chars[i]);
        let lower: char = if 65 <= n && n <= 90 {
            ((n + 32) as u8) as char
        } else {
            chars[i]
        };
        proof {
            assert(lower == ascii_lower(s@[i as int]));
            assert(ascii_lowercase(s@).take(i as int).push(lower)
                =~= ascii_lowercase(s@).take(i as int + 1));
        }
        out.push(lower);
        i = i + 1;
    }
    proof {
        assert(ascii_lowercase(s@).take(s@.len() as int) =~= ascii_lowercase(s@));
    }
    out
}

/// The decimal digit character of `d`.
pub open spec fn digit_char(d: nat) -> char {
    (48 + d) as char
}

/// Decimal rendering without leading zeros.
pub open spec fn decimal(n: nat) -> Seq<char>
    decreases n,
{
    if n < 10 {
        seq![digit_char(n)]
    } else {
        decimal(n / 10).push(digit_char(n % 10))
    }
}

/// Appends the decimal rendering of `n`.
pub fn append_decimal(out: &mut String, n: u128)
    ensures
        final(out)@ == old(out)@ + decimal(n as nat),
    decreases n,
{
    if n >= 10 {
        append_decimal(out, n / 10);
    }
    let c: char = (48u8 + (n % 10) as u8) as char;
    assert(c == digit_char((n % 10) as nat));
    out.push(c);
    proof {
        if n >= 10 {
            assert(old(out)@ + decimal(n as nat) =~= (old(out)@ + decimal((n / 10) as nat)).push(c));
        } else {
            assert(old(out)@ + decimal(n as nat) =~= old(out)@.push(c));
        }
    }
}

/// Decimal rendering of a signed value.
pub open spec fn decimal_signed(n: int) -> Seq<char> {
    if n < 0 {
        seq!['-'] + decimal((-n) as nat)
    } else {
        decimal(n as nat)
    }
}

/// Appends the decimal rendering of `n`, with a leading minus sign when negative.
pub fn append_decimal_signed(out: &mut String, n: i32)
    ensures
        final(out)@ == old(out)@ + decimal_signed(n as int),
{
    if n < 0 {
        let magnitude: u128 = (-(n as i64)) as u128;
        out.push('-');
        append_decimal(out, magnitude);
        assert(final(out)@ =~= old(out)@ + decimal_signed(n as int));
    } else {
        append_decimal(out, n as u128);
    }
}

/// Whether `c` is one of `0..=9`.
pub open spec fn is_digit(c: char) -> bool {
    48 <= c as int <= 57
}

/// Whether `s` is a nonempty run of decimal digits.
pub open spec fn all_digits(s: Seq<char>) -> bool {
    s.len() > 0 && forall|i: int| 0 <= i < s.len() ==> is_digit(#[trigger] s[i])
}

/// The number that a run of decimal digits denotes.
pub open spec fn decimal_value(s: Seq<char>) -> nat
    decreases s.len(),
{
    if s.len() == 0 {
        0
    } else {
        decimal_value(s.drop_last()) * 10 + (s.last() as int - 48) as nat
    }
}

/// The number that `s` denotes when it is a run of digits no larger than `max`.
pub open spec fn digits_within(s: Seq<char>, max: nat) -> Option<nat> {
    if all_digits(s) && decimal_value(s) <= max {
        Some(decimal_value(s))
    } else {
        None
    }
}

/// A longer run of digits denotes no smaller number.
pub proof fn lemma_decimal_value_prefix(s: Seq<char>, n: int)
    requires
        0 <= n <= s.len(),
        forall|i: int| 0 <= i < s.len() ==> is_digit(#[trigger] s[i]),
    ensures
        decimal_value(s.take(n)) <= decimal_value(s),
    decreases s.len(),
{
    if n < s.len() {
        assert(s.drop_last().take(n) =~= s.take(n));
        lemma_decimal_value_prefix(s.drop_last(), n);
    } else {
        assert(s.take(n) =~= s);
    }
}

/// Reads a run of decimal digits that denotes a number no larger than `max`.
pub fn parse_digits(chars: &[char], max: u64) -> (n: Option<u64>)
    ensures
        match n {
            Some(v) => digits_within(chars@, max as nat) == Some(v as nat),
            None => digits_within(chars@, max as nat) is None,
        },
{
    if chars.len() == 0 {
        return None;
    }
    let mut value: u64 = 0;
    let mut i: usize = 0;
    while i < chars.len()
        invariant
            i <= chars.len(),
            value <= max,
            value == decimal_value(chars@.take(i as int)),
            forall|j: int| 0 <= j < i ==> is_digit(#[trigger] chars@[j]),
        decreases chars.len() - i,
    {
        let n: u32 = code_point(chars[i]);
        if n < 48 || n > 57 {
            assert(!is_digit(chars@[i as int]));
            return None;
        }
        let digit: u64 = (n - 48) as u64;
        proof {
            assert(chars@.take(i as int + 1).drop_last() =~= chars@.take(i as int));
        }
        let wide: u128 = value as u128 * 10 + digit as u128;
        assert(wide == decimal_value(chars@.take(i as int + 1)));
        if wide > max as u128 {
            proof {
                if all_digits(chars@) {
                    lemma_decimal_value_prefix(chars@, i as int + 1);
                }
            }
            return None;
        }
        value = wide as u64;
        i = i + 1;
    }
    assert(chars@.take(chars@.len() as int) =~= chars@);
    Some(value)
}

/// Every character of a decimal rendering is a digit, and the digits denote
/// the number that was rendered.
pub proof fn lemma_decimal_round_trip(n: nat)
    ensures
        all_digits(decimal(n)),
        decimal_value(decimal(n)) == n,
    decreases n,
{
    if n < 10 {
        let s = seq![digit_char(n)];
        assert(s.drop_last() =~= Seq::<char>::empty());
        assert(decimal_value(s.drop_last()) == 0);
    } else {
        lemma_decimal_round_trip(n / 10);
        assert(decimal(n).drop_last() =~= decimal(n / 10));
        assert forall|i: int| 0 <= i < decimal(n).len() implies is_digit(#[trigger] decimal(n)[i]) by {
            if i < decimal(n / 10).len() {
                assert(decimal(n)[i] == decimal(n / 10)[i]);
            }
        }
    }
}

/// The lower-case hexadecimal digit of `d`.
pub open spec fn hex_char(d: nat) -> char {
    if d < 10 {
        (48 + d) as char
    } else {
        (87 + d) as char
    }
}

/// The two lower-case hexadecimal digits of one byte.
pub open spec fn hex_byte(b: u8) -> Seq<char> {
    seq![hex_char((b / 16) as nat), hex_char((b % 16) as nat)]
}

/// The lower-case hexadecimal digits of `bytes`, two per byte.
pub open spec fn hex(bytes: Seq<u8>) -> Seq<char>
    decreases bytes.len(),
{
    if bytes.len() == 0 {
        Seq::empty()
    } else {
        hex(bytes.drop_last()) + hex_byte(bytes.last())
    }
}

/// A hexadecimal rendering has two characters per byte.
pub proof fn lemma_hex_len(bytes: Seq<u8>)
    ensures
        hex(bytes).len() == 2 * bytes.len(),
    decreases bytes.len(),
{
    if bytes.len() > 0 {
        lemma_hex_len(bytes.drop_last());
    }
}

/// Whether `c` is a lower-case hexadecimal digit.
pub open spec fn is_lower_hex(c: char) -> bool {
    '0' <= c <= '9' || 'a' <= c <= 'f'
}

/// Different digits are written differently, and as lower-case ones.
pub proof fn lemma_hex_char(d: nat, e: nat)
    requires
        d < 16,
        e < 16,
    ensures
        is_lower_hex(hex_char(d)),
        hex_char(d) == hex_char(e) ==> d == e,
{
}

/// Each byte of a hexadecimal rendering stands at its own two characters.
pub proof fn lemma_hex_at(bytes: Seq<u8>, i: int)
    requires
        0 <= i < bytes.len(),
    ensures
        hex(bytes).len() == 2 * bytes.len(),
        hex(bytes)[2 * i] == hex_char((bytes[i] / 16) as nat),
        hex(bytes)[2 * i + 1] == hex_char((bytes[i] % 16) as nat),
    decreases bytes.len(),
{
    lemma_hex_len(bytes);
    lemma_hex_len(bytes.drop_last());
    if i < bytes.len() - 1 {
        lemma_hex_at(bytes.drop_last(), i);
    }
}

fn hex_digit(d: u8) -> (c: char)
    requires
        d < 16,
    ensures
        c == hex_char(d as nat),
{
    if d < 10 {
        (48u8 + d) as char
    } else {
        (87u8 + d) as char
    }
}

/// Appends the lower-case hexadecimal digits of `bytes`.
pub fn append_hex(out: &mut String, bytes: &[u8])
    ensures
        final(out)@ == old(out)@ + hex(bytes@),
{
    let mut i: usize = 0;
    assert(out@ =~= old(out)@ + hex(bytes@.take(0)));
    while i < bytes.len()
        invariant
            i <= bytes.len(),
            out@ == old(out)@ + hex(bytes@.take(i as int)),
        decreases bytes.len() - i,
    {
        let b: u8 = bytes[i];
        out.push(hex_digit(b / 16));
        out.push(hex_digit(b % 16));
        proof {
            let next = bytes@.take(i as int + 1);
            assert(next.drop_last() =~= bytes@.take(i as int));
            assert(out@ =~= old(out)@ + hex(next));
        }
        i = i + 1;
    }
    assert(bytes@.take(bytes@.len() as int) =~= bytes@);
}

/// What one character becomes inside a JSON string.
pub open spec fn json_escaped_char(c: char) -> Seq<char> {
    if c == '"' {
        seq!['\\', '"']
    } else if c == '\\' {
        seq!['\\', '\\']
    } else if c == '\n' {
        seq!['\\', 'n']
    } else if c == '\r' {
        seq!['\\', 'r']
    } else if c == '\t' {
        seq!['\\', 't']
    } else if (c as int) < 0x20 {
        seq!['\\', 'u', '0', '0'] + hex_byte(c as u8)
    } else {
        seq![c]
    }
}

/// The JSON string body of `s`.
pub open spec fn json_escaped(s: Seq<char>) -> Seq<char>
    decreases s.len(),
{
    if s.len() == 0 {
        Seq::empty()
    } else {
        json_escaped(s.drop_last()) + json_escaped_char(s.last())
    }
}

/// Escapes `s` for use between the quotes of a JSON string.
pub fn json_escape(s: &str) -> (out: String)
    ensures
        out@ == json_escaped(s@),
{
    let chars = chars_of(s);
    let mut out: String = String::new();
    let mut i: usize = 0;
    assert(s@.take(0) =~= Seq::<char>::empty());
    while i < chars.len()
        invariant
            i <= chars.len(),
            chars@ == s@,
            out@ == json_escaped(s@.take(i as int)),
        decreases chars.len() - i,
    {
        let c: char = chars[i];
        let ghost before = out@;
        if c == '"' {
            out.push('\\');
            out.push('"');
        } else if c == '\\' {
            out.push('\\');
            out.push('\\');
        } else if c == '\n' {
            out.push('\\');
            out.push('n');
        } else if c == '\r' {
            out.push('\\');
            out.push('r');
        } else if c == '\t' {
            out.push('\\');
            out.push('t');
        } else if code_point(c) < 0x20 {
            let b: u8 = code_point(c) as u8;
            out.push('\\');
            out.push('u');
            out.push('0');
            out.push('0');
            out.push(hex_digit(b / 16));
            out.push(hex_digit(b % 16));
        } else {
            out.push(c);
        }
        proof {
            assert(out@ =~= before + json_escaped_char(c));
            assert(s@.take(i as int + 1).drop_last() =~= s@.take(i as int));
        }
        i = i + 1;
    }
    assert(s@.take(s@.len() as int) =~= s@);
    out
}

/// The parts of `s` between separators; a string without one is its own part.
pub open spec fn split_on(s: Seq<char>, separator: char) -> Seq<Seq<char>>
    decreases s.len(),
{
    if s.len() == 0 {
        seq![Seq::empty()]
    } else {
        let parts = split_on(s.drop_last(), separator);
        if s.last() == separator {
            parts.push(Seq::empty())
        } else {
            parts.drop_last().push(parts.last().push(s.last()))
        }
    }
}

/// There is always a last part.
pub proof fn lemma_split_nonempty(s: Seq<char>, separator: char)
    ensures
        split_on(s, separator).len() > 0,
    decreases s.len(),
{
    if s.len() > 0 {
        lemma_split_nonempty(s.drop_last(), separator);
    }
}

/// Whether `ranges` are the positions of the parts of `s`.
pub open spec fn are_parts(ranges: Seq<(usize, usize)>, s: Seq<char>, separator: char) -> bool {
    let parts = split_on(s, separator);
    &&& ranges.len() == parts.len()
    &&& forall|i: int|
        0 <= i < ranges.len() ==> (#[trigger] ranges[i]).0 <= ranges[i].1 <= s.len() && s.subrange(
            ranges[i].0 as int,
            ranges[i].1 as int,
        ) == parts[i]
}

/// The positions of the parts of `chars`.
pub fn split_ranges(chars: &[char], separator: char) -> (ranges: Vec<(usize, usize)>)
    ensures
        are_parts(ranges@, chars@, separator),
{
    let mut ranges: Vec<(usize, usize)> = Vec::new();
    let mut start: usize = 0;
    let mut i: usize = 0;
    let ghost none = Seq::<char>::empty();
    assert(chars@.take(0) =~= none);
    assert(chars@.subrange(0, 0) =~= none);
    assert(split_on(none, separator).drop_last() =~= Seq::<Seq<char>>::empty());
    while i < chars.len()
        invariant
            start <= i <= chars.len(),
            ({
                let parts = split_on(chars@.take(i as int), separator);
                &&& parts.len() == ranges@.len() + 1
                &&& chars@.subrange(start as int, i as int) == parts.last()
                &&& forall|j: int|
                    0 <= j < ranges@.len() ==> (#[trigger] ranges@[j]).0 <= ranges@[j].1 <= i
                        && chars@.subrange(ranges@[j].0 as int, ranges@[j].1 as int) == parts[j]
            }),
        decreases chars.len() - i,
    {
        let ghost parts = split_on(chars@.take(i as int), separator);
        proof {
            assert(chars@.take(i as int + 1).drop_last() =~= chars@.take(i as int));
            assert(chars@.subrange(start as int, i as int + 1) =~= chars@.subrange(
                start as int,
                i as int,
            ).push(chars@[i as int]));
            assert(chars@.subrange(i as int + 1, i as int + 1) =~= Seq::<char>::empty());
        }
        if chars[i] == separator {
            ranges.push((start, i));
            start = i + 1;
        }
        i = i + 1;
    }
    assert(chars@.take(chars@.len() as int) =~= chars@);
    ranges.push((start, chars.len()));
    ranges
}

/// Which characters separate the words of a text.
#[derive(Clone, Copy, Debug, PartialEq, Eq, Structural)]
pub enum Blanks {
    /// Space, tab, line feed, form feed and carriage return.
    Ascii,
    /// Everything with the Unicode `White_Space` property.
    Unicode,
}

/// Whether `c` separates words.
pub open spec fn separates(blanks: Blanks, c: char) -> bool {
    match blanks {
        Blanks::Ascii => {
            let n = c as int;
            n == 0x20 || n == 0x9 || n == 0xa || n == 0xc || n == 0xd
        },
        Blanks::Unicode => whitespace(c),
    }
}

/// Decides [`separates`].
pub fn is_separator(blanks: Blanks, c: char) -> (b: bool)
    ensures
        b == separates(blanks, c),
{
    match blanks {
        Blanks::Ascii => {
            let n: u32 = c as u32;
            n == 0x20 || n == 0x9 || n == 0xa || n == 0xc || n == 0xd
        },
        Blanks::Unicode => is_whitespace(c),
    }
}

/// Length of the word at the front.
pub open spec fn word_len(blanks: Blanks, s: Seq<char>) -> nat
    decreases s.len(),
{
    if s.len() == 0 || separates(blanks, s[0]) {
        0
    } else {
        1 + word_len(blanks, s.skip(1))
    }
}

/// A word is no longer than the text, and nonempty unless a separator follows.
pub proof fn lemma_word_len(blanks: Blanks, s: Seq<char>)
    ensures
        word_len(blanks, s) <= s.len(),
    decreases s.len(),
{
    if s.len() > 0 && !separates(blanks, s[0]) {
        lemma_word_len(blanks, s.skip(1));
    }
}

/// The words of a text, in order.
pub open spec fn words(blanks: Blanks, s: Seq<char>) -> Seq<Seq<char>>
    decreases s.len(),
    via words_decreases
{
    if s.len() == 0 {
        Seq::empty()
    } else if separates(blanks, s[0]) {
        words(blanks, s.skip(1))
    } else {
        let n = word_len(blanks, s) as int;
        seq![s.take(n)] + words(blanks, s.skip(n))
    }
}

#[via_fn]
proof fn words_decreases(blanks: Blanks, s: Seq<char>) {
    lemma_word_len(blanks, s);
}

/// Whether `ranges` are the positions of the words of `s`.
pub open spec fn are_words(ranges: Seq<(usize, usize)>, s: Seq<char>, blanks: Blanks) -> bool {
    &&& ranges.len() == words(blanks, s).len()
    &&& forall|i: int|
        0 <= i < ranges.len() ==> (#[trigger] ranges[i]).0 < ranges[i].1 <= s.len() && s.subrange(
            ranges[i].0 as int,
            ranges[i].1 as int,
        ) == words(blanks, s)[i]
}

/// The positions of the words of `chars`.
pub fn word_ranges(chars: &[char], blanks: Blanks) -> (ranges: Vec<(usize, usize)>)
    ensures
        are_words(ranges@, chars@, blanks),
{
    let ghost goal = words(blanks, chars@);
    let mut ranges: Vec<(usize, usize)> = Vec::new();
    let mut i: usize = 0;
    assert(chars@.skip(0) =~= chars@);
    assert(Seq::<Seq<char>>::empty() + goal =~= goal);
    while i < chars.len()
        invariant
            i <= chars@.len(),
            goal == words(blanks, chars@),
            goal.len() == ranges@.len() + words(blanks, chars@.skip(i as int)).len(),
            goal.skip(ranges@.len() as int) == words(blanks, chars@.skip(i as int)),
            forall|j: int|
                0 <= j < ranges@.len() ==> (#[trigger] ranges@[j]).0 < ranges@[j].1 <= chars@.len()
                    && chars@.subrange(ranges@[j].0 as int, ranges@[j].1 as int) == goal[j],
        decreases chars@.len() - i,
    {
        let ghost left = chars@.skip(i as int);
        if is_separator(blanks, chars[i]) {
            assert(left.skip(1) =~= chars@.skip(i as int + 1));
            i = i + 1;
        } else {
            let start: usize = i;
            while i < chars.len() && !is_separator(blanks, chars[i])
                invariant
                    start <= i <= chars@.len(),
                    left == chars@.skip(start as int),
                    word_len(blanks, left) == (i - start) + word_len(
                        blanks,
                        chars@.skip(i as int),
                    ),
                decreases chars@.len() - i,
            {
                assert(chars@.skip(i as int).skip(1) =~= chars@.skip(i as int + 1));
                i = i + 1;
            }
            proof {
                let n = word_len(blanks, left) as int;
                assert(n == i - start);
                assert(!separates(blanks, left[0]));
                assert(n > 0);
                assert(left.take(n) =~= chars@.subrange(start as int, i as int));
                assert(left.skip(n) =~= chars@.skip(i as int));
                assert(goal.skip(ranges@.len() as int)[0] == left.take(n));
                assert(goal[ranges@.len() as int] == left.take(n));
                assert(goal.skip(ranges@.len() as int + 1) =~= goal.skip(ranges@.len() as int).skip(
                    1,
                ));
                assert((seq![left.take(n)] + words(blanks, left.skip(n))).skip(1) =~= words(
                    blanks,
                    left.skip(n),
                ));
            }
            ranges.push((start, i));
        }
    }
    ranges
}

/// The number that a text denotes: digits, with at most one plus sign in front,
/// no larger than `max`.
pub open spec fn number_within(s: Seq<char>, max: nat) -> Option<nat> {
    if s.len() > 0 && s[0] == '+' {
        digits_within(s.skip(1), max)
    } else {
        digits_within(s, max)
    }
}

/// Reads a number that is no larger than `max`.
pub fn parse_number(chars: &[char], max: u64) -> (n: Option<u64>)
    ensures
        match n {
            Some(v) => number_within(chars@, max as nat) == Some(v as nat),
            None => number_within(chars@, max as nat) is None,
        },
{
    if chars.len() > 0 && chars[0] == '+' {
        let rest: &[char] = &chars[1..chars.len()];
        assert(rest@ =~= chars@.skip(1));
        parse_digits(rest, max)
    } else {
        parse_digits(chars, max)
    }
}

/// Whether two texts hold the same characters.
pub fn same_text(a: &str, b: &str) -> (r: bool)
    ensures
        r == (a@ == b@),
{
    let a_chars = chars_of(a);
    let b_chars = chars_of(b);
    if a_chars.len() != b_chars.len() {
        return false;
    }
    let mut i: usize = 0;
    while i < a_chars.len()
        invariant
            i <= a_chars@.len(),
            a_chars@ == a@,
            b_chars@ == b@,
            a_chars@.len() == b_chars@.len(),
            forall|j: int| 0 <= j < i ==> a_chars@[j] == b_chars@[j],
        decreases a_chars@.len() - i,
    {
        if a_chars[i] != b_chars[i] {
            assert(a_chars@[i as int] != b_chars@[i as int]);
            return false;
        }
        i = i + 1;
    }
    assert(a_chars@ =~= b_chars@);
    true
}

/// The signed 32-bit number that a text denotes: an optional sign and decimal
/// digits.
pub open spec fn signed_number(s: Seq<char>) -> Option<int> {
    if s.len() > 0 && s[0] == '-' {
        match digits_within(s.skip(1), 0x8000_0000) {
            Some(n) => Some(-(n as int)),
            None => None,
        }
    } else {
        match number_within(s, 0x7FFF_FFFF) {
            Some(n) => Some(n as int),
            None => None,
        }
    }
}

/// Reads a signed 32-bit number.
pub fn parse_signed(s: &str) -> (n: Option<i32>)
    ensures
        match n {
            Some(v) => signed_number(s@) == Some(v as int),
            None => signed_number(s@) is None,
        },
{
    let chars = chars_of(s);
    if chars.len() > 0 && chars[0] == '-' {
        match parse_digits(vstd::slice::slice_subrange(chars.as_slice(), 1, chars.len()), 0x8000_0000) {
            Some(v) => {
                assert(chars@.subrange(1, chars@.len() as int) =~= s@.skip(1));
                Some((-(v as i64)) as i32)
            },
            None => {
                assert(chars@.subrange(1, chars@.len() as int) =~= s@.skip(1));
                None
            },
        }
    } else {
        match parse_number(chars.as_slice(), 0x7FFF_FFFF) {
            Some(v) => Some(v as i32),
            None => None,
        }
    }
}

/// The last `width` decimal digits of a number.
pub open spec fn padded(n: nat, width: nat) -> Seq<char>
    decreases width,
{
    if width == 0 {
        Seq::empty()
    } else {
        padded(n / 10, (width - 1) as nat).push(digit_char(n % 10))
    }
}

/// Appends the last `width` decimal digits of a number.
pub fn append_padded(out: &mut String, n: u64, width: usize)
    ensures
        final(out)@ == old(out)@ + padded(n as nat, width as nat),
    decreases width,
{
    if width > 0 {
        append_padded(out, n / 10, width - 1);
        let digit: u8 = 48 + (n % 10) as u8;
        out.push(digit as char);
        assert(out@ =~= old(out)@ + padded(n as nat, width as nat));
    } else {
        assert(out@ =~= old(out)@ + padded(n as nat, width as nat));
    }
}

/// A fraction of `width` decimal digits, with its point and without its
/// trailing zeros.
pub open spec fn fraction(n: nat, width: nat) -> Seq<char>
    decreases width,
{
    if width == 0 || n == 0 {
        Seq::empty()
    } else if n % 10 == 0 {
        fraction(n / 10, (width - 1) as nat)
    } else {
        seq!['.'] + padded(n, width)
    }
}

/// Appends a fraction.
fn append_fraction(out: &mut String, n: u64, width: usize)
    ensures
        final(out)@ == old(out)@ + fraction(n as nat, width as nat),
    decreases width,
{
    if width == 0 || n == 0 {
        assert(out@ =~= old(out)@ + fraction(n as nat, width as nat));
    } else if n % 10 == 0 {
        append_fraction(out, n / 10, width - 1);
    } else {
        out.push('.');
        append_padded(out, n, width);
        assert(out@ =~= old(out)@ + fraction(n as nat, width as nat));
    }
}

/// A span of nanoseconds in the largest unit of which it holds at least one.
pub open spec fn duration_text(nanos: nat) -> Seq<char> {
    if nanos >= 1_000_000_000 {
        decimal(nanos / 1_000_000_000) + fraction(nanos % 1_000_000_000, 9) + "s"@
    } else if nanos >= 1_000_000 {
        decimal(nanos / 1_000_000) + fraction(nanos % 1_000_000, 6) + "ms"@
    } else if nanos >= 1_000 {
        decimal(nanos / 1_000) + fraction(nanos % 1_000, 3) + "\u{b5}s"@
    } else {
        decimal(nanos) + "ns"@
    }
}

/// Appends the text of a span of nanoseconds.
pub fn append_duration(out: &mut String, nanos: u128)
    ensures
        final(out)@ == old(out)@ + duration_text(nanos as nat),
{
    if nanos >= 1_000_000_000 {
        append_decimal(out, nanos / 1_000_000_000);
        append_fraction(out, (nanos % 1_000_000_000) as u64, 9);
        out.append("s");
    } else if nanos >= 1_000_000 {
        append_decimal(out, nanos / 1_000_000);
        append_fraction(out, (nanos % 1_000_000) as u64, 6);
        out.append("ms");
    } else if nanos >= 1_000 {
        append_decimal(out, nanos / 1_000);
        append_fraction(out, (nanos % 1_000) as u64, 3);
        out.append("\u{b5}s");
    } else {
        append_decimal(out, nanos);
        out.append("ns");
    }
    assert(out@ =~= old(out)@ + duration_text(nanos as nat));
}

proof fn lemma_word_len_at(blanks: Blanks, word: Seq<char>, c: char, rest: Seq<char>)
    requires
        forall|i: int| 0 <= i < word.len() ==> !separates(blanks, #[trigger] word[i]),
        separates(blanks, c),
    ensures
        word_len(blanks, word.push(c) + rest) == word.len(),
    decreases word.len(),
{
    let s = word.push(c) + rest;
    if word.len() > 0 {
        assert(s[0] == word[0]);
        let tail = word.skip(1);
        assert(s.skip(1) =~= tail.push(c) + rest);
        assert forall|i: int| 0 <= i < tail.len() implies !separates(blanks, #[trigger] tail[i]) by {
            assert(tail[i] == word[i + 1]);
        }
        lemma_word_len_at(blanks, tail, c, rest);
    } else {
        assert(s[0] == c);
    }
}

/// A word and the separator behind it, in front of other text.
pub proof fn lemma_first_word(blanks: Blanks, word: Seq<char>, c: char, rest: Seq<char>)
    requires
        word.len() > 0,
        forall|i: int| 0 <= i < word.len() ==> !separates(blanks, #[trigger] word[i]),
        separates(blanks, c),
    ensures
        words(blanks, word.push(c) + rest) == seq![word] + words(blanks, rest),
{
    let s = word.push(c) + rest;
    lemma_word_len_at(blanks, word, c, rest);
    assert(s[0] == word[0]);
    assert(s.take(word.len() as int) =~= word);
    let behind = s.skip(word.len() as int);
    assert(behind =~= seq![c] + rest);
    assert(behind[0] == c);
    assert(behind.skip(1) =~= rest);
    assert(words(blanks, behind) == words(blanks, rest));
    assert(!separates(blanks, s[0]));
    assert(words(blanks, s) == seq![s.take(word.len() as int)] + words(blanks, behind));
}

/// Digits are no blanks, and a number below ten to the power of `width` has no
/// more than `width` digits.
pub proof fn lemma_decimal_len(n: nat, width: nat)
    requires
        n < vstd::arithmetic::power::pow(10, width),
        width > 0,
    ensures
        0 < decimal(n).len() <= width,
    decreases width,
{
    if n >= 10 {
        reveal_with_fuel(vstd::arithmetic::power::pow, 2);
        if width == 1 {
            assert(vstd::arithmetic::power::pow(10, 1) == 10);
        }
        let less = vstd::arithmetic::power::pow(10, (width - 1) as nat);
        assert(vstd::arithmetic::power::pow(10, width) == 10 * less);
        assert(n / 10 < less);
        lemma_decimal_len(n / 10, (width - 1) as nat);
    }
}

/// Among the ASCII characters, white space is the space and the five control characters
/// from the tab to the carriage return.
pub proof fn law_ascii_white_space(c: char)
    requires
        (c as int) < 128,
    ensures
        whitespace(c) <==> c == ' ' || '\t' <= c <= '\r',
        separates(Blanks::Unicode, c) <==> whitespace(c),
        separates(Blanks::Ascii, c) <==> c == ' ' || c == '\t' || c == '\n' || c as int == 12 || c
            == '\r',
{
}

proof fn lemma_trim_start(s: Seq<char>) -> (i: int)
    ensures
        0 <= i <= s.len(),
        trim_start(s) == s.skip(i),
        forall|k: int| 0 <= k < i ==> whitespace(#[trigger] s[k]),
        i < s.len() ==> !whitespace(s[i]),
    decreases s.len(),
{
    if s.len() > 0 && whitespace(s[0]) {
        let j = lemma_trim_start(s.skip(1));
        assert(s.skip(1).skip(j) =~= s.skip(j + 1));
        assert forall|k: int| 0 <= k < j + 1 implies whitespace(#[trigger] s[k]) by {
            if k > 0 {
                assert(s.skip(1)[k - 1] == s[k]);
            }
        }
        j + 1
    } else {
        assert(s.skip(0) =~= s);
        0
    }
}

proof fn lemma_trim_end(s: Seq<char>) -> (n: int)
    ensures
        0 <= n <= s.len(),
        trim_end(s) == s.take(n),
        forall|k: int| n <= k < s.len() ==> whitespace(#[trigger] s[k]),
        n > 0 ==> !whitespace(s[n - 1]),
    decreases s.len(),
{
    if s.len() > 0 && whitespace(s.last()) {
        let front = s.drop_last();
        let n = lemma_trim_end(front);
        assert(front.take(n) =~= s.take(n));
        assert forall|k: int| n <= k < s.len() implies whitespace(#[trigger] s[k]) by {
            if k < front.len() {
                assert(front[k] == s[k]);
            }
        }
        n
    } else {
        assert(s.take(s.len() as int) =~= s);
        s.len() as int
    }
}

/// Trimming cuts white space off both ends and nothing else: what is left neither
/// begins nor ends with white space, and what was cut is white space alone.
pub proof fn law_trimming_cuts_white_space(s: Seq<char>)
    ensures
        exists|i: int, j: int|
            0 <= i <= j <= s.len() && trimmed(s) == #[trigger] s.subrange(i, j) && (forall|k: int|
                0 <= k < i || j <= k < s.len() ==> whitespace(#[trigger] s[k])),
        trimmed(s).len() > 0 ==> !whitespace(trimmed(s)[0]) && !whitespace(trimmed(s).last()),
        trimmed(s).len() == 0 <==> blank(s),
{
    let i = lemma_trim_start(s);
    let t = s.skip(i);
    let n = lemma_trim_end(t);
    assert(t.take(n) =~= s.subrange(i, i + n));
    assert forall|k: int| 0 <= k < i || i + n <= k < s.len() implies whitespace(#[trigger] s[k]) by {
        if k >= i {
            assert(t[k - i] == s[k]);
        }
    }
    if n > 0 {
        assert(t[0] == s[i]);
    }
    if blank(s) && n > 0 {
        assert(whitespace(s[i]));
    }
}

/// Lower case changes the letters from A to Z of ASCII into those from a to z, leaves
/// every other character and the length as they are, and does nothing twice.
pub proof fn law_ascii_lower_case(s: Seq<char>)
    ensures
        ascii_lowercase(s).len() == s.len(),
        forall|i: int|
            #![trigger ascii_lowercase(s)[i]]
            0 <= i < s.len() ==> {
                let c = ascii_lowercase(s)[i];
                &&& !('A' <= c <= 'Z')
                &&& 'A' <= s[i] <= 'Z' ==> c as int - 'a' as int == s[i] as int - 'A' as int
                &&& !('A' <= s[i] <= 'Z') ==> c == s[i]
            },
        ascii_lowercase(ascii_lowercase(s)) == ascii_lowercase(s),
{
    assert(ascii_lowercase(ascii_lowercase(s)) =~= ascii_lowercase(s));
}

/// A number is written in decimal digits, the last one its remainder by ten, without a
/// zero in front of other digits, and is read back as the number.
pub proof fn law_decimal_numbers(n: nat)
    ensures
        decimal(n).last() as int == '0' as int + n % 10,
        n >= 10 ==> decimal(n).drop_last() == decimal(n / 10) && decimal(n)[0] != '0',
        n < 10 ==> decimal(n).len() == 1,
        number_within(decimal(n), n) == Some(n),
        n > 0 ==> number_within(decimal(n), (n - 1) as nat) is None,
        number_within(seq!['+'] + decimal(n), n) == Some(n),
    decreases n,
{
    lemma_decimal_round_trip(n);
    assert((seq!['+'] + decimal(n)).skip(1) =~= decimal(n));
    assert(is_digit(decimal(n)[0]));
    if n >= 10 {
        law_decimal_numbers(n / 10);
        assert(decimal(n).drop_last() =~= decimal(n / 10));
        assert(decimal(n)[0] == decimal(n / 10)[0]);
    }
}

/// A signed number is read as what was written, from the smallest to the largest of 32
/// bits and no further.
pub proof fn law_signed_numbers(n: int)
    ensures
        -0x8000_0000 <= n <= 0x7FFF_FFFF ==> signed_number(decimal_signed(n)) == Some(n),
        n < -0x8000_0000 || n > 0x7FFF_FFFF ==> signed_number(decimal_signed(n)) is None,
        signed_number(Seq::empty()) is None,
{
    let m: nat = if n < 0 {
        (-n) as nat
    } else {
        n as nat
    };
    lemma_decimal_round_trip(m);
    assert(is_digit(decimal(m)[0]));
    assert((seq!['-'] + decimal(m)).skip(1) =~= decimal(m));
}

/// Bytes are written as two lower-case hexadecimal digits each, the high one first.
pub proof fn law_hexadecimal_bytes(a: Seq<u8>, b: Seq<u8>, d: nat)
    requires
        d < 16,
    ensures
        hex(a + b) == hex(a) + hex(b),
        d < 10 ==> hex_char(d) as int == '0' as int + d,
        d >= 10 ==> hex_char(d) as int == 'a' as int + d - 10,
        hex(a).len() == 2 * a.len(),
    decreases b.len(),
{
    lemma_hex_len(a);
    if b.len() == 0 {
        assert(a + b =~= a);
        assert(hex(a) + hex(b) =~= hex(a));
    } else {
        law_hexadecimal_bytes(a, b.drop_last(), d);
        assert((a + b).drop_last() =~= a + b.drop_last());
        assert(hex(a + b) =~= hex(a) + hex(b));
    }
}

/// An escaped text is that of its parts, keeps every character that needs no escape, and
/// holds neither a control character nor a quote that no backslash precedes.
pub proof fn law_json_escapes(a: Seq<char>, b: Seq<char>, c: char)
    ensures
        json_escaped(a + b) == json_escaped(a) + json_escaped(b),
        (c as int) >= 0x20 && c != '"' && c != '\\' ==> json_escaped_char(c) == seq![c],
        c == '"' || c == '\\' ==> json_escaped_char(c) == seq!['\\', c],
        (c as int) < 0x20 ==> json_escaped_char(c).len() >= 2 && json_escaped_char(c)[0] == '\\',
        forall|i: int|
            0 <= i < json_escaped_char(c).len() ==> (#[trigger] json_escaped_char(c)[i]) as int
                >= 0x20,
    decreases b.len(),
{
    if (c as int) < 0x20 {
        lemma_hex_char(((c as u8) / 16) as nat, 0);
        lemma_hex_char(((c as u8) % 16) as nat, 0);
    }
    if b.len() == 0 {
        assert(a + b =~= a);
        assert(json_escaped(a) + json_escaped(b) =~= json_escaped(a));
    } else {
        law_json_escapes(a, b.drop_last(), c);
        assert((a + b).drop_last() =~= a + b.drop_last());
        assert(json_escaped(a + b) =~= json_escaped(a) + json_escaped(b));
    }
}

/// A text is cut at every separator: a text without one is one part, and a separator
/// puts the parts of what follows behind the parts of what precedes it.
pub proof fn law_texts_are_cut_at_separators(a: Seq<char>, b: Seq<char>, separator: char)
    ensures
        !a.contains(separator) ==> split_on(a, separator) == seq![a],
        split_on(a + seq![separator] + b, separator) == split_on(a, separator) + split_on(
            b,
            separator,
        ),
    decreases a.len() + b.len(),
{
    if !a.contains(separator) {
        if a.len() == 0 {
            assert(a =~= Seq::<char>::empty());
            assert(split_on(a, separator) =~= seq![a]);
        } else {
            let front = a.drop_last();
            assert(!front.contains(separator)) by {
                if front.contains(separator) {
                    let k = choose|k: int| 0 <= k < front.len() && front[k] == separator;
                    assert(a[k] == separator);
                }
            }
            assert(a.last() != separator) by {
                assert(a[a.len() - 1] == a.last());
            }
            law_texts_are_cut_at_separators(front, Seq::empty(), separator);
            assert(front.push(a.last()) =~= a);
            assert(split_on(a, separator) =~= seq![a]);
        }
    }
    let whole = a + seq![separator] + b;
    if b.len() == 0 {
        assert(whole.drop_last() =~= a);
        assert(split_on(whole, separator) =~= split_on(a, separator) + split_on(b, separator));
    } else {
        let front = b.drop_last();
        law_texts_are_cut_at_separators(a, front, separator);
        assert(whole.drop_last() =~= a + seq![separator] + front);
        lemma_split_nonempty(front, separator);
        assert(split_on(whole, separator) =~= split_on(a, separator) + split_on(b, separator));
    }
}

/// The words of a text are found whatever blanks stand around them: blanks in front do
/// not count, a text without blanks is one word, and a blank parts its words from those
/// that follow.
pub proof fn law_words_are_parted_by_blanks(
    blanks: Blanks,
    word: Seq<char>,
    c: char,
    rest: Seq<char>,
)
    requires
        separates(blanks, c),
        word.len() > 0,
        forall|i: int| 0 <= i < word.len() ==> !separates(blanks, #[trigger] word[i]),
    ensures
        words(blanks, Seq::empty()).len() == 0,
        words(blanks, seq![c] + rest) == words(blanks, rest),
        words(blanks, word.push(c) + rest) == seq![word] + words(blanks, rest),
        words(blanks, word) == seq![word],
{
    assert((seq![c] + rest).skip(1) =~= rest);
    lemma_first_word(blanks, word, c, rest);
    lemma_whole_word(blanks, word);
    assert(word.take(word.len() as int) =~= word);
    assert(word.skip(word.len() as int) =~= Seq::<char>::empty());
    assert(seq![word] + words(blanks, Seq::empty()) =~= seq![word]);
}

proof fn lemma_whole_word(blanks: Blanks, word: Seq<char>)
    requires
        forall|i: int| 0 <= i < word.len() ==> !separates(blanks, #[trigger] word[i]),
    ensures
        word_len(blanks, word) == word.len(),
    decreases word.len(),
{
    if word.len() > 0 {
        assert(!separates(blanks, word[0]));
        let rest = word.skip(1);
        assert forall|i: int| 0 <= i < rest.len() implies !separates(
            blanks,
            #[trigger] rest[i],
        ) by {
            assert(rest[i] == word[i + 1]);
        }
        lemma_whole_word(blanks, rest);
    }
}

/// A span of time is written in seconds, milliseconds, microseconds or nanoseconds, the
/// largest of which it holds one, with its whole units in front.
pub proof fn law_durations_name_their_unit(nanos: nat)
    ensures
        ({
            let text = duration_text(nanos);
            let (unit, whole) = if nanos >= 1_000_000_000 {
                ("s"@, nanos / 1_000_000_000)
            } else if nanos >= 1_000_000 {
                ("ms"@, nanos / 1_000_000)
            } else if nanos >= 1_000 {
                ("\u{b5}s"@, nanos / 1_000)
            } else {
                ("ns"@, nanos)
            };
            &&& unit.is_suffix_of(text)
            &&& decimal(whole).is_prefix_of(text)
        }),
{
    let text = duration_text(nanos);
    let (unit, whole) = if nanos >= 1_000_000_000 {
        ("s"@, nanos / 1_000_000_000)
    } else if nanos >= 1_000_000 {
        ("ms"@, nanos / 1_000_000)
    } else if nanos >= 1_000 {
        ("\u{b5}s"@, nanos / 1_000)
    } else {
        ("ns"@, nanos)
    };
    assert(text.subrange(text.len() - unit.len(), text.len() as int) =~= unit);
    assert(text.subrange(0, decimal(whole).len() as int) =~= decimal(whole));
}

/// The last digits of a number are as many as were asked for, and those of the number.
pub proof fn law_padded_numbers(n: nat, width: nat)
    ensures
        padded(n, width).len() == width,
        width > 0 ==> padded(n, width).last() as int == '0' as int + n % 10 && padded(
            n,
            width,
        ).drop_last() == padded(n / 10, (width - 1) as nat),
    decreases width,
{
    if width > 0 {
        law_padded_numbers(n / 10, (width - 1) as nat);
        assert(padded(n, width).drop_last() =~= padded(n / 10, (width - 1) as nat));
    }
}

/// A decimal number is read where it is no larger than the bound, and only there; a
/// text without characters is no number.
pub proof fn lemma_number_bound(n: nat, max: nat)
    ensures
        number_within(decimal(n), max) == (if n <= max {
            Some(n)
        } else {
            None::<nat>
        }),
        number_within(Seq::empty(), max) is None,
{
    law_decimal_numbers(n);
}

} // verus!

//! Text: what the rest of the library says and does with characters.
//!
//! A string is modelled by its sequence of characters. Where a rule speaks of
//! a length in bytes, it is the length of the UTF-8 encoding.

use vstd::prelude::*;
use vstd::relations::*;
use vstd::string::*;
use vstd::utf8::*;

verus! {

/// `String::push`: appends one character.
pub assume_specification[ String::push ](s: &mut String, c: char)
    ensures
        final(s)@ == old(s)@.push(c),
;

/// The length of a text in bytes.
pub open spec fn byte_len(s: Seq<char>) -> nat {
    encode_utf8(s).len()
}

/// Characters of the Unicode property `White_Space`.
pub open spec fn is_space(c: char) -> bool {
    ||| '\u{9}' <= c <= '\u{d}'
    ||| c == ' '
    ||| c == '\u{85}'
    ||| c == '\u{a0}'
    ||| c == '\u{1680}'
    ||| '\u{2000}' <= c <= '\u{200a}'
    ||| c == '\u{2028}'
    ||| c == '\u{2029}'
    ||| c == '\u{202f}'
    ||| c == '\u{205f}'
    ||| c == '\u{3000}'
}

/// Characters of the Unicode category `Cc`.
pub open spec fn is_control(c: char) -> bool {
    c <= '\u{1f}' || '\u{7f}' <= c <= '\u{9f}'
}

pub open spec fn is_digit(c: char) -> bool {
    '0' <= c <= '9'
}

pub open spec fn is_alphanumeric(c: char) -> bool {
    is_digit(c) || 'a' <= c <= 'z' || 'A' <= c <= 'Z'
}

/// The character with an ASCII capital made small.
pub open spec fn lower_char(c: char) -> char {
    if 'A' <= c <= 'Z' {
        (c as u32 + 32) as char
    } else {
        c
    }
}

/// The text with its ASCII capitals made small.
pub open spec fn lower(s: Seq<char>) -> Seq<char> {
    s.map_values(|c: char| lower_char(c))
}

/// Equality up to the case of ASCII letters.
pub open spec fn same_ignoring_case(a: Seq<char>, b: Seq<char>) -> bool {
    lower(a) == lower(b)
}

pub open spec fn trim_start(s: Seq<char>) -> Seq<char>
    decreases s.len(),
{
    if s.len() > 0 && is_space(s[0]) {
        trim_start(s.drop_first())
    } else {
        s
    }
}

pub open spec fn trim_end(s: Seq<char>) -> Seq<char>
    decreases s.len(),
{
    if s.len() > 0 && is_space(s.last()) {
        trim_end(s.drop_last())
    } else {
        s
    }
}

/// The text without the white space at its ends.
pub open spec fn trim(s: Seq<char>) -> Seq<char> {
    trim_end(trim_start(s))
}

pub open spec fn starts_with(s: Seq<char>, prefix: Seq<char>) -> bool {
    prefix.len() <= s.len() && s.take(prefix.len() as int) == prefix
}

pub open spec fn ends_with(s: Seq<char>, suffix: Seq<char>) -> bool {
    suffix.len() <= s.len() && s.skip(s.len() - suffix.len()) == suffix
}

/// `needle` occurs in `s` without a gap.
pub open spec fn contains_text(s: Seq<char>, needle: Seq<char>) -> bool {
    exists|i: int|
        0 <= i <= s.len() - needle.len() && #[trigger] s.subrange(i, i + needle.len()) == needle
}

/// The pieces of `s` between the separators: always one more than there are separators.
pub open spec fn split(s: Seq<char>, separator: char) -> Seq<Seq<char>>
    decreases s.len(),
{
    if s.len() == 0 {
        seq![Seq::empty()]
    } else {
        let before = split(s.drop_last(), separator);
        if s.last() == separator {
            before.push(Seq::empty())
        } else {
            before.drop_last().push(before.last().push(s.last()))
        }
    }
}

/// No line break is in the text.
pub open spec fn is_one_line(s: Seq<char>) -> bool {
    forall|i: int| 0 <= i < s.len() ==> #[trigger] s[i] != '\n' && s[i] != '\r'
}

/// The pieces in order with `separator` between two neighbours.
pub open spec fn join(pieces: Seq<Seq<char>>, separator: Seq<char>) -> Seq<char>
    decreases pieces.len(),
{
    if pieces.len() == 0 {
        Seq::empty()
    } else if pieces.len() == 1 {
        pieces[0]
    } else {
        join(pieces.drop_last(), separator) + separator + pieces.last()
    }
}

pub open spec fn digit_char(d: nat) -> char {
    (d + 48) as char
}

/// The decimal digits of a number, without leading zeros.
pub open spec fn decimal(n: nat) -> Seq<char>
    decreases n,
{
    if n < 10 {
        seq![digit_char(n)]
    } else {
        decimal(n / 10).push(digit_char(n % 10))
    }
}

/// The decimal digits of a whole number, with a minus sign before a negative one.
pub open spec fn signed_decimal(n: int) -> Seq<char> {
    if n < 0 {
        seq!['-'] + decimal((-n) as nat)
    } else {
        decimal(n as nat)
    }
}

/// The order of two texts by their characters, a proper prefix coming first.
pub open spec fn text_le(a: Seq<char>, b: Seq<char>) -> bool
    decreases a.len(),
{
    if a.len() == 0 {
        true
    } else if b.len() == 0 {
        false
    } else if a[0] == b[0] {
        text_le(a.drop_first(), b.drop_first())
    } else {
        a[0] < b[0]
    }
}

pub fn chars_of(s: &str) -> (r: Vec<char>)
    ensures
        r@ == s@,
{
    let mut r: Vec<char> = Vec::new();
    for c in it: s.chars()
        invariant
            it.seq() == s@,
            r@ == s@.take(it.index() as int),
    {
        proof {
            assert(s@.take(it.index() as int + 1) =~= s@.take(it.index() as int).push(c));
        }
        r.push(c);
    }
    proof {
        assert(s@.take(s@.len() as int) =~= s@);
    }
    r
}

pub fn text_of(chars: &Vec<char>, from: usize, to: usize) -> (r: String)
    requires
        from <= to <= chars@.len(),
    ensures
        r@ == chars@.subrange(from as int, to as int),
{
    let mut r = String::new();
    let mut i: usize = from;
    while i < to
        invariant
            from <= i <= to <= chars@.len(),
            r@ == chars@.subrange(from as int, i as int),
        decreases to - i,
    {
        r.push(chars[i]);
        proof {
            assert(chars@.subrange(from as int, i + 1) =~= chars@.subrange(from as int, i as int).push(
                chars@[i as int],
            ));
        }
        i += 1;
    }
    r
}

/// Equality of two texts.
pub fn same_text(a: &str, b: &str) -> (r: bool)
    ensures
        r == (a@ == b@),
{
    let left = a.as_bytes();
    let right = b.as_bytes();
    proof {
        encode_utf8_decode_utf8(a@);
        encode_utf8_decode_utf8(b@);
    }
    if left.len() != right.len() {
        return false;
    }
    let mut i: usize = 0;
    while i < left.len()
        invariant
            i <= left@.len(),
            left@.len() == right@.len(),
            left@ == encode_utf8(a@),
            right@ == encode_utf8(b@),
            forall|j: int| 0 <= j < i ==> left@[j] == right@[j],
        decreases left@.len() - i,
    {
        if left[i] != right[i] {
            return false;
        }
        i += 1;
    }
    proof {
        assert(left@ =~= right@);
    }
    true
}

/// Equality of two optional texts.
pub fn same_optional_text(a: &Option<String>, b: &Option<String>) -> (r: bool)
    ensures
        r == (optional_text(*a) == optional_text(*b)),
{
    match (a, b) {
        (Some(x), Some(y)) => same_text(x.as_str(), y.as_str()),
        (None, None) => true,
        _ => false,
    }
}

/// An optional text by its characters.
pub open spec fn optional_text(s: Option<String>) -> Option<Seq<char>> {
    match s {
        Some(text) => Some(text@),
        None => None,
    }
}

pub open spec fn optional_str(text: Option<&str>) -> Option<Seq<char>> {
    match text {
        Some(text) => Some(text@),
        None => None,
    }
}

/// The texts of a list by their characters.
pub open spec fn texts(list: Seq<String>) -> Seq<Seq<char>> {
    list.map_values(|s: String| s@)
}

pub fn clone_optional(s: &Option<String>) -> (r: Option<String>)
    ensures
        r == *s,
{
    match s {
        Some(text) => Some(text.clone()),
        None => None,
    }
}

/// The length of a text in bytes.
pub fn byte_length(s: &str) -> (r: usize)
    ensures
        r == byte_len(s@),
{
    s.as_bytes().len()
}

pub fn is_space_char(c: char) -> (r: bool)
    ensures
        r == is_space(c),
{
    ('\u{9}' <= c && c <= '\u{d}') || c == ' ' || c == '\u{85}' || c == '\u{a0}' || c == '\u{1680}' || (
    '\u{2000}' <= c && c <= '\u{200a}') || c == '\u{2028}' || c == '\u{2029}' || c == '\u{202f}' || c
        == '\u{205f}' || c == '\u{3000}'
}

pub fn is_control_char(c: char) -> (r: bool)
    ensures
        r == is_control(c),
{
    c <= '\u{1f}' || ('\u{7f}' <= c && c <= '\u{9f}')
}

pub fn is_digit_char(c: char) -> (r: bool)
    ensures
        r == is_digit(c),
{
    '0' <= c && c <= '9'
}

pub fn is_alphanumeric_char(c: char) -> (r: bool)
    ensures
        r == is_alphanumeric(c),
{
    is_digit_char(c) || ('a' <= c && c <= 'z') || ('A' <= c && c <= 'Z')
}

/// Some character of the text is a control character.
pub fn has_control(s: &str) -> (r: bool)
    ensures
        r == exists|i: int| 0 <= i < s@.len() && is_control(#[trigger] s@[i]),
{
    let chars = chars_of(s);
    let mut i: usize = 0;
    while i < chars.len()
        invariant
            i <= chars@.len(),
            chars@ == s@,
            forall|j: int| 0 <= j < i ==> !is_control(#[trigger] s@[j]),
        decreases chars@.len() - i,
    {
        if is_control_char(chars[i]) {
            assert(is_control(s@[i as int]));
            return true;
        }
        i += 1;
    }
    false
}

pub open spec fn all_digits(s: Seq<char>) -> bool {
    forall|i: int| 0 <= i < s.len() ==> is_digit(#[trigger] s[i])
}

pub fn is_all_digits(s: &str) -> (r: bool)
    ensures
        r == all_digits(s@),
{
    let chars = chars_of(s);
    let mut i: usize = 0;
    while i < chars.len()
        invariant
            i <= chars@.len(),
            chars@ == s@,
            forall|j: int| 0 <= j < i ==> is_digit(#[trigger] s@[j]),
        decreases chars@.len() - i,
    {
        if !is_digit_char(chars[i]) {
            assert(!is_digit(s@[i as int]));
            return false;
        }
        i += 1;
    }
    true
}

/// The characters from the space up to the tilde, which a header value may hold.
pub open spec fn all_printable(s: Seq<char>) -> bool {
    forall|i: int| 0 <= i < s.len() ==> ' ' <= #[trigger] s[i] <= '~'
}

pub fn is_all_printable(s: &str) -> (r: bool)
    ensures
        r == all_printable(s@),
{
    let chars = chars_of(s);
    let mut i: usize = 0;
    while i < chars.len()
        invariant
            i <= chars@.len(),
            chars@ == s@,
            forall|j: int| 0 <= j < i ==> ' ' <= #[trigger] s@[j] <= '~',
        decreases chars@.len() - i,
    {
        if !(' ' <= chars[i] && chars[i] <= '~') {
            assert(!(' ' <= s@[i as int] <= '~'));
            return false;
        }
        i += 1;
    }
    true
}

proof fn trim_start_skips(s: Seq<char>, i: int)
    requires
        0 <= i <= s.len(),
        forall|j: int| 0 <= j < i ==> is_space(#[trigger] s[j]),
    ensures
        trim_start(s) == trim_start(s.skip(i)),
    decreases i,
{
    if i > 0 {
        trim_start_skips(s, i - 1);
        assert(s.skip(i - 1)[0] == s[i - 1]);
        assert(s.skip(i - 1).drop_first() =~= s.skip(i));
    } else {
        assert(s.skip(0) =~= s);
    }
}

proof fn trim_end_drops(s: Seq<char>, i: int)
    requires
        0 <= i <= s.len(),
        forall|j: int| i <= j < s.len() ==> is_space(#[trigger] s[j]),
    ensures
        trim_end(s) == trim_end(s.take(i)),
    decreases s.len() - i,
{
    if i < s.len() {
        trim_end_drops(s, i + 1);
        assert(s.take(i + 1).last() == s[i]);
        assert(s.take(i + 1).drop_last() =~= s.take(i));
    } else {
        assert(s.take(i) =~= s);
    }
}

/// No white space at the ends.
pub open spec fn is_trimmed(s: Seq<char>) -> bool {
    s.len() == 0 || (!is_space(s[0]) && !is_space(s.last()))
}

proof fn trim_end_keeps_the_start(s: Seq<char>)
    ensures
        trim_end(s).len() <= s.len(),
        trim_end(s) == s.take(trim_end(s).len() as int),
        trim_end(s).len() == 0 || !is_space(trim_end(s).last()),
    decreases s.len(),
{
    if s.len() > 0 && is_space(s.last()) {
        trim_end_keeps_the_start(s.drop_last());
        let n = trim_end(s.drop_last()).len() as int;
        assert(s.drop_last().take(n) =~= s.take(n));
    } else {
        assert(s.take(s.len() as int) =~= s);
    }
}

proof fn trim_start_ends(s: Seq<char>)
    ensures
        trim_start(s).len() == 0 || !is_space(trim_start(s)[0]),
    decreases s.len(),
{
    if s.len() > 0 && is_space(s[0]) {
        trim_start_ends(s.drop_first());
    }
}

/// What is trimmed has no white space at its ends.
pub proof fn trimming_trims(s: Seq<char>)
    ensures
        is_trimmed(trim(s)),
{
    let middle = trim_start(s);
    trim_start_ends(s);
    trim_end_keeps_the_start(middle);
    if trim(s).len() > 0 {
        assert(trim(s)[0] == middle[0]);
    }
}

/// Trimming leaves a text alone that has no white space at its ends.
pub proof fn trimmed_stays(s: Seq<char>)
    requires
        is_trimmed(s),
    ensures
        trim(s) == s,
{
}

/// `str::trim`.
pub fn trimmed(s: &str) -> (r: String)
    ensures
        r@ == trim(s@),
{
    let chars = chars_of(s);
    let mut from: usize = 0;
    while from < chars.len() && is_space_char(chars[from])
        invariant
            from <= chars@.len(),
            forall|j: int| 0 <= j < from ==> is_space(#[trigger] chars@[j]),
        decreases chars@.len() - from,
    {
        from += 1;
    }
    proof {
        trim_start_skips(chars@, from as int);
        if from < chars@.len() {
            assert(chars@.skip(from as int)[0] == chars@[from as int]);
        }
    }
    let ghost middle = chars@.skip(from as int);
    assert(trim_start(chars@) == middle);
    let mut to: usize = chars.len();
    while to > from && is_space_char(chars[to - 1])
        invariant
            from <= to <= chars@.len(),
            middle == chars@.skip(from as int),
            forall|j: int| to - from <= j < middle.len() ==> is_space(#[trigger] middle[j]),
        decreases to,
    {
        to -= 1;
    }
    proof {
        trim_end_drops(middle, to - from);
        assert(middle.take(to - from) =~= chars@.subrange(from as int, to as int));
        if to > from {
            assert(middle.take(to - from).last() == chars@[to - 1]);
        }
    }
    text_of(&chars, from, to)
}

pub fn has_prefix(s: &str, prefix: &str) -> (r: bool)
    ensures
        r == starts_with(s@, prefix@),
{
    let chars = chars_of(s);
    let lead = chars_of(prefix);
    if chars.len() < lead.len() {
        return false;
    }
    let mut i: usize = 0;
    while i < lead.len()
        invariant
            i <= lead@.len() <= chars@.len(),
            chars@ == s@,
            lead@ == prefix@,
            forall|j: int| 0 <= j < i ==> chars@[j] == lead@[j],
        decreases lead@.len() - i,
    {
        if chars[i] != lead[i] {
            assert(s@.take(prefix@.len() as int)[i as int] != prefix@[i as int]);
            return false;
        }
        i += 1;
    }
    assert(s@.take(prefix@.len() as int) =~= prefix@);
    true
}

/// `str::strip_prefix`.
pub fn without_prefix(s: &str, prefix: &str) -> (r: Option<String>)
    ensures
        optional_text(r) == (if starts_with(s@, prefix@) {
            Some(s@.skip(prefix@.len() as int))
        } else {
            None
        }),
{
    if !has_prefix(s, prefix) {
        return None;
    }
    let chars = chars_of(s);
    let lead = chars_of(prefix);
    proof {
        assert(chars@.subrange(lead@.len() as int, chars@.len() as int) =~= s@.skip(
            prefix@.len() as int,
        ));
    }
    Some(text_of(&chars, lead.len(), chars.len()))
}

pub fn has_suffix(s: &str, suffix: &str) -> (r: bool)
    ensures
        r == ends_with(s@, suffix@),
{
    let chars = chars_of(s);
    let tail = chars_of(suffix);
    if chars.len() < tail.len() {
        return false;
    }
    let from: usize = chars.len() - tail.len();
    let total: usize = chars.len();
    let mut i: usize = 0;
    while i < tail.len()
        invariant
            i <= tail@.len() <= chars@.len(),
            total == chars@.len(),
            from == chars@.len() - tail@.len(),
            chars@ == s@,
            tail@ == suffix@,
            forall|j: int| 0 <= j < i ==> chars@[from + j] == tail@[j],
        decreases tail@.len() - i,
    {
        if chars[from + i] != tail[i] {
            assert(s@.skip(from as int)[i as int] != suffix@[i as int]);
            return false;
        }
        i += 1;
    }
    assert(s@.skip(from as int) =~= suffix@);
    true
}

/// `str::strip_suffix`.
pub fn without_suffix(s: &str, suffix: &str) -> (r: Option<String>)
    ensures
        optional_text(r) == (if ends_with(s@, suffix@) {
            Some(s@.take(s@.len() - suffix@.len()))
        } else {
            None
        }),
{
    if !has_suffix(s, suffix) {
        return None;
    }
    let chars = chars_of(s);
    let tail = chars_of(suffix);
    let to: usize = chars.len() - tail.len();
    proof {
        assert(chars@.subrange(0, to as int) =~= s@.take(s@.len() - suffix@.len()));
    }
    Some(text_of(&chars, 0, to))
}

pub fn lower_of_char(c: char) -> (r: char)
    ensures
        r == lower_char(c),
{
    if 'A' <= c && c <= 'Z' {
        ((c as u8) + 32) as char
    } else {
        c
    }
}

/// `str::to_ascii_lowercase`.
pub fn lowered(s: &str) -> (r: String)
    ensures
        r@ == lower(s@),
{
    let chars = chars_of(s);
    let mut r = String::new();
    let mut i: usize = 0;
    while i < chars.len()
        invariant
            i <= chars@.len(),
            chars@ == s@,
            r@ == lower(s@.take(i as int)),
        decreases chars@.len() - i,
    {
        r.push(lower_of_char(chars[i]));
        proof {
            assert(lower(s@.take(i + 1)) =~= lower(s@.take(i as int)).push(
                lower_char(s@[i as int]),
            ));
        }
        i += 1;
    }
    proof {
        assert(s@.take(s@.len() as int) =~= s@);
    }
    r
}

/// `str::eq_ignore_ascii_case`.
pub fn same_text_ignoring_case(a: &str, b: &str) -> (r: bool)
    ensures
        r == same_ignoring_case(a@, b@),
{
    same_text(lowered(a).as_str(), lowered(b).as_str())
}

/// `needle` stands in `s` at position `i`.
fn stands_at(chars: &Vec<char>, needle: &Vec<char>, at: usize) -> (r: bool)
    requires
        at + needle@.len() <= chars@.len(),
    ensures
        r == (chars@.subrange(at as int, at + needle@.len()) == needle@),
{
    let total: usize = chars.len();
    let mut i: usize = 0;
    while i < needle.len()
        invariant
            i <= needle@.len(),
            total == chars@.len(),
            at + needle@.len() <= chars@.len(),
            forall|j: int| 0 <= j < i ==> chars@[at + j] == needle@[j],
        decreases needle@.len() - i,
    {
        if chars[at + i] != needle[i] {
            assert(chars@.subrange(at as int, at + needle@.len())[i as int] != needle@[i as int]);
            return false;
        }
        i += 1;
    }
    assert(chars@.subrange(at as int, at + needle@.len()) =~= needle@);
    true
}

/// `str::contains` with a text.
pub fn has_text(s: &str, needle: &str) -> (r: bool)
    ensures
        r == contains_text(s@, needle@),
{
    let chars = chars_of(s);
    let wanted = chars_of(needle);
    if chars.len() < wanted.len() {
        return false;
    }
    let last: usize = chars.len() - wanted.len();
    let mut at: usize = 0;
    loop
        invariant
            at <= last,
            last == chars@.len() - wanted@.len(),
            chars@ == s@,
            wanted@ == needle@,
            forall|i: int|
                0 <= i < at ==> #[trigger] s@.subrange(i, i + needle@.len()) != needle@,
        decreases last - at,
    {
        if stands_at(&chars, &wanted, at) {
            assert(s@.subrange(at as int, at + needle@.len()) == needle@);
            return true;
        }
        if at == last {
            return false;
        }
        at += 1;
    }
}

pub proof fn split_is_nonempty(s: Seq<char>, separator: char)
    ensures
        split(s, separator).len() > 0,
    decreases s.len(),
{
    if s.len() > 0 {
        split_is_nonempty(s.drop_last(), separator);
    }
}

/// A line more at the end of lines.
pub proof fn split_takes_a_line(s: Seq<char>, line: Seq<char>)
    requires
        is_one_line(line),
        split(s, '\n').last() == Seq::<char>::empty(),
    ensures
        split(s + line.push('\n'), '\n') == split(s, '\n').drop_last().push(line).push(
            Seq::empty(),
        ),
{
    split_is_nonempty(s, '\n');
    split_takes_part_of_a_line(s, line);
    assert((s + line.push('\n')).drop_last() =~= s + line);
}

proof fn split_takes_part_of_a_line(s: Seq<char>, part: Seq<char>)
    requires
        is_one_line(part),
        split(s, '\n').len() > 0,
        split(s, '\n').last() == Seq::<char>::empty(),
    ensures
        split(s + part, '\n') == split(s, '\n').drop_last().push(part),
    decreases part.len(),
{
    if part.len() == 0 {
        assert(s + part =~= s);
        assert(part =~= Seq::empty());
        assert(split(s, '\n').drop_last().push(part) =~= split(s, '\n'));
    } else {
        split_takes_part_of_a_line(s, part.drop_last());
        assert((s + part).drop_last() =~= s + part.drop_last());
        assert(part.drop_last().push(part.last()) =~= part);
        assert((s + part).last() == part.last());
        assert(split(s + part, '\n') =~= split(s, '\n').drop_last().push(part));
    }
}

/// `str::split` at a character.
pub fn split_on(s: &str, separator: char) -> (r: Vec<String>)
    ensures
        texts(r@) == split(s@, separator),
{
    let chars = chars_of(s);
    let mut done: Vec<String> = Vec::new();
    let mut piece = String::new();
    let mut i: usize = 0;
    proof {
        assert(texts(done@).push(piece@) =~= split(s@.take(0), separator));
    }
    while i < chars.len()
        invariant
            i <= chars@.len(),
            chars@ == s@,
            texts(done@).push(piece@) == split(s@.take(i as int), separator),
        decreases chars@.len() - i,
    {
        let ghost before = split(s@.take(i as int), separator);
        let ghost finished = texts(done@);
        let ghost current = piece@;
        proof {
            assert(s@.take(i + 1).drop_last() =~= s@.take(i as int));
            assert(before.last() == current);
            assert(before.drop_last() =~= finished);
        }
        if chars[i] == separator {
            done.push(piece);
            piece = String::new();
            proof {
                assert(texts(done@) =~= finished.push(current));
                assert(texts(done@).push(piece@) =~= before.push(Seq::empty()));
            }
        } else {
            piece.push(chars[i]);
            proof {
                assert(texts(done@).push(piece@) =~= before.drop_last().push(
                    before.last().push(s@[i as int]),
                ));
            }
        }
        i += 1;
    }
    proof {
        assert(s@.take(s@.len() as int) =~= s@);
    }
    let ghost finished = texts(done@);
    let ghost current = piece@;
    done.push(piece);
    proof {
        assert(texts(done@) =~= finished.push(current));
    }
    done
}

/// The pieces with a separator between two neighbours.
pub fn joined(pieces: &Vec<String>, separator: &str) -> (r: String)
    ensures
        r@ == join(texts(pieces@), separator@),
{
    let mut r = String::new();
    let mut i: usize = 0;
    while i < pieces.len()
        invariant
            i <= pieces@.len(),
            r@ == join(texts(pieces@).take(i as int), separator@),
        decreases pieces@.len() - i,
    {
        proof {
            assert(texts(pieces@).take(i + 1).drop_last() =~= texts(pieces@).take(i as int));
            assert(texts(pieces@).take(i + 1).last() == pieces@[i as int]@);
        }
        if i > 0 {
            r.append(separator);
        }
        r.append(pieces[i].as_str());
        proof {
            if i == 0 {
                assert(r@ =~= pieces@[0]@);
                assert(texts(pieces@).take(1)[0] == pieces@[0]@);
            }
        }
        i += 1;
    }
    proof {
        assert(texts(pieces@).take(pieces@.len() as int) =~= texts(pieces@));
    }
    r
}

fn digit_of(d: u8) -> (r: char)
    requires
        d < 10,
    ensures
        r == digit_char(d as nat),
{
    (d + 48) as char
}

/// The decimal digits of a number.
pub fn decimal_text(n: u128) -> (r: String)
    ensures
        r@ == decimal(n as nat),
    decreases n,
{
    if n < 10 {
        let mut r = String::new();
        r.push(digit_of(n as u8));
        proof {
            assert(r@ =~= seq![digit_char(n as nat)]);
        }
        r
    } else {
        let mut r = decimal_text(n / 10);
        r.push(digit_of((n % 10) as u8));
        r
    }
}

/// The decimal digits of a signed number.
pub fn signed_decimal_text(n: i64) -> (r: String)
    ensures
        r@ == signed_decimal(n as int),
{
    if n < 0 {
        let magnitude: u128 = (-(n as i128)) as u128;
        let mut r = String::new();
        r.push('-');
        r.append(decimal_text(magnitude).as_str());
        proof {
            assert(r@ =~= seq!['-'] + decimal((-(n as int)) as nat));
        }
        r
    } else {
        decimal_text(n as u128)
    }
}

pub proof fn text_le_is_reflexive(a: Seq<char>)
    ensures
        text_le(a, a),
    decreases a.len(),
{
    if a.len() > 0 {
        text_le_is_reflexive(a.drop_first());
    }
}

pub proof fn text_le_is_antisymmetric(a: Seq<char>, b: Seq<char>)
    requires
        text_le(a, b),
        text_le(b, a),
    ensures
        a == b,
    decreases a.len(),
{
    if a.len() == 0 {
        assert(b.len() == 0);
        assert(a =~= b);
    } else {
        text_le_is_antisymmetric(a.drop_first(), b.drop_first());
        assert(a =~= seq![a[0]] + a.drop_first());
        assert(b =~= seq![b[0]] + b.drop_first());
    }
}

pub proof fn text_le_is_transitive(a: Seq<char>, b: Seq<char>, c: Seq<char>)
    requires
        text_le(a, b),
        text_le(b, c),
    ensures
        text_le(a, c),
    decreases a.len(),
{
    if a.len() > 0 && b.len() > 0 && c.len() > 0 && a[0] == b[0] && b[0] == c[0] {
        text_le_is_transitive(a.drop_first(), b.drop_first(), c.drop_first());
    }
}

pub proof fn text_le_is_total(a: Seq<char>, b: Seq<char>)
    ensures
        text_le(a, b) || text_le(b, a),
    decreases a.len(),
{
    if a.len() > 0 && b.len() > 0 && a[0] == b[0] {
        text_le_is_total(a.drop_first(), b.drop_first());
    }
}

/// What `str::to_lowercase` makes of a text.
pub uninterp spec fn lowercase(s: Seq<char>) -> Seq<char>;

pub open spec fn is_ascii_text(s: Seq<char>) -> bool {
    forall|i: int| 0 <= i < s.len() ==> #[trigger] s[i] <= '\u{7f}'
}

/// `str::to_lowercase`: on ASCII text it makes the capitals small and keeps the
/// rest. What it makes of other text is Unicode's lowercase mapping, which is not
/// spelled out here.
#[verifier::external_body]
pub(crate) fn lowercased(s: &str) -> (r: String)
    ensures
        r@ == lowercase(s@),
        is_ascii_text(s@) ==> r@ == lower(s@),
{
    s.to_lowercase()
}

/// A text as `std`'s `Debug` shows it: in quotes, with what cannot be printed
/// escaped.
pub uninterp spec fn debug_quoted(s: Seq<char>) -> Seq<char>;

/// `Debug` of `str`, by `format!("{s:?}")`. How it escapes a character is not
/// spelled out here.
#[verifier::external_body]
pub(crate) fn quoted(s: &str) -> (r: String)
    ensures
        r@ == debug_quoted(s@),
{
    format!("{s:?}")
}

/// `std::str::from_utf8`: accepts valid UTF-8 and nothing else, and decodes it.
#[verifier::external_body]
pub(crate) fn utf8_text(bytes: &Vec<u8>) -> (r: Option<String>)
    ensures
        match r {
            Some(text) => valid_utf8(bytes@) && text@ == decode_utf8(bytes@),
            None => !valid_utf8(bytes@),
        },
{
    std::str::from_utf8(bytes).ok().map(str::to_owned)
}

/// How many bytes a character takes.
pub open spec fn char_bytes(c: char) -> nat {
    encode_scalar(c as u32).len()
}

pub fn char_width(c: char) -> (r: usize)
    ensures
        r == char_bytes(c),
        1 <= r <= 4,
{
    proof {
        char_is_scalar(c);
    }
    let code: u32 = c as u32;
    if code < 0x80 {
        1
    } else if code < 0x800 {
        2
    } else if code < 0x10000 {
        3
    } else {
        4
    }
}

/// A text takes the bytes of its characters.
pub proof fn byte_len_of_push(s: Seq<char>, c: char)
    ensures
        byte_len(s.push(c)) == byte_len(s) + char_bytes(c),
    decreases s.len(),
{
    reveal_with_fuel(encode_utf8, 2);
    if s.len() == 0 {
        assert(s.push(c).drop_first() =~= Seq::empty());
        assert(s.push(c)[0] == c);
    } else {
        assert(s.push(c).drop_first() =~= s.drop_first().push(c));
        byte_len_of_push(s.drop_first(), c);
    }
}

/// One text after the other.
pub fn glue(a: &str, b: &str) -> (r: String)
    ensures
        r@ == a@ + b@,
{
    let mut r = a.to_owned();
    r.append(b);
    r
}

pub fn glue3(a: &str, b: &str, c: &str) -> (r: String)
    ensures
        r@ == a@ + b@ + c@,
{
    let mut r = glue(a, b);
    r.append(c);
    r
}

/// The order of texts as a relation.
pub open spec fn text_order() -> spec_fn(Seq<char>, Seq<char>) -> bool {
    |a: Seq<char>, b: Seq<char>| text_le(a, b)
}

/// The texts in ascending order.
pub open spec fn sort_texts(list: Seq<Seq<char>>) -> Seq<Seq<char>> {
    list.sort_by(text_order())
}

proof fn text_order_is_total()
    ensures
        total_ordering(text_order()),
{
    assert forall|a: Seq<char>| #[trigger] text_le(a, a) by {
        text_le_is_reflexive(a);
    }
    assert forall|a: Seq<char>, b: Seq<char>|
        #[trigger] text_le(a, b) && #[trigger] text_le(b, a) implies a == b by {
        text_le_is_antisymmetric(a, b);
    }
    assert forall|a: Seq<char>, b: Seq<char>, c: Seq<char>|
        #[trigger] text_le(a, b) && #[trigger] text_le(b, c) implies text_le(a, c) by {
        text_le_is_transitive(a, b, c);
    }
    assert forall|a: Seq<char>, b: Seq<char>|
        #[trigger] text_le(a, b) || #[trigger] text_le(b, a) by {
        text_le_is_total(a, b);
    }
    assert(total_ordering(text_order()));
}

/// A list in ascending order with the items of another is that other one sorted.
pub proof fn sorted_texts_are_unique(list: Seq<Seq<char>>, sorted: Seq<Seq<char>>)
    requires
        sorted_by(sorted, text_order()),
        sorted.to_multiset() == list.to_multiset(),
    ensures
        sorted == sort_texts(list),
{
    text_order_is_total();
    list.lemma_sort_by_ensures(text_order());
    vstd::seq_lib::lemma_sorted_unique(sorted, sort_texts(list), text_order());
}

pub fn text_not_after(a: &str, b: &str) -> (r: bool)
    ensures
        r == text_le(a@, b@),
{
    let left = chars_of(a);
    let right = chars_of(b);
    let mut i: usize = 0;
    proof {
        assert(a@.skip(0) =~= a@);
        assert(b@.skip(0) =~= b@);
    }
    while i < left.len() && i < right.len()
        invariant
            i <= left@.len(),
            i <= right@.len(),
            left@ == a@,
            right@ == b@,
            text_le(a@, b@) == text_le(a@.skip(i as int), b@.skip(i as int)),
        decreases left@.len() - i,
    {
        proof {
            assert(a@.skip(i as int).drop_first() =~= a@.skip(i + 1));
            assert(b@.skip(i as int).drop_first() =~= b@.skip(i + 1));
        }
        if left[i] != right[i] {
            return left[i] < right[i];
        }
        i += 1;
    }
    i == left.len()
}

/// The texts in ascending order.
pub fn sorted_texts(list: Vec<String>) -> (r: Vec<String>)
    ensures
        texts(r@) == sort_texts(texts(list@)),
{
    let mut r: Vec<String> = Vec::new();
    let mut i: usize = 0;
    proof {
        assert(texts(r@) =~= texts(list@).take(0));
    }
    while i < list.len()
        invariant
            i <= list@.len(),
            sorted_by(texts(r@), text_order()),
            texts(r@).to_multiset() == texts(list@).take(i as int).to_multiset(),
        decreases list@.len() - i,
    {
        let ghost before = texts(r@);
        let ghost added = list@[i as int]@;
        let mut at: usize = 0;
        while at < r.len() && text_not_after(r[at].as_str(), list[i].as_str())
            invariant
                i < list@.len(),
                at <= r@.len(),
                before == texts(r@),
                added == list@[i as int]@,
                forall|j: int| 0 <= j < at ==> text_le(#[trigger] before[j], added),
            decreases r@.len() - at,
        {
            assert(before[at as int] == r@[at as int]@);
            at += 1;
        }
        proof {
            text_order_is_total();
            if at < before.len() {
                assert(before[at as int] == r@[at as int]@);
                text_le_is_total(before[at as int], added);
            }
        }
        let ghost old_r = r@;
        r.insert(at, list[i].clone());
        proof {
            assert(texts(r@) =~= before.insert(at as int, added));
            assert forall|a: int, b: int| 0 <= a < b < texts(r@).len() implies #[trigger] text_le(
                texts(r@)[a],
                texts(r@)[b],
            ) by {
                let order = text_order();
                if a < at && b < at {
                    assert(order(before[a], before[b]));
                } else if a < at && b > at {
                    assert(order(before[a], before[b - 1]));
                } else if a < at {
                    assert(text_le(before[a], added));
                } else if a == at {
                    if at < b - 1 {
                        assert(order(before[at as int], before[b - 1]));
                        text_le_is_transitive(added, before[at as int], before[b - 1]);
                    }
                } else {
                    assert(order(before[a - 1], before[b - 1]));
                }
            }
            broadcast use vstd::seq_lib::group_to_multiset_ensures;

            before.to_multiset_ensures();
            assert(texts(r@).remove(at as int) =~= before);
            texts(r@).to_multiset_ensures();
            assert(texts(r@)[at as int] == added);
            assert(texts(r@).contains(added));
            assert(texts(r@).to_multiset() =~= before.to_multiset().insert(added));
            assert(texts(list@).take(i + 1) =~= texts(list@).take(i as int).push(added));
            texts(list@).take(i as int).to_multiset_ensures();
        }
        i += 1;
    }
    proof {
        assert(texts(list@).take(list@.len() as int) =~= texts(list@));
        sorted_texts_are_unique(texts(list@), texts(r@));
    }
    r
}

proof fn enumeration_of(s: Set<Seq<char>>)
    requires
        s.finite(),
    ensures
        s.to_seq().no_duplicates(),
        s.to_seq().to_set() == s,
    decreases s.len(),
{
    if s.len() == 0 {
        assert(s =~= Set::empty());
        assert(s.to_seq().to_set() =~= s);
    } else {
        let x = s.choose();
        let rest = s.remove(x);
        enumeration_of(rest);
        let list = Seq::<Seq<char>>::empty().push(x) + rest.to_seq();
        assert(s.to_seq() == list);
        assert forall|k: Seq<char>| list.to_set().contains(k) == s.contains(k) by {
            if list.contains(k) {
                let i = choose|i: int| 0 <= i < list.len() && list[i] == k;
                if i > 0 {
                    assert(rest.to_seq()[i - 1] == k);
                    assert(rest.to_seq().to_set().contains(k));
                }
            }
            if s.contains(k) {
                if k == x {
                    assert(list[0] == k);
                } else {
                    assert(rest.to_seq().to_set().contains(k));
                    let i = choose|i: int| 0 <= i < rest.to_seq().len() && rest.to_seq()[i] == k;
                    assert(list[i + 1] == k);
                }
            }
        }
        assert(list.to_set() =~= s);
        assert forall|i: int, j: int| 0 <= i < j < list.len() implies list[i] != list[j] by {
            assert(rest.to_seq()[j - 1] == list[j]);
            assert(rest.to_seq().to_set().contains(list[j]));
            if i > 0 {
                assert(rest.to_seq()[i - 1] == list[i]);
            }
        }
    }
}

/// The texts of a set in ascending order.
pub open spec fn in_order(s: Set<Seq<char>>) -> Seq<Seq<char>> {
    s.to_sorted_seq(text_order())
}

/// Sorting keeps the texts of a list.
pub proof fn sorting_keeps_the_texts(list: Seq<Seq<char>>)
    ensures
        sort_texts(list).to_multiset() == list.to_multiset(),
        sorted_by(sort_texts(list), text_order()),
{
    text_order_is_total();
    list.lemma_sort_by_ensures(text_order());
}

/// However the texts of a set are listed, sorting the list gives the same.
pub proof fn listings_sort_alike(s: Set<Seq<char>>, list: Seq<Seq<char>>)
    requires
        list.no_duplicates(),
        list.to_set() == s,
    ensures
        sort_texts(list) == in_order(s),
{
    broadcast use vstd::multiset::group_multiset_axioms;

    vstd::seq_lib::seq_to_set_is_finite(list);
    enumeration_of(s);
    let other = s.to_seq();
    list.lemma_multiset_has_no_duplicates();
    other.lemma_multiset_has_no_duplicates();
    list.to_multiset_ensures();
    other.to_multiset_ensures();
    assert forall|x: Seq<char>| list.to_multiset().count(x) == other.to_multiset().count(x) by {
        assert(list.contains(x) == list.to_set().contains(x));
        assert(other.contains(x) == other.to_set().contains(x));
    }
    assert(list.to_multiset() =~= other.to_multiset());
    text_order_is_total();
    list.lemma_sort_by_ensures(text_order());
    sorted_texts_are_unique(other, sort_texts(list));
}

/// The texts of a set in order are the texts of the set.
pub proof fn text_order_sorts_a_listing(s: Set<Seq<char>>)
    requires
        s.finite(),
    ensures
        in_order(s).no_duplicates(),
        forall|i: int| 0 <= i < in_order(s).len() ==> s.contains(#[trigger] in_order(s)[i]),
        forall|x: Seq<char>| s.contains(x) ==> #[trigger] in_order(s).contains(x),
{
    broadcast use vstd::multiset::group_multiset_axioms;

    enumeration_of(s);
    let list = s.to_seq();
    let sorted = in_order(s);
    text_order_is_total();
    list.lemma_sort_by_ensures(text_order());
    list.lemma_multiset_has_no_duplicates();
    list.to_multiset_ensures();
    sorted.to_multiset_ensures();
    sorted.lemma_multiset_has_no_duplicates_conv();
    assert forall|i: int| 0 <= i < sorted.len() implies s.contains(#[trigger] sorted[i]) by {
        assert(sorted.contains(sorted[i]));
        assert(list.contains(sorted[i]));
        assert(list.to_set().contains(sorted[i]));
    }
    assert forall|x: Seq<char>| s.contains(x) implies #[trigger] sorted.contains(x) by {
        assert(list.to_set().contains(x));
        assert(list.contains(x));
        assert(list.to_multiset().count(x) > 0);
        assert(sorted.to_multiset().count(x) > 0);
    }
}

} // verus!

//! What the operations on texts do, character by character.

use crate::digest::{hex_digit, hex_text};
use crate::headers::{is_header_text, sendable};
use crate::text::{
    all_digits, contains_text, decimal, ends_with, is_alphanumeric, is_control, is_digit, is_space,
    join, lower, same_ignoring_case, signed_decimal, split, split_is_nonempty, starts_with, text_le,
};
use vstd::prelude::*;

verus! {

/// What is white space, and what is not.
pub proof fn white_space(c: char)
    ensures
        c == ' ' || c == '\t' || c == '\n' || c == '\r' || c == '\u{b}' || c == '\u{c}' || c
            == '\u{a0}' || c == '\u{2003}' || c == '\u{3000}' ==> is_space(c),
        '!' <= c <= '~' ==> !is_space(c),
{
}

/// Letters, digits and control characters.
pub proof fn kinds_of_characters(c: char)
    ensures
        is_digit(c) == ('0' <= c <= '9'),
        is_alphanumeric(c) == ('0' <= c <= '9' || 'a' <= c <= 'z' || 'A' <= c <= 'Z'),
        c < ' ' || c == '\u{7f}' ==> is_control(c),
        ' ' <= c <= '~' ==> !is_control(c),
{
}

/// A text has digits only if each of its characters is one.
pub proof fn digits_only(s: Seq<char>)
    ensures
        all_digits(s) == (forall|i: int| 0 <= i < s.len() ==> '0' <= #[trigger] s[i] <= '9'),
{
}

/// Two texts are alike up to the case of letters if they are as long, and at each
/// place have the same character or the two forms of one letter.
pub proof fn alike_up_to_case(a: Seq<char>, b: Seq<char>)
    ensures
        same_ignoring_case(a, b) == (a.len() == b.len() && forall|i: int|
            0 <= i < a.len() ==> {
                ||| #[trigger] a[i] == b[i]
                ||| 'A' <= a[i] <= 'Z' && b[i] as int == a[i] as int + 32
                ||| 'A' <= b[i] <= 'Z' && a[i] as int == b[i] as int + 32
            }),
{
    let alike = a.len() == b.len() && forall|i: int|
        0 <= i < a.len() ==> {
            ||| #[trigger] a[i] == b[i]
            ||| 'A' <= a[i] <= 'Z' && b[i] as int == a[i] as int + 32
            ||| 'A' <= b[i] <= 'Z' && a[i] as int == b[i] as int + 32
        };
    if same_ignoring_case(a, b) {
        assert(lower(a).len() == lower(b).len());
        assert forall|i: int| 0 <= i < a.len() implies {
            ||| #[trigger] a[i] == b[i]
            ||| 'A' <= a[i] <= 'Z' && b[i] as int == a[i] as int + 32
            ||| 'A' <= b[i] <= 'Z' && a[i] as int == b[i] as int + 32
        } by {
            assert(lower(a)[i] == lower(b)[i]);
        }
    }
    if alike {
        assert forall|i: int| 0 <= i < a.len() implies #[trigger] lower(a)[i] == lower(b)[i] by {
            assert(a[i] == a[i]);
        }
        assert(lower(a) =~= lower(b));
    }
}

/// A text starts with another if it is that text and something behind it.
pub proof fn starting_and_ending(s: Seq<char>, part: Seq<char>, rest: Seq<char>)
    ensures
        starts_with(part + rest, part),
        ends_with(rest + part, part),
        starts_with(s, part) ==> s == part + s.skip(part.len() as int),
        ends_with(s, part) ==> s == s.take(s.len() - part.len()) + part,
{
    assert((part + rest).take(part.len() as int) =~= part);
    assert((rest + part).skip((rest + part).len() - part.len()) =~= part);
    if starts_with(s, part) {
        assert(s =~= part + s.skip(part.len() as int));
    }
    if ends_with(s, part) {
        assert(s =~= s.take(s.len() - part.len()) + part);
    }
}

/// A text contains another if it stands in it without a gap.
pub proof fn containing(s: Seq<char>, part: Seq<char>, before: Seq<char>, after: Seq<char>)
    ensures
        contains_text(before + part + after, part),
        contains_text(s, part) ==> exists|a: Seq<char>, b: Seq<char>|
            s == #[trigger] (a + part + b),
{
    let at = before.len() as int;
    assert((before + part + after).subrange(at, at + part.len()) =~= part);
    if contains_text(s, part) {
        let i = choose|i: int|
            0 <= i <= s.len() - part.len() && #[trigger] s.subrange(i, i + part.len()) == part;
        assert(s =~= s.take(i) + part + s.skip(i + part.len()));
    }
}

/// A text without the separator is one piece; a separator and a piece behind a text
/// add that piece.
pub proof fn pieces_of_a_text(s: Seq<char>, piece: Seq<char>, separator: char)
    requires
        forall|i: int| 0 <= i < piece.len() ==> #[trigger] piece[i] != separator,
    ensures
        split(piece, separator) == seq![piece],
        split(s + seq![separator] + piece, separator) == split(s, separator).push(piece),
    decreases piece.len(),
{
    split_is_nonempty(s, separator);
    if piece.len() == 0 {
        assert(piece =~= Seq::empty());
        assert(split(piece, separator) =~= seq![piece]);
        let whole = s + seq![separator] + piece;
        assert(whole.drop_last() =~= s);
        assert(whole.last() == separator);
    } else {
        let shorter = piece.drop_last();
        assert forall|i: int| 0 <= i < shorter.len() implies #[trigger] shorter[i]
            != separator by {
            assert(shorter[i] == piece[i]);
        }
        pieces_of_a_text(s, shorter, separator);
        assert(piece[piece.len() - 1] != separator);
        assert(shorter.push(piece.last()) =~= piece);
        assert(split(piece, separator) =~= seq![piece]);
        let whole = s + seq![separator] + piece;
        assert(whole.drop_last() =~= s + seq![separator] + shorter);
        assert(whole.last() == piece.last());
        assert(split(whole, separator) =~= split(s, separator).push(piece));
    }
}

/// Joining puts the separator between neighbours and nowhere else.
pub proof fn joining_pieces(pieces: Seq<Seq<char>>, piece: Seq<char>, separator: Seq<char>)
    ensures
        join(Seq::empty(), separator) == Seq::<char>::empty(),
        join(seq![piece], separator) == piece,
        pieces.len() > 0 ==> join(pieces.push(piece), separator) == join(pieces, separator)
            + separator + piece,
{
    assert(pieces.push(piece).drop_last() =~= pieces);
}

/// A number is written by its digits, the most significant first and none in front
/// that says nothing.
pub proof fn writing_numbers(n: nat)
    ensures
        n < 10 ==> decimal(n).len() == 1 && decimal(n)[0] as int == '0' as int + n,
        n >= 10 ==> decimal(n).len() == decimal(n / 10).len() + 1 && decimal(n).drop_last()
            == decimal(n / 10) && decimal(n).last() as int == '0' as int + n % 10,
        signed_decimal(n as int) == decimal(n),
        n > 0 ==> signed_decimal(-n) == seq!['-'] + decimal(n),
{
    if n >= 10 {
        assert(decimal(n).drop_last() =~= decimal(n / 10));
    }
}

/// The order of texts goes by the first character that differs; a text comes after its
/// own beginnings.
pub proof fn the_order_of_texts(common: Seq<char>, a: Seq<char>, b: Seq<char>)
    ensures
        a.len() > 0 && b.len() > 0 && a[0] < b[0] ==> text_le(common + a, common + b) && !text_le(
            common + b,
            common + a,
        ),
        text_le(common, common + b),
        b.len() > 0 ==> !text_le(common + b, common),
    decreases common.len(),
{
    if common.len() == 0 {
        assert(common + a =~= a);
        assert(common + b =~= b);
    } else {
        let rest = common.drop_first();
        assert((common + a).drop_first() =~= rest + a);
        assert((common + b).drop_first() =~= rest + b);
        assert((common + a)[0] == common[0] && (common + b)[0] == common[0]);
        the_order_of_texts(rest, a, b);
    }
}

/// A byte is written by two hexadecimal digits in small letters.
pub proof fn bytes_in_hexadecimal(bytes: Seq<u8>, byte: u8)
    ensures
        hex_text(bytes.push(byte)).len() == hex_text(bytes).len() + 2,
        hex_text(bytes.push(byte)) == hex_text(bytes) + seq![
            hex_digit(byte as nat / 16),
            hex_digit(byte as nat % 16),
        ],
        forall|n: nat| n < 10 ==> (#[trigger] hex_digit(n)) as int == '0' as int + n,
        forall|n: nat| 10 <= n < 16 ==> (#[trigger] hex_digit(n)) as int == 'a' as int + n - 10,
{
    assert(bytes.push(byte).drop_last() =~= bytes);
    assert(hex_text(bytes.push(byte)) =~= hex_text(bytes) + seq![
        hex_digit(byte as nat / 16),
        hex_digit(byte as nat % 16),
    ]);
}

/// A field goes out unless its value has a control character other than a tab.
pub proof fn fields_that_go_out(
    fields: Seq<(Seq<char>, Seq<char>)>,
    name: Seq<char>,
    value: Seq<char>,
)
    ensures
        (forall|i: int|
            0 <= i < value.len() ==> #[trigger] value[i] == '\t' || (value[i] >= ' ' && value[i]
                != '\u{7f}')) ==> sendable(fields.push((name, value))) == sendable(fields).push(
            (name, value),
        ),
        (exists|i: int| 0 <= i < value.len() && (#[trigger] value[i] == '\n' || value[i] == '\r'))
            ==> sendable(fields.push((name, value))) == sendable(fields),
{
    assert(fields.push((name, value)).drop_last() =~= fields);
    if exists|i: int|
        0 <= i < value.len() && (#[trigger] value[i] == '\n' || value[i] == '\r') {
        let i = choose|i: int|
            0 <= i < value.len() && (#[trigger] value[i] == '\n' || value[i] == '\r');
        assert(!is_header_text(value));
    }
}

} // verus!

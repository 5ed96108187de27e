//! Even draws from a small range.

use vstd::prelude::*;

verus! {

/// The largest multiple of `count` that a draw may stay below.
pub open spec fn draw_limit(count: int) -> int {
    u64::MAX - u64::MAX as int % count
}

/// A draw of 64 bits as an index below `count`; none where it would make some
/// indices more likely than others.
pub open spec fn index_of_draw(draw: int, count: int) -> Option<int> {
    if draw < draw_limit(count) {
        Some(draw % count)
    } else {
        None
    }
}

pub fn accept_draw(draw: u64, count: usize) -> (r: Option<usize>)
    requires
        count > 0,
    ensures
        match r {
            Some(index) => index_of_draw(draw as int, count as int) == Some(index as int) && index
                < count,
            None => index_of_draw(draw as int, count as int) is None,
        },
{
    let bound: u64 = count as u64;
    let limit: u64 = u64::MAX - u64::MAX % bound;
    if draw < limit {
        Some((draw % bound) as usize)
    } else {
        None
    }
}

/// Eight random bytes of `getrandom::fill`, as one number; none where the system
/// has no randomness to give. Nothing is stated of the number.
#[verifier::external_body]
fn random_word() -> Option<u64> {
    let mut bytes = [0; 8];
    getrandom::fill(&mut bytes).ok().map(|_| u64::from_be_bytes(bytes))
}

/// The last eight bytes of `Uuid::now_v7`, as one number. Nothing is stated of the
/// number.
#[verifier::external_body]
fn uuid_word() -> u64 {
    uuid::Uuid::now_v7().as_u64_pair().1
}

/// Where a UUID's text has its hyphens.
pub open spec fn is_hyphen_place(i: int) -> bool {
    i == 8 || i == 13 || i == 18 || i == 23
}

/// The text of a version 7 UUID: lower-case hexadecimal digits in five groups, with
/// the version and the variant in their places.
pub open spec fn is_time_ordered_id(s: Seq<char>) -> bool {
    &&& s.len() == 36
    &&& forall|i: int|
        0 <= i < 36 ==> if is_hyphen_place(i) {
            #[trigger] s[i] == '-'
        } else {
            '0' <= s[i] <= '9' || 'a' <= s[i] <= 'f'
        }
    &&& s[14] == '7'
    &&& s[19] == '8' || s[19] == '9' || s[19] == 'a' || s[19] == 'b'
}

/// `Uuid::now_v7`, written by `Uuid`'s `Display`: the hyphenated lower-case form of a
/// UUID of version 7 and of the variant of RFC 9562. Which one comes depends on the
/// time and on chance, so nothing more is stated of the text.
#[verifier::external_body]
pub(crate) fn time_ordered_id() -> (r: String)
    ensures
        is_time_ordered_id(r@),
{
    uuid::Uuid::now_v7().to_string()
}

/// An index below `count`, each as likely as any other.
pub fn random_index(count: usize) -> (r: usize)
    requires
        count > 0,
    ensures
        r < count,
{
    let mut tries: u64 = u64::MAX;
    while tries > 0
        invariant
            count > 0,
        decreases tries,
    {
        let draw: u64 = match random_word() {
            Some(word) => word,
            None => uuid_word(),
        };
        if let Some(index) = accept_draw(draw, count) {
            return index;
        }
        tries -= 1;
    }
    0
}

/// Every index is given by equally many draws: a draw that is accepted can be
/// moved to any other index without leaving its block of `count` draws.
pub proof fn draws_are_even(draw: int, count: int, other: int)
    requires
        count > 0,
        0 <= draw < draw_limit(count),
        0 <= other < count,
    ensures
        ({
            let moved = draw - draw % count + other;
            &&& 0 <= moved < draw_limit(count)
            &&& index_of_draw(moved, count) == Some(other)
        }),
{
    let moved = draw - draw % count + other;
    let block = draw / count;
    let blocks = u64::MAX as int / count;
    vstd::arithmetic::div_mod::lemma_fundamental_div_mod(draw, count);
    vstd::arithmetic::div_mod::lemma_fundamental_div_mod(u64::MAX as int, count);
    assert(draw_limit(count) == count * blocks);
    assert(moved == count * block + other);
    assert(block < blocks) by (nonlinear_arith)
        requires
            count * block <= draw,
            draw < count * blocks,
            count > 0,
    ;
    assert(count * block + count <= count * blocks) by (nonlinear_arith)
        requires
            block < blocks,
            count > 0,
    ;
    assert(0 <= count * block) by (nonlinear_arith)
        requires
            0 <= draw,
            block == draw / count,
            count > 0,
    ;
    vstd::arithmetic::div_mod::lemma_fundamental_div_mod_converse(moved, count, block, other);
}

} // verus!

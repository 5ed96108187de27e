//! What holds of reading JSON values: members by their kind, texts without the white
//! space around them, and when two values are the same.

use crate::json::{
    array_member, bool_member, exact_text_member, integer_member, integer_value, member_or_null,
    object_member, same_tree, text_member, text_value, Members, NumberView, Tree,
};
use crate::text::{is_space, is_trimmed, trimmed_stays};
use vstd::prelude::*;

verus! {

/// A member is read as what it is, and as nothing else; a member that is not there is
/// null.
pub proof fn a_member_is_read_by_its_kind(members: Members, key: Seq<char>)
    ensures
        !members.dom().contains(key) ==> {
            &&& member_or_null(members, key) is Null
            &&& object_member(members, key) is None
            &&& array_member(members, key) is None
            &&& bool_member(members, key) is None
            &&& exact_text_member(members, key) is None
            &&& integer_member(members, key) is None
            &&& text_member(members, key).len() == 0
        },
        members.dom().contains(key) ==> {
            &&& member_or_null(members, key) == members[key]
            &&& match members[key] {
                Tree::Object(object) => object_member(members, key) == Some(object),
                _ => object_member(members, key) is None,
            }
            &&& match members[key] {
                Tree::Array(items) => array_member(members, key) == Some(items),
                _ => array_member(members, key) is None,
            }
            &&& match members[key] {
                Tree::Bool(value) => bool_member(members, key) == Some(value),
                _ => bool_member(members, key) is None,
            }
            &&& match members[key] {
                Tree::Text(text) => exact_text_member(members, key) == Some(text),
                _ => exact_text_member(members, key) is None && text_member(members, key).len()
                    == 0,
            }
        },
{
}

/// A text is read without the white space at its ends.
pub proof fn a_text_is_read_trimmed(members: Members, key: Seq<char>, text: Seq<char>)
    requires
        text.len() == 0 || (!is_space(text[0]) && !is_space(text[text.len() - 1])),
    ensures
        text_value(Tree::Text(text)) == text,
        members.dom().contains(key) && members[key] == Tree::Text(text) ==> text_member(
            members,
            key,
        ) == text,
{
    assert(is_trimmed(text));
    trimmed_stays(text);
}

/// A whole number is read where it fits into 64 bits with a sign.
pub proof fn a_whole_number_is_read(members: Members, key: Seq<char>, n: nat, negative: int)
    ensures
        n <= i64::MAX ==> integer_value(Tree::Number(NumberView::Unsigned(n))) == Some(n as int),
        n > i64::MAX ==> integer_value(Tree::Number(NumberView::Unsigned(n))) is None,
        integer_value(Tree::Number(NumberView::Negative(negative))) == Some(negative),
        integer_value(Tree::Null) is None,
        members.dom().contains(key) && members[key] == Tree::Number(NumberView::Unsigned(n)) && n
            <= i64::MAX ==> integer_member(members, key) == Some(n as int),
{
}

/// A value is the same as itself.
pub proof fn a_value_is_the_same_as_itself(tree: Tree)
    ensures
        same_tree(tree, tree),
    decreases tree,
{
    match tree {
        Tree::Array(items) => {
            assert forall|i: int| 0 <= i < items.len() implies same_tree(
                #[trigger] items[i],
                items[i],
            ) by {
                a_value_is_the_same_as_itself(items[i]);
            }
        },
        Tree::Object(members) => {
            assert forall|key: Seq<char>| #[trigger]
                members.dom().contains(key) implies same_tree(members[key], members[key]) by {
                a_value_is_the_same_as_itself(members[key]);
            }
        },
        _ => {},
    }
}

/// Simple values are the same when they are equal. Lists are when they are equally long
/// and their items are the same, place by place; objects when they have the same keys
/// and the same value under each.
pub proof fn when_two_values_are_the_same(
    a: Tree,
    b: Tree,
    items: Seq<Tree>,
    others: Seq<Tree>,
    members: Members,
    more: Members,
    i: int,
    key: Seq<char>,
)
    ensures
        !(a is Number) && !(a is Array) && !(a is Object) ==> (same_tree(a, b) <==> a == b),
        a is Number && !(a->Number_0 is Decimal) ==> (same_tree(a, b) <==> a == b),
        items.len() != others.len() ==> !same_tree(Tree::Array(items), Tree::Array(others)),
        0 <= i < items.len() && i < others.len() && !same_tree(items[i], others[i]) ==> !same_tree(
            Tree::Array(items),
            Tree::Array(others),
        ),
        items.len() == others.len() && (forall|k: int|
            0 <= k < items.len() ==> same_tree(#[trigger] items[k], others[k])) ==> same_tree(
            Tree::Array(items),
            Tree::Array(others),
        ),
        members.dom().contains(key) != more.dom().contains(key) ==> !same_tree(
            Tree::Object(members),
            Tree::Object(more),
        ),
        members.dom().contains(key) && more.dom().contains(key) && !same_tree(
            members[key],
            more[key],
        ) ==> !same_tree(Tree::Object(members), Tree::Object(more)),
        members.dom() == more.dom() && (forall|k: Seq<char>| #[trigger]
            members.dom().contains(k) ==> same_tree(members[k], more[k])) ==> same_tree(
            Tree::Object(members),
            Tree::Object(more),
        ),
        !same_tree(Tree::Array(items), Tree::Object(members)),
{
}

} // verus!

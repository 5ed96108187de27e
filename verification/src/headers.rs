//! Header fields of requests.

use vstd::prelude::*;

verus! {

/// A header field: its name and its value.
pub struct HeaderField {
    pub name: String,
    pub value: String,
}

pub open spec fn field_views(fields: Seq<HeaderField>) -> Seq<(Seq<char>, Seq<char>)> {
    fields.map_values(|field: HeaderField| (field.name@, field.value@))
}

/// A text without ASCII control characters, tabs aside.
pub open spec fn is_header_text(value: Seq<char>) -> bool {
    forall|i: int|
        0 <= i < value.len() ==> (' ' <= #[trigger] value[i] && value[i] != '\u{7f}') || value[i]
            == '\t'
}

/// `HeaderValue::from_str` of the crate `http`, which `reqwest` re-exports: it
/// refuses a text with an ASCII control character other than a tab, and no other.
#[verifier::external_body]
pub(crate) fn is_header_value(value: &str) -> (r: bool)
    ensures
        r == is_header_text(value@),
{
    reqwest::header::HeaderValue::from_str(value).is_ok()
}

pub fn field(name: &str, value: &str) -> (r: HeaderField)
    ensures
        r.name@ == name@,
        r.value@ == value@,
{
    HeaderField { name: name.to_owned(), value: value.to_owned() }
}

/// The fields whose values can be sent.
pub open spec fn sendable(fields: Seq<(Seq<char>, Seq<char>)>) -> Seq<(Seq<char>, Seq<char>)>
    decreases fields.len(),
{
    if fields.len() == 0 {
        Seq::empty()
    } else {
        let before = sendable(fields.drop_last());
        if is_header_text(fields.last().1) {
            before.push(fields.last())
        } else {
            before
        }
    }
}

/// Leaves out the fields whose values cannot be sent.
pub fn sendable_fields(fields: Vec<HeaderField>) -> (r: Vec<HeaderField>)
    ensures
        field_views(r@) == sendable(field_views(fields@)),
{
    let ghost all = field_views(fields@);
    let mut r: Vec<HeaderField> = Vec::new();
    let mut i: usize = 0;
    proof {
        assert(all.take(0) =~= Seq::empty());
        assert(field_views(r@) =~= Seq::empty());
    }
    while i < fields.len()
        invariant
            i <= fields@.len(),
            all == field_views(fields@),
            field_views(r@) == sendable(all.take(i as int)),
        decreases fields@.len() - i,
    {
        let ghost before = field_views(r@);
        proof {
            assert(all.take(i + 1).drop_last() =~= all.take(i as int));
            assert(all.take(i + 1).last() == all[i as int]);
        }
        if is_header_value(fields[i].value.as_str()) {
            r.push(field(fields[i].name.as_str(), fields[i].value.as_str()));
            proof {
                assert(field_views(r@) =~= before.push(all[i as int]));
            }
        }
        i += 1;
    }
    proof {
        assert(all.take(fields@.len() as int) =~= all);
    }
    r
}

} // verus!

//! JSON values.
//!
//! An object is modelled by the map from its keys to its values: the order of
//! its entries carries no meaning.

use crate::text::{is_one_line, optional_text, same_text, texts, trim, trimmed};
use serde_json::Value;
use vstd::prelude::*;

verus! {

/// A JSON value as the crate `serde_json` holds it.
#[verifier::external_type_specification]
#[verifier::external_body]
pub struct ExternalValue(serde_json::Value);

/// What a `serde_json::Value` says. A number that is no 64-bit whole number is
/// taken by the text that `serde_json` writes for it.
pub uninterp spec fn value_tree(value: serde_json::Value) -> Tree;

/// A number that is no 64-bit whole number.
pub struct DecimalNumber {
    value: serde_json::Value,
}

/// A number as JSON text gives it.
pub enum JsonNumber {
    /// A whole number that is not negative.
    Unsigned(u64),
    /// A whole number.
    Signed(i64),
    /// Any other number.
    Decimal(DecimalNumber),
}

pub enum Json {
    Null,
    Bool(bool),
    Number(JsonNumber),
    Text(String),
    Array(Vec<Json>),
    Object(JsonObject),
}

pub struct JsonEntry {
    pub key: String,
    pub value: Json,
}

/// The entries of a JSON object: no key occurs twice.
pub struct JsonObject {
    entries: Vec<JsonEntry>,
}

/// What a number says.
pub enum NumberView {
    Unsigned(nat),
    Negative(int),
    Decimal(Seq<char>),
}

/// What a JSON value says.
pub enum Tree {
    Null,
    Bool(bool),
    Number(NumberView),
    Text(Seq<char>),
    Array(Seq<Tree>),
    Object(Map<Seq<char>, Tree>),
}

impl DecimalNumber {
    #[verifier::type_invariant]
    spec fn is_decimal(self) -> bool {
        value_tree(self.value) is Number && value_tree(self.value)->Number_0 is Decimal
    }

    pub closed spec fn text(self) -> Seq<char> {
        value_tree(self.value)->Number_0->Decimal_0
    }
}

impl View for JsonNumber {
    type V = NumberView;

    open spec fn view(&self) -> NumberView {
        match self {
            JsonNumber::Unsigned(n) => NumberView::Unsigned(*n as nat),
            JsonNumber::Signed(n) => if *n < 0 {
                NumberView::Negative(*n as int)
            } else {
                NumberView::Unsigned(*n as nat)
            },
            JsonNumber::Decimal(number) => NumberView::Decimal(number.text()),
        }
    }
}

/// What an object says: its keys with their values.
pub type Members = Map<Seq<char>, Tree>;

spec fn has_key(entries: Seq<JsonEntry>, key: Seq<char>) -> bool {
    exists|i: int| 0 <= i < entries.len() && (#[trigger] entries[i]).key@ == key
}

spec fn place_of(entries: Seq<JsonEntry>, key: Seq<char>) -> int {
    choose|i: int| 0 <= i < entries.len() && (#[trigger] entries[i]).key@ == key
}

spec fn keys_differ(entries: Seq<JsonEntry>) -> bool {
    forall|i: int, j: int|
        0 <= i < j < entries.len() ==> (#[trigger] entries[i]).key@ != (#[trigger] entries[j]).key@
}

pub open spec fn tree_of(json: Json) -> Tree
    decreases json,
{
    match json {
        Json::Null => Tree::Null,
        Json::Bool(b) => Tree::Bool(b),
        Json::Number(n) => Tree::Number(n@),
        Json::Text(s) => Tree::Text(s@),
        Json::Array(items) => Tree::Array(
            Seq::new(
                items@.len(),
                |i: int|
                    if 0 <= i < items@.len() {
                        tree_of(items@[i])
                    } else {
                        Tree::Null
                    },
            ),
        ),
        Json::Object(object) => Tree::Object(members_of(object)),
    }
}

pub closed spec fn members_of(object: JsonObject) -> Members
    decreases object,
{
    Map::new(
        |key: Seq<char>| has_key(object.entries@, key),
        |key: Seq<char>|
            {
                let i = place_of(object.entries@, key);
                if 0 <= i < object.entries@.len() {
                    tree_of(object.entries@[i].value)
                } else {
                    Tree::Null
                }
            },
    )
}

impl View for Json {
    type V = Tree;

    open spec fn view(&self) -> Tree {
        tree_of(*self)
    }
}

impl View for JsonObject {
    type V = Members;

    open spec fn view(&self) -> Members {
        members_of(*self)
    }
}

/// What the values of a list say.
pub open spec fn trees(items: Seq<Json>) -> Seq<Tree> {
    items.map_values(|item: Json| item@)
}

/// An array says what its items say, in order.
pub broadcast proof fn array_view(items: Vec<Json>)
    ensures
        #[trigger] tree_of(Json::Array(items)) == Tree::Array(trees(items@)),
{
    assert(tree_of(Json::Array(items))->Array_0 =~= trees(items@));
}

proof fn member_at(object: JsonObject, i: int)
    requires
        keys_differ(object.entries@),
        0 <= i < object.entries@.len(),
    ensures
        object@.dom().contains(object.entries@[i].key@),
        object@[object.entries@[i].key@] == object.entries@[i].value@,
{
    let entries = object.entries@;
    let key = entries[i].key@;
    assert(has_key(entries, key));
    let j = place_of(entries, key);
    assert(0 <= j < entries.len() && entries[j].key@ == key);
    assert(i == j);
}

impl JsonObject {
    #[verifier::type_invariant]
    spec fn keys_are_distinct(self) -> bool {
        keys_differ(self.entries@)
    }

    pub fn new() -> (r: JsonObject)
        ensures
            r@ == Map::<Seq<char>, Tree>::empty(),
    {
        let r = JsonObject { entries: Vec::new() };
        proof {
            assert(r@ =~= Map::empty());
        }
        r
    }

    fn position(&self, key: &str) -> (r: Option<usize>)
        ensures
            match r {
                Some(i) => i < self.entries@.len() && self.entries@[i as int].key@ == key@,
                None => forall|i: int|
                    0 <= i < self.entries@.len() ==> (#[trigger] self.entries@[i]).key@ != key@,
            },
    {
        let mut i: usize = 0;
        while i < self.entries.len()
            invariant
                i <= self.entries@.len(),
                forall|j: int| 0 <= j < i ==> (#[trigger] self.entries@[j]).key@ != key@,
            decreases self.entries@.len() - i,
        {
            if same_text(self.entries[i].key.as_str(), key) {
                return Some(i);
            }
            i += 1;
        }
        None
    }

    pub fn get(&self, key: &str) -> (r: Option<&Json>)
        ensures
            match r {
                Some(value) => self@.dom().contains(key@) && value@ == self@[key@],
                None => !self@.dom().contains(key@),
            },
            match r {
                Some(value) => decreases_to!(self => value),
                None => true,
            },
    {
        proof {
            use_type_invariant(self);
        }
        match self.position(key) {
            Some(i) => {
                proof {
                    member_at(*self, i as int);
                }
                let value = &self.entries[i].value;
                assert(decreases_to!(self => self.entries));
                assert(decreases_to!(self.entries => self.entries@));
                assert(decreases_to!(self.entries@ => self.entries@[i as int]));
                assert(decreases_to!(self.entries@[i as int] => self.entries@[i as int].value));
                Some(value)
            },
            None => None,
        }
    }

    pub fn contains_key(&self, key: &str) -> (r: bool)
        ensures
            r == self@.dom().contains(key@),
    {
        self.get(key).is_some()
    }

    pub fn is_empty(&self) -> (r: bool)
        ensures
            r == (self@ == Map::<Seq<char>, Tree>::empty()),
    {
        if self.entries.len() == 0 {
            assert(self@ =~= Map::empty());
            true
        } else {
            proof {
                use_type_invariant(self);
                member_at(*self, 0);
            }
            false
        }
    }

    /// The keys, each once.
    pub fn keys(&self) -> (r: Vec<String>)
        ensures
            texts(r@).no_duplicates(),
            texts(r@).to_set() == self@.dom(),
    {
        proof {
            use_type_invariant(self);
        }
        let mut r: Vec<String> = Vec::new();
        let mut i: usize = 0;
        while i < self.entries.len()
            invariant
                i <= self.entries@.len(),
                keys_differ(self.entries@),
                r@.len() == i,
                forall|j: int| 0 <= j < i ==> (#[trigger] r@[j])@ == self.entries@[j].key@,
            decreases self.entries@.len() - i,
        {
            r.push(self.entries[i].key.clone());
            i += 1;
        }
        proof {
            assert forall|k: Seq<char>| texts(r@).to_set().contains(k) == self@.dom().contains(
                k,
            ) by {
                if texts(r@).to_set().contains(k) {
                    let j = choose|j: int| 0 <= j < texts(r@).len() && texts(r@)[j] == k;
                    member_at(*self, j);
                }
                if self@.dom().contains(k) {
                    let j = place_of(self.entries@, k);
                    assert(texts(r@)[j] == k);
                }
            }
            assert(texts(r@).to_set() =~= self@.dom());
            assert forall|a: int, b: int|
                0 <= a < texts(r@).len() && 0 <= b < texts(r@).len() && a != b implies texts(
                r@,
            )[a] != texts(r@)[b] by {
                assert(self.entries@[a].key@ != self.entries@[b].key@);
            }
        }
        r
    }

    /// The object with `key` set to `value`.
    pub fn insert(self, key: &str, value: Json) -> (r: JsonObject)
        ensures
            r@ == self@.insert(key@, value@),
    {
        proof {
            use_type_invariant(&self);
        }
        let found = self.position(key);
        let ghost before = self;
        let JsonObject { entries } = self;
        let mut entries = entries;
        let ghost old_entries = entries@;
        let entry = JsonEntry { key: key.to_owned(), value };
        let ghost added = entry;
        let at: usize = match found {
            Some(i) => {
                entries.set(i, entry);
                i
            },
            None => {
                let end = entries.len();
                entries.push(entry);
                end
            },
        };
        let r = JsonObject { entries };
        proof {
            assert forall|k: Seq<char>| r@.dom().contains(k) == before@.insert(
                key@,
                added.value@,
            ).dom().contains(k) by {
                if before@.dom().contains(k) {
                    let j = place_of(old_entries, k);
                    assert(r.entries@[j].key@ == k);
                }
                if r@.dom().contains(k) {
                    let j = place_of(r.entries@, k);
                    if j != at {
                        assert(old_entries[j].key@ == k);
                    }
                }
                assert(r.entries@[at as int].key@ == key@);
            }
            assert forall|k: Seq<char>| r@.dom().contains(k) implies r@[k] == before@.insert(
                key@,
                added.value@,
            )[k] by {
                let j = place_of(r.entries@, k);
                member_at(r, j);
                if j == at {
                } else {
                    member_at(before, j);
                }
            }
            assert(r@ =~= before@.insert(key@, added.value@));
        }
        r
    }

    /// The object without `key`.
    pub fn remove(self, key: &str) -> (r: JsonObject)
        ensures
            r@ == self@.remove(key@),
    {
        proof {
            use_type_invariant(&self);
        }
        let found = self.position(key);
        let ghost before = self;
        let JsonObject { entries } = self;
        let mut entries = entries;
        let ghost old_entries = entries@;
        match found {
            Some(i) => {
                entries.remove(i);
                let r = JsonObject { entries };
                proof {
                    let at = i as int;
                    assert forall|k: Seq<char>| r@.dom().contains(k) == before@.remove(
                        key@,
                    ).dom().contains(k) by {
                        if before@.dom().contains(k) && k != key@ {
                            let j = place_of(old_entries, k);
                            if j < at {
                                assert(r.entries@[j].key@ == k);
                            } else {
                                assert(r.entries@[j - 1].key@ == k);
                            }
                        }
                        if r@.dom().contains(k) {
                            let j = place_of(r.entries@, k);
                            if j < at {
                                assert(old_entries[j].key@ == k);
                            } else {
                                assert(old_entries[j + 1].key@ == k);
                            }
                        }
                    }
                    assert forall|k: Seq<char>| r@.dom().contains(k) implies r@[k] == before@.remove(
                        key@,
                    )[k] by {
                        let j = place_of(r.entries@, k);
                        member_at(r, j);
                        if j < at {
                            member_at(before, j);
                        } else {
                            member_at(before, j + 1);
                        }
                    }
                    assert(r@ =~= before@.remove(key@));
                }
                r
            },
            None => {
                let r = JsonObject { entries };
                proof {
                    assert(r@ =~= before@.remove(key@));
                }
                r
            },
        }
    }

    /// Another object that says the same.
    pub fn copy(&self) -> (r: JsonObject)
        ensures
            r@ == self@,
        decreases self,
    {
        proof {
            use_type_invariant(self);
        }
        let mut entries: Vec<JsonEntry> = Vec::new();
        let mut i: usize = 0;
        assert(decreases_to!(self => self.entries));
        while i < self.entries.len()
            invariant
                i <= self.entries@.len(),
                keys_differ(self.entries@),
                decreases_to!(self => self.entries),
                entries@.len() == i,
                forall|j: int|
                    0 <= j < i ==> (#[trigger] entries@[j]).key@ == self.entries@[j].key@
                        && entries@[j].value@ == self.entries@[j].value@,
            decreases self.entries@.len() - i,
        {
            assert(decreases_to!(self.entries => self.entries@));
            assert(decreases_to!(self.entries@ => self.entries@[i as int]));
            assert(decreases_to!(self.entries@[i as int] => self.entries@[i as int].value));
            let value = self.entries[i].value.copy();
            entries.push(JsonEntry { key: self.entries[i].key.clone(), value });
            i += 1;
        }
        assert(keys_differ(entries@)) by {
            assert forall|a: int, b: int| 0 <= a < b < entries@.len() implies (
            #[trigger] entries@[a]).key@ != (#[trigger] entries@[b]).key@ by {
                assert(self.entries@[a].key@ != self.entries@[b].key@);
            }
        }
        let r = JsonObject { entries };
        proof {
            assert forall|k: Seq<char>| r@.dom().contains(k) == self@.dom().contains(k) by {
                if self@.dom().contains(k) {
                    let j = place_of(self.entries@, k);
                    assert(r.entries@[j].key@ == k);
                }
                if r@.dom().contains(k) {
                    let j = place_of(r.entries@, k);
                    assert(self.entries@[j].key@ == k);
                }
            }
            assert forall|k: Seq<char>| r@.dom().contains(k) implies r@[k] == self@[k] by {
                let j = place_of(r.entries@, k);
                member_at(r, j);
                member_at(*self, j);
            }
            assert(r@ =~= self@);
        }
        r
    }

    /// The value of `key` when it is an object.
    pub fn object_at(&self, key: &str) -> (r: Option<&JsonObject>)
        ensures
            match r {
                Some(object) => object_member(self@, key@) == Some(object@),
                None => object_member(self@, key@) is None,
            },
            match r {
                Some(object) => decreases_to!(self => object),
                None => true,
            },
    {
        match self.get(key) {
            Some(value) => match value {
                Json::Object(object) => {
                    assert(decreases_to!(value => object));
                    Some(object)
                },
                _ => None,
            },
            None => None,
        }
    }

    /// The value of `key` when it is an array.
    pub fn array_at(&self, key: &str) -> (r: Option<&Vec<Json>>)
        ensures
            match r {
                Some(items) => array_member(self@, key@) == Some(trees(items@)),
                None => array_member(self@, key@) is None,
            },
    {
        broadcast use array_view;

        match self.get(key) {
            Some(value) => match value {
                Json::Array(items) => Some(items),
                _ => None,
            },
            None => None,
        }
    }

    /// The value of `key` when it is a truth value.
    pub fn bool_at(&self, key: &str) -> (r: Option<bool>)
        ensures
            r == bool_member(self@, key@),
    {
        match self.get(key) {
            Some(value) => match value {
                Json::Bool(b) => Some(*b),
                _ => None,
            },
            None => None,
        }
    }

    /// The text of `key`, without the white space at its ends; empty when there is none.
    pub fn text_at(&self, key: &str) -> (r: String)
        ensures
            r@ == text_member(self@, key@),
    {
        match self.get(key) {
            Some(value) => string_value(value),
            None => String::new(),
        }
    }

    /// The text of `key`, as it is.
    pub fn exact_text_at(&self, key: &str) -> (r: Option<String>)
        ensures
            optional_text(r) == exact_text_member(self@, key@),
    {
        match self.get(key) {
            Some(Json::Text(text)) => Some(text.clone()),
            _ => None,
        }
    }

    /// The 64-bit whole number of `key`.
    pub fn integer_at(&self, key: &str) -> (r: Option<i64>)
        ensures
            match r {
                Some(n) => integer_member(self@, key@) == Some(n as int),
                None => integer_member(self@, key@) is None,
            },
    {
        match self.get(key) {
            Some(value) => value.as_i64(),
            None => None,
        }
    }

    /// The value of `key`, null when there is none.
    pub fn value_or_null(&self, key: &str) -> (r: Json)
        ensures
            r@ == member_or_null(self@, key@),
    {
        match self.get(key) {
            Some(value) => value.copy(),
            None => Json::Null,
        }
    }
}

pub open spec fn object_member(members: Members, key: Seq<char>) -> Option<Members> {
    if members.dom().contains(key) && members[key] is Object {
        Some(members[key]->Object_0)
    } else {
        None
    }
}

pub open spec fn array_member(members: Members, key: Seq<char>) -> Option<Seq<Tree>> {
    if members.dom().contains(key) && members[key] is Array {
        Some(members[key]->Array_0)
    } else {
        None
    }
}

pub open spec fn bool_member(members: Members, key: Seq<char>) -> Option<bool> {
    if members.dom().contains(key) && members[key] is Bool {
        Some(members[key]->Bool_0)
    } else {
        None
    }
}

pub open spec fn member_or_null(members: Members, key: Seq<char>) -> Tree {
    if members.dom().contains(key) {
        members[key]
    } else {
        Tree::Null
    }
}

/// The text of a value, without the white space at its ends; empty when it is no text.
pub open spec fn text_value(tree: Tree) -> Seq<char> {
    match tree {
        Tree::Text(s) => trim(s),
        _ => Seq::empty(),
    }
}

pub open spec fn text_member(members: Members, key: Seq<char>) -> Seq<char> {
    text_value(member_or_null(members, key))
}

pub fn string_value(value: &Json) -> (r: String)
    ensures
        r@ == text_value(value@),
{
    match value {
        Json::Text(text) => trimmed(text.as_str()),
        _ => String::new(),
    }
}

/// The text of a key, as it is.
pub open spec fn exact_text_member(members: Members, key: Seq<char>) -> Option<Seq<char>> {
    match member_or_null(members, key) {
        Tree::Text(s) => Some(s),
        _ => None,
    }
}

/// The 64-bit whole number of a key.
pub open spec fn integer_member(members: Members, key: Seq<char>) -> Option<int> {
    integer_value(member_or_null(members, key))
}

/// The whole number that fits in 64 bits with a sign, if the value is one.
pub open spec fn integer_value(tree: Tree) -> Option<int> {
    match tree {
        Tree::Number(NumberView::Unsigned(n)) => if n <= i64::MAX {
            Some(n as int)
        } else {
            None
        },
        Tree::Number(NumberView::Negative(n)) => Some(n),
        _ => None,
    }
}

impl Json {
    /// Another value that says the same.
    pub fn copy(&self) -> (r: Json)
        ensures
            r@ == self@,
        decreases self,
    {
        broadcast use array_view;

        match self {
            Json::Null => Json::Null,
            Json::Bool(b) => Json::Bool(*b),
            Json::Number(n) => Json::Number(
                match n {
                    JsonNumber::Unsigned(n) => JsonNumber::Unsigned(*n),
                    JsonNumber::Signed(n) => JsonNumber::Signed(*n),
                    JsonNumber::Decimal(number) => {
                        proof {
                            use_type_invariant(number);
                        }
                        JsonNumber::Decimal(DecimalNumber { value: copy_value(&number.value) })
                    },
                },
            ),
            Json::Text(s) => Json::Text(s.clone()),
            Json::Array(items) => {
                let mut r: Vec<Json> = Vec::new();
                let mut i: usize = 0;
                while i < items.len()
                    invariant
                        i <= items@.len(),
                        decreases_to!(self => items),
                        r@.len() == i,
                        forall|j: int| 0 <= j < i ==> (#[trigger] r@[j])@ == items@[j]@,
                    decreases items@.len() - i,
                {
                    assert(decreases_to!(items => items@));
                    assert(decreases_to!(items@ => items@[i as int]));
                    r.push(items[i].copy());
                    i += 1;
                }
                proof {
                    assert(trees(r@) =~= trees(items@));
                }
                Json::Array(r)
            },
            Json::Object(object) => Json::Object(object.copy()),
        }
    }

    pub fn as_i64(&self) -> (r: Option<i64>)
        ensures
            match r {
                Some(n) => integer_value(self@) == Some(n as int),
                None => integer_value(self@) is None,
            },
    {
        match self {
            Json::Number(JsonNumber::Unsigned(n)) => if *n <= i64::MAX as u64 {
                Some(*n as i64)
            } else {
                None
            },
            Json::Number(JsonNumber::Signed(n)) => Some(*n),
            _ => None,
        }
    }

    pub fn is_null(&self) -> (r: bool)
        ensures
            r == (self@ is Null),
    {
        match self {
            Json::Null => true,
            _ => false,
        }
    }

    pub fn is_bool(&self) -> (r: bool)
        ensures
            r == (self@ is Bool),
    {
        match self {
            Json::Bool(_) => true,
            _ => false,
        }
    }

    pub fn is_number(&self) -> (r: bool)
        ensures
            r == (self@ is Number),
    {
        match self {
            Json::Number(_) => true,
            _ => false,
        }
    }

    pub fn is_text(&self) -> (r: bool)
        ensures
            r == (self@ is Text),
    {
        match self {
            Json::Text(_) => true,
            _ => false,
        }
    }

    pub fn as_object(&self) -> (r: Option<&JsonObject>)
        ensures
            match r {
                Some(object) => self@ == Tree::Object(object@),
                None => !(self@ is Object),
            },
    {
        match self {
            Json::Object(object) => Some(object),
            _ => None,
        }
    }
}

/// Two decimal numbers are equal when they are written alike; zero has two forms.
pub open spec fn same_decimal(a: Seq<char>, b: Seq<char>) -> bool {
    a == b || (is_zero(a) && is_zero(b))
}

pub open spec fn is_zero(text: Seq<char>) -> bool {
    text == "0.0"@ || text == "-0.0"@
}

/// Equality of JSON values.
pub open spec fn same_tree(a: Tree, b: Tree) -> bool
    decreases a,
{
    match (a, b) {
        (Tree::Number(NumberView::Decimal(x)), Tree::Number(NumberView::Decimal(y))) =>
            same_decimal(x, y),
        (Tree::Array(x), Tree::Array(y)) => x.len() == y.len() && forall|i: int|
            0 <= i < x.len() ==> same_tree(#[trigger] x[i], y[i]),
        (Tree::Object(x), Tree::Object(y)) => x.dom() == y.dom() && forall|key: Seq<char>|
            #[trigger] x.dom().contains(key) ==> same_tree(x[key], y[key]),
        _ => a == b,
    }
}

/// Copies a value with `serde_json`'s `Value::clone`: the copy says the same.
#[verifier::external_body]
fn copy_value(value: &serde_json::Value) -> (r: serde_json::Value)
    ensures
        value_tree(r) == value_tree(*value),
{
    value.clone()
}

/// Takes a `serde_json::Value` apart, one variant for one: the result says the
/// same. A number that has the form of a `u64` or an `i64` is given by it.
#[verifier::external_body]
fn json_of(value: Value) -> (r: Json)
    ensures
        r@ == value_tree(value),
{
    match value {
        Value::Null => Json::Null,
        Value::Bool(b) => Json::Bool(b),
        Value::Number(n) => Json::Number(match (n.as_u64(), n.as_i64()) {
            (Some(n), _) => JsonNumber::Unsigned(n),
            (_, Some(n)) => JsonNumber::Signed(n),
            _ => JsonNumber::Decimal(DecimalNumber { value: Value::Number(n) }),
        }),
        Value::String(s) => Json::Text(s),
        Value::Array(items) => Json::Array(items.into_iter().map(json_of).collect()),
        Value::Object(map) => Json::Object(JsonObject {
            entries: map.into_iter().map(|(key, value)| JsonEntry { key, value: json_of(value) }).collect(),
        }),
    }
}

/// Builds a `Value`, one variant for one: it says the same.
#[verifier::external_body]
fn value_of(json: &Json) -> (r: Value)
    ensures
        value_tree(r) == json@,
{
    match json {
        Json::Null => Value::Null,
        Json::Bool(b) => Value::Bool(*b),
        Json::Number(JsonNumber::Unsigned(n)) => Value::from(*n),
        Json::Number(JsonNumber::Signed(n)) => Value::from(*n),
        Json::Number(JsonNumber::Decimal(number)) => number.value.clone(),
        Json::Text(s) => Value::String(s.clone()),
        Json::Array(items) => Value::Array(items.iter().map(value_of).collect()),
        Json::Object(object) => Value::Object(
            object.entries.iter().map(|e| (e.key.clone(), value_of(&e.value))).collect(),
        ),
    }
}

/// Compares with `==` of `serde_json::Value`: arrays item by item, objects key by
/// key, whole numbers and the rest by what they are, other numbers as numbers.
#[verifier::external_body]
fn equal_values(a: &serde_json::Value, b: &serde_json::Value) -> (r: bool)
    ensures
        r == same_tree(value_tree(*a), value_tree(*b)),
{
    a == b
}

/// What `serde_json::from_str::<Map<String, Value>>` reads from a text, or the
/// text of the error with which it refuses it.
pub uninterp spec fn object_reading(text: Seq<char>) -> Result<Members, Seq<char>>;

/// Reads one JSON object with `serde_json::from_str::<Map<String, Value>>`. An
/// error is given by its text. What begins as an array is refused.
#[verifier::external_body]
fn read_object(text: &str) -> (r: Result<serde_json::Value, String>)
    ensures
        text@.len() > 0 && text@[0] == '[' ==> r is Err,
        match r {
            Ok(value) => value_tree(value) is Object && object_reading(text@) == Ok::<
                Members,
                Seq<char>,
            >(value_tree(value)->Object_0),
            Err(error) => object_reading(text@) == Err::<Members, Seq<char>>(error@),
        },
{
    serde_json::from_str::<serde_json::Map<String, serde_json::Value>>(text)
        .map(serde_json::Value::Object)
        .map_err(|error| error.to_string())
}

/// The object that a text holds, if it holds one and nothing else.
pub open spec fn object_in_text(text: Seq<char>) -> Option<Members> {
    match object_reading(text) {
        Ok(object) => Some(object),
        Err(_) => None,
    }
}

/// What the first object of a text is that
/// `serde_json::Deserializer::from_str(..).into_iter::<Map<String, Value>>()` hands
/// out, if it hands one out first.
pub uninterp spec fn leading_object_in_text(text: Seq<char>) -> Option<Members>;

/// Reads the JSON object at the start of a text with the iterator of
/// `serde_json::Deserializer`; what follows the object does not matter.
#[verifier::external_body]
fn read_leading_object(text: &str) -> (r: Option<serde_json::Value>)
    ensures
        match r {
            Some(value) => value_tree(value) is Object && leading_object_in_text(text@) == Some(
                value_tree(value)->Object_0,
            ),
            None => leading_object_in_text(text@) is None,
        },
{
    serde_json::Deserializer::from_str(text)
        .into_iter::<serde_json::Map<String, serde_json::Value>>()
        .next()
        .and_then(Result::ok)
        .map(serde_json::Value::Object)
}

/// What `serde_json::from_str::<Value>` reads from a text, if it accepts it.
pub uninterp spec fn value_in_text(text: Seq<char>) -> Option<Tree>;

/// Reads one JSON value with `serde_json::from_str::<Value>`.
#[verifier::external_body]
fn read_value(text: &str) -> (r: Option<serde_json::Value>)
    ensures
        match r {
            Some(value) => value_in_text(text@) == Some(value_tree(value)),
            None => value_in_text(text@) is None,
        },
{
    serde_json::from_str::<serde_json::Value>(text).ok()
}

/// What `serde_json::from_slice::<Value>` reads from bytes, if it accepts them.
pub uninterp spec fn value_in_bytes(bytes: Seq<u8>) -> Option<Tree>;

/// Reads one JSON value with `serde_json::from_slice::<Value>`.
#[verifier::external_body]
fn read_bytes(bytes: &Vec<u8>) -> (r: Option<serde_json::Value>)
    ensures
        match r {
            Some(value) => value_in_bytes(bytes@) == Some(value_tree(value)),
            None => value_in_bytes(bytes@) is None,
        },
{
    serde_json::from_slice::<serde_json::Value>(bytes).ok()
}

/// The compact text that `serde_json::to_string` writes for a value.
pub uninterp spec fn json_text(tree: Tree) -> Seq<char>;

/// How deep `serde_json` reads.
pub const DEPTH_LIMIT: u8 = 127;

/// A value that is read back as it was written: its numbers are whole or come back
/// when they are read by themselves, it is not nested deeper than this, and it does
/// not have the key that `serde_json` gives a meaning of its own.
pub open spec fn is_plain(tree: Tree, depth: nat) -> bool
    decreases depth,
{
    match tree {
        Tree::Number(NumberView::Decimal(text)) => value_in_text(text) == Some(tree),
        Tree::Array(items) => depth > 0 && forall|i: int|
            0 <= i < items.len() ==> is_plain(#[trigger] items[i], (depth - 1) as nat),
        Tree::Object(members) => depth > 0 && forall|key: Seq<char>| #[trigger]
            members.dom().contains(key) ==> key != "$serde_json::private::RawValue"@ && is_plain(
                members[key],
                (depth - 1) as nat,
            ),
        _ => true,
    }
}

/// What comes back from one depth comes back from a greater one.
pub proof fn plain_values_stay_plain(tree: Tree, depth: nat, more: nat)
    requires
        is_plain(tree, depth),
        depth <= more,
    ensures
        is_plain(tree, more),
    decreases depth,
{
    match tree {
        Tree::Array(items) => {
            assert forall|i: int| 0 <= i < items.len() implies is_plain(
                #[trigger] items[i],
                (more - 1) as nat,
            ) by {
                plain_values_stay_plain(items[i], (depth - 1) as nat, (more - 1) as nat);
            }
        },
        Tree::Object(members) => {
            assert forall|key: Seq<char>| #[trigger] members.dom().contains(key) implies key
                != "$serde_json::private::RawValue"@ && is_plain(members[key], (more - 1) as nat) by {
                plain_values_stay_plain(members[key], (depth - 1) as nat, (more - 1) as nat);
            }
        },
        _ => {},
    }
}

/// The values of an object that comes back come back from one depth less.
pub proof fn a_member_is_plain(members: Members, key: Seq<char>, depth: nat)
    requires
        is_plain(Tree::Object(members), depth),
        members.dom().contains(key),
    ensures
        key != "$serde_json::private::RawValue"@,
        is_plain(members[key], (depth - 1) as nat),
{
    let tree = Tree::Object(members);
    assert(tree->Object_0.dom().contains(key));
}

/// A text that holds an object, from its first brace to its last.
pub open spec fn is_text_of(text: Seq<char>, object: Members) -> bool {
    &&& object_reading(text) == Ok::<Members, Seq<char>>(object)
    &&& text.len() >= 2
    &&& text[0] == '{'
    &&& text.last() == '}'
}

/// Writes a value with `serde_json::to_string`, which does not fail on a
/// `serde_json::Value`. An object of whole numbers, texts and the like comes back
/// when the text is read. Another number is read alike by itself and inside a
/// value, so that the object comes back as well where its numbers do; they may come
/// back rounded. The text has no line break: nothing stands between the parts of a
/// value, and a control character in a text is written as an escape. Nothing is said
/// here of how values come back that are nested deeper than `serde_json` reads.
#[verifier::external_body]
fn write_value(value: &serde_json::Value) -> (r: String)
    ensures
        r@ == json_text(value_tree(*value)),
        is_one_line(r@),
        value_tree(*value) is Object && is_plain(value_tree(*value), DEPTH_LIMIT as nat)
            ==> is_text_of(r@, value_tree(*value)->Object_0),
{
    serde_json::to_string(value).unwrap_or_default()
}

pub open spec fn optional_tree(json: Option<Json>) -> Option<Tree> {
    match json {
        Some(json) => Some(json@),
        None => None,
    }
}

pub open spec fn optional_members(object: Option<JsonObject>) -> Option<Members> {
    match object {
        Some(object) => Some(object@),
        None => None,
    }
}

/// Equality of two JSON values.
pub fn same_json(a: &Json, b: &Json) -> (r: bool)
    ensures
        r == same_tree(a@, b@),
{
    equal_values(&value_of(a), &value_of(b))
}

fn object_of(value: serde_json::Value) -> (r: JsonObject)
    requires
        value_tree(value) is Object,
    ensures
        r@ == value_tree(value)->Object_0,
{
    match json_of(value) {
        Json::Object(object) => object,
        _ => JsonObject::new(),
    }
}

/// The object that a text holds.
pub fn parse_object(text: &str) -> (r: Option<JsonObject>)
    ensures
        optional_members(r) == object_in_text(text@),
        text@.len() > 0 && text@[0] == '[' ==> r is None,
{
    match read_object(text) {
        Ok(value) => Some(object_of(value)),
        Err(_) => None,
    }
}

/// The object that a text holds, or what is wrong with it.
pub fn try_parse_object(text: &str) -> (r: Result<JsonObject, String>)
    ensures
        match r {
            Ok(object) => object_reading(text@) == Ok::<Members, Seq<char>>(object@),
            Err(error) => object_reading(text@) == Err::<Members, Seq<char>>(error@),
        },
{
    match read_object(text) {
        Ok(value) => Ok(object_of(value)),
        Err(error) => Err(error),
    }
}

/// The object that a text starts with.
pub fn parse_leading_object(text: &str) -> (r: Option<JsonObject>)
    ensures
        optional_members(r) == leading_object_in_text(text@),
{
    match read_leading_object(text) {
        Some(value) => Some(object_of(value)),
        None => None,
    }
}

/// The value that a text holds.
pub fn parse_json(text: &str) -> (r: Option<Json>)
    ensures
        optional_tree(r) == value_in_text(text@),
{
    match read_value(text) {
        Some(value) => Some(json_of(value)),
        None => None,
    }
}

/// The value that bytes hold.
pub fn parse_bytes(bytes: &Vec<u8>) -> (r: Option<Json>)
    ensures
        optional_tree(r) == value_in_bytes(bytes@),
{
    match read_bytes(bytes) {
        Some(value) => Some(json_of(value)),
        None => None,
    }
}

/// The compact text of a value.
pub fn render(json: &Json) -> (r: String)
    ensures
        r@ == json_text(json@),
        is_one_line(r@),
        json@ is Object && is_plain(json@, DEPTH_LIMIT as nat) ==> is_text_of(
            r@,
            json@->Object_0,
        ),
{
    write_value(&value_of(json))
}

/// The compact text of an object.
pub fn render_object(object: &JsonObject) -> (r: String)
    ensures
        r@ == json_text(Tree::Object(object@)),
        is_plain(Tree::Object(object@), DEPTH_LIMIT as nat) ==> is_text_of(r@, object@),
{
    let json = Json::Object(object.copy());
    render(&json)
}

} // verus!

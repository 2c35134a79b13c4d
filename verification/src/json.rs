//! Structured documents: the tree that configuration, default values and
//! schemas are held in.

use crate::text::{
    first_position, lemma_first_position, lemma_first_position_absent, lemma_first_position_found,
};
use vstd::prelude::*;

verus! {

/// A structured document.
#[derive(Debug, PartialEq, Eq)]
pub enum Json {
    Null,
    Bool(bool),
    /// A number, kept as its decimal text.
    Number(String),
    Text(String),
    Array(Vec<Json>),
    /// The members of a mapping, in the order they are held.
    Object(Vec<(String, Json)>),
}

/// The mathematical value of a [`Json`] document.
pub enum JsonValue {
    Null,
    Bool(bool),
    Number(Seq<char>),
    Text(Seq<char>),
    Array(Seq<JsonValue>),
    Object(Seq<(Seq<char>, JsonValue)>),
}

impl View for Json {
    type V = JsonValue;

    open spec fn view(&self) -> JsonValue
        decreases self,
    {
        match self {
            Json::Null => JsonValue::Null,
            Json::Bool(b) => JsonValue::Bool(*b),
            Json::Number(digits) => JsonValue::Number(digits@),
            Json::Text(text) => JsonValue::Text(text@),
            Json::Array(items) => JsonValue::Array(items_view(items@)),
            Json::Object(members) => JsonValue::Object(members_view(members@)),
        }
    }
}

/// The items of a list, each by its view.
pub open spec fn items_view(items: Seq<Json>) -> Seq<JsonValue>
    decreases items,
{
    Seq::new(
        items.len(),
        |i: int|
            if 0 <= i < items.len() {
                items[i]@
            } else {
                JsonValue::Null
            },
    )
}

/// The members of a mapping, each key and value by its view.
pub open spec fn members_view(members: Seq<(String, Json)>) -> Seq<(Seq<char>, JsonValue)>
    decreases members,
{
    Seq::new(
        members.len(),
        |i: int|
            if 0 <= i < members.len() {
                (members[i].0@, members[i].1@)
            } else {
                (Seq::empty(), JsonValue::Null)
            },
    )
}

/// The names of the members of a mapping, in order.
pub open spec fn member_names(members: Seq<(Seq<char>, JsonValue)>) -> Seq<Seq<char>> {
    members.map_values(|member: (Seq<char>, JsonValue)| member.0)
}

/// The position of the first member of `members` named `key`, if there is one.
pub open spec fn member_position(members: Seq<(Seq<char>, JsonValue)>, key: Seq<char>) -> Option<
    int,
> {
    first_position(member_names(members), key)
}

/// `members` with `value` as the member named `key`: in the place of the
/// first member of that name, or behind the others where there is none.
pub open spec fn with_member(
    members: Seq<(Seq<char>, JsonValue)>,
    key: Seq<char>,
    value: JsonValue,
) -> Seq<(Seq<char>, JsonValue)> {
    match member_position(members, key) {
        Some(at) => members.update(at, (key, value)),
        None => members.push((key, value)),
    }
}

impl JsonValue {
    /// The value of the first member named `key`, where `self` is a mapping that has one.
    pub open spec fn member(self, key: Seq<char>) -> Option<JsonValue> {
        match self {
            JsonValue::Object(members) => match member_position(members, key) {
                Some(i) => Some(members[i].1),
                None => None,
            },
            _ => None,
        }
    }
}

/// The value of a document that may be absent.
pub open spec fn optional_document(document: Option<Json>) -> Option<JsonValue> {
    match document {
        Some(json) => Some(json@),
        None => None,
    }
}

/// After [`with_member`] the member named `key` is `value`.
pub proof fn lemma_with_member(
    members: Seq<(Seq<char>, JsonValue)>,
    key: Seq<char>,
    value: JsonValue,
)
    ensures
        JsonValue::Object(with_member(members, key, value)).member(key) == Some(value),
{
    let names = member_names(members);
    let after = with_member(members, key, value);
    lemma_first_position(names, key);
    match first_position(names, key) {
        Some(at) => {
            assert forall|i: int| 0 <= i < at implies member_names(after)[i] != key by {
                assert(names[i] != key);
            }
            lemma_first_position_found(member_names(after), key, at);
        },
        None => {
            assert forall|i: int| 0 <= i < members.len() implies member_names(after)[i] != key by {
                assert(names[i] != key);
            }
            lemma_first_position_found(member_names(after), key, members.len() as int);
        },
    }
}

/// The position of the first member of `members` named `key`.
pub fn find_member(members: &Vec<(String, Json)>, key: &str) -> (found: Option<usize>)
    ensures
        match found {
            Some(at) => member_position(members_view(members@), key@) == Some(at as int) && at
                < members.len(),
            None => member_position(members_view(members@), key@) is None,
        },
{
    let wanted = String::from_str(key);
    let ghost names = member_names(members_view(members@));
    let mut i: usize = 0;
    while i < members.len()
        invariant
            i <= members.len(),
            wanted@ == key@,
            names == member_names(members_view(members@)),
            forall|j: int| 0 <= j < i ==> names[j] != key@,
        decreases members.len() - i,
    {
        if members[i].0 == wanted {
            proof {
                lemma_first_position_found(names, key@, i as int);
            }
            return Some(i);
        }
        i += 1;
    }
    proof {
        lemma_first_position_absent(names, key@);
    }
    None
}

impl Json {
    /// The value of the first member named `key`, where the document is a
    /// mapping that has one.
    pub fn member(&self, key: &str) -> (value: Option<&Json>)
        ensures
            match value {
                Some(json) => self@.member(key@) == Some(json@),
                None => self@.member(key@) is None,
            },
    {
        match self {
            Json::Object(members) => match find_member(members, key) {
                Some(at) => Some(&members[at].1),
                None => None,
            },
            _ => None,
        }
    }

    /// Makes `value` the member named `key` of a mapping: in the place of
    /// the first member of that name, or behind the others where there is
    /// none. A document that is no mapping stays as it is.
    pub fn set_member(&mut self, key: &str, value: Json)
        ensures
            final(self)@ == match old(self)@ {
                JsonValue::Object(members) => JsonValue::Object(with_member(members, key@, value@)),
                other => other,
            },
    {
        match self {
            Json::Object(members) => {
                let ghost before = members_view(members@);
                match find_member(members, key) {
                    Some(at) => {
                        members.set(at, (String::from_str(key), value));
                        assert(members_view(members@) =~= before.update(
                            at as int,
                            (key@, value@),
                        ));
                    },
                    None => {
                        members.push((String::from_str(key), value));
                        assert(members_view(members@) =~= before.push((key@, value@)));
                    },
                }
            },
            _ => {},
        }
    }

    /// An empty mapping.
    pub fn empty_object() -> (json: Json)
        ensures
            json@ == JsonValue::Object(Seq::empty()),
    {
        let members: Vec<(String, Json)> = Vec::new();
        assert(members_view(members@) =~= Seq::empty());
        Json::Object(members)
    }
}

/// Makes the type `serde_json::Value` known. Nothing of what a value of
/// it holds is seen.
#[verifier::external_type_specification]
#[verifier::external_body]
pub struct ExSerdeJsonValue(serde_json::Value);

/// What `serde_json::from_str` reads from `text` as a `serde_json::Value`:
/// `None` where it reports an error. The members of a mapping stand in
/// the order in which `serde_json::Map` yields them, and a number is the
/// text that `serde_json::Number` displays.
pub uninterp spec fn json_document(text: Seq<char>) -> Option<JsonValue>;

/// What `serde_yaml::from_str` reads from `text` as a `serde_json::Value`:
/// `None` where it reports an error. The members of a mapping stand in
/// the order in which `serde_json::Map` yields them, and a number is the
/// text that `serde_json::Number` displays.
pub uninterp spec fn yaml_document(text: Seq<char>) -> Option<JsonValue>;

/// Moves a `serde_json::Value` into a [`Json`] of the same shape: the
/// members of a mapping in the order in which `serde_json::Map` yields
/// them, a number as the text that `serde_json::Number` displays. Nothing
/// is claimed of the result here; [`read_json`] and [`read_yaml`] name
/// what it gives them.
#[verifier::external_body]
fn json_from_tree(tree: serde_json::Value) -> Json {
    match tree {
        serde_json::Value::Null => Json::Null,
        serde_json::Value::Bool(b) => Json::Bool(b),
        serde_json::Value::Number(n) => Json::Number(n.to_string()),
        serde_json::Value::String(s) => Json::Text(s),
        serde_json::Value::Array(items) => Json::Array(
            items.into_iter().map(json_from_tree).collect(),
        ),
        serde_json::Value::Object(members) => Json::Object(
            members.into_iter().map(|(k, v)| (k, json_from_tree(v))).collect(),
        ),
    }
}

/// Calls `serde_json::from_str` for a `serde_json::Value`. The contract
/// gives the outcome its name, [`json_document`]: the same text reads as
/// the same document, and an error is `None`.
#[verifier::external_body]
pub(crate) fn read_json(text: &str) -> (document: Option<Json>)
    ensures
        optional_document(document) == json_document(text@),
{
    serde_json::from_str::<serde_json::Value>(text).ok().map(json_from_tree)
}

/// Calls `serde_yaml::from_str` for a `serde_json::Value`. The contract
/// gives the outcome its name, [`yaml_document`]: the same text reads as
/// the same document, and an error is `None`.
#[verifier::external_body]
pub(crate) fn read_yaml(text: &str) -> (document: Option<Json>)
    ensures
        optional_document(document) == yaml_document(text@),
{
    serde_yaml::from_str::<serde_json::Value>(text).ok().map(json_from_tree)
}

impl Clone for Json {
    fn clone(&self) -> (copy: Json)
        ensures
            copy@ == self@,
        decreases self,
    {
        match self {
            Json::Null => Json::Null,
            Json::Bool(b) => Json::Bool(*b),
            Json::Number(digits) => Json::Number(digits.clone()),
            Json::Text(text) => Json::Text(text.clone()),
            Json::Array(items) => {
                let mut copies: Vec<Json> = Vec::new();
                let mut i: usize = 0;
                while i < items.len()
                    invariant
                        *self == Json::Array(*items),
                        i <= items.len(),
                        copies@.len() == i,
                        forall|j: int| 0 <= j < i ==> copies@[j]@ == items@[j]@,
                    decreases items.len() - i,
                {
                    assert(decreases_to!(*self => self->Array_0));
                    copies.push(items[i].clone());
                    i += 1;
                }
                assert(items_view(copies@) =~= items_view(items@));
                Json::Array(copies)
            },
            Json::Object(members) => {
                let mut copies: Vec<(String, Json)> = Vec::new();
                let mut i: usize = 0;
                while i < members.len()
                    invariant
                        *self == Json::Object(*members),
                        i <= members.len(),
                        copies@.len() == i,
                        forall|j: int|
                            0 <= j < i ==> copies@[j].0@ == members@[j].0@ && copies@[j].1@
                                == members@[j].1@,
                    decreases members.len() - i,
                {
                    assert(decreases_to!(*self => self->Object_0));
                    copies.push((members[i].0.clone(), members[i].1.clone()));
                    i += 1;
                }
                assert(members_view(copies@) =~= members_view(members@));
                Json::Object(copies)
            },
        }
    }
}

} // verus!

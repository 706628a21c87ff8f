//! JSON documents as trees, read and written through `serde_json`.

use crate::text::{bytes_eq, decimal, decimal_text};
use vstd::prelude::*;
use vstd::slice::*;

verus! {

/// A JSON document. Numbers are kept as their text; strings and keys as bytes.
#[derive(Debug)]
pub enum Json {
    Null,
    Bool(bool),
    Number(Vec<u8>),
    Text(Vec<u8>),
    Array(Vec<Json>),
    Object(Vec<Member>),
}

/// One `key: value` pair of a JSON object.
#[derive(Debug)]
pub struct Member {
    pub key: Vec<u8>,
    pub value: Json,
}

/// The mathematical model of a JSON document.
pub enum JsonValue {
    Null,
    Bool(bool),
    Number(Seq<u8>),
    Text(Seq<u8>),
    Array(Seq<JsonValue>),
    Object(Seq<(Seq<u8>, JsonValue)>),
}

/// The model of a document.
pub open spec fn model_of(tree: Json) -> JsonValue
    decreases tree,
{
    match tree {
        Json::Null => JsonValue::Null,
        Json::Bool(b) => JsonValue::Bool(b),
        Json::Number(n) => JsonValue::Number(n@),
        Json::Text(t) => JsonValue::Text(t@),
        Json::Array(items) => JsonValue::Array(
            Seq::new(
                items@.len(),
                |i: int|
                    if 0 <= i < items@.len() {
                        model_of(items@[i])
                    } else {
                        JsonValue::Null
                    },
            ),
        ),
        Json::Object(members) => JsonValue::Object(
            Seq::new(
                members@.len(),
                |i: int|
                    if 0 <= i < members@.len() {
                        (members@[i].key@, model_of(members@[i].value))
                    } else {
                        (Seq::empty(), JsonValue::Null)
                    },
            ),
        ),
    }
}

impl View for Json {
    type V = JsonValue;

    open spec fn view(&self) -> JsonValue {
        model_of(*self)
    }
}

impl View for Member {
    type V = (Seq<u8>, JsonValue);

    open spec fn view(&self) -> (Seq<u8>, JsonValue) {
        (self.key@, self.value@)
    }
}

/// The models of a list of documents.
pub open spec fn item_views(items: Seq<Json>) -> Seq<JsonValue> {
    Seq::new(items.len(), |i: int| items[i]@)
}

/// The models of a list of members.
pub open spec fn member_views(members: Seq<Member>) -> Seq<(Seq<u8>, JsonValue)> {
    Seq::new(members.len(), |i: int| members[i]@)
}

/// The model of an array holds the models of its items.
pub proof fn lemma_array_view(items: Vec<Json>)
    ensures
        Json::Array(items)@ == JsonValue::Array(item_views(items@)),
{
    assert(Json::Array(items)@->Array_0 =~= item_views(items@));
}

/// The model of an object holds the models of its members.
pub proof fn lemma_object_view(members: Vec<Member>)
    ensures
        Json::Object(members)@ == JsonValue::Object(member_views(members@)),
{
    let held = model_of(Json::Object(members))->Object_0;
    assert(held.len() == members@.len());
    assert forall|i: int| 0 <= i < held.len() implies held[i] == member_views(members@)[i] by {
        assert(members@[i]@ == (members@[i].key@, members@[i].value@));
    }
    assert(held =~= member_views(members@));
}

#[verifier::external_type_specification]
#[verifier::external_body]
pub struct ExValue(serde_json::Value);

/// The document that `serde_json` reads from `text`, if it reads one.
pub uninterp spec fn json_parsed(text: Seq<u8>) -> Option<JsonValue>;

/// The document that a `serde_json::Value` holds.
pub uninterp spec fn json_tree(value: serde_json::Value) -> JsonValue;

/// Calls `serde_json::from_slice` for a `serde_json::Value`. The contract
/// names what is read: the same text always reads as the same document, and
/// nothing is said of which texts are read.
#[verifier::external_body]
fn value_from_slice(text: &[u8]) -> (parsed: Option<serde_json::Value>)
    ensures
        parsed is Some == json_parsed(text@) is Some,
        parsed matches Some(value) ==> json_parsed(text@) == Some(json_tree(value)),
{
    serde_json::from_slice(text).ok()
}

/// Copies a `serde_json::Value` into a `Json`, variant by variant: a number
/// as the text that `serde_json` displays for it, strings and keys as their
/// UTF-8 bytes, members in the order in which the map holds them.
#[verifier::external_body]
fn tree_of_value(value: &serde_json::Value) -> (tree: Json)
    ensures
        tree@ == json_tree(*value),
{
    match value {
        serde_json::Value::Null => Json::Null,
        serde_json::Value::Bool(b) => Json::Bool(*b),
        serde_json::Value::Number(n) => Json::Number(n.to_string().into_bytes()),
        serde_json::Value::String(s) => Json::Text(s.as_bytes().to_vec()),
        serde_json::Value::Array(items) => Json::Array(items.iter().map(tree_of_value).collect()),
        serde_json::Value::Object(members) => Json::Object(
            members
                .iter()
                .map(|(k, v)| Member { key: k.as_bytes().to_vec(), value: tree_of_value(v) })
                .collect(),
        ),
    }
}

/// Reads `text` as one JSON document.
pub fn parse(text: &[u8]) -> (parsed: Option<Json>)
    ensures
        parsed is Some == json_parsed(text@) is Some,
        parsed matches Some(tree) ==> json_parsed(text@) == Some(tree@),
{
    match value_from_slice(text) {
        Some(value) => Some(tree_of_value(&value)),
        None => None,
    }
}

/// The value of the first member of `members` named `key`.
pub open spec fn member_of(members: Seq<(Seq<u8>, JsonValue)>, key: Seq<u8>) -> Option<JsonValue>
    decreases members.len(),
{
    if members.len() == 0 {
        None
    } else if members[0].0 == key {
        Some(members[0].1)
    } else {
        member_of(members.drop_first(), key)
    }
}

impl JsonValue {
    /// The value of the member `key`, where `self` is an object that has one.
    pub open spec fn get(self, key: Seq<u8>) -> Option<JsonValue> {
        match self {
            JsonValue::Object(members) => member_of(members, key),
            _ => None,
        }
    }
}

/// Members of other names can be passed over when a member is looked up.
pub proof fn lemma_member_of_skip(members: Seq<(Seq<u8>, JsonValue)>, key: Seq<u8>, k: int)
    requires
        0 <= k <= members.len(),
        forall|j: int| 0 <= j < k ==> members[j].0 != key,
    ensures
        member_of(members, key) == member_of(members.subrange(k, members.len() as int), key),
    decreases k,
{
    if k == 0 {
        assert(members.subrange(0, members.len() as int) =~= members);
    } else {
        lemma_member_of_skip(members, key, k - 1);
        let tail = members.subrange(k - 1, members.len() as int);
        assert(tail.drop_first() =~= members.subrange(k, members.len() as int));
    }
}

/// Looks `key` up among the members of an object.
pub fn find_member<'a>(members: &'a Vec<Member>, key: &[u8]) -> (found: Option<&'a Json>)
    ensures
        found is Some == member_of(member_views(members@), key@) is Some,
        found matches Some(value) ==> member_of(member_views(members@), key@) == Some(value@),
{
    let ghost all = member_views(members@);
    let mut i: usize = 0;
    while i < members.len()
        invariant
            i <= members@.len(),
            all == member_views(members@),
            forall|j: int| 0 <= j < i ==> all[j].0 != key@,
        decreases members@.len() - i,
    {
        if bytes_eq(members[i].key.as_slice(), key) {
            proof {
                lemma_member_of_skip(all, key@, i as int);
            }
            return Some(&members[i].value);
        }
        i += 1;
    }
    proof {
        lemma_member_of_skip(all, key@, i as int);
    }
    None
}

impl Json {
    /// The value of the member `key`, where `self` is an object that has one.
    pub fn get<'a>(&'a self, key: &[u8]) -> (found: Option<&'a Json>)
        ensures
            found is Some == self@.get(key@) is Some,
            found matches Some(value) ==> self@.get(key@) == Some(value@),
    {
        match self {
            Json::Object(members) => {
                proof {
                    lemma_object_view(*members);
                }
                find_member(members, key)
            },
            _ => None,
        }
    }

    pub fn text(bytes: &[u8]) -> (tree: Json)
        ensures
            tree@ == JsonValue::Text(bytes@),
    {
        Json::Text(slice_to_vec(bytes))
    }

    pub fn number(n: u64) -> (tree: Json)
        ensures
            tree@ == JsonValue::Number(decimal(n as nat)),
    {
        Json::Number(decimal_text(n))
    }

    pub fn object(members: Vec<Member>) -> (tree: Json)
        ensures
            tree@ == JsonValue::Object(member_views(members@)),
    {
        proof {
            lemma_object_view(members);
        }
        Json::Object(members)
    }

    pub fn array(items: Vec<Json>) -> (tree: Json)
        ensures
            tree@ == JsonValue::Array(item_views(items@)),
    {
        proof {
            lemma_array_view(items);
        }
        Json::Array(items)
    }
}

impl Member {
    pub fn new(key: &[u8], value: Json) -> (member: Member)
        ensures
            member@ == (key@, value@),
    {
        Member { key: slice_to_vec(key), value }
    }
}

/// The compact text that `serde_json` writes for a `serde_json::Value`.
pub uninterp spec fn json_written(value: serde_json::Value) -> Seq<u8>;

/// The compact text of a document: what `serde_json` writes for the value
/// that stands for it.
pub uninterp spec fn json_text(tree: JsonValue) -> Seq<u8>;

/// Copies a `Json` into a `serde_json::Value`, variant by variant: a number
/// as what `serde_json` reads from its text (null where it reads none),
/// strings and keys as text (`String::from_utf8_lossy`), members into the
/// map in their order. The contract names the text that is written for the
/// result: the same document always gives the same text.
#[verifier::external_body]
fn value_of_tree(tree: &Json) -> (value: serde_json::Value)
    ensures
        json_written(value) == json_text(tree@),
{
    match tree {
        Json::Null => serde_json::Value::Null,
        Json::Bool(b) => serde_json::Value::Bool(*b),
        Json::Number(n) => serde_json::from_slice(n)
            .map_or(serde_json::Value::Null, serde_json::Value::Number),
        Json::Text(t) => serde_json::Value::String(String::from_utf8_lossy(t).into_owned()),
        Json::Array(items) => serde_json::Value::Array(items.iter().map(value_of_tree).collect()),
        Json::Object(members) => serde_json::Value::Object(
            members
                .iter()
                .map(|m| (String::from_utf8_lossy(&m.key).into_owned(), value_of_tree(&m.value)))
                .collect(),
        ),
    }
}

/// Calls `serde_json::to_vec` on a `serde_json::Value`. The contract names
/// the text that is written.
#[verifier::external_body]
fn text_of_value(value: &serde_json::Value) -> (text: Vec<u8>)
    ensures
        text@ == json_written(*value),
{
    serde_json::to_vec(value).unwrap_or_default()
}

impl Json {
    /// The compact text of the document.
    pub fn to_text(&self) -> (text: Vec<u8>)
        ensures
            text@ == json_text(self@),
    {
        let value = value_of_tree(self);
        text_of_value(&value)
    }
}

} // verus!

//! Measurements: from the local JSON to the cloud's JSON envelope.
//!
//! A local measurement is an object. Each member is a number, or a group of
//! numbers, or the time. The cloud's envelope names its type, then the child
//! device where there is one, then the time where one is given, then each
//! number as `{"value": n}` inside its group.

use crate::error::{ConversionError, ErrorView};
use crate::json::{
    json_parsed, json_text, lemma_object_view, member_views, parse, Json, JsonValue, Member,
};
use crate::smartrest::{not_an_object, optional_tree, time_not_a_string};
use crate::text::{ascii, bytes_eq, bytes_of};
use vstd::prelude::*;
use vstd::slice::*;
use vstd::string::*;

verus! {

/// What is said of a member that is no measurement.
pub open spec fn not_a_measurement() -> Seq<u8> {
    ascii("a measurement is neither a number nor a group of numbers"@)
}

/// What is said of a group with a member that is no number.
pub open spec fn not_a_number() -> Seq<u8> {
    ascii("a group holds a value that is not a number"@)
}

/// `{"value": n}`.
pub open spec fn value_leaf(number: Seq<u8>) -> JsonValue {
    JsonValue::Object(seq![(ascii("value"@), JsonValue::Number(number))])
}

/// The first `n` members of a group, each number as `{"value": n}`; none
/// where one of them is not a number.
pub open spec fn leaves(members: Seq<(Seq<u8>, JsonValue)>, n: nat) -> Option<
    Seq<(Seq<u8>, JsonValue)>,
>
    decreases n,
{
    if n == 0 || n > members.len() {
        Some(Seq::empty())
    } else {
        match (leaves(members, (n - 1) as nat), members[n - 1].1) {
            (Some(rest), JsonValue::Number(number)) => Some(
                rest.push((members[n - 1].0, value_leaf(number))),
            ),
            _ => None,
        }
    }
}

/// The group that one member of a measurement gives; nothing for the time.
pub open spec fn group_of(member: (Seq<u8>, JsonValue)) -> Result<
    Option<(Seq<u8>, JsonValue)>,
    ErrorView,
> {
    if member.0 == ascii("time"@) {
        match member.1 {
            JsonValue::Text(_) => Ok(None),
            _ => Err(ErrorView::InvalidLocalJson { reason: time_not_a_string() }),
        }
    } else {
        match member.1 {
            JsonValue::Number(number) => Ok(
                Some((member.0, JsonValue::Object(seq![(member.0, value_leaf(number))]))),
            ),
            JsonValue::Object(inner) => match leaves(inner, inner.len()) {
                Some(converted) => Ok(Some((member.0, JsonValue::Object(converted)))),
                None => Err(ErrorView::InvalidLocalJson { reason: not_a_number() }),
            },
            _ => Err(ErrorView::InvalidLocalJson { reason: not_a_measurement() }),
        }
    }
}

/// The groups that the first `n` members of a measurement give, or the error
/// of the first member that is refused.
pub open spec fn groups(members: Seq<(Seq<u8>, JsonValue)>, n: nat) -> Result<
    Seq<(Seq<u8>, JsonValue)>,
    ErrorView,
>
    decreases n,
{
    if n == 0 || n > members.len() {
        Ok(Seq::empty())
    } else {
        match groups(members, (n - 1) as nat) {
            Err(error) => Err(error),
            Ok(rest) => match group_of(members[n - 1]) {
                Err(error) => Err(error),
                Ok(Some(group)) => Ok(rest.push(group)),
                Ok(None) => Ok(rest),
            },
        }
    }
}

/// The members that stand before the groups: the type, the child device
/// where there is one, the time where one is given.
pub open spec fn envelope_head(time: Option<JsonValue>, child: Option<Seq<u8>>) -> Seq<
    (Seq<u8>, JsonValue),
> {
    let kind = seq![(ascii("type"@), JsonValue::Text(ascii("ThinEdgeMeasurement"@)))];
    let source = match child {
        Some(id) => seq![
            (
                ascii("externalSource"@),
                JsonValue::Object(
                    seq![
                        (ascii("externalId"@), JsonValue::Text(id)),
                        (ascii("type"@), JsonValue::Text(ascii("c8y_Serial"@))),
                    ],
                ),
            ),
        ],
        None => Seq::empty(),
    };
    let stamp = match time {
        Some(JsonValue::Text(t)) => seq![(ascii("time"@), JsonValue::Text(t))],
        _ => Seq::empty(),
    };
    kind + source + stamp
}

/// The cloud's envelope for a local measurement, where `parsed` is what the
/// payload reads as.
pub open spec fn cloud_measurement(parsed: Option<JsonValue>, child: Option<Seq<u8>>) -> Result<
    JsonValue,
    ErrorView,
> {
    match parsed {
        Some(JsonValue::Object(members)) => match groups(members, members.len()) {
            Err(error) => Err(error),
            Ok(converted) => Ok(
                JsonValue::Object(
                    envelope_head(JsonValue::Object(members).get(ascii("time"@)), child)
                        + converted,
                ),
            ),
        },
        _ => Err(ErrorView::InvalidLocalJson { reason: not_an_object() }),
    }
}

/// The text of the cloud's envelope.
pub open spec fn cloud_measurement_text(
    parsed: Option<JsonValue>,
    child: Option<Seq<u8>>,
) -> Result<Seq<u8>, ErrorView> {
    match cloud_measurement(parsed, child) {
        Ok(tree) => Ok(json_text(tree)),
        Err(error) => Err(error),
    }
}

proof fn lemma_leaves_none_stays(members: Seq<(Seq<u8>, JsonValue)>, n: nat, m: nat)
    requires
        n <= m <= members.len(),
        leaves(members, n) is None,
    ensures
        leaves(members, m) is None,
    decreases m - n,
{
    if n < m {
        lemma_leaves_none_stays(members, n, (m - 1) as nat);
    }
}

proof fn lemma_groups_error_stays(members: Seq<(Seq<u8>, JsonValue)>, n: nat, m: nat)
    requires
        n <= m <= members.len(),
        groups(members, n) is Err,
    ensures
        groups(members, m) == groups(members, n),
    decreases m - n,
{
    if n < m {
        lemma_groups_error_stays(members, n, (m - 1) as nat);
    }
}

fn push_member(members: &mut Vec<Member>, key: &[u8], value: Json)
    ensures
        member_views(final(members)@) == member_views(old(members)@).push((key@, value@)),
{
    members.push(Member::new(key, value));
    assert(member_views(members@) =~= member_views(old(members)@).push((key@, value@)));
}

fn value_leaf_of(number: &Vec<u8>) -> (leaf: Json)
    ensures
        leaf@ == value_leaf(number@),
{
    proof {
        reveal_strlit("value");
    }
    let mut members: Vec<Member> = Vec::new();
    push_member(
        &mut members,
        bytes_of("value").as_slice(),
        Json::Number(slice_to_vec(number.as_slice())),
    );
    assert(member_views(members@) =~= seq![(ascii("value"@), JsonValue::Number(number@))]);
    Json::object(members)
}

fn convert_leaves(inner: &Vec<Member>) -> (converted: Option<Vec<Member>>)
    ensures
        match converted {
            Some(list) => leaves(member_views(inner@), inner@.len() as nat) == Some(
                member_views(list@),
            ),
            None => leaves(member_views(inner@), inner@.len() as nat) is None,
        },
{
    let ghost all = member_views(inner@);
    let mut list: Vec<Member> = Vec::new();
    let mut i: usize = 0;
    assert(member_views(list@) =~= Seq::empty());
    while i < inner.len()
        invariant
            i <= inner@.len(),
            all == member_views(inner@),
            leaves(all, i as nat) == Some(member_views(list@)),
        decreases inner@.len() - i,
    {
        assert(all[i as int] == inner@[i as int]@);
        match &inner[i].value {
            Json::Number(number) => {
                let leaf = value_leaf_of(number);
                push_member(&mut list, inner[i].key.as_slice(), leaf);
            },
            _ => {
                proof {
                    assert(leaves(all, (i + 1) as nat) is None);
                    lemma_leaves_none_stays(all, (i + 1) as nat, inner@.len() as nat);
                }
                return None;
            },
        }
        i += 1;
    }
    Some(list)
}

fn convert_member(member: &Member) -> (group: Result<Option<Member>, ConversionError>)
    ensures
        match group {
            Ok(Some(g)) => group_of(member@) == Ok::<Option<(Seq<u8>, JsonValue)>, ErrorView>(
                Some(g@),
            ),
            Ok(None) => group_of(member@) == Ok::<Option<(Seq<u8>, JsonValue)>, ErrorView>(
                None,
            ),
            Err(e) => group_of(member@) == Err::<Option<(Seq<u8>, JsonValue)>, ErrorView>(e@),
        },
{
    proof {
        reveal_strlit("time");
        reveal_strlit("the member time is not a string");
        reveal_strlit("a measurement is neither a number nor a group of numbers");
        reveal_strlit("a group holds a value that is not a number");
    }
    if bytes_eq(member.key.as_slice(), bytes_of("time").as_slice()) {
        match &member.value {
            Json::Text(_) => Ok(None),
            _ => Err(
                ConversionError::InvalidLocalJson {
                    reason: bytes_of("the member time is not a string"),
                },
            ),
        }
    } else {
        match &member.value {
            Json::Number(number) => {
                let mut single: Vec<Member> = Vec::new();
                push_member(&mut single, member.key.as_slice(), value_leaf_of(number));
                assert(member_views(single@) =~= seq![(member.key@, value_leaf(number@))]);
                Ok(Some(Member::new(member.key.as_slice(), Json::object(single))))
            },
            Json::Object(inner) => {
                proof {
                    lemma_object_view(*inner);
                }
                match convert_leaves(inner) {
                    Some(converted) => Ok(
                        Some(Member::new(member.key.as_slice(), Json::object(converted))),
                    ),
                    None => Err(
                        ConversionError::InvalidLocalJson {
                            reason: bytes_of("a group holds a value that is not a number"),
                        },
                    ),
                }
            },
            _ => Err(
                ConversionError::InvalidLocalJson {
                    reason: bytes_of("a measurement is neither a number nor a group of numbers"),
                },
            ),
        }
    }
}

/// The bytes that an optional slice holds.
pub open spec fn optional_slice(bytes: Option<&[u8]>) -> Option<Seq<u8>> {
    match bytes {
        Some(b) => Some(b@),
        None => None,
    }
}

fn envelope_head_of(time: Option<&Json>, child: Option<&[u8]>) -> (head: Vec<Member>)
    ensures
        member_views(head@) == envelope_head(
            match time {
                Some(t) => Some(t@),
                None => None,
            },
            optional_slice(child),
        ),
{
    proof {
        reveal_strlit("type");
        reveal_strlit("ThinEdgeMeasurement");
        reveal_strlit("externalSource");
        reveal_strlit("externalId");
        reveal_strlit("c8y_Serial");
        reveal_strlit("time");
    }
    let mut head: Vec<Member> = Vec::new();
    assert(member_views(head@) =~= Seq::empty());
    push_member(
        &mut head,
        bytes_of("type").as_slice(),
        Json::text(bytes_of("ThinEdgeMeasurement").as_slice()),
    );
    match child {
        Some(id) => {
            let mut source: Vec<Member> = Vec::new();
            assert(member_views(source@) =~= Seq::empty());
            push_member(&mut source, bytes_of("externalId").as_slice(), Json::text(id));
            push_member(
                &mut source,
                bytes_of("type").as_slice(),
                Json::text(bytes_of("c8y_Serial").as_slice()),
            );
            assert(member_views(source@) =~= seq![
                (ascii("externalId"@), JsonValue::Text(id@)),
                (ascii("type"@), JsonValue::Text(ascii("c8y_Serial"@))),
            ]);
            push_member(&mut head, bytes_of("externalSource").as_slice(), Json::object(source));
        },
        None => {},
    }
    match time {
        Some(Json::Text(t)) => {
            push_member(&mut head, bytes_of("time").as_slice(), Json::text(t.as_slice()));
        },
        _ => {},
    }
    assert(member_views(head@) =~= envelope_head(
        match time {
            Some(t) => Some(t@),
            None => None,
        },
        optional_slice(child),
    ));
    head
}

/// The text of the cloud's envelope for a measurement that was read already.
pub fn measurement_envelope(parsed: &Option<Json>, child: Option<&[u8]>) -> (text: Result<
    Vec<u8>,
    ConversionError,
>)
    ensures
        match text {
            Ok(t) => cloud_measurement_text(optional_tree(*parsed), optional_slice(child)) == Ok::<
                Seq<u8>,
                ErrorView,
            >(t@),
            Err(e) => cloud_measurement_text(optional_tree(*parsed), optional_slice(child))
                == Err::<Seq<u8>, ErrorView>(e@),
        },
{
    proof {
        reveal_strlit("the payload is not a JSON object");
        reveal_strlit("time");
    }
    let tree = match parsed {
        Some(tree) => tree,
        None => {
            return Err(
                ConversionError::InvalidLocalJson {
                    reason: bytes_of("the payload is not a JSON object"),
                },
            );
        },
    };
    match tree {
        Json::Object(members) => {
            proof {
                lemma_object_view(*members);
            }
            let ghost all = member_views(members@);
            let time = tree.get(bytes_of("time").as_slice());
            let mut envelope = envelope_head_of(time, child);
            let ghost head = member_views(envelope@);
            let mut i: usize = 0;
            assert(member_views(envelope@) =~= head + Seq::empty());
            while i < members.len()
                invariant
                    i <= members@.len(),
                    all == member_views(members@),
                    optional_tree(*parsed) == Some(JsonValue::Object(all)),
                    groups(all, i as nat) is Ok,
                    member_views(envelope@) == head + groups(all, i as nat)->Ok_0,
                decreases members@.len() - i,
            {
                assert(all[i as int] == members@[i as int]@);
                match convert_member(&members[i]) {
                    Ok(Some(group)) => {
                        let ghost before = member_views(envelope@);
                        envelope.push(group);
                        assert(member_views(envelope@) =~= before.push(group@));
                        assert(member_views(envelope@) =~= head + groups(
                            all,
                            (i + 1) as nat,
                        )->Ok_0);
                    },
                    Ok(None) => {},
                    Err(error) => {
                        proof {
                            assert(groups(all, (i + 1) as nat) is Err);
                            lemma_groups_error_stays(
                                all,
                                (i + 1) as nat,
                                members@.len() as nat,
                            );
                        }
                        return Err(error);
                    },
                }
                i += 1;
            }
            let envelope_tree = Json::object(envelope);
            Ok(envelope_tree.to_text())
        },
        _ => Err(
            ConversionError::InvalidLocalJson {
                reason: bytes_of("the payload is not a JSON object"),
            },
        ),
    }
}

/// The cloud's envelope for a measurement of the device itself.
pub fn from_thin_edge_json(input: &[u8]) -> (text: Result<Vec<u8>, ConversionError>)
    ensures
        match text {
            Ok(t) => cloud_measurement_text(json_parsed(input@), None) == Ok::<
                Seq<u8>,
                ErrorView,
            >(t@),
            Err(e) => cloud_measurement_text(json_parsed(input@), None) == Err::<
                Seq<u8>,
                ErrorView,
            >(e@),
        },
{
    let parsed = parse(input);
    measurement_envelope(&parsed, None)
}

/// The cloud's envelope for a measurement of the child device `child`.
pub fn from_thin_edge_json_with_child(input: &[u8], child: &[u8]) -> (text: Result<
    Vec<u8>,
    ConversionError,
>)
    ensures
        match text {
            Ok(t) => cloud_measurement_text(json_parsed(input@), Some(child@)) == Ok::<
                Seq<u8>,
                ErrorView,
            >(t@),
            Err(e) => cloud_measurement_text(json_parsed(input@), Some(child@)) == Err::<
                Seq<u8>,
                ErrorView,
            >(e@),
        },
{
    let parsed = parse(input);
    measurement_envelope(&parsed, Some(child))
}

} // verus!

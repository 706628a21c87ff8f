//! SmartREST: the cloud's line-oriented records, template id first.

use crate::bus::{alarms_prefix, alarms_prefix_topic, events_prefix, events_prefix_topic};
use crate::error::{ConversionError, ErrorView};
use crate::json::{Json, JsonValue};
use crate::text::{
    ascii, bytes_eq, bytes_of, push_ascii, split, split_fields, strip_prefix, stripped, views,
};
use vstd::prelude::*;
use vstd::slice::*;
use vstd::string::*;

verus! {

/// The name under which the cloud knows the software update operation.
pub open spec fn software_update_operation() -> Seq<u8> {
    ascii("c8y_SoftwareUpdate"@)
}

/// The name under which the cloud knows the software update operation.
pub fn software_update_operation_name() -> (name: Vec<u8>)
    ensures
        name@ == software_update_operation(),
{
    proof {
        reveal_strlit("c8y_SoftwareUpdate");
    }
    bytes_of("c8y_SoftwareUpdate")
}

/// The name under which the cloud knows the restart operation.
pub open spec fn restart_operation() -> Seq<u8> {
    ascii("c8y_Restart"@)
}

/// The name under which the cloud knows the restart operation.
pub fn restart_operation_name() -> (name: Vec<u8>)
    ensures
        name@ == restart_operation(),
{
    proof {
        reveal_strlit("c8y_Restart");
    }
    bytes_of("c8y_Restart")
}

/// A text field with the double quotes in it doubled.
pub open spec fn csv_escaped(s: Seq<u8>) -> Seq<u8>
    decreases s.len(),
{
    if s.len() == 0 {
        Seq::empty()
    } else if s.last() == 0x22 {
        csv_escaped(s.drop_last()) + seq![0x22u8, 0x22u8]
    } else {
        csv_escaped(s.drop_last()).push(s.last())
    }
}

/// A text field between double quotes.
pub open spec fn csv_quoted(s: Seq<u8>) -> Seq<u8> {
    seq![0x22u8] + csv_escaped(s) + seq![0x22u8]
}

/// Appends `s` as a quoted field to `out`.
pub fn push_csv_quoted(out: &mut Vec<u8>, s: &[u8])
    ensures
        final(out)@ == old(out)@ + csv_quoted(s@),
{
    out.push(0x22);
    let mut i: usize = 0;
    while i < s.len()
        invariant
            i <= s@.len(),
            out@ == old(out)@ + seq![0x22u8] + csv_escaped(s@.subrange(0, i as int)),
        decreases s@.len() - i,
    {
        if s[i] == 0x22 {
            out.push(0x22);
        }
        out.push(s[i]);
        proof {
            assert(s@.subrange(0, i + 1).drop_last() =~= s@.subrange(0, i as int));
            assert(out@ =~= old(out)@ + seq![0x22u8] + csv_escaped(s@.subrange(0, i + 1)));
        }
        i += 1;
    }
    out.push(0x22);
    proof {
        assert(s@.subrange(0, i as int) =~= s@);
        assert(out@ =~= old(out)@ + csv_quoted(s@));
    }
}

/// `501,<operation>`: the operation is being executed.
pub open spec fn executing_record(operation: Seq<u8>) -> Seq<u8> {
    ascii("501,"@) + operation
}

/// `502,<operation>,"<reason>"`: the operation failed.
pub open spec fn failed_record(operation: Seq<u8>, reason: Seq<u8>) -> Seq<u8> {
    ascii("502,"@) + operation + ascii(","@) + csv_quoted(reason)
}

/// `503,<operation>`: the operation succeeded.
pub open spec fn successful_record(operation: Seq<u8>) -> Seq<u8> {
    ascii("503,"@) + operation
}

/// `101,<id>,<id>,thin-edge.io-child`: a child device is announced.
pub open spec fn child_record(id: Seq<u8>) -> Seq<u8> {
    ascii("101,"@) + id + ascii(","@) + id + ascii(",thin-edge.io-child"@)
}

/// `500`: the cloud is asked for the pending operations.
pub open spec fn pending_operations_record() -> Seq<u8> {
    ascii("500"@)
}

/// `118,software-management`: the log types that the device offers.
pub open spec fn log_types_record() -> Seq<u8> {
    ascii("118,software-management"@)
}

/// The first `n` of `names`, each behind a comma.
pub open spec fn listed(names: Seq<Seq<u8>>, n: nat) -> Seq<u8>
    decreases n,
{
    if n == 0 || n > names.len() {
        Seq::empty()
    } else {
        listed(names, (n - 1) as nat) + ascii(","@) + names[n - 1]
    }
}

/// `114,<name>,<name>,...`: the operations that the device supports.
pub open spec fn supported_operations_record(names: Seq<Seq<u8>>) -> Seq<u8> {
    ascii("114"@) + listed(names, names.len())
}

/// The record that says that `operation` is executing.
pub fn set_operation_to_executing(operation: &[u8]) -> (record: Vec<u8>)
    ensures
        record@ == executing_record(operation@),
{
    proof {
        reveal_strlit("501,");
    }
    let mut record = bytes_of("501,");
    record.extend_from_slice(operation);
    record
}

/// The record that says that `operation` failed for `reason`.
pub fn set_operation_to_failed(operation: &[u8], reason: &[u8]) -> (record: Vec<u8>)
    ensures
        record@ == failed_record(operation@, reason@),
{
    proof {
        reveal_strlit("502,");
        reveal_strlit(",");
    }
    let mut record = bytes_of("502,");
    record.extend_from_slice(operation);
    push_ascii(&mut record, ",");
    push_csv_quoted(&mut record, reason);
    record
}

/// The record that says that `operation` succeeded.
pub fn set_operation_to_successful(operation: &[u8]) -> (record: Vec<u8>)
    ensures
        record@ == successful_record(operation@),
{
    proof {
        reveal_strlit("503,");
    }
    let mut record = bytes_of("503,");
    record.extend_from_slice(operation);
    record
}

/// The record that announces the child device `id`.
pub fn child_device_creation(id: &[u8]) -> (record: Vec<u8>)
    ensures
        record@ == child_record(id@),
{
    proof {
        reveal_strlit("101,");
        reveal_strlit(",");
        reveal_strlit(",thin-edge.io-child");
    }
    let mut record = bytes_of("101,");
    record.extend_from_slice(id);
    push_ascii(&mut record, ",");
    record.extend_from_slice(id);
    push_ascii(&mut record, ",thin-edge.io-child");
    record
}

/// The record that asks for the pending operations.
pub fn get_pending_operations() -> (record: Vec<u8>)
    ensures
        record@ == pending_operations_record(),
{
    proof {
        reveal_strlit("500");
    }
    bytes_of("500")
}

/// The record of the supported log types.
pub fn set_supported_log_types() -> (record: Vec<u8>)
    ensures
        record@ == log_types_record(),
{
    proof {
        reveal_strlit("118,software-management");
    }
    bytes_of("118,software-management")
}

/// The record of the supported operations.
pub fn set_supported_operations(names: &Vec<Vec<u8>>) -> (record: Vec<u8>)
    ensures
        record@ == supported_operations_record(views(names@)),
{
    proof {
        reveal_strlit("114");
        reveal_strlit(",");
    }
    let mut record = bytes_of("114");
    let mut i: usize = 0;
    assert(record@ =~= ascii("114"@) + listed(views(names@), 0));
    while i < names.len()
        invariant
            i <= names@.len(),
            is_ascii(","),
            record@ == ascii("114"@) + listed(views(names@), i as nat),
        decreases names@.len() - i,
    {
        push_ascii(&mut record, ",");
        record.extend_from_slice(names[i].as_slice());
        proof {
            assert(views(names@)[i as int] == names@[i as int]@);
            assert(record@ =~= ascii("114"@) + listed(views(names@), (i + 1) as nat));
        }
        i += 1;
    }
    record
}

/// How grave an alarm is, as its topic says.
#[derive(Clone, Copy, Debug, PartialEq, Eq, Structural)]
pub enum AlarmSeverity {
    Critical,
    Major,
    Minor,
    Warning,
}

/// The severity that a topic segment names.
pub open spec fn severity_named(name: Seq<u8>) -> Option<AlarmSeverity> {
    if name == ascii("critical"@) {
        Some(AlarmSeverity::Critical)
    } else if name == ascii("major"@) {
        Some(AlarmSeverity::Major)
    } else if name == ascii("minor"@) {
        Some(AlarmSeverity::Minor)
    } else if name == ascii("warning"@) {
        Some(AlarmSeverity::Warning)
    } else {
        None
    }
}

/// The template that raises an alarm of a severity.
pub open spec fn alarm_template(severity: AlarmSeverity) -> Seq<u8> {
    match severity {
        AlarmSeverity::Critical => ascii("301"@),
        AlarmSeverity::Major => ascii("302"@),
        AlarmSeverity::Minor => ascii("303"@),
        AlarmSeverity::Warning => ascii("304"@),
    }
}

impl AlarmSeverity {
    /// The severity that a topic segment names.
    pub fn from_name(name: &[u8]) -> (severity: Option<AlarmSeverity>)
        ensures
            severity == severity_named(name@),
    {
        proof {
            reveal_strlit("critical");
            reveal_strlit("major");
            reveal_strlit("minor");
            reveal_strlit("warning");
        }
        if bytes_eq(name, bytes_of("critical").as_slice()) {
            Some(AlarmSeverity::Critical)
        } else if bytes_eq(name, bytes_of("major").as_slice()) {
            Some(AlarmSeverity::Major)
        } else if bytes_eq(name, bytes_of("minor").as_slice()) {
            Some(AlarmSeverity::Minor)
        } else if bytes_eq(name, bytes_of("warning").as_slice()) {
            Some(AlarmSeverity::Warning)
        } else {
            None
        }
    }

    /// The template that raises an alarm of this severity.
    pub fn template(&self) -> (id: Vec<u8>)
        ensures
            id@ == alarm_template(*self),
    {
        proof {
            reveal_strlit("301");
            reveal_strlit("302");
            reveal_strlit("303");
            reveal_strlit("304");
        }
        match self {
            AlarmSeverity::Critical => bytes_of("301"),
            AlarmSeverity::Major => bytes_of("302"),
            AlarmSeverity::Minor => bytes_of("303"),
            AlarmSeverity::Warning => bytes_of("304"),
        }
    }
}

/// The text and the time that the payload of an alarm or of an event gives.
#[derive(Debug)]
pub struct Details {
    pub text: Option<Vec<u8>>,
    pub time: Option<Vec<u8>>,
}

pub struct DetailsView {
    pub text: Option<Seq<u8>>,
    pub time: Option<Seq<u8>>,
}

/// The bytes that an optional buffer holds.
pub open spec fn optional_view(bytes: Option<Vec<u8>>) -> Option<Seq<u8>> {
    match bytes {
        Some(b) => Some(b@),
        None => None,
    }
}

impl View for Details {
    type V = DetailsView;

    open spec fn view(&self) -> DetailsView {
        DetailsView { text: optional_view(self.text), time: optional_view(self.time) }
    }
}

/// The member `key` of an object as an optional text: absent and `null` give
/// none; a value of another kind is refused.
pub open spec fn text_member(tree: JsonValue, key: Seq<u8>) -> Result<Option<Seq<u8>>, ()> {
    match tree.get(key) {
        None => Ok(None),
        Some(JsonValue::Null) => Ok(None),
        Some(JsonValue::Text(t)) => Ok(Some(t)),
        Some(_) => Err(()),
    }
}

/// The member `key` of an object as an optional text.
pub fn get_text_member(tree: &Json, key: &[u8]) -> (member: Result<Option<Vec<u8>>, ()>)
    ensures
        match member {
            Ok(found) => text_member(tree@, key@) == Ok::<Option<Seq<u8>>, ()>(
                optional_view(found),
            ),
            Err(_) => text_member(tree@, key@) is Err,
        },
{
    match tree.get(key) {
        None => Ok(None),
        Some(Json::Null) => Ok(None),
        Some(Json::Text(t)) => Ok(Some(slice_to_vec(t.as_slice()))),
        Some(_) => Err(()),
    }
}

/// What is said of a payload that is no JSON object.
pub open spec fn not_an_object() -> Seq<u8> {
    ascii("the payload is not a JSON object"@)
}

/// What is said of a text that is no string.
pub open spec fn text_not_a_string() -> Seq<u8> {
    ascii("the member text is not a string"@)
}

/// What is said of a time that is no string.
pub open spec fn time_not_a_string() -> Seq<u8> {
    ascii("the member time is not a string"@)
}

/// The details in the payload of an alarm or of an event, where `parsed` is
/// what the payload reads as.
pub open spec fn details_of(parsed: Option<JsonValue>) -> Result<DetailsView, ErrorView> {
    match parsed {
        Some(JsonValue::Object(members)) => {
            let tree = JsonValue::Object(members);
            match text_member(tree, ascii("text"@)) {
                Err(_) => Err(ErrorView::InvalidLocalJson { reason: text_not_a_string() }),
                Ok(text) => match text_member(tree, ascii("time"@)) {
                    Err(_) => Err(ErrorView::InvalidLocalJson { reason: time_not_a_string() }),
                    Ok(time) => Ok(DetailsView { text, time }),
                },
            }
        },
        _ => Err(ErrorView::InvalidLocalJson { reason: not_an_object() }),
    }
}

/// The model of an optional document.
pub open spec fn optional_tree(parsed: Option<Json>) -> Option<JsonValue> {
    match parsed {
        Some(tree) => Some(tree@),
        None => None,
    }
}

/// The details in the payload of an alarm or of an event that was read
/// already.
pub fn read_details(parsed: &Option<Json>) -> (details: Result<Details, ConversionError>)
    ensures
        match details {
            Ok(d) => details_of(optional_tree(*parsed)) == Ok::<DetailsView, ErrorView>(d@),
            Err(e) => details_of(optional_tree(*parsed)) == Err::<DetailsView, ErrorView>(e@),
        },
{
    proof {
        reveal_strlit("text");
        reveal_strlit("time");
        reveal_strlit("the payload is not a JSON object");
        reveal_strlit("the member text is not a string");
        reveal_strlit("the member time is not a string");
    }
    match parsed {
        Some(tree) => match tree {
            Json::Object(members) => {
                proof {
                    crate::json::lemma_object_view(*members);
                }
                let text = match get_text_member(tree, bytes_of("text").as_slice()) {
                    Ok(text) => text,
                    Err(_) => {
                        return Err(
                            ConversionError::InvalidLocalJson {
                                reason: bytes_of("the member text is not a string"),
                            },
                        );
                    },
                };
                let time = match get_text_member(tree, bytes_of("time").as_slice()) {
                    Ok(time) => time,
                    Err(_) => {
                        return Err(
                            ConversionError::InvalidLocalJson {
                                reason: bytes_of("the member time is not a string"),
                            },
                        );
                    },
                };
                Ok(Details { text, time })
            },
            _ => Err(
                ConversionError::InvalidLocalJson {
                    reason: bytes_of("the payload is not a JSON object"),
                },
            ),
        },
        None => Err(
            ConversionError::InvalidLocalJson {
                reason: bytes_of("the payload is not a JSON object"),
            },
        ),
    }
}

/// `,"<text>"` and, where a time is given, `,<time>`: the end of an alarm or
/// event record. A missing text stands as the empty text.
pub open spec fn details_fields(details: DetailsView) -> Seq<u8> {
    let text = match details.text {
        Some(t) => t,
        None => Seq::empty(),
    };
    let head = ascii(","@) + csv_quoted(text);
    match details.time {
        Some(time) => head + ascii(","@) + time,
        None => head,
    }
}

fn push_details(out: &mut Vec<u8>, details: &Details)
    ensures
        final(out)@ == old(out)@ + details_fields(details@),
{
    proof {
        reveal_strlit(",");
    }
    push_ascii(out, ",");
    match &details.text {
        Some(text) => push_csv_quoted(out, text.as_slice()),
        None => {
            let empty: Vec<u8> = Vec::new();
            push_csv_quoted(out, empty.as_slice());
            assert(empty@ =~= Seq::<u8>::empty());
        },
    }
    match &details.time {
        Some(time) => {
            push_ascii(out, ",");
            out.extend_from_slice(time.as_slice());
        },
        None => {},
    }
    assert(out@ =~= old(out)@ + details_fields(details@));
}

/// The SmartREST record for an alarm on `topic` with `payload`, where `parsed`
/// is what the payload reads as. An empty payload clears the alarm:
/// `306,<type>`. Any other raises it: `<template>,<type>,"<text>"[,<time>]`.
pub open spec fn alarm_record(
    topic: Seq<u8>,
    payload: Seq<u8>,
    parsed: Option<JsonValue>,
) -> Result<Seq<u8>, ErrorView> {
    match stripped(topic, alarms_prefix()) {
        None => Err(ErrorView::UnsupportedTopic { topic }),
        Some(key) => {
            let parts = split(key, 0x2f);
            if parts.len() != 2 || parts[0].len() == 0 || parts[1].len() == 0 {
                Err(ErrorView::UnsupportedTopic { topic })
            } else {
                match severity_named(parts[0]) {
                    None => Err(ErrorView::UnsupportedAlarmSeverity { severity: parts[0] }),
                    Some(severity) => if payload.len() == 0 {
                        Ok(ascii("306,"@) + parts[1])
                    } else {
                        match details_of(parsed) {
                            Err(error) => Err(error),
                            Ok(details) => Ok(
                                alarm_template(severity) + ascii(","@) + parts[1] + details_fields(
                                    details,
                                ),
                            ),
                        }
                    },
                }
            }
        },
    }
}

/// The SmartREST record for an alarm that was read already.
pub fn serialize_alarm(topic: &[u8], payload: &[u8], parsed: &Option<Json>) -> (record: Result<
    Vec<u8>,
    ConversionError,
>)
    ensures
        match record {
            Ok(line) => alarm_record(topic@, payload@, optional_tree(*parsed)) == Ok::<
                Seq<u8>,
                ErrorView,
            >(line@),
            Err(e) => alarm_record(topic@, payload@, optional_tree(*parsed)) == Err::<
                Seq<u8>,
                ErrorView,
            >(e@),
        },
{
    proof {
        reveal_strlit("306,");
        reveal_strlit(",");
    }
    let prefix = alarms_prefix_topic();
    let key = match strip_prefix(topic, prefix.as_slice()) {
        Some(key) => key,
        None => {
            return Err(ConversionError::UnsupportedTopic { topic: slice_to_vec(topic) });
        },
    };
    let parts = split_fields(key.as_slice(), 0x2f);
    assert(views(parts@).len() == parts@.len());
    if parts.len() != 2 {
        return Err(ConversionError::UnsupportedTopic { topic: slice_to_vec(topic) });
    }
    assert(views(parts@)[0] == parts@[0]@);
    assert(views(parts@)[1] == parts@[1]@);
    if parts[0].len() == 0 || parts[1].len() == 0 {
        return Err(ConversionError::UnsupportedTopic { topic: slice_to_vec(topic) });
    }
    let severity = match AlarmSeverity::from_name(parts[0].as_slice()) {
        Some(severity) => severity,
        None => {
            return Err(
                ConversionError::UnsupportedAlarmSeverity {
                    severity: slice_to_vec(parts[0].as_slice()),
                },
            );
        },
    };
    if payload.len() == 0 {
        let mut line = bytes_of("306,");
        line.extend_from_slice(parts[1].as_slice());
        assert(line@ =~= ascii("306,"@) + parts@[1]@);
        return Ok(line);
    }
    let details = match read_details(parsed) {
        Ok(details) => details,
        Err(error) => {
            return Err(error);
        },
    };
    let mut line = severity.template();
    push_ascii(&mut line, ",");
    line.extend_from_slice(parts[1].as_slice());
    push_details(&mut line, &details);
    assert(line@ =~= alarm_template(severity) + ascii(","@) + parts@[1]@ + details_fields(
        details@,
    ));
    Ok(line)
}

/// The SmartREST record for an event on `topic` with `payload`, where `parsed`
/// is what the payload reads as: `400,<type>,"<text>"[,<time>]`. An empty
/// payload gives an event without text and time.
pub open spec fn event_record(
    topic: Seq<u8>,
    payload: Seq<u8>,
    parsed: Option<JsonValue>,
) -> Result<Seq<u8>, ErrorView> {
    match stripped(topic, events_prefix()) {
        None => Err(ErrorView::UnsupportedTopic { topic }),
        Some(name) => if name.len() == 0 || split(name, 0x2f).len() != 1 {
            Err(ErrorView::UnsupportedTopic { topic })
        } else if payload.len() == 0 {
            Ok(ascii("400,"@) + name + details_fields(DetailsView { text: None, time: None }))
        } else {
            match details_of(parsed) {
                Err(error) => Err(error),
                Ok(details) => Ok(ascii("400,"@) + name + details_fields(details)),
            }
        },
    }
}

/// The SmartREST record for an event that was read already.
pub fn serialize_event(topic: &[u8], payload: &[u8], parsed: &Option<Json>) -> (record: Result<
    Vec<u8>,
    ConversionError,
>)
    ensures
        match record {
            Ok(line) => event_record(topic@, payload@, optional_tree(*parsed)) == Ok::<
                Seq<u8>,
                ErrorView,
            >(line@),
            Err(e) => event_record(topic@, payload@, optional_tree(*parsed)) == Err::<
                Seq<u8>,
                ErrorView,
            >(e@),
        },
{
    proof {
        reveal_strlit("400,");
    }
    let prefix = events_prefix_topic();
    let name = match strip_prefix(topic, prefix.as_slice()) {
        Some(name) => name,
        None => {
            return Err(ConversionError::UnsupportedTopic { topic: slice_to_vec(topic) });
        },
    };
    let parts = split_fields(name.as_slice(), 0x2f);
    assert(views(parts@).len() == parts@.len());
    if name.len() == 0 || parts.len() != 1 {
        return Err(ConversionError::UnsupportedTopic { topic: slice_to_vec(topic) });
    }
    let details = if payload.len() == 0 {
        Details { text: None, time: None }
    } else {
        match read_details(parsed) {
            Ok(details) => details,
            Err(error) => {
                return Err(error);
            },
        }
    };
    let mut line = bytes_of("400,");
    line.extend_from_slice(name.as_slice());
    push_details(&mut line, &details);
    assert(line@ =~= ascii("400,"@) + name@ + details_fields(details@));
    Ok(line)
}

} // verus!

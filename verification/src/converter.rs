//! The converter: from one message of the bus to the messages that answer it.

use crate::bus::{
    alarms_route, alarms_route_topic, cloud_in_prefix, cloud_in_prefix_topic, cloud_measurement,
    cloud_measurement_topic, cloud_out, cloud_out_topic, events_prefix, events_prefix_topic,
    internal_alarms_prefix, internal_alarms_prefix_topic, measurements, measurements_prefix,
    measurements_prefix_topic, measurements_topic, message_views, one, plain, push_message,
    restart_response, restart_response_topic, software_list_response, software_list_response_topic,
    software_update_response, software_update_response_topic, Message, MessageView,
};
use crate::error::{ConversionError, ErrorView};
use crate::json::{item_views, json_text, member_views, Json, JsonValue, Member};
use crate::measurement::{cloud_measurement_text, measurement_envelope, optional_slice};
use crate::message::{
    list_views, unreadable, ItemView, ListView, ResponseView, SoftwareOperationStatus,
    SoftwareRequestResponse, SoftwareRequestResponseSoftwareList,
};
use crate::smartrest::{
    child_device_creation, child_record, event_record, executing_record, failed_record,
    optional_tree, serialize_event, set_operation_to_executing, set_operation_to_failed,
    set_operation_to_successful, successful_record,
};
use crate::software::optional_bytes;
use crate::text::{ascii, bytes_eq, bytes_of, starts_with, strip_prefix, stripped, views};
use vstd::prelude::*;
use vstd::slice::*;
use vstd::string::*;

verus! {

/// Where a message goes inside the converter.
#[derive(Clone, Copy, Debug, PartialEq, Eq, Structural)]
pub enum Route {
    Measurement,
    Alarm,
    InternalAlarm,
    Event,
    SoftwareListResponse,
    SoftwareUpdateResponse,
    RestartResponse,
    Cloud,
    Unsupported,
}

/// The route of a topic: the first of the known beginnings that fits.
pub open spec fn route_of(topic: Seq<u8>) -> Route {
    if measurements().is_prefix_of(topic) {
        Route::Measurement
    } else if alarms_route().is_prefix_of(topic) {
        Route::Alarm
    } else if internal_alarms_prefix().is_prefix_of(topic) {
        Route::InternalAlarm
    } else if events_prefix().is_prefix_of(topic) {
        Route::Event
    } else if topic == software_list_response() {
        Route::SoftwareListResponse
    } else if topic == software_update_response() {
        Route::SoftwareUpdateResponse
    } else if topic == restart_response() {
        Route::RestartResponse
    } else if cloud_in_prefix().is_prefix_of(topic) {
        Route::Cloud
    } else {
        Route::Unsupported
    }
}

/// The route of a topic.
pub fn route(topic: &[u8]) -> (found: Route)
    ensures
        found == route_of(topic@),
{
    if starts_with(topic, measurements_topic().as_slice()) {
        Route::Measurement
    } else if starts_with(topic, alarms_route_topic().as_slice()) {
        Route::Alarm
    } else if starts_with(topic, internal_alarms_prefix_topic().as_slice()) {
        Route::InternalAlarm
    } else if starts_with(topic, events_prefix_topic().as_slice()) {
        Route::Event
    } else if bytes_eq(topic, software_list_response_topic().as_slice()) {
        Route::SoftwareListResponse
    } else if bytes_eq(topic, software_update_response_topic().as_slice()) {
        Route::SoftwareUpdateResponse
    } else if bytes_eq(topic, restart_response_topic().as_slice()) {
        Route::RestartResponse
    } else if starts_with(topic, cloud_in_prefix_topic().as_slice()) {
        Route::Cloud
    } else {
        Route::Unsupported
    }
}

/// The child device that a measurement topic names: none for the device
/// itself; an empty id is refused.
pub open spec fn child_of(topic: Seq<u8>) -> Result<Option<Seq<u8>>, ErrorView> {
    match stripped(topic, measurements_prefix()) {
        Some(id) => if id.len() == 0 {
            Err(ErrorView::InvalidChildId { id })
        } else {
            Ok(Some(id))
        },
        None => Ok(None),
    }
}

/// The child device that a measurement topic names.
pub fn get_child_id_from_topic(topic: &[u8]) -> (child: Result<Option<Vec<u8>>, ConversionError>)
    ensures
        match child {
            Ok(id) => child_of(topic@) == Ok::<Option<Seq<u8>>, ErrorView>(optional_bytes(id)),
            Err(e) => child_of(topic@) == Err::<Option<Seq<u8>>, ErrorView>(e@),
        },
{
    match strip_prefix(topic, measurements_prefix_topic().as_slice()) {
        Some(id) => if id.len() == 0 {
            Err(ConversionError::InvalidChildId { id })
        } else {
            Ok(Some(id))
        },
        None => Ok(None),
    }
}

/// What a measurement gives, where `children` are the child devices that
/// were announced already: the announcement of a child that is new, then the
/// cloud's envelope.
pub open spec fn measurement_outcome(
    children: Seq<Seq<u8>>,
    message: MessageView,
    parsed: Option<JsonValue>,
) -> Result<Seq<MessageView>, ErrorView> {
    match child_of(message.topic) {
        Err(error) => Err(error),
        Ok(child) => match cloud_measurement_text(parsed, child) {
            Err(error) => Err(error),
            Ok(text) => {
                let envelope = plain(cloud_measurement(), text);
                match child {
                    Some(id) => if children.contains(id) {
                        Ok(seq![envelope])
                    } else {
                        Ok(seq![plain(cloud_out(), child_record(id)), envelope])
                    },
                    None => Ok(seq![envelope]),
                }
            },
        }
    }
}

/// The child devices that are announced after a measurement.
pub open spec fn measurement_children(
    children: Seq<Seq<u8>>,
    message: MessageView,
    parsed: Option<JsonValue>,
) -> Seq<Seq<u8>> {
    match (measurement_outcome(children, message, parsed), child_of(message.topic)) {
        (Ok(_), Ok(Some(id))) => if children.contains(id) {
            children
        } else {
            children.push(id)
        },
        _ => children,
    }
}

fn holds(list: &Vec<Vec<u8>>, item: &[u8]) -> (found: bool)
    ensures
        found == views(list@).contains(item@),
{
    let ghost all = views(list@);
    let mut i: usize = 0;
    while i < list.len()
        invariant
            i <= list@.len(),
            all == views(list@),
            forall|j: int| 0 <= j < i ==> all[j] != item@,
        decreases list@.len() - i,
    {
        assert(all[i as int] == list@[i as int]@);
        if bytes_eq(list[i].as_slice(), item) {
            return true;
        }
        i += 1;
    }
    false
}

/// Converts a measurement that was read already, and notes the child device
/// that it announces.
pub fn convert_measurement(
    children: &mut Vec<Vec<u8>>,
    input: &Message,
    parsed: &Option<Json>,
) -> (outcome: Result<Vec<Message>, ConversionError>)
    ensures
        crate::error::outcome_view(outcome) == measurement_outcome(
            views(old(children)@),
            input@,
            optional_tree(*parsed),
        ),
        views(final(children)@) == measurement_children(
            views(old(children)@),
            input@,
            optional_tree(*parsed),
        ),
{
    let child = match get_child_id_from_topic(input.topic.as_slice()) {
        Ok(child) => child,
        Err(error) => {
            return Err(error);
        },
    };
    let mut messages: Vec<Message> = Vec::new();
    assert(message_views(messages@) =~= Seq::empty());
    match child {
        Some(id) => {
            let text = match measurement_envelope(parsed, Some(id.as_slice())) {
                Ok(text) => text,
                Err(error) => {
                    return Err(error);
                },
            };
            if !holds(children, id.as_slice()) {
                push_message(
                    &mut messages,
                    Message::new(
                        cloud_out_topic().as_slice(),
                        child_device_creation(id.as_slice()),
                    ),
                );
                let ghost before = views(children@);
                children.push(slice_to_vec(id.as_slice()));
                assert(views(children@) =~= before.push(id@));
            }
            push_message(&mut messages, Message::new(cloud_measurement_topic().as_slice(), text));
            assert(message_views(messages@) =~= measurement_outcome(
                views(old(children)@),
                input@,
                optional_tree(*parsed),
            )->Ok_0);
        },
        None => {
            let text = match measurement_envelope(parsed, None) {
                Ok(text) => text,
                Err(error) => {
                    return Err(error);
                },
            };
            push_message(&mut messages, Message::new(cloud_measurement_topic().as_slice(), text));
            assert(message_views(messages@) =~= measurement_outcome(
                views(old(children)@),
                input@,
                optional_tree(*parsed),
            )->Ok_0);
        },
    }
    Ok(messages)
}

/// What an event gives: its SmartREST record for the cloud.
pub open spec fn event_outcome(message: MessageView, parsed: Option<JsonValue>) -> Result<
    Seq<MessageView>,
    ErrorView,
> {
    match event_record(message.topic, message.payload, parsed) {
        Ok(record) => Ok(seq![plain(cloud_out(), record)]),
        Err(error) => Err(error),
    }
}

/// Converts an event that was read already.
pub fn convert_event(input: &Message, parsed: &Option<Json>) -> (outcome: Result<
    Vec<Message>,
    ConversionError,
>)
    ensures
        crate::error::outcome_view(outcome) == event_outcome(input@, optional_tree(*parsed)),
{
    match serialize_event(input.topic.as_slice(), input.payload.as_slice(), parsed) {
        Ok(record) => Ok(one(Message::new(cloud_out_topic().as_slice(), record))),
        Err(error) => Err(error),
    }
}

/// The reason that stands in the record of a failed operation: the fixed one
/// where the operation has one, else the one that the answer gives, else none.
pub open spec fn failure_reason(fixed: Option<Seq<u8>>, response: ResponseView) -> Seq<u8> {
    match (fixed, response.reason) {
        (Some(reason), _) => reason,
        (None, Some(reason)) => reason,
        (None, None) => Seq::empty(),
    }
}

/// The SmartREST record that reports how far `operation` has come.
pub open spec fn status_record(
    operation: Seq<u8>,
    fixed: Option<Seq<u8>>,
    response: ResponseView,
) -> Seq<u8> {
    match response.status {
        SoftwareOperationStatus::Executing => executing_record(operation),
        SoftwareOperationStatus::Successful => successful_record(operation),
        SoftwareOperationStatus::Failed => failed_record(
            operation,
            failure_reason(fixed, response),
        ),
    }
}

/// What the answer to an operation gives, where `response` is what was read
/// of it: one status record for the cloud.
pub open spec fn status_outcome(
    operation: Seq<u8>,
    fixed: Option<Seq<u8>>,
    response: Option<ResponseView>,
) -> Result<Seq<MessageView>, ErrorView> {
    match response {
        Some(r) => Ok(seq![plain(cloud_out(), status_record(operation, fixed, r))]),
        None => Err(ErrorView::InvalidLocalJson { reason: unreadable() }),
    }
}

/// The model of an optional answer.
pub open spec fn optional_response(response: Option<SoftwareRequestResponse>) -> Option<
    ResponseView,
> {
    match response {
        Some(r) => Some(r@),
        None => None,
    }
}

/// The error of a message that is not what its topic asks for.
pub fn unreadable_message() -> (error: ConversionError)
    ensures
        error@ == (ErrorView::InvalidLocalJson { reason: unreadable() }),
{
    proof {
        reveal_strlit("the message is not what its topic asks for");
    }
    ConversionError::InvalidLocalJson {
        reason: bytes_of("the message is not what its topic asks for"),
    }
}

/// Reports how far an operation has come, from the answer that was read.
pub fn publish_operation_status(
    operation: &[u8],
    fixed: Option<&[u8]>,
    response: &Option<SoftwareRequestResponse>,
) -> (outcome: Result<Vec<Message>, ConversionError>)
    ensures
        crate::error::outcome_view(outcome) == status_outcome(
            operation@,
            optional_slice(fixed),
            optional_response(*response),
        ),
{
    let response = match response {
        Some(response) => response,
        None => {
            return Err(unreadable_message());
        },
    };
    let record = match response.status {
        SoftwareOperationStatus::Executing => set_operation_to_executing(operation),
        SoftwareOperationStatus::Successful => set_operation_to_successful(operation),
        SoftwareOperationStatus::Failed => {
            match (fixed, &response.reason) {
                (Some(reason), _) => set_operation_to_failed(operation, reason),
                (None, Some(reason)) => set_operation_to_failed(operation, reason.as_slice()),
                (None, None) => {
                    let empty: Vec<u8> = Vec::new();
                    assert(empty@ =~= Seq::<u8>::empty());
                    set_operation_to_failed(operation, empty.as_slice())
                },
            }
        },
    };
    Ok(one(Message::new(cloud_out_topic().as_slice(), record)))
}

/// A module as the cloud's inventory lists it: the version carries the type
/// behind `::`.
pub open spec fn inventory_module(plugin_type: Seq<u8>, item: ItemView) -> JsonValue {
    JsonValue::Object(
        seq![
            (ascii("name"@), JsonValue::Text(item.name)),
            (
                ascii("version"@),
                JsonValue::Text(
                    (match item.version {
                        Some(v) => v,
                        None => Seq::empty(),
                    }) + ascii("::"@) + plugin_type,
                ),
            ),
            (
                ascii("url"@),
                JsonValue::Text(
                    match item.url {
                        Some(info) => info.url,
                        None => Seq::empty(),
                    },
                ),
            ),
        ],
    )
}

/// The first `n` modules of a list.
pub open spec fn inventory_modules(list: ListView, n: nat) -> Seq<JsonValue>
    decreases n,
{
    if n == 0 || n > list.list.len() {
        Seq::empty()
    } else {
        inventory_modules(list, (n - 1) as nat).push(
            inventory_module(list.plugin_type, list.list[n - 1]),
        )
    }
}

/// The modules of the first `n` lists, one list after the other.
pub open spec fn inventory_of(lists: Seq<ListView>, n: nat) -> Seq<JsonValue>
    decreases n,
{
    if n == 0 || n > lists.len() {
        Seq::empty()
    } else {
        inventory_of(lists, (n - 1) as nat) + inventory_modules(
            lists[n - 1],
            lists[n - 1].list.len(),
        )
    }
}

/// The software list that is uploaded to the cloud.
pub open spec fn software_list_tree(lists: Seq<ListView>) -> JsonValue {
    JsonValue::Object(
        seq![(ascii("c8y_SoftwareList"@), JsonValue::Array(inventory_of(lists, lists.len())))],
    )
}

/// What is uploaded for the answer to a request of the software list: the
/// list of a successful answer.
pub open spec fn upload_for_list(response: ResponseView) -> Option<Seq<u8>> {
    match response.status {
        SoftwareOperationStatus::Successful => Some(
            json_text(software_list_tree(response.current_software_list)),
        ),
        _ => None,
    }
}

/// What is uploaded for the answer to an update: the list of an answer that
/// ends the update, whether it succeeded or failed.
pub open spec fn upload_for_update(response: ResponseView) -> Option<Seq<u8>> {
    match response.status {
        SoftwareOperationStatus::Executing => None,
        _ => Some(json_text(software_list_tree(response.current_software_list))),
    }
}

fn inventory_module_of(plugin_type: &[u8], item: &crate::message::SoftwareModuleItem) -> (tree:
    Json)
    ensures
        tree@ == inventory_module(plugin_type@, item@),
{
    proof {
        reveal_strlit("name");
        reveal_strlit("version");
        reveal_strlit("url");
        reveal_strlit("::");
    }
    let mut version: Vec<u8> = match &item.version {
        Some(v) => slice_to_vec(v.as_slice()),
        None => Vec::new(),
    };
    crate::text::push_ascii(&mut version, "::");
    version.extend_from_slice(plugin_type);
    let url: Vec<u8> = match &item.url {
        Some(info) => slice_to_vec(info.url.as_slice()),
        None => Vec::new(),
    };
    let mut members: Vec<Member> = Vec::new();
    members.push(Member::new(bytes_of("name").as_slice(), Json::text(item.name.as_slice())));
    members.push(Member::new(bytes_of("version").as_slice(), Json::text(version.as_slice())));
    members.push(Member::new(bytes_of("url").as_slice(), Json::text(url.as_slice())));
    assert(version@ =~= (match item@.version {
        Some(v) => v,
        None => Seq::empty(),
    }) + ascii("::"@) + plugin_type@);
    assert(url@ =~= match item@.url {
        Some(info) => info.url,
        None => Seq::empty(),
    });
    assert(member_views(members@) =~= inventory_module(plugin_type@, item@)->Object_0);
    Json::object(members)
}

/// The software list of an answer, as it is uploaded to the cloud.
pub fn software_list_payload(lists: &Vec<SoftwareRequestResponseSoftwareList>) -> (text: Vec<u8>)
    ensures
        text@ == json_text(software_list_tree(list_views(lists@))),
{
    proof {
        reveal_strlit("c8y_SoftwareList");
    }
    let ghost all = list_views(lists@);
    let mut modules: Vec<Json> = Vec::new();
    let mut i: usize = 0;
    assert(item_views(modules@) =~= Seq::empty());
    while i < lists.len()
        invariant
            i <= lists@.len(),
            all == list_views(lists@),
            item_views(modules@) == inventory_of(all, i as nat),
        decreases lists@.len() - i,
    {
        assert(all[i as int] == lists@[i as int]@);
        let list = &lists[i];
        let ghost done = item_views(modules@);
        let mut j: usize = 0;
        assert(item_views(modules@) =~= done + inventory_modules(list@, 0));
        while j < list.list.len()
            invariant
                j <= list.list@.len(),
                item_views(modules@) == done + inventory_modules(list@, j as nat),
            decreases list.list@.len() - j,
        {
            let ghost before = item_views(modules@);
            let module = inventory_module_of(list.plugin_type.as_slice(), &list.list[j]);
            modules.push(module);
            assert(list@.list[j as int] == list.list@[j as int]@);
            assert(item_views(modules@) =~= before.push(module@));
            assert(item_views(modules@) =~= done + inventory_modules(list@, (j + 1) as nat));
            j += 1;
        }
        i += 1;
    }
    let mut members: Vec<Member> = Vec::new();
    members.push(Member::new(bytes_of("c8y_SoftwareList").as_slice(), Json::array(modules)));
    assert(member_views(members@) =~= software_list_tree(all)->Object_0);
    Json::object(members).to_text()
}

/// What is to be uploaded for the answer to a request of the software
/// list, if anything.
pub fn software_list_upload(response: &SoftwareRequestResponse) -> (payload: Option<Vec<u8>>)
    ensures
        optional_bytes(payload) == upload_for_list(response@),
{
    match response.status {
        SoftwareOperationStatus::Successful => Some(
            software_list_payload(&response.current_software_list),
        ),
        _ => None,
    }
}

/// What is to be uploaded for the answer to an update, if anything.
pub fn software_update_upload(response: &SoftwareRequestResponse) -> (payload: Option<Vec<u8>>)
    ensures
        optional_bytes(payload) == upload_for_update(response@),
{
    match response.status {
        SoftwareOperationStatus::Executing => None,
        _ => Some(software_list_payload(&response.current_software_list)),
    }
}

} // verus!

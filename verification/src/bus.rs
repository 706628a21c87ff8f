//! Messages of the publish/subscribe bus and the topics that the core knows.

use crate::text::{ascii, bytes_of};
use vstd::prelude::*;
use vstd::slice::*;
use vstd::string::*;

verus! {

/// A message: a topic, an opaque payload, and whether the broker retains it.
#[derive(Debug)]
pub struct Message {
    pub topic: Vec<u8>,
    pub payload: Vec<u8>,
    pub retain: bool,
}

pub struct MessageView {
    pub topic: Seq<u8>,
    pub payload: Seq<u8>,
    pub retain: bool,
}

impl View for Message {
    type V = MessageView;

    open spec fn view(&self) -> MessageView {
        MessageView { topic: self.topic@, payload: self.payload@, retain: self.retain }
    }
}

/// The models of a list of messages.
pub open spec fn message_views(messages: Seq<Message>) -> Seq<MessageView> {
    Seq::new(messages.len(), |i: int| messages[i]@)
}

/// A message that is not retained.
pub open spec fn plain(topic: Seq<u8>, payload: Seq<u8>) -> MessageView {
    MessageView { topic, payload, retain: false }
}

/// A retained message.
pub open spec fn retained(topic: Seq<u8>, payload: Seq<u8>) -> MessageView {
    MessageView { topic, payload, retain: true }
}

impl Message {
    pub fn new(topic: &[u8], payload: Vec<u8>) -> (message: Message)
        ensures
            message@ == plain(topic@, payload@),
    {
        Message { topic: slice_to_vec(topic), payload, retain: false }
    }

    pub fn with_retain(self) -> (message: Message)
        ensures
            message@ == retained(self@.topic, self@.payload),
    {
        Message { topic: self.topic, payload: self.payload, retain: true }
    }

    pub fn duplicate(&self) -> (message: Message)
        ensures
            message@ == self@,
    {
        Message {
            topic: slice_to_vec(self.topic.as_slice()),
            payload: slice_to_vec(self.payload.as_slice()),
            retain: self.retain,
        }
    }
}

/// A list of one message.
pub fn one(message: Message) -> (list: Vec<Message>)
    ensures
        message_views(list@) == seq![message@],
{
    let mut list: Vec<Message> = Vec::new();
    list.push(message);
    assert(message_views(list@) =~= seq![message@]);
    list
}

/// Appends `message` to `list`.
pub fn push_message(list: &mut Vec<Message>, message: Message)
    ensures
        message_views(final(list)@) == message_views(old(list)@).push(message@),
{
    list.push(message);
    assert(message_views(list@) =~= message_views(old(list)@).push(message@));
}

/// Telemetry of the device itself.
pub open spec fn measurements() -> Seq<u8> {
    ascii("local/measurements"@)
}

pub fn measurements_topic() -> (topic: Vec<u8>)
    ensures
        topic@ == measurements(),
{
    proof {
        reveal_strlit("local/measurements");
    }
    bytes_of("local/measurements")
}

/// Telemetry of a child device: the child's id follows.
pub open spec fn measurements_prefix() -> Seq<u8> {
    ascii("local/measurements/"@)
}

pub fn measurements_prefix_topic() -> (topic: Vec<u8>)
    ensures
        topic@ == measurements_prefix(),
{
    proof {
        reveal_strlit("local/measurements/");
    }
    bytes_of("local/measurements/")
}

/// Where alarm topics begin.
pub open spec fn alarms_route() -> Seq<u8> {
    ascii("local/alarms"@)
}

pub fn alarms_route_topic() -> (topic: Vec<u8>)
    ensures
        topic@ == alarms_route(),
{
    proof {
        reveal_strlit("local/alarms");
    }
    bytes_of("local/alarms")
}

/// Alarms: `<severity>/<type>` follows.
pub open spec fn alarms_prefix() -> Seq<u8> {
    ascii("local/alarms/"@)
}

pub fn alarms_prefix_topic() -> (topic: Vec<u8>)
    ensures
        topic@ == alarms_prefix(),
{
    proof {
        reveal_strlit("local/alarms/");
    }
    bytes_of("local/alarms/")
}

/// The retained mirror of processed alarms: `<severity>/<type>` follows.
pub open spec fn internal_alarms_prefix() -> Seq<u8> {
    ascii("internal/alarms/"@)
}

pub fn internal_alarms_prefix_topic() -> (topic: Vec<u8>)
    ensures
        topic@ == internal_alarms_prefix(),
{
    proof {
        reveal_strlit("internal/alarms/");
    }
    bytes_of("internal/alarms/")
}

/// Events: the event's type follows.
pub open spec fn events_prefix() -> Seq<u8> {
    ascii("local/events/"@)
}

pub fn events_prefix_topic() -> (topic: Vec<u8>)
    ensures
        topic@ == events_prefix(),
{
    proof {
        reveal_strlit("local/events/");
    }
    bytes_of("local/events/")
}

/// Human-readable conversion errors.
pub open spec fn errors() -> Seq<u8> {
    ascii("local/errors"@)
}

pub fn errors_topic() -> (topic: Vec<u8>)
    ensures
        topic@ == errors(),
{
    proof {
        reveal_strlit("local/errors");
    }
    bytes_of("local/errors")
}

/// SmartREST from the cloud: the template id follows.
pub open spec fn cloud_in_prefix() -> Seq<u8> {
    ascii("cloud/in/"@)
}

pub fn cloud_in_prefix_topic() -> (topic: Vec<u8>)
    ensures
        topic@ == cloud_in_prefix(),
{
    proof {
        reveal_strlit("cloud/in/");
    }
    bytes_of("cloud/in/")
}

/// SmartREST to the cloud.
pub open spec fn cloud_out() -> Seq<u8> {
    ascii("cloud/out"@)
}

pub fn cloud_out_topic() -> (topic: Vec<u8>)
    ensures
        topic@ == cloud_out(),
{
    proof {
        reveal_strlit("cloud/out");
    }
    bytes_of("cloud/out")
}

/// Cloud JSON measurements.
pub open spec fn cloud_measurement() -> Seq<u8> {
    ascii("cloud/measurement/create"@)
}

pub fn cloud_measurement_topic() -> (topic: Vec<u8>)
    ensures
        topic@ == cloud_measurement(),
{
    proof {
        reveal_strlit("cloud/measurement/create");
    }
    bytes_of("cloud/measurement/create")
}

/// Device and agent metadata: the device id follows.
pub open spec fn inventory_prefix() -> Seq<u8> {
    ascii("cloud/inventory/update/"@)
}

pub fn inventory_prefix_topic() -> (topic: Vec<u8>)
    ensures
        topic@ == inventory_prefix(),
{
    proof {
        reveal_strlit("cloud/inventory/update/");
    }
    bytes_of("cloud/inventory/update/")
}

/// Requests for the software list.
pub open spec fn software_list_request() -> Seq<u8> {
    ascii("local/cmd/req/software/list"@)
}

pub fn software_list_request_topic() -> (topic: Vec<u8>)
    ensures
        topic@ == software_list_request(),
{
    proof {
        reveal_strlit("local/cmd/req/software/list");
    }
    bytes_of("local/cmd/req/software/list")
}

/// Requests for a software update.
pub open spec fn software_update_request() -> Seq<u8> {
    ascii("local/cmd/req/software/update"@)
}

pub fn software_update_request_topic() -> (topic: Vec<u8>)
    ensures
        topic@ == software_update_request(),
{
    proof {
        reveal_strlit("local/cmd/req/software/update");
    }
    bytes_of("local/cmd/req/software/update")
}

/// Answers to software list requests.
pub open spec fn software_list_response() -> Seq<u8> {
    ascii("local/cmd/res/software/list"@)
}

pub fn software_list_response_topic() -> (topic: Vec<u8>)
    ensures
        topic@ == software_list_response(),
{
    proof {
        reveal_strlit("local/cmd/res/software/list");
    }
    bytes_of("local/cmd/res/software/list")
}

/// Answers to software update requests.
pub open spec fn software_update_response() -> Seq<u8> {
    ascii("local/cmd/res/software/update"@)
}

pub fn software_update_response_topic() -> (topic: Vec<u8>)
    ensures
        topic@ == software_update_response(),
{
    proof {
        reveal_strlit("local/cmd/res/software/update");
    }
    bytes_of("local/cmd/res/software/update")
}

/// Requests for a restart.
pub open spec fn restart_request() -> Seq<u8> {
    ascii("local/cmd/req/restart"@)
}

pub fn restart_request_topic() -> (topic: Vec<u8>)
    ensures
        topic@ == restart_request(),
{
    proof {
        reveal_strlit("local/cmd/req/restart");
    }
    bytes_of("local/cmd/req/restart")
}

/// Answers to restart requests.
pub open spec fn restart_response() -> Seq<u8> {
    ascii("local/cmd/res/restart"@)
}

pub fn restart_response_topic() -> (topic: Vec<u8>)
    ensures
        topic@ == restart_response(),
{
    proof {
        reveal_strlit("local/cmd/res/restart");
    }
    bytes_of("local/cmd/res/restart")
}

/// Health checks addressed to every component.
pub open spec fn health_check() -> Seq<u8> {
    ascii("health/check"@)
}

pub fn health_check_topic() -> (topic: Vec<u8>)
    ensures
        topic@ == health_check(),
{
    proof {
        reveal_strlit("health/check");
    }
    bytes_of("health/check")
}

/// Health checks addressed to one component: its name follows.
pub open spec fn health_check_prefix() -> Seq<u8> {
    ascii("health/check/"@)
}

pub fn health_check_prefix_topic() -> (topic: Vec<u8>)
    ensures
        topic@ == health_check_prefix(),
{
    proof {
        reveal_strlit("health/check/");
    }
    bytes_of("health/check/")
}

/// Health status: the component's name follows.
pub open spec fn health_status_prefix() -> Seq<u8> {
    ascii("health/status/"@)
}

pub fn health_status_prefix_topic() -> (topic: Vec<u8>)
    ensures
        topic@ == health_status_prefix(),
{
    proof {
        reveal_strlit("health/status/");
    }
    bytes_of("health/status/")
}

} // verus!

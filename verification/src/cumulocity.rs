//! The converter for the cloud: its state, its collaborators, and what it
//! does with each message.

use crate::alarm_converter::{
    alarm_next, alarm_outcome, mirror_next, sync_output, AlarmConverter, AlarmState,
};
use crate::bus::{
    cloud_out, cloud_out_topic, inventory_prefix, inventory_prefix_topic, message_views, one, plain,
    push_message, restart_request, restart_request_topic, software_list_request,
    software_list_request_topic, software_update_request, software_update_request_topic, Message,
    MessageView,
};
use crate::cloud_request::{
    lists_authorized, parse_restart, parse_software_update, requested_restart, requested_update,
    template_id, template_of,
};
use crate::converter::{
    convert_event, convert_measurement, event_outcome, measurement_children, measurement_outcome,
    optional_response, publish_operation_status, route, route_of, software_list_upload,
    software_update_upload, status_outcome, unreadable_message, Route,
};
use crate::error::{error_message, error_text, outcome_view, ConversionError, ErrorView};
use crate::json::{
    json_parsed, json_text, lemma_object_view, member_views, parse, Json, JsonValue, Member,
};
use crate::message::{
    item_list_views, list_views, request_list_tree, request_update_tree, response_in, unreadable,
    RequestUpdateView, SoftwareModuleItem, SoftwareRequestList, SoftwareRequestResponse,
    SoftwareRequestResponseSoftwareList, SoftwareRequestUpdate,
};
use crate::operations::{names, template_at, topics, OperationView, Operations};
use crate::size_threshold::{size_check, SizeThreshold};
use crate::smartrest::{
    executing_record, failed_record, get_pending_operations, log_types_record, not_an_object,
    optional_tree, pending_operations_record, restart_operation, restart_operation_name,
    set_operation_to_executing, set_operation_to_failed, set_supported_log_types,
    set_supported_operations, software_update_operation, software_update_operation_name,
    supported_operations_record,
};
use crate::software::optional_bytes;
use crate::text::{ascii, bytes_eq, bytes_of, join, split, split_fields, views};
use vstd::prelude::*;
use vstd::slice::*;
use vstd::string::*;

verus! {

/// The cloud's HTTP interface, as far as the converter needs it. A failure
/// gives its reason. An interface may say for itself what an upload can
/// come to; one that says nothing may come to anything.
pub trait C8YHttpProxy: Sized {
    /// Whether the upload of `software_list` may come out as `outcome` and
    /// leave the interface as `after`.
    open spec fn sends(
        &self,
        software_list: Seq<u8>,
        after: Self,
        outcome: Result<(), Seq<u8>>,
    ) -> bool {
        true
    }

    /// Fetches the token that gives access to the tenant.
    fn get_jwt_token(&mut self) -> Result<Vec<u8>, Vec<u8>>;

    /// Whether the host of `url` lies in the tenant's own domain.
    fn url_is_in_my_tenant_domain(&self, url: &[u8]) -> bool;

    /// Uploads the software list.
    fn send_software_list_http(&mut self, software_list: &[u8]) -> (outcome: Result<(), Vec<u8>>)
        ensures
            old(self).sends(
                software_list@,
                *final(self),
                match outcome {
                    Ok(_) => Ok(()),
                    Err(reason) => Err(reason@),
                },
            ),
    ;
}

/// Gives the ids under which the converter makes its requests.
pub trait RequestIds {
    /// An id for one more request.
    fn next_id(&mut self) -> usize;
}

/// Starts the commands of the operations as detached processes.
pub trait OperationExecutor {
    /// Starts the `command` of `operation` with `payload` as its only
    /// argument, and does not wait for it. A failure to start gives its
    /// reason.
    fn spawn(&mut self, operation: &[u8], command: &[u8], payload: &[u8]) -> Result<
        (),
        Vec<u8>,
    >;
}

/// What the mapper asks of a converter. A converter may say for itself
/// what its answers are; the mapper promises to pass them on. A converter
/// that says nothing may answer anything.
pub trait Converter: Sized {
    /// Whether the converter subscribes to exactly these topic filters.
    open spec fn subscribes(&self, filters: Seq<Seq<u8>>) -> bool {
        true
    }

    /// Whether the converter may answer `input` with `out` and be `after`
    /// afterwards.
    open spec fn converts(&self, input: MessageView, after: Self, out: Seq<MessageView>) -> bool {
        true
    }

    /// Whether the converter may start with `out` and be `after` afterwards.
    open spec fn starts(&self, after: Self, out: Seq<MessageView>) -> bool {
        true
    }

    /// Whether the converter may end the sync window with `out` and be
    /// `after` afterwards.
    open spec fn syncs(&self, after: Self, out: Seq<MessageView>) -> bool {
        true
    }

    /// The topic filters to subscribe to.
    fn subscriptions(&self) -> (filters: Vec<Vec<u8>>)
        ensures
            self.subscribes(views(filters@)),
    ;

    /// The messages that answer `input`; an error is reported as a message.
    fn convert(&mut self, input: &Message) -> (out: Vec<Message>)
        ensures
            old(self).converts(input@, *final(self), message_views(out@)),
    ;

    /// The messages to publish at start.
    fn init_messages(&mut self) -> (out: Vec<Message>)
        ensures
            old(self).starts(*final(self), message_views(out@)),
    ;

    /// The messages that end the sync window.
    fn sync_messages(&mut self) -> (out: Vec<Message>)
        ensures
            old(self).syncs(*final(self), message_views(out@)),
    ;
}

/// What is said of a record that is shorter than a template id.
pub open spec fn too_short() -> Seq<u8> {
    ascii("the record is shorter than a template id"@)
}

/// The reason that is given for every restart that failed.
pub open spec fn restart_failed() -> Seq<u8> {
    ascii("Restart Failed"@)
}

/// The operation that a record of an unknown template is reported under: its
/// second field, or the whole record where it has one field only.
pub open spec fn operation_named(record: Seq<u8>) -> Seq<u8> {
    let fields = split(record, 0x2c);
    if fields.len() >= 2 {
        fields[1]
    } else {
        record
    }
}

/// What is to be done for a record of the cloud.
pub enum CloudPlan {
    /// The record is refused, and the cloud is told so.
    Report(ErrorView),
    /// A restart is requested on the bus.
    Restart,
    /// An update is requested on the bus, once its addresses are authorized.
    Update(RequestUpdateView),
    /// The command of a registered operation is started.
    Run { operation: Seq<u8>, command: Seq<u8> },
    /// The operation is registered without a command.
    Nothing,
}

/// What is to be done for a record of the cloud.
#[derive(Debug)]
pub enum Plan {
    Report(ConversionError),
    Restart,
    Update(SoftwareRequestUpdate),
    Run { operation: Vec<u8>, command: Vec<u8> },
    Nothing,
}

impl View for Plan {
    type V = CloudPlan;

    open spec fn view(&self) -> CloudPlan {
        match self {
            Plan::Report(error) => CloudPlan::Report(error@),
            Plan::Restart => CloudPlan::Restart,
            Plan::Update(request) => CloudPlan::Update(request@),
            Plan::Run { operation, command } => CloudPlan::Run {
                operation: operation@,
                command: command@,
            },
            Plan::Nothing => CloudPlan::Nothing,
        }
    }
}

/// The plan for a record: `528` asks for a software update, `510` for a
/// restart, any other template for the operation that is registered for it.
pub open spec fn cloud_plan(
    operations: Seq<OperationView>,
    record: Seq<u8>,
    id: usize,
) -> CloudPlan {
    match template_of(record) {
        None => CloudPlan::Report(
            ErrorView::InvalidSmartRest { operation: record, reason: too_short() },
        ),
        Some(template) => if template == ascii("528"@) {
            match requested_update(record, id) {
                Ok(request) => CloudPlan::Update(request),
                Err(error) => CloudPlan::Report(error),
            }
        } else if template == ascii("510"@) {
            match requested_restart(record) {
                Ok(_) => CloudPlan::Restart,
                Err(error) => CloudPlan::Report(error),
            }
        } else {
            match template_at(operations, template, 0) {
                Some(at) => match operations[at].command {
                    Some(command) => CloudPlan::Run { operation: operations[at].name, command },
                    None => CloudPlan::Nothing,
                },
                None => CloudPlan::Report(
                    ErrorView::UnknownOperation { operation: operation_named(record) },
                ),
            }
        },
    }
}

fn name_in_record(record: &[u8]) -> (name: Vec<u8>)
    ensures
        name@ == operation_named(record@),
{
    let fields = split_fields(record, 0x2c);
    assert(views(fields@).len() == fields@.len());
    if fields.len() >= 2 {
        assert(views(fields@)[1] == fields@[1]@);
        slice_to_vec(fields[1].as_slice())
    } else {
        slice_to_vec(record)
    }
}

/// Decides what is to be done for a record of the cloud.
pub fn plan_cloud_request(operations: &Operations, record: &[u8], id: usize) -> (plan: Plan)
    ensures
        plan@ == cloud_plan(operations@, record@, id),
{
    proof {
        reveal_strlit("the record is shorter than a template id");
        reveal_strlit("528");
        reveal_strlit("510");
    }
    let template = match template_id(record) {
        Some(template) => template,
        None => {
            return Plan::Report(
                ConversionError::InvalidSmartRest {
                    operation: slice_to_vec(record),
                    reason: bytes_of("the record is shorter than a template id"),
                },
            );
        },
    };
    if bytes_eq(template.as_slice(), bytes_of("528").as_slice()) {
        match parse_software_update(record, id) {
            Ok(request) => Plan::Update(request),
            Err(error) => Plan::Report(error),
        }
    } else if bytes_eq(template.as_slice(), bytes_of("510").as_slice()) {
        match parse_restart(record) {
            Ok(_) => Plan::Restart,
            Err(error) => Plan::Report(error),
        }
    } else {
        match operations.matching_smartrest_template(template.as_slice()) {
            Some(operation) => match operation.command() {
                Some(command) => Plan::Run {
                    operation: slice_to_vec(operation.name.as_slice()),
                    command,
                },
                None => Plan::Nothing,
            },
            None => Plan::Report(
                ConversionError::UnknownOperation { operation: name_in_record(record) },
            ),
        }
    }
}

/// The operation that an error is reported under.
pub open spec fn operation_of(error: ErrorView) -> Seq<u8> {
    match error {
        ErrorView::InvalidSmartRest { operation, reason } => operation,
        ErrorView::UnknownOperation { operation } => operation,
        ErrorView::Spawn { operation, reason } => operation,
        _ => software_update_operation(),
    }
}

/// The pair that tells the cloud of a failure: the operation is executing,
/// then it has failed for `reason`.
pub open spec fn failure_pair(operation: Seq<u8>, reason: Seq<u8>) -> Seq<MessageView> {
    seq![
        plain(cloud_out(), executing_record(operation)),
        plain(cloud_out(), failed_record(operation, reason)),
    ]
}

/// How an error on a record of the cloud is told to the cloud.
pub open spec fn reported(error: ErrorView) -> Seq<MessageView> {
    failure_pair(operation_of(error), error_text(error))
}

/// Tells the cloud of an error on one of its records.
pub fn report(error: &ConversionError) -> (messages: Vec<Message>)
    ensures
        message_views(messages@) == reported(error@),
{
    let operation = match error {
        ConversionError::InvalidSmartRest { operation, reason } => slice_to_vec(
            operation.as_slice(),
        ),
        ConversionError::UnknownOperation { operation } => slice_to_vec(operation.as_slice()),
        ConversionError::Spawn { operation, reason } => slice_to_vec(operation.as_slice()),
        _ => software_update_operation_name(),
    };
    let topic = cloud_out_topic();
    let mut messages: Vec<Message> = Vec::new();
    assert(message_views(messages@) =~= Seq::empty());
    push_message(
        &mut messages,
        Message::new(topic.as_slice(), set_operation_to_executing(operation.as_slice())),
    );
    push_message(
        &mut messages,
        Message::new(
            topic.as_slice(),
            set_operation_to_failed(operation.as_slice(), error.to_text().as_slice()),
        ),
    );
    assert(message_views(messages@) =~= reported(error@));
    messages
}

/// The pair that tells the cloud how the command of an operation ended.
pub open spec fn finished(operation: Seq<u8>, success: bool, stderr: Seq<u8>) -> Seq<MessageView> {
    seq![
        plain(cloud_out(), executing_record(operation)),
        plain(
            cloud_out(),
            if success {
                crate::smartrest::successful_record(operation)
            } else {
                failed_record(operation, stderr)
            },
        ),
    ]
}

/// Tells the cloud how the command of an operation ended: that it was
/// executing, then that it succeeded, or that it failed with what it wrote
/// to its error stream.
pub fn operation_finished(operation: &[u8], success: bool, stderr: &[u8]) -> (messages: Vec<
    Message,
>)
    ensures
        message_views(messages@) == finished(operation@, success, stderr@),
{
    let topic = cloud_out_topic();
    let mut messages: Vec<Message> = Vec::new();
    assert(message_views(messages@) =~= Seq::empty());
    push_message(
        &mut messages,
        Message::new(topic.as_slice(), set_operation_to_executing(operation)),
    );
    let last = if success {
        crate::smartrest::set_operation_to_successful(operation)
    } else {
        set_operation_to_failed(operation, stderr)
    };
    push_message(&mut messages, Message::new(topic.as_slice(), last));
    assert(message_views(messages@) =~= finished(operation@, success, stderr@));
    messages
}

/// The name under which the agent stands in the inventory.
pub open spec fn agent_fragment() -> JsonValue {
    JsonValue::Object(
        seq![
            (ascii("name"@), JsonValue::Text(ascii("thin-edge.io"@))),
            (ascii("version"@), JsonValue::Text(ascii("0.1.0"@))),
            (ascii("url"@), JsonValue::Text(ascii("https://thin-edge.io"@))),
        ],
    )
}

/// The first place at or after `from` where a member is named `key`.
pub open spec fn key_at(members: Seq<(Seq<u8>, JsonValue)>, key: Seq<u8>, from: int) -> Option<int>
    decreases members.len() - from,
{
    if from < 0 || from >= members.len() {
        None
    } else if members[from].0 == key {
        Some(from)
    } else {
        key_at(members, key, from + 1)
    }
}

/// `members` with `value` under `key`: in the place of the member of that
/// name, else at the end.
pub open spec fn with_member(
    members: Seq<(Seq<u8>, JsonValue)>,
    key: Seq<u8>,
    value: JsonValue,
) -> Seq<(Seq<u8>, JsonValue)> {
    match key_at(members, key, 0) {
        Some(at) => members.update(at, (key, value)),
        None => members.push((key, value)),
    }
}

/// The inventory fragments, where `parsed` is what the fragments file reads
/// as: the object of the file with the agent's own fragment under its
/// reserved name; the agent's fragment alone where there is no file or it
/// cannot be read. A file that holds another kind of document is refused.
pub open spec fn inventory_tree(parsed: Option<JsonValue>) -> Result<JsonValue, ErrorView> {
    match parsed {
        None => Ok(JsonValue::Object(seq![(ascii("c8y_Agent"@), agent_fragment())])),
        Some(JsonValue::Object(members)) => Ok(
            JsonValue::Object(with_member(members, ascii("c8y_Agent"@), agent_fragment())),
        ),
        Some(_) => Err(ErrorView::InvalidLocalJson { reason: not_an_object() }),
    }
}

fn agent_fragment_tree() -> (tree: Json)
    ensures
        tree@ == agent_fragment(),
{
    proof {
        reveal_strlit("name");
        reveal_strlit("thin-edge.io");
        reveal_strlit("version");
        reveal_strlit("0.1.0");
        reveal_strlit("url");
        reveal_strlit("https://thin-edge.io");
    }
    let mut members: Vec<Member> = Vec::new();
    members.push(
        Member::new(bytes_of("name").as_slice(), Json::text(bytes_of("thin-edge.io").as_slice())),
    );
    members.push(
        Member::new(bytes_of("version").as_slice(), Json::text(bytes_of("0.1.0").as_slice())),
    );
    members.push(
        Member::new(
            bytes_of("url").as_slice(),
            Json::text(bytes_of("https://thin-edge.io").as_slice()),
        ),
    );
    assert(member_views(members@) =~= agent_fragment()->Object_0);
    Json::object(members)
}

fn find_key(members: &Vec<Member>, key: &[u8]) -> (at: Option<usize>)
    ensures
        match at {
            Some(i) => key_at(member_views(members@), key@, 0) == Some(i as int) && i
                < members@.len(),
            None => key_at(member_views(members@), key@, 0) is None,
        },
{
    let ghost all = member_views(members@);
    let mut i: usize = 0;
    while i < members.len()
        invariant
            i <= members@.len(),
            all == member_views(members@),
            key_at(all, key@, 0) == key_at(all, key@, i as int),
        decreases members@.len() - i,
    {
        assert(all[i as int] == members@[i as int]@);
        if bytes_eq(members[i].key.as_slice(), key) {
            return Some(i);
        }
        i += 1;
    }
    None
}

/// The inventory fragments from what the fragments file was read as.
pub fn get_inventory_fragments(parsed: Option<Json>) -> (tree: Result<Json, ConversionError>)
    ensures
        match tree {
            Ok(t) => inventory_tree(optional_tree(parsed)) == Ok::<JsonValue, ErrorView>(t@),
            Err(e) => inventory_tree(optional_tree(parsed)) == Err::<JsonValue, ErrorView>(e@),
        },
{
    proof {
        reveal_strlit("c8y_Agent");
        reveal_strlit("the payload is not a JSON object");
    }
    let key = bytes_of("c8y_Agent");
    match parsed {
        None => {
            let mut members: Vec<Member> = Vec::new();
            members.push(Member::new(key.as_slice(), agent_fragment_tree()));
            assert(member_views(members@) =~= seq![(ascii("c8y_Agent"@), agent_fragment())]);
            Ok(Json::object(members))
        },
        Some(Json::Object(members)) => {
            proof {
                lemma_object_view(members);
            }
            let ghost before = member_views(members@);
            let mut members = members;
            let fragment = Member::new(key.as_slice(), agent_fragment_tree());
            match find_key(&members, key.as_slice()) {
                Some(at) => {
                    members.set(at, fragment);
                    assert(member_views(members@) =~= before.update(at as int, fragment@));
                },
                None => {
                    members.push(fragment);
                    assert(member_views(members@) =~= before.push(fragment@));
                },
            }
            Ok(Json::object(members))
        },
        Some(_) => Err(
            ConversionError::InvalidLocalJson {
                reason: bytes_of("the payload is not a JSON object"),
            },
        ),
    }
}

/// The state of the converter, without its collaborators.
pub struct ConverterView {
    pub threshold: usize,
    /// The child devices that were announced to the cloud.
    pub children: Seq<Seq<u8>>,
    pub device_name: Seq<u8>,
    pub device_type: Seq<u8>,
    pub alarms: AlarmState,
    pub operations: Seq<OperationView>,
    /// What the inventory fragments file holds, where there is one.
    pub inventory_fragments: Option<Seq<u8>>,
}

/// The messages at start, where `parsed` is what the fragments file reads
/// as: the inventory fragments, the supported operations, the device's
/// type, the supported log types, the question for pending operations, and
/// the request for the software list under `id`.
pub open spec fn init_outcome(
    state: ConverterView,
    parsed: Option<JsonValue>,
    id: usize,
) -> Result<Seq<MessageView>, ErrorView> {
    match inventory_tree(parsed) {
        Err(error) => Err(error),
        Ok(fragments) => Ok(
            seq![
                plain(inventory_prefix() + state.device_name, json_text(fragments)),
                plain(cloud_out(), supported_operations_record(names(state.operations))),
                plain(
                    inventory_prefix() + state.device_name,
                    json_text(
                        JsonValue::Object(
                            seq![(ascii("type"@), JsonValue::Text(state.device_type))],
                        ),
                    ),
                ),
                plain(cloud_out(), log_types_record()),
                plain(cloud_out(), pending_operations_record()),
                plain(
                    software_list_request(),
                    json_text(request_list_tree(SoftwareRequestList { id })),
                ),
            ],
        ),
    }
}

/// What the fragments file reads as.
pub open spec fn fragments_parsed(content: Option<Seq<u8>>) -> Option<JsonValue> {
    match content {
        Some(text) => json_parsed(text),
        None => None,
    }
}

/// The request for a restart under `id`.
pub open spec fn restart_message(id: usize) -> MessageView {
    plain(restart_request(), json_text(request_list_tree(SoftwareRequestList { id })))
}

/// The request for a software update.
pub open spec fn update_message(request: RequestUpdateView) -> MessageView {
    plain(software_update_request(), json_text(request_update_tree(request)))
}

/// The message that asks the agent for an update.
pub fn software_update_message(request: &SoftwareRequestUpdate) -> (message: Message)
    ensures
        message@ == update_message(request@),
{
    Message::new(software_update_request_topic().as_slice(), request.to_tree().to_text())
}

/// The message that asks the agent for a restart under `id`.
pub fn restart_request_message(id: usize) -> (message: Message)
    ensures
        message@ == restart_message(id),
{
    let request = SoftwareRequestList { id };
    Message::new(restart_request_topic().as_slice(), request.to_tree().to_text())
}

/// What an update gives, whatever the cloud's HTTP interface answers: the
/// failure pair where no token can be had; else the request, with each
/// address decided one way or the other.
pub open spec fn update_outcome(request: RequestUpdateView, out: Seq<MessageView>) -> bool {
    ||| exists|reason: Seq<u8>| out == #[trigger] reported(ErrorView::Http { reason })
    ||| exists|after: RequestUpdateView, token: Seq<u8>|
        after.id == request.id && #[trigger] lists_authorized(
            request.update_list,
            after.update_list,
            token,
        ) && out == seq![update_message(after)]
}

/// What a command gives, whether it can be started or not: nothing, or the
/// failure pair.
pub open spec fn run_outcome(operation: Seq<u8>, out: Seq<MessageView>) -> bool {
    ||| out == Seq::<MessageView>::empty()
    ||| exists|reason: Seq<u8>| out == #[trigger] reported(ErrorView::Spawn { operation, reason })
}

/// Whether a record asks for a request of the converter's own, which needs
/// an id: the software update and the restart do.
pub open spec fn makes_request(record: Seq<u8>) -> bool {
    template_of(record) == Some(ascii("528"@)) || template_of(record) == Some(ascii("510"@))
}

/// Whether a record asks for a request of the converter's own.
pub fn asks_for_request(record: &[u8]) -> (asks: bool)
    ensures
        asks == makes_request(record@),
{
    proof {
        reveal_strlit("528");
        reveal_strlit("510");
    }
    match template_id(record) {
        Some(template) => bytes_eq(template.as_slice(), bytes_of("528").as_slice()) || bytes_eq(
            template.as_slice(),
            bytes_of("510").as_slice(),
        ),
        None => false,
    }
}

/// What a record of the cloud gives where the request that it asks for is
/// made under `id`. Where the plan needs a collaborator, the outcome
/// depends on what the collaborator answers.
pub open spec fn planned(
    operations: Seq<OperationView>,
    record: Seq<u8>,
    id: usize,
    out: Seq<MessageView>,
) -> bool {
    match cloud_plan(operations, record, id) {
        CloudPlan::Report(error) => out == reported(error),
        CloudPlan::Restart => out == seq![restart_message(id)],
        CloudPlan::Nothing => out == Seq::<MessageView>::empty(),
        CloudPlan::Update(request) => update_outcome(request, out),
        CloudPlan::Run { operation, command } => run_outcome(operation, out),
    }
}

/// What a record of the cloud gives: what its plan gives under some id. The
/// converter's own state is left as it is.
pub open spec fn cloud_conversion(
    pre: ConverterView,
    record: Seq<u8>,
    post: ConverterView,
    out: Seq<MessageView>,
) -> bool {
    post == pre && exists|id: usize| #[trigger] planned(pre.operations, record, id, out)
}

/// The id only names the request that a plan makes: what kind of plan a
/// record gets does not depend on it, and a record that asks for no
/// request of the converter's own gets the same plan under every id.
pub proof fn lemma_plan_whatever_the_id(
    operations: Seq<OperationView>,
    record: Seq<u8>,
    id: usize,
)
    ensures
        cloud_plan(operations, record, id) is Update == cloud_plan(operations, record, 0) is Update,
        cloud_plan(operations, record, id) is Run == cloud_plan(operations, record, 0) is Run,
        !makes_request(record) ==> cloud_plan(operations, record, id) == cloud_plan(
            operations,
            record,
            0,
        ),
{
}

/// What a message gives, where `parsed` is what its payload reads as: how
/// the state after it and the outcome stand to the state before it.
pub open spec fn conversion(
    pre: ConverterView,
    message: MessageView,
    parsed: Option<JsonValue>,
    post: ConverterView,
    outcome: Result<Seq<MessageView>, ErrorView>,
) -> bool {
    match size_check(pre.threshold, message.payload.len()) {
        Err(error) => outcome == Err::<Seq<MessageView>, ErrorView>(error) && post == pre,
        Ok(_) => match route_of(message.topic) {
            Route::Measurement => outcome == measurement_outcome(pre.children, message, parsed)
                && post == (ConverterView {
                children: measurement_children(pre.children, message, parsed),
                ..pre
            }),
            Route::Alarm => outcome == alarm_outcome(pre.alarms, message, parsed) && post == (
            ConverterView { alarms: alarm_next(pre.alarms, message), ..pre }),
            Route::InternalAlarm => outcome == Ok::<Seq<MessageView>, ErrorView>(Seq::empty())
                && post == (ConverterView { alarms: mirror_next(pre.alarms, message), ..pre }),
            Route::Event => outcome == event_outcome(message, parsed) && post == pre,
            Route::SoftwareListResponse => post == pre && outcome == (match response_in(parsed) {
                Some(_) => Ok::<Seq<MessageView>, ErrorView>(Seq::empty()),
                None => Err::<Seq<MessageView>, ErrorView>(
                    ErrorView::InvalidLocalJson { reason: unreadable() },
                ),
            }),
            Route::SoftwareUpdateResponse => post == pre && outcome == status_outcome(
                software_update_operation(),
                None,
                response_in(parsed),
            ),
            Route::RestartResponse => post == pre && outcome == status_outcome(
                restart_operation(),
                Some(restart_failed()),
                response_in(parsed),
            ),
            Route::Cloud => outcome is Ok && cloud_conversion(
                pre,
                message.payload,
                post,
                outcome->Ok_0,
            ),
            Route::Unsupported => outcome == Err::<Seq<MessageView>, ErrorView>(
                ErrorView::UnsupportedTopic { topic: message.topic },
            ) && post == pre,
        },
    }
}

/// What `convert` publishes for an outcome: the messages, or the report of
/// the error on the errors topic.
pub open spec fn published(outcome: Result<Seq<MessageView>, ErrorView>) -> Seq<MessageView> {
    match outcome {
        Ok(messages) => messages,
        Err(error) => seq![error_message(error)],
    }
}

/// The topic filters of the converter: the local topics, the answers of the
/// agent, the cloud's records for updates and restarts, and one topic for
/// each registered operation.
pub open spec fn subscription_filters(operations: Seq<OperationView>) -> Seq<Seq<u8>> {
    seq![
        ascii("local/measurements"@),
        ascii("local/measurements/+"@),
        ascii("local/alarms/+/+"@),
        ascii("internal/alarms/+/+"@),
        ascii("local/events/+"@),
        ascii("local/cmd/res/software/list"@),
        ascii("local/cmd/res/software/update"@),
        ascii("local/cmd/res/restart"@),
        ascii("cloud/in/528"@),
        ascii("cloud/in/510"@),
    ] + topics(operations)
}

/// The converter for the cloud.
pub struct CumulocityConverter<
    Proxy: C8YHttpProxy,
    Executor: OperationExecutor,
    Ids: RequestIds,
> {
    pub size_threshold: SizeThreshold,
    pub children: Vec<Vec<u8>>,
    pub device_name: Vec<u8>,
    pub device_type: Vec<u8>,
    pub alarm_converter: AlarmConverter,
    pub operations: Operations,
    pub inventory_fragments: Option<Vec<u8>>,
    pub http_proxy: Proxy,
    pub executor: Executor,
    pub ids: Ids,
}

impl<
    Proxy: C8YHttpProxy,
    Executor: OperationExecutor,
    Ids: RequestIds,
> View for CumulocityConverter<Proxy, Executor, Ids> {
    type V = ConverterView;

    open spec fn view(&self) -> ConverterView {
        ConverterView {
            threshold: self.size_threshold.0,
            children: views(self.children@),
            device_name: self.device_name@,
            device_type: self.device_type@,
            alarms: self.alarm_converter@,
            operations: self.operations@,
            inventory_fragments: optional_bytes(self.inventory_fragments),
        }
    }
}

fn authorize_items<Proxy: C8YHttpProxy>(
    proxy: &Proxy,
    items: &Vec<SoftwareModuleItem>,
    token: &[u8],
) -> (out: Vec<SoftwareModuleItem>)
    ensures
        crate::cloud_request::items_authorized(
            item_list_views(items@),
            item_list_views(out@),
            token@,
        ),
{
    let mut out: Vec<SoftwareModuleItem> = Vec::new();
    let mut j: usize = 0;
    while j < items.len()
        invariant
            j <= items@.len(),
            out@.len() == j,
            forall|k: int|
                0 <= k < j ==> (#[trigger] out@[k]@ == crate::cloud_request::authorized(
                    items@[k]@,
                    token@,
                    true,
                ) || out@[k]@ == crate::cloud_request::authorized(items@[k]@, token@, false)),
        decreases items@.len() - j,
    {
        let in_tenant = match &items[j].url {
            Some(info) => proxy.url_is_in_my_tenant_domain(info.url.as_slice()),
            None => false,
        };
        out.push(items[j].duplicate().with_token(token, in_tenant));
        j += 1;
    }
    assert forall|i: int| 0 <= i < item_list_views(items@).len() implies (
    #[trigger] item_list_views(out@)[i] == crate::cloud_request::authorized(
        item_list_views(items@)[i],
        token@,
        true,
    ) || item_list_views(out@)[i] == crate::cloud_request::authorized(
        item_list_views(items@)[i],
        token@,
        false,
    )) by {
        assert(out@[i]@ == crate::cloud_request::authorized(items@[i]@, token@, true) || out@[i]@
            == crate::cloud_request::authorized(items@[i]@, token@, false));
    }
    out
}

/// Decides for each address of an update whether it gets the token: those in
/// the tenant's own domain do.
pub fn authorize_lists<Proxy: C8YHttpProxy>(
    proxy: &Proxy,
    lists: &Vec<SoftwareRequestResponseSoftwareList>,
    token: &[u8],
) -> (out: Vec<SoftwareRequestResponseSoftwareList>)
    ensures
        lists_authorized(list_views(lists@), list_views(out@), token@),
{
    let mut out: Vec<SoftwareRequestResponseSoftwareList> = Vec::new();
    let mut i: usize = 0;
    while i < lists.len()
        invariant
            i <= lists@.len(),
            out@.len() == i,
            forall|k: int|
                0 <= k < i ==> (#[trigger] out@[k]@).plugin_type == lists@[k]@.plugin_type
                    && crate::cloud_request::items_authorized(
                    lists@[k]@.list,
                    out@[k]@.list,
                    token@,
                ),
        decreases lists@.len() - i,
    {
        let list = authorize_items(proxy, &lists[i].list, token);
        out.push(
            SoftwareRequestResponseSoftwareList {
                plugin_type: slice_to_vec(lists[i].plugin_type.as_slice()),
                list,
            },
        );
        i += 1;
    }
    assert forall|k: int| 0 <= k < list_views(lists@).len() implies (#[trigger] list_views(
        out@,
    )[k]).plugin_type == list_views(lists@)[k].plugin_type
        && crate::cloud_request::items_authorized(
        list_views(lists@)[k].list,
        list_views(out@)[k].list,
        token@,
    ) by {
        assert(out@[k]@.plugin_type == lists@[k]@.plugin_type);
    }
    out
}

/// What a record of the cloud does to the collaborators. The HTTP
/// interface is used for a software update only, the executor for a
/// registered command only, and an id is drawn only where the record asks
/// for a request of the converter's own.
pub open spec fn cloud_collaboration<
    Proxy: C8YHttpProxy,
    Executor: OperationExecutor,
    Ids: RequestIds,
>(
    before: CumulocityConverter<Proxy, Executor, Ids>,
    record: Seq<u8>,
    after: CumulocityConverter<Proxy, Executor, Ids>,
) -> bool {
    &&& !(cloud_plan(before@.operations, record, 0) is Update) ==> after.http_proxy
        == before.http_proxy
    &&& !(cloud_plan(before@.operations, record, 0) is Run) ==> after.executor == before.executor
    &&& !makes_request(record) ==> after.ids == before.ids
}

/// What a message does to the collaborators. A payload that is too long, and
/// every route but three, leave them as they are. The answer to a request
/// of the software list and the answer to an update hand the software
/// list to the HTTP interface, where there is one to upload. A record of
/// the cloud uses what its plan needs.
pub open spec fn collaboration<
    Proxy: C8YHttpProxy,
    Executor: OperationExecutor,
    Ids: RequestIds,
>(
    before: CumulocityConverter<Proxy, Executor, Ids>,
    message: MessageView,
    parsed: Option<JsonValue>,
    after: CumulocityConverter<Proxy, Executor, Ids>,
) -> bool {
    let untouched = after.http_proxy == before.http_proxy && after.executor == before.executor
        && after.ids == before.ids;
    match size_check(before@.threshold, message.payload.len()) {
        Err(_) => untouched,
        Ok(_) => match route_of(message.topic) {
            Route::SoftwareListResponse => after.executor == before.executor && after.ids
                == before.ids && (match response_in(parsed) {
                Some(response) => uploaded(
                    before.http_proxy,
                    crate::converter::upload_for_list(response),
                    after.http_proxy,
                ),
                None => after.http_proxy == before.http_proxy,
            }),
            Route::SoftwareUpdateResponse => after.executor == before.executor && after.ids
                == before.ids && (match response_in(parsed) {
                Some(response) => uploaded(
                    before.http_proxy,
                    crate::converter::upload_for_update(response),
                    after.http_proxy,
                ),
                None => after.http_proxy == before.http_proxy,
            }),
            Route::Cloud => cloud_collaboration(before, message.payload, after),
            _ => untouched,
        },
    }
}

/// What an upload does to the cloud's HTTP interface: the software list is
/// sent, whatever comes of it; where there is none the interface is left
/// as it is.
pub open spec fn uploaded<Proxy: C8YHttpProxy>(
    before: Proxy,
    software_list: Option<Seq<u8>>,
    after: Proxy,
) -> bool {
    match software_list {
        Some(payload) => sent(before, payload, after),
        None => after == before,
    }
}

/// The software list was sent, whatever came of it.
pub open spec fn sent<Proxy: C8YHttpProxy>(
    before: Proxy,
    software_list: Seq<u8>,
    after: Proxy,
) -> bool {
    exists|outcome: Result<(), Seq<u8>>| #[trigger] before.sends(software_list, after, outcome)
}

/// What `convert` gives for a message: what some outcome of the conversion
/// publishes.
pub open spec fn publication(
    pre: ConverterView,
    message: MessageView,
    parsed: Option<JsonValue>,
    post: ConverterView,
    out: Seq<MessageView>,
) -> bool {
    exists|outcome: Result<Seq<MessageView>, ErrorView>|
        conversion(pre, message, parsed, post, outcome) && out == published(outcome)
}

fn read_response(parsed: &Option<Json>) -> (response: Option<SoftwareRequestResponse>)
    ensures
        optional_response(response) == response_in(optional_tree(*parsed)),
{
    match parsed {
        Some(tree) => SoftwareRequestResponse::from_tree(tree),
        None => None,
    }
}

impl<
    Proxy: C8YHttpProxy,
    Executor: OperationExecutor,
    Ids: RequestIds,
> CumulocityConverter<Proxy, Executor, Ids> {
    /// A converter that has announced no child device and is syncing its
    /// alarms. `inventory_fragments` is what the fragments file holds, where
    /// there is one.
    pub fn new(
        size_threshold: SizeThreshold,
        device_name: Vec<u8>,
        device_type: Vec<u8>,
        operations: Operations,
        inventory_fragments: Option<Vec<u8>>,
        http_proxy: Proxy,
        executor: Executor,
        ids: Ids,
    ) -> (converter: Self)
        ensures
            converter@ == (ConverterView {
                threshold: size_threshold.0,
                children: Seq::empty(),
                device_name: device_name@,
                device_type: device_type@,
                alarms: AlarmState::Syncing { pending: Seq::empty(), prior: Seq::empty() },
                operations: operations@,
                inventory_fragments: optional_bytes(inventory_fragments),
            }),
            converter.http_proxy == http_proxy,
            converter.executor == executor,
            converter.ids == ids,
    {
        let children: Vec<Vec<u8>> = Vec::new();
        assert(views(children@) =~= Seq::empty());
        CumulocityConverter {
            size_threshold,
            children,
            device_name,
            device_type,
            alarm_converter: AlarmConverter::new(),
            operations,
            inventory_fragments,
            http_proxy,
            executor,
            ids,
        }
    }

    /// Handles a record of the cloud. An id is drawn where the record asks
    /// for a request of the converter's own.
    pub fn process_smartrest(&mut self, record: &[u8]) -> (messages: Vec<Message>)
        ensures
            cloud_conversion(old(self)@, record@, final(self)@, message_views(messages@)),
            cloud_collaboration(*old(self), record@, *final(self)),
    {
        let id = if asks_for_request(record) {
            self.ids.next_id()
        } else {
            0
        };
        let messages = match plan_cloud_request(&self.operations, record, id) {
            Plan::Report(error) => report(&error),
            Plan::Restart => one(restart_request_message(id)),
            Plan::Nothing => {
                let none: Vec<Message> = Vec::new();
                assert(message_views(none@) =~= Seq::empty());
                none
            },
            Plan::Update(request) => {
                match self.http_proxy.get_jwt_token() {
                    Err(reason) => {
                        let error = ConversionError::Http { reason };
                        let out = report(&error);
                        assert(message_views(out@) == reported(
                            ErrorView::Http { reason: reason@ },
                        ));
                        out
                    },
                    Ok(token) => {
                        let update_list = authorize_lists(
                            &self.http_proxy,
                            &request.update_list,
                            token.as_slice(),
                        );
                        let authorized = SoftwareRequestUpdate { id: request.id, update_list };
                        let out = one(software_update_message(&authorized));
                        assert(lists_authorized(
                            request@.update_list,
                            authorized@.update_list,
                            token@,
                        ) && message_views(out@) == seq![update_message(authorized@)]);
                        out
                    },
                }
            },
            Plan::Run { operation, command } => {
                match self.executor.spawn(operation.as_slice(), command.as_slice(), record) {
                    Ok(_) => {
                        let none: Vec<Message> = Vec::new();
                        assert(message_views(none@) =~= Seq::empty());
                        none
                    },
                    Err(reason) => {
                        let error = ConversionError::Spawn { operation, reason };
                        let out = report(&error);
                        assert(message_views(out@) == reported(
                            ErrorView::Spawn { operation: operation@, reason: reason@ },
                        ));
                        out
                    },
                }
            },
        };
        assert(planned(old(self)@.operations, record@, id, message_views(messages@)));
        messages
    }

    /// Converts a message, or says why it cannot be converted.
    pub fn try_convert(&mut self, message: &Message) -> (outcome: Result<
        Vec<Message>,
        ConversionError,
    >)
        ensures
            conversion(
                old(self)@,
                message@,
                json_parsed(message@.payload),
                final(self)@,
                outcome_view(outcome),
            ),
            collaboration(*old(self), message@, json_parsed(message@.payload), *final(self)),
            old(self)@.alarms.wf(),
            final(self)@.alarms.wf(),
    {
        proof {
            use_type_invariant(&self.alarm_converter);
        }
        match self.size_threshold.validate(message.payload.as_slice()) {
            Err(error) => {
                return Err(error);
            },
            Ok(_) => {},
        }
        match route(message.topic.as_slice()) {
            Route::Measurement => {
                let parsed = parse(message.payload.as_slice());
                convert_measurement(&mut self.children, message, &parsed)
            },
            Route::Alarm => self.alarm_converter.try_convert_alarm(message),
            Route::InternalAlarm => {
                self.alarm_converter.process_internal_alarm(message);
                let none: Vec<Message> = Vec::new();
                assert(message_views(none@) =~= Seq::empty());
                Ok(none)
            },
            Route::Event => {
                let parsed = parse(message.payload.as_slice());
                convert_event(message, &parsed)
            },
            Route::SoftwareListResponse => {
                let parsed = parse(message.payload.as_slice());
                match read_response(&parsed) {
                    Some(response) => {
                        self.upload(software_list_upload(&response));
                        let none: Vec<Message> = Vec::new();
                        assert(message_views(none@) =~= Seq::empty());
                        Ok(none)
                    },
                    None => Err(unreadable_message()),
                }
            },
            Route::SoftwareUpdateResponse => {
                let parsed = parse(message.payload.as_slice());
                let response = read_response(&parsed);
                match &response {
                    Some(answer) => {
                        self.upload(software_update_upload(answer));
                    },
                    None => {},
                }
                publish_operation_status(
                    software_update_operation_name().as_slice(),
                    None,
                    &response,
                )
            },
            Route::RestartResponse => {
                proof {
                    reveal_strlit("Restart Failed");
                }
                let parsed = parse(message.payload.as_slice());
                let response = read_response(&parsed);
                let fixed = bytes_of("Restart Failed");
                publish_operation_status(
                    restart_operation_name().as_slice(),
                    Some(fixed.as_slice()),
                    &response,
                )
            },
            Route::Cloud => Ok(self.process_smartrest(message.payload.as_slice())),
            Route::Unsupported => Err(
                ConversionError::UnsupportedTopic {
                    topic: slice_to_vec(message.topic.as_slice()),
                },
            ),
        }
    }

    /// Uploads a software list, where there is one to upload: it is handed
    /// to the cloud's HTTP interface as it is. A failure of the upload
    /// does not hold the conversion up. Nothing else changes.
    fn upload(&mut self, software_list: Option<Vec<u8>>)
        ensures
            final(self)@ == old(self)@,
            final(self).executor == old(self).executor,
            final(self).ids == old(self).ids,
            uploaded(old(self).http_proxy, optional_bytes(software_list), final(self).http_proxy),
    {
        match &software_list {
            Some(payload) => {
                let outcome = self.http_proxy.send_software_list_http(payload.as_slice());
                proof {
                    let came: Result<(), Seq<u8>> = match outcome {
                        Ok(_) => Ok(()),
                        Err(reason) => Err(reason@),
                    };
                    assert(old(self).http_proxy.sends(payload@, self.http_proxy, came));
                    assert(sent(old(self).http_proxy, payload@, self.http_proxy));
                }
            },
            None => {},
        }
    }

    /// The messages at start, with the request for the software list under
    /// `id`; or why they cannot be made. The converter is left as it is.
    pub fn try_init_messages(&self, id: usize) -> (outcome: Result<Vec<Message>, ConversionError>)
        ensures
            outcome_view(outcome) == init_outcome(
                self@,
                fragments_parsed(self@.inventory_fragments),
                id,
            ),
    {
        proof {
            reveal_strlit("type");
        }
        let parsed = match &self.inventory_fragments {
            Some(content) => parse(content.as_slice()),
            None => None,
        };
        let fragments = match get_inventory_fragments(parsed) {
            Ok(fragments) => fragments,
            Err(error) => {
                return Err(error);
            },
        };
        let inventory = join(inventory_prefix_topic().as_slice(), self.device_name.as_slice());
        let cloud = cloud_out_topic();
        let mut device: Vec<Member> = Vec::new();
        device.push(
            Member::new(bytes_of("type").as_slice(), Json::text(self.device_type.as_slice())),
        );
        assert(member_views(device@) =~= seq![
            (ascii("type"@), JsonValue::Text(self.device_type@)),
        ]);
        let names = self.operations.get_operations_list();
        let mut messages: Vec<Message> = Vec::new();
        assert(message_views(messages@) =~= Seq::empty());
        push_message(&mut messages, Message::new(inventory.as_slice(), fragments.to_text()));
        push_message(
            &mut messages,
            Message::new(cloud.as_slice(), set_supported_operations(&names)),
        );
        push_message(
            &mut messages,
            Message::new(inventory.as_slice(), Json::object(device).to_text()),
        );
        push_message(&mut messages, Message::new(cloud.as_slice(), set_supported_log_types()));
        push_message(&mut messages, Message::new(cloud.as_slice(), get_pending_operations()));
        let request = SoftwareRequestList { id };
        push_message(
            &mut messages,
            Message::new(software_list_request_topic().as_slice(), request.to_tree().to_text()),
        );
        assert(message_views(messages@) =~= init_outcome(
            self@,
            fragments_parsed(self@.inventory_fragments),
            id,
        )->Ok_0);
        Ok(messages)
    }
}

impl<
    Proxy: C8YHttpProxy,
    Executor: OperationExecutor,
    Ids: RequestIds,
> Converter for CumulocityConverter<Proxy, Executor, Ids> {
    open spec fn subscribes(&self, filters: Seq<Seq<u8>>) -> bool {
        filters == subscription_filters(self@.operations)
    }

    open spec fn converts(&self, input: MessageView, after: Self, out: Seq<MessageView>) -> bool {
        &&& publication(self@, input, json_parsed(input.payload), after@, out)
        &&& collaboration(*self, input, json_parsed(input.payload), after)
    }

    open spec fn starts(&self, after: Self, out: Seq<MessageView>) -> bool {
        &&& after@ == self@
        &&& after.http_proxy == self.http_proxy
        &&& after.executor == self.executor
        &&& exists|id: usize|
            out == published(
                #[trigger] init_outcome(self@, fragments_parsed(self@.inventory_fragments), id),
            )
    }

    open spec fn syncs(&self, after: Self, out: Seq<MessageView>) -> bool {
        &&& self@.alarms.wf()
        &&& out == sync_output(self@.alarms)
        &&& after@ == (ConverterView { alarms: AlarmState::Synced, ..self@ })
        &&& after.http_proxy == self.http_proxy
        &&& after.executor == self.executor
        &&& after.ids == self.ids
    }

    fn subscriptions(&self) -> (filters: Vec<Vec<u8>>)
        ensures
            views(filters@) == subscription_filters(self@.operations),
    {
        proof {
            reveal_strlit("local/measurements");
            reveal_strlit("local/measurements/+");
            reveal_strlit("local/alarms/+/+");
            reveal_strlit("internal/alarms/+/+");
            reveal_strlit("local/events/+");
            reveal_strlit("local/cmd/res/software/list");
            reveal_strlit("local/cmd/res/software/update");
            reveal_strlit("local/cmd/res/restart");
            reveal_strlit("cloud/in/528");
            reveal_strlit("cloud/in/510");
        }
        let mut filters: Vec<Vec<u8>> = Vec::new();
        filters.push(bytes_of("local/measurements"));
        filters.push(bytes_of("local/measurements/+"));
        filters.push(bytes_of("local/alarms/+/+"));
        filters.push(bytes_of("internal/alarms/+/+"));
        filters.push(bytes_of("local/events/+"));
        filters.push(bytes_of("local/cmd/res/software/list"));
        filters.push(bytes_of("local/cmd/res/software/update"));
        filters.push(bytes_of("local/cmd/res/restart"));
        filters.push(bytes_of("cloud/in/528"));
        filters.push(bytes_of("cloud/in/510"));
        let ghost fixed = views(filters@);
        let mut more = self.operations.topics_for_operations();
        let ghost added = views(more@);
        filters.append(&mut more);
        assert(views(filters@) =~= fixed + added);
        assert(views(filters@) =~= subscription_filters(self@.operations));
        filters
    }

    fn convert(&mut self, input: &Message) -> (messages: Vec<Message>)
        ensures
            publication(
                old(self)@,
                input@,
                json_parsed(input@.payload),
                final(self)@,
                message_views(messages@),
            ),
            collaboration(*old(self), input@, json_parsed(input@.payload), *final(self)),
    {
        let outcome = self.try_convert(input);
        let ghost witness = outcome_view(outcome);
        let messages = match outcome {
            Ok(messages) => messages,
            Err(error) => one(error.to_message()),
        };
        assert(conversion(old(self)@, input@, json_parsed(input@.payload), self@, witness)
            && message_views(messages@) == published(witness));
        messages
    }

    /// The messages at start, with the request for the software list under
    /// an id that is drawn for it. Nothing else changes.
    fn init_messages(&mut self) -> (messages: Vec<Message>)
        ensures
            final(self)@ == old(self)@,
            final(self).http_proxy == old(self).http_proxy,
            final(self).executor == old(self).executor,
            exists|id: usize|
                message_views(messages@) == published(
                    #[trigger] init_outcome(
                        old(self)@,
                        fragments_parsed(old(self)@.inventory_fragments),
                        id,
                    ),
                ),
    {
        let id = self.ids.next_id();
        let outcome = self.try_init_messages(id);
        let messages = match outcome {
            Ok(messages) => messages,
            Err(error) => one(error.to_message()),
        };
        assert(message_views(messages@) == published(
            init_outcome(old(self)@, fragments_parsed(old(self)@.inventory_fragments), id),
        ));
        messages
    }

    fn sync_messages(&mut self) -> (messages: Vec<Message>)
        ensures
            message_views(messages@) == sync_output(old(self)@.alarms),
            final(self)@ == (ConverterView { alarms: AlarmState::Synced, ..old(self)@ }),
            final(self).http_proxy == old(self).http_proxy,
            final(self).executor == old(self).executor,
            final(self).ids == old(self).ids,
            old(self)@.alarms.wf(),
    {
        self.alarm_converter.sync()
    }
}

/// The first measurement of a child device announces it to the cloud before
/// the measurement itself; a child that was announced is not announced
/// again. After the measurement the child counts as announced.
pub proof fn lemma_child_is_announced_once(
    children: Seq<Seq<u8>>,
    message: MessageView,
    parsed: Option<JsonValue>,
    child: Seq<u8>,
)
    requires
        child_of_topic(message.topic, child),
        measurement_outcome(children, message, parsed) is Ok,
    ensures
        ({
            let out = measurement_outcome(children, message, parsed)->Ok_0;
            let after = measurement_children(children, message, parsed);
            &&& !children.contains(child) ==> out.len() == 2 && out[0] == plain(
                cloud_out(),
                crate::smartrest::child_record(child),
            ) && out[1].topic == crate::bus::cloud_measurement()
            &&& children.contains(child) ==> out.len() == 1 && out[0].topic
                == crate::bus::cloud_measurement()
            &&& after.contains(child)
            &&& forall|other: Seq<u8>| children.contains(other) ==> after.contains(other)
        }),
{
    let after = measurement_children(children, message, parsed);
    if !children.contains(child) {
        assert(after[children.len() as int] == child);
        assert forall|other: Seq<u8>| children.contains(other) implies after.contains(other) by {
            let at = choose|i: int| 0 <= i < children.len() && children[i] == other;
            assert(after[at] == other);
        }
    }
}

/// `topic` is the measurement topic of the child device `child`.
pub open spec fn child_of_topic(topic: Seq<u8>, child: Seq<u8>) -> bool {
    crate::converter::child_of(topic) == Ok::<Option<Seq<u8>>, ErrorView>(Some(child))
}

/// The converter holds each announced child once, and its alarm maps in
/// order, whatever is converted.
pub proof fn lemma_state_stays_in_order(
    pre: ConverterView,
    message: MessageView,
    parsed: Option<JsonValue>,
    post: ConverterView,
    outcome: Result<Seq<MessageView>, ErrorView>,
)
    requires
        conversion(pre, message, parsed, post, outcome),
        pre.children.no_duplicates(),
        pre.alarms.wf(),
    ensures
        post.children.no_duplicates(),
        post.alarms.wf(),
{
    crate::alarm_converter::lemma_maps_stay_in_order(pre.alarms, message);
}

/// A child device that was announced stays announced, whatever is converted.
pub proof fn lemma_children_stay(
    pre: ConverterView,
    message: MessageView,
    parsed: Option<JsonValue>,
    post: ConverterView,
    outcome: Result<Seq<MessageView>, ErrorView>,
    child: Seq<u8>,
)
    requires
        conversion(pre, message, parsed, post, outcome),
        pre.children.contains(child),
    ensures
        post.children.contains(child),
{
    if post.children != pre.children {
        let at = choose|i: int| 0 <= i < pre.children.len() && pre.children[i] == child;
        assert(post.children[at] == child);
    }
}

/// A payload that is longer than the threshold changes nothing and gives
/// exactly one message: the report of its size on the errors topic, which
/// is no topic of the cloud.
pub proof fn lemma_oversized_is_reported(
    pre: ConverterView,
    message: MessageView,
    parsed: Option<JsonValue>,
    post: ConverterView,
    out: Seq<MessageView>,
)
    requires
        publication(pre, message, parsed, post, out),
        message.payload.len() > pre.threshold,
    ensures
        post == pre,
        out == seq![
            error_message(
                ErrorView::SizeExceeded {
                    actual: message.payload.len() as usize,
                    threshold: pre.threshold,
                },
            ),
        ],
        out[0].topic == crate::bus::errors(),
        !ascii("cloud/"@).is_prefix_of(out[0].topic),
{
    reveal_strlit("cloud/");
    reveal_strlit("local/errors");
    assert(crate::bus::errors()[0] != ascii("cloud/"@)[0]);
    if ascii("cloud/"@).is_prefix_of(crate::bus::errors()) {
        assert(crate::bus::errors().subrange(0, 6)[0] == ascii("cloud/"@)[0]);
    }
}

/// Whatever is told to the cloud of the end of an operation, the cloud was
/// told before that the operation is executing: in the report of a failure
/// and in the report of the end of a command the first record says
/// executing, the second says how it ended, and both go to the cloud.
pub proof fn lemma_executing_precedes_the_end(
    error: ErrorView,
    operation: Seq<u8>,
    success: bool,
    stderr: Seq<u8>,
)
    ensures
        reported(error).len() == 2,
        reported(error)[0] == plain(cloud_out(), executing_record(operation_of(error))),
        reported(error)[1] == plain(
            cloud_out(),
            failed_record(operation_of(error), error_text(error)),
        ),
        finished(operation, success, stderr).len() == 2,
        finished(operation, success, stderr)[0] == plain(cloud_out(), executing_record(operation)),
        finished(operation, success, stderr)[1].topic == cloud_out(),
        executing_record(operation).subrange(0, 4) == ascii("501,"@),
        failed_record(operation, stderr).subrange(0, 4) == ascii("502,"@),
        crate::smartrest::successful_record(operation).subrange(0, 4) == ascii("503,"@),
{
    reveal_strlit("501,");
    reveal_strlit("502,");
    reveal_strlit("503,");
    assert(executing_record(operation).subrange(0, 4) =~= ascii("501,"@));
    assert(failed_record(operation, stderr).subrange(0, 4) =~= ascii("502,"@));
    assert(crate::smartrest::successful_record(operation).subrange(0, 4) =~= ascii("503,"@));
}

} // verus!

//! The software agent: it takes the requests for software operations from
//! the bus, has the plugins carry them out, and answers.
//!
//! The agent notes the operation that it works on in a small journal, so
//! that an operation that was cut short by a restart is answered as failed.

use crate::bus::{
    errors, errors_topic, plain, restart_response, restart_response_topic, software_list_request,
    software_list_request_topic, software_list_response, software_list_response_topic,
    software_update_request, software_update_request_topic, software_update_response,
    software_update_response_topic, Message, MessageView,
};
use crate::json::{json_parsed, json_text};
use crate::message::{
    request_list_in, request_update_in, response_tree, RequestUpdateView, ResponseView,
    SoftwareOperationStatus, SoftwareRequestList, SoftwareRequestResponse,
    SoftwareRequestResponseSoftwareList, SoftwareRequestUpdate,
};
use crate::operations::{line_of, parse_line, Line, ParsedLine};
use crate::plugin::CommandRunner;
use crate::plugin_manager::{
    answers, first_unknown, plugins_listed, some_plugin_failed, update_failure, ExternalPlugins,
};
use crate::software::{optional_bytes, software_error_text, SoftwareError, SoftwareErrorView};
use crate::text::{
    ascii, bytes_eq, bytes_of, decimal, decimal_value, parse_decimal, push_ascii, push_decimal,
    split, split_fields, views,
};
use vstd::prelude::*;
use vstd::slice::*;
use vstd::string::*;

verus! {

/// The operations that the agent knows.
#[derive(Clone, Copy, Debug, PartialEq, Eq, Structural)]
pub enum SoftwareOperation {
    CurrentSoftwareList,
    SoftwareUpdates,
    Restart,
    UnknownOperation,
}

/// The operation that a request topic asks for.
pub open spec fn operation_of_topic(topic: Seq<u8>) -> SoftwareOperation {
    if topic == software_list_request() {
        SoftwareOperation::CurrentSoftwareList
    } else if topic == software_update_request() {
        SoftwareOperation::SoftwareUpdates
    } else if topic == crate::bus::restart_request() {
        SoftwareOperation::Restart
    } else {
        SoftwareOperation::UnknownOperation
    }
}

/// The operation that a kind in the journal names.
pub open spec fn operation_of_kind(kind: Seq<u8>) -> SoftwareOperation {
    if kind == ascii("list"@) {
        SoftwareOperation::CurrentSoftwareList
    } else if kind == ascii("update"@) {
        SoftwareOperation::SoftwareUpdates
    } else if kind == ascii("restart"@) {
        SoftwareOperation::Restart
    } else {
        SoftwareOperation::UnknownOperation
    }
}

/// The topic on which an operation is answered; what is not known goes to
/// the errors topic.
pub open spec fn response_topic(operation: SoftwareOperation) -> Seq<u8> {
    match operation {
        SoftwareOperation::CurrentSoftwareList => software_list_response(),
        SoftwareOperation::SoftwareUpdates => software_update_response(),
        SoftwareOperation::Restart => restart_response(),
        SoftwareOperation::UnknownOperation => errors(),
    }
}

impl SoftwareOperation {
    /// The operation that a request topic asks for.
    pub fn from_topic(topic: &[u8]) -> (operation: SoftwareOperation)
        ensures
            operation == operation_of_topic(topic@),
    {
        if bytes_eq(topic, software_list_request_topic().as_slice()) {
            SoftwareOperation::CurrentSoftwareList
        } else if bytes_eq(topic, software_update_request_topic().as_slice()) {
            SoftwareOperation::SoftwareUpdates
        } else if bytes_eq(topic, crate::bus::restart_request_topic().as_slice()) {
            SoftwareOperation::Restart
        } else {
            SoftwareOperation::UnknownOperation
        }
    }

    /// The operation that a kind in the journal names.
    pub fn from_kind(kind: &[u8]) -> (operation: SoftwareOperation)
        ensures
            operation == operation_of_kind(kind@),
    {
        proof {
            reveal_strlit("list");
            reveal_strlit("update");
            reveal_strlit("restart");
        }
        if bytes_eq(kind, bytes_of("list").as_slice()) {
            SoftwareOperation::CurrentSoftwareList
        } else if bytes_eq(kind, bytes_of("update").as_slice()) {
            SoftwareOperation::SoftwareUpdates
        } else if bytes_eq(kind, bytes_of("restart").as_slice()) {
            SoftwareOperation::Restart
        } else {
            SoftwareOperation::UnknownOperation
        }
    }

    /// The topic on which the operation is answered.
    pub fn response_topic(&self) -> (topic: Vec<u8>)
        ensures
            topic@ == response_topic(*self),
    {
        match self {
            SoftwareOperation::CurrentSoftwareList => software_list_response_topic(),
            SoftwareOperation::SoftwareUpdates => software_update_response_topic(),
            SoftwareOperation::Restart => restart_response_topic(),
            SoftwareOperation::UnknownOperation => errors_topic(),
        }
    }
}

/// What the journal holds: the operation in progress, if there is one.
#[derive(Debug)]
pub struct State {
    pub operation_id: Option<usize>,
    pub operation: Option<Vec<u8>>,
}

pub struct StateView {
    pub operation_id: Option<usize>,
    pub operation: Option<Seq<u8>>,
}

impl View for State {
    type V = StateView;

    open spec fn view(&self) -> StateView {
        StateView { operation_id: self.operation_id, operation: optional_bytes(self.operation) }
    }
}

/// The journal without an operation.
pub open spec fn idle() -> StateView {
    StateView { operation_id: None, operation: None }
}

/// The text of the journal: `id = "<id>"` and `kind = "<kind>"`, each on a
/// line of its own, each where it is known.
pub open spec fn journal_text(state: StateView) -> Seq<u8> {
    (match state.operation_id {
        Some(id) => ascii("id = \""@) + decimal(id as nat) + ascii("\"\n"@),
        None => Seq::empty(),
    }) + (match state.operation {
        Some(kind) => ascii("kind = \""@) + kind + ascii("\"\n"@),
        None => Seq::empty(),
    })
}

/// What the first `n` lines of a journal say of the id and of the kind,
/// each as its last line says; none where a line cannot be read.
pub open spec fn journal_entries(lines: Seq<Seq<u8>>, n: nat) -> Option<
    (Option<Seq<u8>>, Option<Seq<u8>>),
>
    decreases n,
{
    if n == 0 || n > lines.len() {
        Some((None, None))
    } else {
        match journal_entries(lines, (n - 1) as nat) {
            None => None,
            Some((id, kind)) => match line_of(lines[n - 1]) {
                Line::Malformed => None,
                Line::Blank => Some((id, kind)),
                Line::Entry { key, value } => if key == ascii("id"@) {
                    Some((Some(value), kind))
                } else if key == ascii("kind"@) {
                    Some((id, Some(value)))
                } else {
                    Some((id, kind))
                },
            },
        }
    }
}

/// The id that a journal gives, which has to be a number in decimal digits
/// that fits the machine's word.
pub open spec fn journal_id(text: Option<Seq<u8>>) -> Option<usize> {
    match text {
        Some(digits) => match decimal_value(digits) {
            Some(v) => if v <= usize::MAX {
                Some(v as usize)
            } else {
                None
            },
            None => None,
        },
        None => None,
    }
}

/// What a journal holds. A journal that cannot be read holds nothing.
pub open spec fn journal_state(text: Seq<u8>) -> StateView {
    let lines = split(text, 0x0a);
    match journal_entries(lines, lines.len()) {
        Some((id, kind)) => StateView { operation_id: journal_id(id), operation: kind },
        None => idle(),
    }
}

proof fn lemma_journal_none_stays(lines: Seq<Seq<u8>>, n: nat, m: nat)
    requires
        n <= m <= lines.len(),
        journal_entries(lines, n) is None,
    ensures
        journal_entries(lines, m) is None,
    decreases m - n,
{
    if n < m {
        lemma_journal_none_stays(lines, n, (m - 1) as nat);
    }
}

/// An operation that was written to the journal is read back from it: its
/// id, and its kind where the kind holds no line feed.
pub proof fn lemma_journal_round_trip(id: usize, kind: Seq<u8>)
    requires
        forall|j: int| 0 <= j < kind.len() ==> kind[j] != 0x0a,
    ensures
        journal_state(
            journal_text(StateView { operation_id: Some(id), operation: Some(kind) }),
        ) == (StateView { operation_id: Some(id), operation: Some(kind) }),
{
    reveal_strlit("id = \"");
    reveal_strlit("kind = \"");
    reveal_strlit("\"\n");
    reveal_strlit("id");
    reveal_strlit("kind");
    let digits = decimal(id as nat);
    crate::text::lemma_decimal_round_trip(id as nat);
    let opening = seq![0x20u8, 0x3du8, 0x20u8, 0x22u8];
    let first = ascii("id"@) + opening + digits + seq![0x22u8];
    let second = ascii("kind"@) + opening + kind + seq![0x22u8];
    let none = Seq::<u8>::empty();
    let text = journal_text(StateView { operation_id: Some(id), operation: Some(kind) });
    assert(ascii("id = \""@) =~= ascii("id"@) + opening);
    assert(ascii("kind = \""@) =~= ascii("kind"@) + opening);
    assert(ascii("\"\n"@) =~= seq![0x22u8, 0x0au8]);
    assert(text =~= first + seq![0x0au8] + (second + seq![0x0au8] + none));

    assert forall|j: int| 0 <= j < first.len() implies first[j] != 0x0a by {
        if 6 <= j < 6 + digits.len() {
            assert(first[j] == digits[j - 6]);
            assert(crate::text::is_digit(digits[j - 6]));
        }
    }
    assert forall|j: int| 0 <= j < second.len() implies second[j] != 0x0a by {
        if 8 <= j < 8 + kind.len() {
            assert(second[j] == kind[j - 8]);
        }
    }
    crate::text::lemma_split_first(first, second + seq![0x0au8] + none, 0x0a);
    crate::text::lemma_split_first(second, none, 0x0a);
    crate::text::lemma_split_first(none, none, 0x0a);
    let lines = split(text, 0x0a);
    assert(lines =~= seq![first, second, none]);

    crate::operations::lemma_line_of_entry(ascii("id"@), digits);
    crate::operations::lemma_line_of_entry(ascii("kind"@), kind);
    assert(line_of(none) == Line::Blank);
    assert(journal_entries(lines, 0) == Some((None::<Seq<u8>>, None::<Seq<u8>>)));
    assert(journal_entries(lines, 1) == Some((Some(digits), None::<Seq<u8>>)));
    assert(journal_entries(lines, 2) == Some((Some(digits), Some(kind))));
    assert(journal_entries(lines, 3) == Some((Some(digits), Some(kind))));
}

impl State {
    /// The journal without an operation.
    pub fn idle() -> (state: State)
        ensures
            state@ == idle(),
    {
        State { operation_id: None, operation: None }
    }

    /// Whether an operation is in progress.
    pub fn is_live(&self) -> (live: bool)
        ensures
            live == (self@.operation_id is Some && self@.operation is Some),
    {
        self.operation_id.is_some() && self.operation.is_some()
    }

    /// The text of the journal.
    pub fn to_text(&self) -> (text: Vec<u8>)
        ensures
            text@ == journal_text(self@),
    {
        proof {
            reveal_strlit("id = \"");
            reveal_strlit("kind = \"");
            reveal_strlit("\"\n");
        }
        let mut text: Vec<u8> = Vec::new();
        match self.operation_id {
            Some(id) => {
                push_ascii(&mut text, "id = \"");
                push_decimal(&mut text, id as u64);
                push_ascii(&mut text, "\"\n");
            },
            None => {},
        }
        let ghost first = text@;
        match &self.operation {
            Some(kind) => {
                push_ascii(&mut text, "kind = \"");
                text.extend_from_slice(kind.as_slice());
                push_ascii(&mut text, "\"\n");
            },
            None => {},
        }
        assert(text@ =~= journal_text(self@));
        text
    }

    /// Reads the journal.
    pub fn from_text(text: &[u8]) -> (state: State)
        ensures
            state@ == journal_state(text@),
    {
        proof {
            reveal_strlit("id");
            reveal_strlit("kind");
        }
        let lines = split_fields(text, 0x0a);
        let ghost all = views(lines@);
        let id_key = bytes_of("id");
        let kind_key = bytes_of("kind");
        let mut id: Option<Vec<u8>> = None;
        let mut kind: Option<Vec<u8>> = None;
        let mut i: usize = 0;
        while i < lines.len()
            invariant
                i <= lines@.len(),
                all == views(lines@),
                all == split(text@, 0x0a),
                id_key@ == ascii("id"@),
                kind_key@ == ascii("kind"@),
                journal_entries(all, i as nat) == Some((optional_bytes(id), optional_bytes(kind))),
            decreases lines@.len() - i,
        {
            assert(all[i as int] == lines@[i as int]@);
            match parse_line(lines[i].as_slice()) {
                ParsedLine::Malformed => {
                    proof {
                        assert(journal_entries(all, (i + 1) as nat) is None);
                        lemma_journal_none_stays(all, (i + 1) as nat, lines@.len() as nat);
                    }
                    return State::idle();
                },
                ParsedLine::Blank => {},
                ParsedLine::Entry { key, value } => {
                    if bytes_eq(key.as_slice(), id_key.as_slice()) {
                        id = Some(value);
                    } else if bytes_eq(key.as_slice(), kind_key.as_slice()) {
                        kind = Some(value);
                    }
                },
            }
            i += 1;
        }
        let operation_id = match &id {
            Some(digits) => match parse_decimal(digits.as_slice()) {
                Some(v) => if v <= usize::MAX as u64 {
                    Some(v as usize)
                } else {
                    None
                },
                None => None,
            },
            None => None,
        };
        State { operation_id, operation: kind }
    }
}

/// What the agent does to the outside: it writes its journal, publishes a
/// message, or clears its journal.
#[derive(Debug)]
pub enum AgentAction {
    StoreState(State),
    Publish(Message),
    ClearState,
}

pub enum ActionView {
    StoreState(StateView),
    Publish(MessageView),
    ClearState,
}

impl View for AgentAction {
    type V = ActionView;

    open spec fn view(&self) -> ActionView {
        match self {
            AgentAction::StoreState(state) => ActionView::StoreState(state@),
            AgentAction::Publish(message) => ActionView::Publish(message@),
            AgentAction::ClearState => ActionView::ClearState,
        }
    }
}

/// The models of a list of actions.
pub open spec fn action_views(actions: Seq<AgentAction>) -> Seq<ActionView> {
    Seq::new(actions.len(), |i: int| actions[i]@)
}

/// Performs the actions of the agent.
pub trait AgentIo {
    fn perform(&mut self, action: &AgentAction);
}

/// What is said of an operation that was cut short.
pub open spec fn unfinished() -> Seq<u8> {
    ascii("unfinished operation request"@)
}

/// An answer without software list and failures.
pub open spec fn bare_response(
    id: usize,
    status: SoftwareOperationStatus,
    reason: Option<Seq<u8>>,
) -> ResponseView {
    ResponseView {
        id,
        status,
        reason,
        current_software_list: Seq::empty(),
        failures: Seq::empty(),
    }
}

/// The answer that an operation is published as.
pub open spec fn response_message(topic: Seq<u8>, response: ResponseView) -> MessageView {
    plain(topic, json_text(response_tree(response)))
}

/// What the agent does at its start for what its journal holds: an
/// operation that was in progress is answered as failed, on the topic of
/// its kind, and the journal is cleared.
pub open spec fn recovery(state: StateView) -> Seq<ActionView> {
    match (state.operation_id, state.operation) {
        (Some(id), Some(kind)) => seq![
            ActionView::Publish(
                response_message(
                    response_topic(operation_of_kind(kind)),
                    bare_response(id, SoftwareOperationStatus::Failed, Some(unfinished())),
                ),
            ),
            ActionView::ClearState,
        ],
        _ => Seq::empty(),
    }
}

/// What the agent does first for a request of an update, where `request`
/// is what was read of it: it notes the operation in its journal, then
/// says that it is executing. A request that cannot be read is answered
/// with the reason.
pub open spec fn update_start(request: Option<RequestUpdateView>) -> Seq<ActionView> {
    match request {
        Some(r) => seq![
            ActionView::StoreState(
                StateView { operation_id: Some(r.id), operation: Some(ascii("update"@)) },
            ),
            ActionView::Publish(
                response_message(
                    software_update_response(),
                    bare_response(r.id, SoftwareOperationStatus::Executing, None),
                ),
            ),
        ],
        None => seq![
            ActionView::Publish(
                plain(
                    software_update_response(),
                    software_error_text(
                        SoftwareErrorView::ParseError { reason: crate::message::unreadable() },
                    ),
                ),
            ),
        ],
    }
}

/// What the agent does first for a request of the software list.
pub open spec fn list_start(request: Option<SoftwareRequestList>) -> Seq<ActionView> {
    match request {
        Some(r) => seq![
            ActionView::StoreState(
                StateView { operation_id: Some(r.id), operation: Some(ascii("list"@)) },
            ),
        ],
        None => seq![
            ActionView::Publish(
                plain(
                    software_list_response(),
                    software_error_text(
                        SoftwareErrorView::ParseError { reason: crate::message::unreadable() },
                    ),
                ),
            ),
        ],
    }
}

/// What the agent does last for an operation: it publishes the answer, then
/// clears its journal.
pub open spec fn conclusion(topic: Seq<u8>, response: ResponseView) -> Seq<ActionView> {
    seq![ActionView::Publish(response_message(topic, response)), ActionView::ClearState]
}

fn publish(topic: &[u8], response: &SoftwareRequestResponse) -> (action: AgentAction)
    ensures
        action@ == ActionView::Publish(response_message(topic@, response@)),
{
    AgentAction::Publish(Message::new(topic, response.to_tree().to_text()))
}

fn bare(id: usize, status: SoftwareOperationStatus, reason: Option<Vec<u8>>) -> (response:
    SoftwareRequestResponse)
    ensures
        response@ == bare_response(id, status, optional_bytes(reason)),
{
    let mut response = SoftwareRequestResponse::new(id, status);
    response.reason = reason;
    response
}

fn parse_failure(topic: &[u8]) -> (action: AgentAction)
    ensures
        action@ == ActionView::Publish(
            plain(
                topic@,
                software_error_text(
                    SoftwareErrorView::ParseError { reason: crate::message::unreadable() },
                ),
            ),
        ),
{
    proof {
        reveal_strlit("the message is not what its topic asks for");
    }
    let error = SoftwareError::ParseError {
        reason: bytes_of("the message is not what its topic asks for"),
    };
    AgentAction::Publish(Message::new(topic, error.to_text()))
}

/// The model of an optional request for an update.
pub open spec fn optional_request(request: Option<SoftwareRequestUpdate>) -> Option<
    RequestUpdateView,
> {
    match request {
        Some(r) => Some(r@),
        None => None,
    }
}

/// What the agent is set up with.
#[derive(Debug)]
pub struct SmAgentConfig {
    pub request_topic: Vec<u8>,
    pub response_topic_list: Vec<u8>,
    pub response_topic_update: Vec<u8>,
    pub errors_topic: Vec<u8>,
    pub max_packet_size: usize,
}

impl Default for SmAgentConfig {
    fn default() -> (config: SmAgentConfig)
        ensures
            config.request_topic@ == ascii("local/cmd/req/software/#"@),
            config.response_topic_list@ == software_list_response(),
            config.response_topic_update@ == software_update_response(),
            config.errors_topic@ == errors(),
            config.max_packet_size == 51200,
    {
        proof {
            reveal_strlit("local/cmd/req/software/#");
        }
        SmAgentConfig {
            request_topic: bytes_of("local/cmd/req/software/#"),
            response_topic_list: software_list_response_topic(),
            response_topic_update: software_update_response_topic(),
            errors_topic: errors_topic(),
            max_packet_size: 51200,
        }
    }
}

/// The software agent.
#[derive(Debug)]
pub struct SmAgent {
    pub config: SmAgentConfig,
    pub name: Vec<u8>,
}

/// What the agent announces at its start: that it can list the software and
/// update it, each as a retained empty message.
pub open spec fn capabilities() -> Seq<ActionView> {
    seq![
        ActionView::Publish(
            crate::bus::retained(ascii("local/capabilities/software/list"@), Seq::empty()),
        ),
        ActionView::Publish(
            crate::bus::retained(ascii("local/capabilities/software/update"@), Seq::empty()),
        ),
    ]
}

/// What the agent announces at its start.
pub fn publish_capabilities() -> (actions: Vec<AgentAction>)
    ensures
        action_views(actions@) == capabilities(),
{
    proof {
        reveal_strlit("local/capabilities/software/list");
        reveal_strlit("local/capabilities/software/update");
    }
    let mut actions: Vec<AgentAction> = Vec::new();
    assert(action_views(actions@) =~= Seq::empty());
    let none: Vec<u8> = Vec::new();
    assert(none@ =~= Seq::<u8>::empty());
    push_action(
        &mut actions,
        AgentAction::Publish(
            Message::new(bytes_of("local/capabilities/software/list").as_slice(), none)
                .with_retain(),
        ),
    );
    let none: Vec<u8> = Vec::new();
    assert(none@ =~= Seq::<u8>::empty());
    push_action(
        &mut actions,
        AgentAction::Publish(
            Message::new(bytes_of("local/capabilities/software/update").as_slice(), none)
                .with_retain(),
        ),
    );
    assert(action_views(actions@) =~= capabilities());
    actions
}

fn push_action(actions: &mut Vec<AgentAction>, action: AgentAction)
    ensures
        action_views(final(actions)@) == action_views(old(actions)@).push(action@),
{
    actions.push(action);
    assert(action_views(actions@) =~= action_views(old(actions)@).push(action@));
}

fn perform_all<Io: AgentIo>(io: &mut Io, actions: &Vec<AgentAction>) {
    let mut i: usize = 0;
    while i < actions.len()
        invariant
            i <= actions@.len(),
        decreases actions@.len() - i,
    {
        io.perform(&actions[i]);
        i += 1;
    }
}

fn append_actions(trace: &mut Vec<AgentAction>, more: &mut Vec<AgentAction>)
    ensures
        action_views(final(trace)@) == action_views(old(trace)@) + action_views(old(more)@),
{
    trace.append(more);
    assert(action_views(trace@) =~= action_views(old(trace)@) + action_views(old(more)@));
}

impl SmAgent {
    pub fn new(name: &[u8]) -> (agent: SmAgent)
        ensures
            agent.name@ == name@,
    {
        SmAgent { config: SmAgentConfig::default(), name: slice_to_vec(name) }
    }

    /// What to do at start for what the journal holds.
    pub fn check_state_store(&self, state: &State) -> (actions: Vec<AgentAction>)
        ensures
            action_views(actions@) == recovery(state@),
    {
        proof {
            reveal_strlit("unfinished operation request");
        }
        let mut actions: Vec<AgentAction> = Vec::new();
        assert(action_views(actions@) =~= Seq::empty());
        match (state.operation_id, &state.operation) {
            (Some(id), Some(kind)) => {
                let operation = SoftwareOperation::from_kind(kind.as_slice());
                let response = bare(
                    id,
                    SoftwareOperationStatus::Failed,
                    Some(bytes_of("unfinished operation request")),
                );
                push_action(
                    &mut actions,
                    publish(operation.response_topic().as_slice(), &response),
                );
                push_action(&mut actions, AgentAction::ClearState);
                assert(action_views(actions@) =~= recovery(state@));
            },
            _ => {},
        }
        actions
    }

    /// What to do first for a request of an update that was read already.
    pub fn start_update(&self, request: &Option<SoftwareRequestUpdate>) -> (actions: Vec<
        AgentAction,
    >)
        ensures
            action_views(actions@) == update_start(optional_request(*request)),
    {
        proof {
            reveal_strlit("update");
        }
        let topic = software_update_response_topic();
        let mut actions: Vec<AgentAction> = Vec::new();
        assert(action_views(actions@) =~= Seq::empty());
        match request {
            Some(r) => {
                push_action(
                    &mut actions,
                    AgentAction::StoreState(
                        State { operation_id: Some(r.id), operation: Some(bytes_of("update")) },
                    ),
                );
                let response = bare(r.id, SoftwareOperationStatus::Executing, None);
                push_action(&mut actions, publish(topic.as_slice(), &response));
                assert(action_views(actions@) =~= update_start(optional_request(*request)));
            },
            None => {
                push_action(&mut actions, parse_failure(topic.as_slice()));
                assert(action_views(actions@) =~= update_start(optional_request(*request)));
            },
        }
        actions
    }

    /// What to do first for a request of the software list that was read
    /// already.
    pub fn start_list(&self, request: &Option<SoftwareRequestList>) -> (actions: Vec<AgentAction>)
        ensures
            action_views(actions@) == list_start(*request),
    {
        proof {
            reveal_strlit("list");
        }
        let topic = software_list_response_topic();
        let mut actions: Vec<AgentAction> = Vec::new();
        assert(action_views(actions@) =~= Seq::empty());
        match request {
            Some(r) => {
                push_action(
                    &mut actions,
                    AgentAction::StoreState(
                        State { operation_id: Some(r.id), operation: Some(bytes_of("list")) },
                    ),
                );
                assert(action_views(actions@) =~= list_start(*request));
            },
            None => {
                push_action(&mut actions, parse_failure(topic.as_slice()));
                assert(action_views(actions@) =~= list_start(*request));
            },
        }
        actions
    }

    /// What to do last for an operation.
    pub fn conclude(&self, topic: &[u8], response: &SoftwareRequestResponse) -> (actions: Vec<
        AgentAction,
    >)
        ensures
            action_views(actions@) == conclusion(topic@, response@),
    {
        let mut actions: Vec<AgentAction> = Vec::new();
        assert(action_views(actions@) =~= Seq::empty());
        push_action(&mut actions, publish(topic, response));
        push_action(&mut actions, AgentAction::ClearState);
        assert(action_views(actions@) =~= conclusion(topic@, response@));
        actions
    }

    /// Ends the answer to an update: it succeeded if nothing failed; the
    /// software list is what is installed now.
    pub fn finalize_response(
        &self,
        response: &mut SoftwareRequestResponse,
        software_list: Vec<SoftwareRequestResponseSoftwareList>,
    )
        ensures
            final(response)@ == (ResponseView {
                status: if old(response)@.failures.len() == 0 {
                    SoftwareOperationStatus::Successful
                } else {
                    old(response)@.status
                },
                current_software_list: crate::message::list_views(software_list@),
                ..old(response)@
            }),
    {
        response.finalize_response(software_list);
    }

    /// Handles a request of an update: notes it, says that it is executing,
    /// has the plugins carry it out, publishes the answer and clears the
    /// journal. The actions are performed as they come due, and are given
    /// back in their order.
    pub fn handle_software_update_request<R: CommandRunner, Io: AgentIo>(
        &self,
        payload: &[u8],
        plugins: &ExternalPlugins,
        runner: &R,
        io: &mut Io,
    ) -> (trace: Vec<AgentAction>)
        ensures
            update_trace(
                plugins@,
                request_update_in(json_parsed(payload@)),
                action_views(trace@),
            ),
    {
        let request = match SoftwareRequestUpdate::from_slice(payload) {
            Ok(request) => Some(request),
            Err(_) => None,
        };
        let mut trace = self.start_update(&request);
        perform_all(io, &trace);
        match &request {
            Some(r) => {
                let response = match plugins.process(r, runner) {
                    Ok(response) => response,
                    Err(error) => {
                        let response = bare(
                            r.id,
                            SoftwareOperationStatus::Failed,
                            Some(error.to_text()),
                        );
                        assert(response@ == failure_answer(r.id, error@));
                        response
                    },
                };
                assert(update_answer(plugins@, r@, response@));
                let mut last = self.conclude(
                    software_update_response_topic().as_slice(),
                    &response,
                );
                perform_all(io, &last);
                let ghost first = action_views(trace@);
                append_actions(&mut trace, &mut last);
                assert(action_views(trace@) == first + conclusion(
                    software_update_response(),
                    response@,
                ));
            },
            None => {},
        }
        trace
    }

    /// Handles a request of the software list: notes it, asks the plugins,
    /// publishes the answer and clears the journal.
    pub fn handle_software_list_request<R: CommandRunner, Io: AgentIo>(
        &self,
        payload: &[u8],
        plugins: &ExternalPlugins,
        runner: &R,
        io: &mut Io,
    ) -> (trace: Vec<AgentAction>)
        ensures
            list_trace(plugins@, request_list_in(json_parsed(payload@)), action_views(trace@)),
    {
        let request = match SoftwareRequestList::from_slice(payload) {
            Ok(request) => Some(request),
            Err(_) => None,
        };
        let mut trace = self.start_list(&request);
        perform_all(io, &trace);
        match request {
            Some(r) => {
                let response = match plugins.list(runner) {
                    Ok(software_list) => {
                        let mut response = SoftwareRequestResponse::new(
                            r.id,
                            SoftwareOperationStatus::Successful,
                        );
                        response.current_software_list = software_list;
                        response
                    },
                    Err(error) => {
                        let response = bare(
                            r.id,
                            SoftwareOperationStatus::Failed,
                            Some(error.to_text()),
                        );
                        assert(response@ == failure_answer(r.id, error@));
                        response
                    },
                };
                assert(list_answer(plugins@, r.id, response@));
                let mut last = self.conclude(
                    software_list_response_topic().as_slice(),
                    &response,
                );
                perform_all(io, &last);
                let ghost first = action_views(trace@);
                append_actions(&mut trace, &mut last);
                assert(action_views(trace@) == first + conclusion(
                    software_list_response(),
                    response@,
                ));
            },
            None => {},
        }
        trace
    }

    /// Handles one request from the bus.
    pub fn process_request<R: CommandRunner, Io: AgentIo>(
        &self,
        topic: &[u8],
        payload: &[u8],
        plugins: &ExternalPlugins,
        runner: &R,
        io: &mut Io,
    ) -> (trace: Vec<AgentAction>)
        ensures
            match operation_of_topic(topic@) {
                SoftwareOperation::CurrentSoftwareList => list_trace(
                    plugins@,
                    request_list_in(json_parsed(payload@)),
                    action_views(trace@),
                ),
                SoftwareOperation::SoftwareUpdates => update_trace(
                    plugins@,
                    request_update_in(json_parsed(payload@)),
                    action_views(trace@),
                ),
                _ => trace@.len() == 0,
            },
    {
        match SoftwareOperation::from_topic(topic) {
            SoftwareOperation::CurrentSoftwareList => self.handle_software_list_request(
                payload,
                plugins,
                runner,
                io,
            ),
            SoftwareOperation::SoftwareUpdates => self.handle_software_update_request(
                payload,
                plugins,
                runner,
                io,
            ),
            _ => Vec::new(),
        }
    }
}

/// The answer that tells of an error of the plugins.
pub open spec fn failure_answer(id: usize, error: SoftwareErrorView) -> ResponseView {
    bare_response(id, SoftwareOperationStatus::Failed, Some(software_error_text(error)))
}

/// The answer that ends an update, whatever comes of running the plugins:
/// it tells what failed and what is installed; or it tells of the error
/// that ended the update, which is that of a type that no plugin manages,
/// of a plugin that did not finalize, or of a plugin that did not list.
pub open spec fn update_answer(
    plugins: Seq<(Seq<u8>, Seq<u8>)>,
    request: RequestUpdateView,
    response: ResponseView,
) -> bool {
    ||| first_unknown(plugins, request.update_list, 0) is None && answers(request, response)
        && plugins_listed(plugins, response.current_software_list)
    ||| exists|error: SoftwareErrorView|
        update_failure(plugins, request.update_list, error) && response
            == #[trigger] failure_answer(request.id, error)
}

/// The answer to a request of the software list, whatever comes of running
/// the plugins: what the plugins listed; or the error of a plugin that did
/// not list.
pub open spec fn list_answer(
    plugins: Seq<(Seq<u8>, Seq<u8>)>,
    id: usize,
    response: ResponseView,
) -> bool {
    ||| plugins_listed(plugins, response.current_software_list) && response == (ResponseView {
        current_software_list: response.current_software_list,
        ..bare_response(id, SoftwareOperationStatus::Successful, None)
    })
    ||| exists|error: SoftwareErrorView|
        some_plugin_failed(plugins, error) && response == #[trigger] failure_answer(id, error)
}

/// Without plugins nothing can fail: a request of the software list is
/// answered with an empty list, and an update of nothing succeeds.
pub proof fn lemma_nothing_fails_without_plugins(
    request: RequestUpdateView,
    response: ResponseView,
)
    ensures
        list_answer(Seq::empty(), request.id, response) ==> response == bare_response(
            request.id,
            SoftwareOperationStatus::Successful,
            None,
        ),
        request.update_list.len() == 0 && update_answer(Seq::empty(), request, response)
            ==> response.status == SoftwareOperationStatus::Successful,
{
    let none = Seq::<(Seq<u8>, Seq<u8>)>::empty();
    if list_answer(none, request.id, response) {
        assert(response.current_software_list =~= Seq::empty());
    }
}

/// What the agent does for a request of an update, where `request` is what
/// was read of it. For a request that was read: the journal is written,
/// the operation is said to be executing, the answer that ends the update
/// is published, and the journal is cleared, in this order.
pub open spec fn update_trace(
    plugins: Seq<(Seq<u8>, Seq<u8>)>,
    request: Option<RequestUpdateView>,
    trace: Seq<ActionView>,
) -> bool {
    match request {
        Some(r) => exists|response: ResponseView|
            #![trigger conclusion(software_update_response(), response)]
            update_answer(plugins, r, response) && trace == update_start(request) + conclusion(
                software_update_response(),
                response,
            ),
        None => trace == update_start(request),
    }
}

/// What the agent does for a request of the software list, where `request`
/// is what was read of it. For a request that was read: the journal is
/// written, the answer is published, and the journal is cleared, in this
/// order.
pub open spec fn list_trace(
    plugins: Seq<(Seq<u8>, Seq<u8>)>,
    request: Option<SoftwareRequestList>,
    trace: Seq<ActionView>,
) -> bool {
    match request {
        Some(r) => exists|response: ResponseView|
            #![trigger conclusion(software_list_response(), response)]
            list_answer(plugins, r.id, response) && trace == list_start(request) + conclusion(
                software_list_response(),
                response,
            ),
        None => trace == list_start(request),
    }
}

/// The answer that ends an operation carries the id of its request and does
/// not say that the operation is executing.
pub proof fn lemma_answers_end_the_operation(
    plugins: Seq<(Seq<u8>, Seq<u8>)>,
    request: RequestUpdateView,
    response: ResponseView,
)
    ensures
        update_answer(plugins, request, response) ==> response.id == request.id && response.status
            != SoftwareOperationStatus::Executing,
        list_answer(plugins, request.id, response) ==> response.id == request.id
            && response.status != SoftwareOperationStatus::Executing,
{
}

/// In what the agent does for an update that was read, the journal is
/// written before anything is published, the operation is said to be
/// executing before its final answer, and the journal is cleared after it.
pub proof fn lemma_executing_comes_first(
    plugins: Seq<(Seq<u8>, Seq<u8>)>,
    request: RequestUpdateView,
    trace: Seq<ActionView>,
)
    requires
        update_trace(plugins, Some(request), trace),
    ensures
        trace.len() == 4,
        trace[0] == ActionView::StoreState(
            StateView { operation_id: Some(request.id), operation: Some(ascii("update"@)) },
        ),
        trace[1] == ActionView::Publish(
            response_message(
                software_update_response(),
                bare_response(request.id, SoftwareOperationStatus::Executing, None),
            ),
        ),
        exists|response: ResponseView|
            #![trigger response_message(software_update_response(), response)]
            response.id == request.id && response.status != SoftwareOperationStatus::Executing
                && trace[2] == ActionView::Publish(
                response_message(software_update_response(), response),
            ),
        trace[3] == ActionView::ClearState,
{
    let response = choose|response: ResponseView|
        #![trigger conclusion(software_update_response(), response)]
        update_answer(plugins, request, response) && trace == update_start(Some(request))
            + conclusion(software_update_response(), response);
    lemma_answers_end_the_operation(plugins, request, response);
    assert(trace == update_start(Some(request)) + conclusion(
        software_update_response(),
        response,
    ));
    assert(trace[2] == ActionView::Publish(
        response_message(software_update_response(), response),
    ));
}

/// An operation that the journal holds at start is answered as failed with
/// the reason that it was not finished, on the topic of its kind, before
/// anything else; then the journal is cleared.
pub proof fn lemma_unfinished_operation_fails(state: StateView)
    requires
        state.operation_id is Some,
        state.operation is Some,
    ensures
        recovery(state).len() == 2,
        recovery(state)[0] == ActionView::Publish(
            response_message(
                response_topic(operation_of_kind(state.operation->0)),
                bare_response(
                    state.operation_id->0,
                    SoftwareOperationStatus::Failed,
                    Some(unfinished()),
                ),
            ),
        ),
        recovery(state)[1] == ActionView::ClearState,
        crate::converter::status_record(
            crate::smartrest::software_update_operation(),
            None,
            bare_response(
                state.operation_id->0,
                SoftwareOperationStatus::Failed,
                Some(unfinished()),
            ),
        ) == crate::smartrest::failed_record(
            crate::smartrest::software_update_operation(),
            unfinished(),
        ),
{
}

} // verus!

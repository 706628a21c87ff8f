//! The mapper: it owns the phases of a run and routes each message of the
//! bus to the health responder or to the converter.

use crate::bus::{
    health_check, health_check_prefix, health_check_prefix_topic, health_check_topic,
    health_status_prefix, health_status_prefix_topic, message_views, one, plain, Message,
    MessageView,
};
use crate::cumulocity::{
    C8YHttpProxy, Converter, CumulocityConverter, OperationExecutor, RequestIds,
};
use crate::json::{json_text, member_views, Json, JsonValue, Member};
use crate::operations::{topics, OperationView, Operations};
use crate::text::{ascii, bytes_eq, bytes_of, decimal, join, views};
use vstd::prelude::*;
use vstd::slice::*;
use vstd::string::*;

verus! {

/// How long the mapper collects messages before the alarms are reconciled,
/// in seconds, when nothing else is configured.
pub const SYNC_WINDOW_SECONDS: u64 = 3;

/// The largest packet that the mapper takes from the bus, in bytes.
pub const MAX_PACKET_SIZE: usize = 10485760;

/// Where a run of the mapper stands.
#[derive(Clone, Copy, Debug, PartialEq, Eq, Structural)]
pub enum Phase {
    /// Nothing was published yet.
    Starting,
    /// The init messages are out; the sync window is open.
    Syncing,
    /// The sync window is closed.
    Running,
}

/// What happens to the mapper.
#[derive(Debug)]
pub enum MapperEvent {
    /// The connection to the bus stands.
    Connected,
    /// A message came in.
    Received(Message),
    /// The sync window ran out.
    SyncWindowExpired,
}

/// Whether a topic asks for the health of the component `name`.
pub open spec fn is_health_check(name: Seq<u8>, topic: Seq<u8>) -> bool {
    topic == health_check() || topic == health_check_prefix() + name
}

/// `{"status":"up","pid":<pid>}`.
pub open spec fn health_status(pid: u32) -> JsonValue {
    JsonValue::Object(
        seq![
            (ascii("status"@), JsonValue::Text(ascii("up"@))),
            (ascii("pid"@), JsonValue::Number(decimal(pid as nat))),
        ],
    )
}

/// The answer to a health check.
pub open spec fn health_message(name: Seq<u8>, pid: u32) -> MessageView {
    plain(health_status_prefix() + name, json_text(health_status(pid)))
}

/// The phase after an event.
pub open spec fn next_phase(phase: Phase, event: MapperEvent) -> Phase {
    match (phase, event) {
        (Phase::Starting, MapperEvent::Connected) => Phase::Syncing,
        (Phase::Syncing, MapperEvent::SyncWindowExpired) => Phase::Running,
        _ => phase,
    }
}

/// What routing one message gives: the answer to a health check, with the
/// converter left as it is; else what the converter answers.
pub open spec fn routed<C: Converter>(
    name: Seq<u8>,
    pid: u32,
    before: C,
    message: MessageView,
    after: C,
    out: Seq<MessageView>,
) -> bool {
    if is_health_check(name, message.topic) {
        out == seq![health_message(name, pid)] && after == before
    } else {
        before.converts(message, after, out)
    }
}

/// What routing messages one after the other gives: the answers in the
/// order of the messages, each from the converter as the message before
/// left it.
pub open spec fn routed_all<C: Converter>(
    name: Seq<u8>,
    pid: u32,
    before: C,
    messages: Seq<MessageView>,
    after: C,
    out: Seq<MessageView>,
) -> bool
    decreases messages.len(),
{
    if messages.len() == 0 {
        after == before && out == Seq::<MessageView>::empty()
    } else {
        exists|middle: C, first: Seq<MessageView>, last: Seq<MessageView>|
            #![trigger routed(name, pid, middle, messages.last(), after, last), followed_by(first, last)]
            routed_all(name, pid, before, messages.drop_last(), middle, first) && routed(
                name,
                pid,
                middle,
                messages.last(),
                after,
                last,
            ) && out == followed_by(first, last)
    }
}

/// The messages of `first`, then those of `last`.
pub open spec fn followed_by(first: Seq<MessageView>, last: Seq<MessageView>) -> Seq<MessageView> {
    first + last
}

/// Routing one more message extends what routing the messages before it
/// gave.
pub proof fn lemma_routed_one_more<C: Converter>(
    name: Seq<u8>,
    pid: u32,
    before: C,
    messages: Seq<MessageView>,
    middle: C,
    first: Seq<MessageView>,
    message: MessageView,
    after: C,
    last: Seq<MessageView>,
)
    requires
        routed_all(name, pid, before, messages, middle, first),
        routed(name, pid, middle, message, after, last),
    ensures
        routed_all(name, pid, before, messages.push(message), after, first + last),
{
    let all = messages.push(message);
    assert(all.drop_last() =~= messages);
    assert(all.last() == message);
    assert(routed_all(name, pid, before, all.drop_last(), middle, first) && routed(
        name,
        pid,
        middle,
        all.last(),
        after,
        last,
    ) && first + last == followed_by(first, last));
}

/// What an event gives in a phase. Before the connection stands nothing is
/// routed. Once connected the converter starts. Messages are routed from
/// then on. When the sync window runs out, what the converter gives for the
/// sync is routed, message by message. Events that come out of turn give
/// nothing.
pub open spec fn stepped<C: Converter>(
    name: Seq<u8>,
    pid: u32,
    phase: Phase,
    before: C,
    event: MapperEvent,
    after: C,
    out: Seq<MessageView>,
) -> bool {
    match (phase, event) {
        (Phase::Starting, MapperEvent::Connected) => before.starts(after, out),
        (Phase::Syncing, MapperEvent::SyncWindowExpired) => exists|
            middle: C,
            flushed: Seq<MessageView>,
        |
            #![trigger before.syncs(middle, flushed)]
            before.syncs(middle, flushed) && routed_all(name, pid, middle, flushed, after, out),
        (Phase::Syncing, MapperEvent::Received(message)) => routed(
            name,
            pid,
            before,
            message@,
            after,
            out,
        ),
        (Phase::Running, MapperEvent::Received(message)) => routed(
            name,
            pid,
            before,
            message@,
            after,
            out,
        ),
        _ => after == before && out == Seq::<MessageView>::empty(),
    }
}

/// The connection that a mapper asks of the bus.
#[derive(Debug)]
pub struct MqttConfig {
    pub host: Vec<u8>,
    pub port: u16,
    pub session_name: Vec<u8>,
    pub clean_session: bool,
    pub subscriptions: Vec<Vec<u8>>,
    pub max_packet_size: usize,
}

/// The connection of the component `name` to the bus at `host` and `port`.
pub fn mqtt_config(name: &[u8], host: &[u8], port: u16, topic_filter: Vec<Vec<u8>>) -> (config:
    MqttConfig)
    ensures
        config.host@ == host@,
        config.port == port,
        config.session_name@ == name@,
        !config.clean_session,
        config.subscriptions == topic_filter,
        config.max_packet_size == MAX_PACKET_SIZE,
{
    MqttConfig {
        host: slice_to_vec(host),
        port,
        session_name: slice_to_vec(name),
        clean_session: false,
        subscriptions: topic_filter,
        max_packet_size: MAX_PACKET_SIZE,
    }
}

/// The mapper around a converter.
pub struct Mapper<C: Converter> {
    pub converter: C,
    pub name: Vec<u8>,
    pub pid: u32,
    pub phase: Phase,
}

impl<C: Converter> Mapper<C> {
    pub fn new(converter: C, name: &[u8], pid: u32) -> (mapper: Self)
        ensures
            mapper.converter == converter,
            mapper.name@ == name@,
            mapper.pid == pid,
            mapper.phase == Phase::Starting,
    {
        Mapper { converter, name: slice_to_vec(name), pid, phase: Phase::Starting }
    }

    /// The topic filters to subscribe to: those of the converter, then the
    /// two topics of the health checks.
    pub fn subscriptions(&self) -> (filters: Vec<Vec<u8>>)
        ensures
            filters@.len() >= 2,
            self.converter.subscribes(views(filters@).subrange(0, filters@.len() - 2)),
            filters@[filters@.len() - 2]@ == health_check(),
            filters@[filters@.len() - 1]@ == health_check_prefix() + self.name@,
    {
        let mut filters = self.converter.subscriptions();
        let ghost own = views(filters@);
        filters.push(health_check_topic());
        filters.push(join(health_check_prefix_topic().as_slice(), self.name.as_slice()));
        assert(views(filters@).subrange(0, filters@.len() - 2) =~= own);
        filters
    }

    fn is_health_check(&self, topic: &[u8]) -> (asked: bool)
        ensures
            asked == is_health_check(self.name@, topic@),
    {
        if bytes_eq(topic, health_check_topic().as_slice()) {
            true
        } else {
            let own = join(health_check_prefix_topic().as_slice(), self.name.as_slice());
            bytes_eq(topic, own.as_slice())
        }
    }

    /// The answer to a health check.
    pub fn health_status_message(&self) -> (message: Message)
        ensures
            message@ == health_message(self.name@, self.pid),
    {
        proof {
            reveal_strlit("status");
            reveal_strlit("up");
            reveal_strlit("pid");
        }
        let mut members: Vec<Member> = Vec::new();
        members.push(
            Member::new(bytes_of("status").as_slice(), Json::text(bytes_of("up").as_slice())),
        );
        members.push(Member::new(bytes_of("pid").as_slice(), Json::number(self.pid as u64)));
        assert(member_views(members@) =~= health_status(self.pid)->Object_0);
        let topic = join(health_status_prefix_topic().as_slice(), self.name.as_slice());
        Message::new(topic.as_slice(), Json::object(members).to_text())
    }

    /// Routes one message: a health check is answered; anything else goes
    /// to the converter.
    pub fn process_message(&mut self, message: &Message) -> (out: Vec<Message>)
        ensures
            final(self).name == old(self).name,
            final(self).pid == old(self).pid,
            final(self).phase == old(self).phase,
            routed(
                old(self).name@,
                old(self).pid,
                old(self).converter,
                message@,
                final(self).converter,
                message_views(out@),
            ),
    {
        if self.is_health_check(message.topic.as_slice()) {
            one(self.health_status_message())
        } else {
            self.converter.convert(message)
        }
    }

    /// Takes one event. Once connected the mapper publishes the init
    /// messages and opens the sync window. Messages are routed from then
    /// on. When the sync window runs out, the mapper routes what the
    /// converter gives for the sync, and goes on running.
    pub fn step(&mut self, event: MapperEvent) -> (out: Vec<Message>)
        ensures
            final(self).name == old(self).name,
            final(self).pid == old(self).pid,
            final(self).phase == next_phase(old(self).phase, event),
            stepped(
                old(self).name@,
                old(self).pid,
                old(self).phase,
                old(self).converter,
                event,
                final(self).converter,
                message_views(out@),
            ),
    {
        match event {
            MapperEvent::Connected => {
                match self.phase {
                    Phase::Starting => {
                        self.phase = Phase::Syncing;
                        self.converter.init_messages()
                    },
                    _ => nothing(),
                }
            },
            MapperEvent::Received(message) => {
                match self.phase {
                    Phase::Starting => nothing(),
                    _ => self.process_message(&message),
                }
            },
            MapperEvent::SyncWindowExpired => {
                match self.phase {
                    Phase::Syncing => {
                        let sync_messages = self.converter.sync_messages();
                        let ghost synced = self.converter;
                        let ghost flushed = message_views(sync_messages@);
                        let mut out = nothing();
                        let mut i: usize = 0;
                        assert(flushed.subrange(0, 0) =~= Seq::<MessageView>::empty());
                        while i < sync_messages.len()
                            invariant
                                i <= sync_messages@.len(),
                                flushed == message_views(sync_messages@),
                                self.name == old(self).name,
                                self.pid == old(self).pid,
                                self.phase == old(self).phase,
                                routed_all(
                                    self.name@,
                                    self.pid,
                                    synced,
                                    flushed.subrange(0, i as int),
                                    self.converter,
                                    message_views(out@),
                                ),
                            decreases sync_messages@.len() - i,
                        {
                            let ghost middle = self.converter;
                            let ghost first = message_views(out@);
                            let mut converted = self.process_message(&sync_messages[i]);
                            let ghost last = message_views(converted@);
                            out.append(&mut converted);
                            proof {
                                assert(message_views(out@) =~= first + last);
                                assert(flushed.subrange(0, i as int).push(
                                    sync_messages@[i as int]@,
                                ) =~= flushed.subrange(0, i + 1));
                                lemma_routed_one_more(
                                    self.name@,
                                    self.pid,
                                    synced,
                                    flushed.subrange(0, i as int),
                                    middle,
                                    first,
                                    sync_messages@[i as int]@,
                                    self.converter,
                                    last,
                                );
                            }
                            i += 1;
                        }
                        assert(flushed.subrange(0, i as int) =~= flushed);
                        self.phase = Phase::Running;
                        out
                    },
                    _ => nothing(),
                }
            },
        }
    }
}

fn nothing() -> (out: Vec<Message>)
    ensures
        message_views(out@) == Seq::<MessageView>::empty(),
{
    let out: Vec<Message> = Vec::new();
    assert(message_views(out@) =~= Seq::<MessageView>::empty());
    out
}

/// The session of the mapper for the cloud.
pub open spec fn mapper_session() -> Seq<u8> {
    ascii("tedge-mapper-c8y"@)
}

/// The topics of the mapper's session: the answers of the agent, the
/// cloud's records for updates and restarts, and the topics of the
/// registered operations.
pub open spec fn session_topics(operations: Seq<OperationView>) -> Seq<Seq<u8>> {
    seq![
        ascii("local/cmd/res/software/list"@),
        ascii("local/cmd/res/software/update"@),
        ascii("cloud/in/528"@),
        ascii("cloud/in/510"@),
        ascii("local/cmd/res/restart"@),
    ] + topics(operations)
}

/// The mapper for the cloud.
#[derive(Debug)]
pub struct CumulocityMapper {}

impl CumulocityMapper {
    pub fn new() -> CumulocityMapper {
        CumulocityMapper {  }
    }

    /// The topics of the mapper's session.
    pub fn subscriptions(operations: &Operations) -> (filters: Vec<Vec<u8>>)
        ensures
            views(filters@) == session_topics(operations@),
    {
        proof {
            reveal_strlit("local/cmd/res/software/list");
            reveal_strlit("local/cmd/res/software/update");
            reveal_strlit("cloud/in/528");
            reveal_strlit("cloud/in/510");
            reveal_strlit("local/cmd/res/restart");
        }
        let mut filters: Vec<Vec<u8>> = Vec::new();
        filters.push(bytes_of("local/cmd/res/software/list"));
        filters.push(bytes_of("local/cmd/res/software/update"));
        filters.push(bytes_of("cloud/in/528"));
        filters.push(bytes_of("cloud/in/510"));
        filters.push(bytes_of("local/cmd/res/restart"));
        let ghost fixed = views(filters@);
        let mut more = operations.topics_for_operations();
        let ghost added = views(more@);
        filters.append(&mut more);
        assert(views(filters@) =~= fixed + added);
        assert(views(filters@) =~= session_topics(operations@));
        filters
    }

    /// The session to set up on the bus, so that the broker keeps the
    /// messages of the mapper's topics while the mapper is down; or, with
    /// `clean_session`, the session to clear.
    pub fn session_config(
        &self,
        operations: &Operations,
        host: &[u8],
        port: u16,
        clean_session: bool,
    ) -> (config: MqttConfig)
        ensures
            config.session_name@ == mapper_session(),
            config.clean_session == clean_session,
            views(config.subscriptions@) == session_topics(operations@),
            config.host@ == host@,
            config.port == port,
    {
        proof {
            reveal_strlit("tedge-mapper-c8y");
        }
        let mut config = mqtt_config(
            bytes_of("tedge-mapper-c8y").as_slice(),
            host,
            port,
            CumulocityMapper::subscriptions(operations),
        );
        config.clean_session = clean_session;
        config
    }

    /// The session that `init-session` sets up.
    pub fn init_session(&self, operations: &Operations, host: &[u8], port: u16) -> (config:
        MqttConfig)
        ensures
            config.session_name@ == mapper_session(),
            !config.clean_session,
            views(config.subscriptions@) == session_topics(operations@),
    {
        self.session_config(operations, host, port, false)
    }

    /// The session that `clear-session` clears.
    pub fn clear_session(&self, operations: &Operations, host: &[u8], port: u16) -> (config:
        MqttConfig)
        ensures
            config.session_name@ == mapper_session(),
            config.clean_session,
            views(config.subscriptions@) == session_topics(operations@),
    {
        self.session_config(operations, host, port, true)
    }
}

/// Around the converter for the cloud, a payload that is longer than the
/// threshold gives exactly one message, the report of its size on the
/// errors topic, and leaves the converter and its collaborators as they
/// were: nothing is asked of the cloud.
pub proof fn lemma_oversized_payload_is_reported<
    Proxy: C8YHttpProxy,
    Executor: OperationExecutor,
    Ids: RequestIds,
>(
    name: Seq<u8>,
    pid: u32,
    phase: Phase,
    before: CumulocityConverter<Proxy, Executor, Ids>,
    message: Message,
    after: CumulocityConverter<Proxy, Executor, Ids>,
    out: Seq<MessageView>,
)
    requires
        phase != Phase::Starting,
        !is_health_check(name, message@.topic),
        message@.payload.len() > before@.threshold,
        stepped(name, pid, phase, before, MapperEvent::Received(message), after, out),
    ensures
        after@ == before@,
        after.http_proxy == before.http_proxy,
        after.executor == before.executor,
        after.ids == before.ids,
        out == seq![
            crate::error::error_message(
                crate::error::ErrorView::SizeExceeded {
                    actual: message@.payload.len() as usize,
                    threshold: before@.threshold,
                },
            ),
        ],
        out[0].topic == crate::bus::errors(),
{
    crate::cumulocity::lemma_oversized_is_reported(
        before@,
        message@,
        crate::json::json_parsed(message@.payload),
        after@,
        out,
    );
}

} // verus!

//! The alarm reconciler: what was raised or cleared while the core was down.
//!
//! While syncing, the reconciler collects the live alarms and the mirror of
//! the alarms that it processed before. The flush compares the two. After
//! the flush every alarm is converted at once and mirrored.

use crate::bus::{
    alarms_prefix, alarms_prefix_topic, cloud_out, cloud_out_topic, internal_alarms_prefix,
    internal_alarms_prefix_topic, message_views, plain, push_message, retained, Message,
    MessageView,
};
use crate::error::{outcome_view, ConversionError, ErrorView};
use crate::json::{json_parsed, parse, Json, JsonValue};
use crate::smartrest::{alarm_record, optional_tree, serialize_alarm};
use crate::text::{bytes_eq, join, strip_prefix, stripped};
use vstd::prelude::*;
use vstd::slice::*;
use vstd::string::*;

verus! {

/// An alarm under its key, `<severity>/<type>`.
#[derive(Debug)]
pub struct AlarmEntry {
    pub key: Vec<u8>,
    pub message: Message,
}

impl View for AlarmEntry {
    type V = (Seq<u8>, MessageView);

    open spec fn view(&self) -> (Seq<u8>, MessageView) {
        (self.key@, self.message@)
    }
}

/// The models of a list of entries.
pub open spec fn entry_views(entries: Seq<AlarmEntry>) -> Seq<(Seq<u8>, MessageView)> {
    Seq::new(entries.len(), |i: int| entries[i]@)
}

/// The first place at or after `from` where `entries` holds `key`.
pub open spec fn position(entries: Seq<(Seq<u8>, MessageView)>, key: Seq<u8>, from: int) -> Option<
    int,
>
    decreases entries.len() - from,
{
    if from < 0 || from >= entries.len() {
        None
    } else if entries[from].0 == key {
        Some(from)
    } else {
        position(entries, key, from + 1)
    }
}

/// What is found is the first place of the key; where nothing is found the key
/// stands nowhere.
pub proof fn lemma_position(entries: Seq<(Seq<u8>, MessageView)>, key: Seq<u8>, from: int)
    requires
        0 <= from,
    ensures
        match position(entries, key, from) {
            Some(at) => from <= at < entries.len() && entries[at].0 == key && forall|j: int|
                from <= j < at ==> entries[j].0 != key,
            None => forall|j: int| from <= j < entries.len() ==> entries[j].0 != key,
        },
    decreases entries.len() - from,
{
    if from < entries.len() && entries[from].0 != key {
        lemma_position(entries, key, from + 1);
    }
}

/// Whether `entries` holds an alarm under `key`.
pub open spec fn has_key(entries: Seq<(Seq<u8>, MessageView)>, key: Seq<u8>) -> bool {
    position(entries, key, 0) is Some
}

/// `entries` with `message` under `key`: in the place of the alarm that was
/// there under that key, else at the end.
pub open spec fn inserted(
    entries: Seq<(Seq<u8>, MessageView)>,
    key: Seq<u8>,
    message: MessageView,
) -> Seq<(Seq<u8>, MessageView)> {
    match position(entries, key, 0) {
        Some(at) => entries.update(at, (key, message)),
        None => entries.push((key, message)),
    }
}

/// No key stands twice.
pub open spec fn distinct_keys(entries: Seq<(Seq<u8>, MessageView)>) -> bool {
    forall|i: int, j: int| 0 <= i < j < entries.len() ==> entries[i].0 != entries[j].0
}

/// Each alarm stands under the key that its topic gives behind `prefix`.
pub open spec fn keyed_by_topic(entries: Seq<(Seq<u8>, MessageView)>, prefix: Seq<u8>) -> bool {
    forall|i: int|
        0 <= i < entries.len() ==> (#[trigger] entries[i]).1.topic == prefix + entries[i].0
}

/// A map that holds each key once, under the key that the topic gives, goes on
/// doing so when it takes an alarm under the key of its topic.
pub proof fn lemma_inserted_keeps_order(
    entries: Seq<(Seq<u8>, MessageView)>,
    key: Seq<u8>,
    message: MessageView,
    prefix: Seq<u8>,
)
    requires
        distinct_keys(entries),
        keyed_by_topic(entries, prefix),
        message.topic == prefix + key,
    ensures
        distinct_keys(inserted(entries, key, message)),
        keyed_by_topic(inserted(entries, key, message), prefix),
        has_key(inserted(entries, key, message), key),
{
    lemma_position(entries, key, 0);
    let after = inserted(entries, key, message);
    lemma_position(after, key, 0);
    match position(entries, key, 0) {
        Some(at) => {
            assert(after[at].0 == key);
        },
        None => {
            assert(after[entries.len() as int].0 == key);
        },
    }
    assert forall|i: int| 0 <= i < after.len() implies (#[trigger] after[i]).1.topic == prefix
        + after[i].0 by {
        if i < entries.len() {
            assert(entries[i].1.topic == prefix + entries[i].0);
        }
    }
}

fn find_entry(entries: &Vec<AlarmEntry>, key: &[u8]) -> (at: Option<usize>)
    ensures
        at is Some == position(entry_views(entries@), key@, 0) is Some,
        at matches Some(i) ==> position(entry_views(entries@), key@, 0) == Some(i as int) && i
            < entries@.len(),
{
    let ghost all = entry_views(entries@);
    let mut i: usize = 0;
    while i < entries.len()
        invariant
            i <= entries@.len(),
            all == entry_views(entries@),
            position(all, key@, 0) == position(all, key@, i as int),
        decreases entries@.len() - i,
    {
        assert(all[i as int] == entries@[i as int]@);
        if bytes_eq(entries[i].key.as_slice(), key) {
            return Some(i);
        }
        i += 1;
    }
    None
}

fn insert_entry(entries: &mut Vec<AlarmEntry>, key: Vec<u8>, message: Message)
    ensures
        entry_views(final(entries)@) == inserted(entry_views(old(entries)@), key@, message@),
{
    let ghost before = entry_views(entries@);
    match find_entry(entries, key.as_slice()) {
        Some(at) => {
            entries.set(at, AlarmEntry { key, message });
            assert(entry_views(entries@) =~= before.update(at as int, (key@, message@)));
        },
        None => {
            entries.push(AlarmEntry { key, message });
            assert(entry_views(entries@) =~= before.push((key@, message@)));
        },
    }
}

/// The two states of the reconciler.
#[derive(Debug)]
enum Reconciling {
    Syncing { pending_alarms_map: Vec<AlarmEntry>, old_alarms_map: Vec<AlarmEntry> },
    Synced,
}

/// The reconciler. It starts syncing, and is synced by the flush. Its maps
/// hold each key once, under the key that the topic gives.
#[derive(Debug)]
pub struct AlarmConverter {
    state: Reconciling,
}

pub enum AlarmState {
    /// `pending` holds the live alarms, `prior` the mirror of those processed
    /// before the restart.
    Syncing { pending: Seq<(Seq<u8>, MessageView)>, prior: Seq<(Seq<u8>, MessageView)> },
    Synced,
}

impl View for AlarmConverter {
    type V = AlarmState;

    closed spec fn view(&self) -> AlarmState {
        self.state@
    }
}

impl View for Reconciling {
    type V = AlarmState;

    closed spec fn view(&self) -> AlarmState {
        match self {
            Reconciling::Syncing { pending_alarms_map, old_alarms_map } => AlarmState::Syncing {
                pending: entry_views(pending_alarms_map@),
                prior: entry_views(old_alarms_map@),
            },
            Reconciling::Synced => AlarmState::Synced,
        }
    }
}

impl Reconciling {
    /// Keeps a live alarm for the flush, while syncing.
    fn keep_pending(&mut self, key: Vec<u8>, message: Message)
        ensures
            final(self)@ == (match old(self)@ {
                AlarmState::Syncing { pending, prior } => AlarmState::Syncing {
                    pending: inserted(pending, key@, message@),
                    prior,
                },
                AlarmState::Synced => AlarmState::Synced,
            }),
    {
        match self {
            Reconciling::Syncing { pending_alarms_map, old_alarms_map } => {
                insert_entry(pending_alarms_map, key, message);
            },
            Reconciling::Synced => {},
        }
    }

    /// Keeps a mirrored alarm for the flush, while syncing.
    fn keep_prior(&mut self, key: Vec<u8>, message: Message)
        ensures
            final(self)@ == (match old(self)@ {
                AlarmState::Syncing { pending, prior } => AlarmState::Syncing {
                    pending,
                    prior: inserted(prior, key@, message@),
                },
                AlarmState::Synced => AlarmState::Synced,
            }),
    {
        match self {
            Reconciling::Syncing { pending_alarms_map, old_alarms_map } => {
                insert_entry(old_alarms_map, key, message);
            },
            Reconciling::Synced => {},
        }
    }
}

impl AlarmState {
    /// Both maps hold each key once, under the key that the topic gives.
    pub open spec fn wf(self) -> bool {
        match self {
            AlarmState::Syncing { pending, prior } => {
                &&& distinct_keys(pending)
                &&& distinct_keys(prior)
                &&& keyed_by_topic(pending, alarms_prefix())
                &&& keyed_by_topic(prior, internal_alarms_prefix())
            },
            AlarmState::Synced => true,
        }
    }
}

/// The retained empty message that announces the alarm under `key` as cleared.
pub open spec fn clear_message(key: Seq<u8>) -> MessageView {
    retained(alarms_prefix() + key, Seq::empty())
}

/// Whether the mirror holds `entry` with the same payload.
pub open spec fn already_processed(
    prior: Seq<(Seq<u8>, MessageView)>,
    entry: (Seq<u8>, MessageView),
) -> bool {
    match position(prior, entry.0, 0) {
        Some(at) => prior[at].1.payload == entry.1.payload,
        None => false,
    }
}

/// The clear messages for the first `n` alarms of the mirror: one for each
/// that is no longer live.
pub open spec fn cleared(
    prior: Seq<(Seq<u8>, MessageView)>,
    pending: Seq<(Seq<u8>, MessageView)>,
    n: nat,
) -> Seq<MessageView>
    decreases n,
{
    if n == 0 || n > prior.len() {
        Seq::empty()
    } else if has_key(pending, prior[n - 1].0) {
        cleared(prior, pending, (n - 1) as nat)
    } else {
        cleared(prior, pending, (n - 1) as nat).push(clear_message(prior[n - 1].0))
    }
}

/// Those of the first `n` live alarms that the mirror does not hold with the
/// same payload.
pub open spec fn remaining(
    pending: Seq<(Seq<u8>, MessageView)>,
    prior: Seq<(Seq<u8>, MessageView)>,
    n: nat,
) -> Seq<MessageView>
    decreases n,
{
    if n == 0 || n > pending.len() {
        Seq::empty()
    } else if already_processed(prior, pending[n - 1]) {
        remaining(pending, prior, (n - 1) as nat)
    } else {
        remaining(pending, prior, (n - 1) as nat).push(pending[n - 1].1)
    }
}

/// What the flush gives: first the clear messages, then the live alarms that
/// are still to be processed.
pub open spec fn flush(
    pending: Seq<(Seq<u8>, MessageView)>,
    prior: Seq<(Seq<u8>, MessageView)>,
) -> Seq<MessageView> {
    cleared(prior, pending, prior.len()) + remaining(pending, prior, pending.len())
}

/// The messages for an alarm that is processed at once: its SmartREST record
/// for the cloud, then its retained mirror.
pub open spec fn synced_alarm(message: MessageView, parsed: Option<JsonValue>) -> Result<
    Seq<MessageView>,
    ErrorView,
> {
    match alarm_record(message.topic, message.payload, parsed) {
        Err(error) => Err(error),
        Ok(record) => Ok(
            seq![
                plain(cloud_out(), record),
                retained(
                    internal_alarms_prefix() + stripped(message.topic, alarms_prefix())->0,
                    message.payload,
                ),
            ],
        ),
    }
}

/// What an alarm gives in a state, where `parsed` is what its payload reads as.
pub open spec fn alarm_outcome(
    state: AlarmState,
    message: MessageView,
    parsed: Option<JsonValue>,
) -> Result<Seq<MessageView>, ErrorView> {
    match state {
        AlarmState::Syncing { pending, prior } => match stripped(message.topic, alarms_prefix()) {
            Some(key) => Ok(Seq::empty()),
            None => Err(ErrorView::UnsupportedTopic { topic: message.topic }),
        },
        AlarmState::Synced => synced_alarm(message, parsed),
    }
}

/// The state after an alarm.
pub open spec fn alarm_next(state: AlarmState, message: MessageView) -> AlarmState {
    match state {
        AlarmState::Syncing { pending, prior } => match stripped(message.topic, alarms_prefix()) {
            Some(key) => AlarmState::Syncing { pending: inserted(pending, key, message), prior },
            None => state,
        },
        AlarmState::Synced => state,
    }
}

/// The state after a message of the mirror.
pub open spec fn mirror_next(state: AlarmState, message: MessageView) -> AlarmState {
    match state {
        AlarmState::Syncing { pending, prior } => match stripped(
            message.topic,
            internal_alarms_prefix(),
        ) {
            Some(key) => AlarmState::Syncing { pending, prior: inserted(prior, key, message) },
            None => state,
        },
        AlarmState::Synced => state,
    }
}

/// What the flush gives in a state.
pub open spec fn sync_output(state: AlarmState) -> Seq<MessageView> {
    match state {
        AlarmState::Syncing { pending, prior } => flush(pending, prior),
        AlarmState::Synced => Seq::empty(),
    }
}

fn payload_is_mirrored(prior: &Vec<AlarmEntry>, entry: &AlarmEntry) -> (mirrored: bool)
    ensures
        mirrored == already_processed(entry_views(prior@), entry@),
{
    match find_entry(prior, entry.key.as_slice()) {
        Some(at) => {
            assert(entry_views(prior@)[at as int] == prior@[at as int]@);
            bytes_eq(prior[at].message.payload.as_slice(), entry.message.payload.as_slice())
        },
        None => false,
    }
}

impl AlarmConverter {
    /// Both maps hold each key once, under the key that the topic gives.
    #[verifier::type_invariant]
    pub open spec fn in_order(self) -> bool {
        self@.wf()
    }

    /// A reconciler that syncs and has seen no alarm yet.
    pub fn new() -> (reconciler: AlarmConverter)
        ensures
            reconciler@ == (AlarmState::Syncing { pending: Seq::empty(), prior: Seq::empty() }),
            reconciler@.wf(),
    {
        let pending_alarms_map: Vec<AlarmEntry> = Vec::new();
        let old_alarms_map: Vec<AlarmEntry> = Vec::new();
        assert(entry_views(pending_alarms_map@) =~= Seq::empty());
        assert(entry_views(old_alarms_map@) =~= Seq::empty());
        AlarmConverter { state: Reconciling::Syncing { pending_alarms_map, old_alarms_map } }
    }

    /// Whether the flush is over.
    pub fn is_synced(&self) -> (synced: bool)
        ensures
            synced == (self@ is Synced),
            self@.wf(),
    {
        proof {
            use_type_invariant(self);
        }
        match &self.state {
            Reconciling::Syncing { .. } => false,
            Reconciling::Synced => true,
        }
    }

    /// Takes an alarm, where `parsed` is what its payload reads as. While
    /// syncing the alarm is kept for the flush. Once synced it is converted.
    pub fn convert_alarm(&mut self, input: &Message, parsed: &Option<Json>) -> (outcome: Result<
        Vec<Message>,
        ConversionError,
    >)
        ensures
            outcome_view(outcome) == alarm_outcome(old(self)@, input@, optional_tree(*parsed)),
            final(self)@ == alarm_next(old(self)@, input@),
            old(self)@.wf(),
            final(self)@.wf(),
    {
        proof {
            use_type_invariant(&*self);
        }
        let prefix = alarms_prefix_topic();
        if !self.is_synced() {
            match strip_prefix(input.topic.as_slice(), prefix.as_slice()) {
                Some(key) => {
                    proof {
                        crate::text::lemma_stripped_joins(input@.topic, alarms_prefix());
                        lemma_inserted_keeps_order(
                            self@->pending,
                            key@,
                            input@,
                            alarms_prefix(),
                        );
                    }
                    let mut state = Reconciling::Synced;
                    core::mem::swap(&mut self.state, &mut state);
                    state.keep_pending(key, input.duplicate());
                    self.state = state;
                    let none: Vec<Message> = Vec::new();
                    assert(message_views(none@) =~= Seq::empty());
                    Ok(none)
                },
                None => Err(
                    ConversionError::UnsupportedTopic {
                        topic: slice_to_vec(input.topic.as_slice()),
                    },
                ),
            }
        } else {
            let record = match serialize_alarm(
                input.topic.as_slice(),
                input.payload.as_slice(),
                parsed,
            ) {
                Ok(record) => record,
                Err(error) => {
                    return Err(error);
                },
            };
            let key = match strip_prefix(input.topic.as_slice(), prefix.as_slice()) {
                Some(key) => key,
                None => {
                    return Err(
                        ConversionError::UnsupportedTopic {
                            topic: slice_to_vec(input.topic.as_slice()),
                        },
                    );
                },
            };
            let mut messages: Vec<Message> = Vec::new();
            let cloud = cloud_out_topic();
            push_message(&mut messages, Message::new(cloud.as_slice(), record));
            let mirror = join(internal_alarms_prefix_topic().as_slice(), key.as_slice());
            push_message(
                &mut messages,
                Message::new(mirror.as_slice(), slice_to_vec(input.payload.as_slice()))
                    .with_retain(),
            );
            assert(message_views(messages@) =~= synced_alarm(
                input@,
                optional_tree(*parsed),
            )->Ok_0);
            Ok(messages)
        }
    }

    /// Takes an alarm. The payload is read as JSON where that is needed.
    pub fn try_convert_alarm(&mut self, input: &Message) -> (outcome: Result<
        Vec<Message>,
        ConversionError,
    >)
        ensures
            outcome_view(outcome) == alarm_outcome(
                old(self)@,
                input@,
                json_parsed(input@.payload),
            ),
            final(self)@ == alarm_next(old(self)@, input@),
            old(self)@.wf(),
            final(self)@.wf(),
    {
        let needed = self.is_synced() && input.payload.len() > 0;
        if needed {
            let parsed = parse(input.payload.as_slice());
            self.convert_alarm(input, &parsed)
        } else {
            self.convert_alarm(input, &None)
        }
    }

    /// Takes a message of the mirror: kept while syncing, ignored afterwards.
    pub fn process_internal_alarm(&mut self, input: &Message)
        ensures
            final(self)@ == mirror_next(old(self)@, input@),
            old(self)@.wf(),
            final(self)@.wf(),
    {
        proof {
            use_type_invariant(&*self);
        }
        let prefix = internal_alarms_prefix_topic();
        if !self.is_synced() {
            match strip_prefix(input.topic.as_slice(), prefix.as_slice()) {
                Some(key) => {
                    proof {
                        crate::text::lemma_stripped_joins(input@.topic, internal_alarms_prefix());
                        lemma_inserted_keeps_order(
                            self@->prior,
                            key@,
                            input@,
                            internal_alarms_prefix(),
                        );
                    }
                    let mut state = Reconciling::Synced;
                    core::mem::swap(&mut self.state, &mut state);
                    state.keep_prior(key, input.duplicate());
                    self.state = state;
                },
                None => {},
            }
        }
    }

    /// The flush: gives what was missed while the core was down, and ends the
    /// syncing.
    pub fn sync(&mut self) -> (messages: Vec<Message>)
        ensures
            message_views(messages@) == sync_output(old(self)@),
            final(self)@ == AlarmState::Synced,
            old(self)@.wf(),
    {
        proof {
            use_type_invariant(&*self);
        }
        let mut messages: Vec<Message> = Vec::new();
        match &self.state {
            Reconciling::Syncing { pending_alarms_map, old_alarms_map } => {
                let ghost pending = entry_views(pending_alarms_map@);
                let ghost prior = entry_views(old_alarms_map@);
                let prefix = alarms_prefix_topic();
                let mut i: usize = 0;
                assert(message_views(messages@) =~= cleared(prior, pending, 0));
                while i < old_alarms_map.len()
                    invariant
                        i <= old_alarms_map@.len(),
                        pending == entry_views(pending_alarms_map@),
                        prior == entry_views(old_alarms_map@),
                        prefix@ == alarms_prefix(),
                        message_views(messages@) == cleared(prior, pending, i as nat),
                    decreases old_alarms_map@.len() - i,
                {
                    assert(prior[i as int] == old_alarms_map@[i as int]@);
                    let found = find_entry(pending_alarms_map, old_alarms_map[i].key.as_slice());
                    if found.is_none() {
                        let topic = join(prefix.as_slice(), old_alarms_map[i].key.as_slice());
                        let empty: Vec<u8> = Vec::new();
                        assert(empty@ =~= Seq::<u8>::empty());
                        push_message(
                            &mut messages,
                            Message::new(topic.as_slice(), empty).with_retain(),
                        );
                    }
                    i += 1;
                }
                let ghost first = message_views(messages@);
                let mut j: usize = 0;
                assert(message_views(messages@) =~= first + remaining(pending, prior, 0));
                while j < pending_alarms_map.len()
                    invariant
                        j <= pending_alarms_map@.len(),
                        pending == entry_views(pending_alarms_map@),
                        prior == entry_views(old_alarms_map@),
                        message_views(messages@) == first + remaining(pending, prior, j as nat),
                    decreases pending_alarms_map@.len() - j,
                {
                    assert(pending[j as int] == pending_alarms_map@[j as int]@);
                    if !payload_is_mirrored(old_alarms_map, &pending_alarms_map[j]) {
                        push_message(&mut messages, pending_alarms_map[j].message.duplicate());
                        assert(message_views(messages@) =~= first + remaining(
                            pending,
                            prior,
                            (j + 1) as nat,
                        ));
                    }
                    j += 1;
                }
            },
            Reconciling::Synced => {
                assert(message_views(messages@) =~= Seq::empty());
            },
        }
        self.state = Reconciling::Synced;
        messages
    }
}

/// An alarm that is converted once synced gives exactly two messages: one on
/// the cloud's topic, and one retained on the mirror's topic under the
/// alarm's key, with the payload of the alarm byte for byte.
pub proof fn lemma_synced_alarm_is_mirrored(message: MessageView, parsed: Option<JsonValue>)
    requires
        synced_alarm(message, parsed) is Ok,
    ensures
        ({
            let out = synced_alarm(message, parsed)->Ok_0;
            let key = stripped(message.topic, alarms_prefix())->0;
            &&& message.topic == alarms_prefix() + key
            &&& out.len() == 2
            &&& out[0].topic == cloud_out()
            &&& out[0].topic != internal_alarms_prefix() + key
            &&& out[1].topic == internal_alarms_prefix() + key
            &&& out[1].topic != cloud_out()
            &&& out[1].retain
            &&& out[1].payload == message.payload
        }),
{
    reveal_strlit("cloud/out");
    reveal_strlit("internal/alarms/");
    crate::text::lemma_stripped_joins(message.topic, alarms_prefix());
    let key = stripped(message.topic, alarms_prefix())->0;
    let mirror = internal_alarms_prefix() + key;
    assert(mirror[0] == internal_alarms_prefix()[0]);
    assert(mirror[0] != cloud_out()[0]);
}

proof fn lemma_joined_keys(prefix: Seq<u8>, a: Seq<u8>, b: Seq<u8>)
    requires
        prefix + a == prefix + b,
    ensures
        a == b,
{
    assert((prefix + a).subrange(prefix.len() as int, (prefix + a).len() as int) =~= a);
    assert((prefix + b).subrange(prefix.len() as int, (prefix + b).len() as int) =~= b);
}

proof fn lemma_cleared_has(
    prior: Seq<(Seq<u8>, MessageView)>,
    pending: Seq<(Seq<u8>, MessageView)>,
    n: nat,
    i: int,
)
    requires
        0 <= i < n <= prior.len(),
        !has_key(pending, prior[i].0),
    ensures
        cleared(prior, pending, n).contains(clear_message(prior[i].0)),
    decreases n,
{
    let rest = cleared(prior, pending, (n - 1) as nat);
    if i == n - 1 {
        assert(cleared(prior, pending, n) == rest.push(clear_message(prior[i].0)));
        assert(rest.push(clear_message(prior[i].0))[rest.len() as int] == clear_message(
            prior[i].0,
        ));
    } else {
        lemma_cleared_has(prior, pending, (n - 1) as nat, i);
        let at = choose|k: int| 0 <= k < rest.len() && rest[k] == clear_message(prior[i].0);
        assert(cleared(prior, pending, n)[at] == clear_message(prior[i].0));
    }
}

proof fn lemma_cleared_only(
    prior: Seq<(Seq<u8>, MessageView)>,
    pending: Seq<(Seq<u8>, MessageView)>,
    n: nat,
    k: int,
)
    requires
        n <= prior.len(),
        0 <= k < cleared(prior, pending, n).len(),
    ensures
        exists|i: int|
            0 <= i < n && !has_key(pending, prior[i].0) && cleared(prior, pending, n)[k]
                == clear_message(prior[i].0),
    decreases n,
{
    let rest = cleared(prior, pending, (n - 1) as nat);
    if k < rest.len() {
        lemma_cleared_only(prior, pending, (n - 1) as nat, k);
        let i = choose|i: int|
            0 <= i < n - 1 && !has_key(pending, prior[i].0) && rest[k] == clear_message(
                prior[i].0,
            );
        assert(0 <= i < n && !has_key(pending, prior[i].0) && cleared(prior, pending, n)[k]
            == clear_message(prior[i].0));
    } else {
        assert(!has_key(pending, prior[n - 1].0) && cleared(prior, pending, n)[k]
            == clear_message(prior[n - 1].0));
    }
}

proof fn lemma_remaining_only(
    pending: Seq<(Seq<u8>, MessageView)>,
    prior: Seq<(Seq<u8>, MessageView)>,
    n: nat,
    k: int,
)
    requires
        n <= pending.len(),
        0 <= k < remaining(pending, prior, n).len(),
    ensures
        exists|j: int|
            0 <= j < n && !already_processed(prior, pending[j]) && remaining(pending, prior, n)[k]
                == pending[j].1,
    decreases n,
{
    let rest = remaining(pending, prior, (n - 1) as nat);
    if k < rest.len() {
        lemma_remaining_only(pending, prior, (n - 1) as nat, k);
        let j = choose|j: int|
            0 <= j < n - 1 && !already_processed(prior, pending[j]) && rest[k] == pending[j].1;
        assert(0 <= j < n && !already_processed(prior, pending[j]) && remaining(
            pending,
            prior,
            n,
        )[k] == pending[j].1);
    } else {
        assert(!already_processed(prior, pending[n - 1]) && remaining(pending, prior, n)[k]
            == pending[n - 1].1);
    }
}

/// An alarm that the mirror holds and that is no longer live is announced as
/// cleared: the flush gives a retained empty message on the alarm's topic.
pub proof fn lemma_flush_clears_missing(
    pending: Seq<(Seq<u8>, MessageView)>,
    prior: Seq<(Seq<u8>, MessageView)>,
    key: Seq<u8>,
)
    requires
        has_key(prior, key),
        !has_key(pending, key),
    ensures
        flush(pending, prior).contains(retained(alarms_prefix() + key, Seq::empty())),
{
    lemma_position(prior, key, 0);
    let i = position(prior, key, 0)->0;
    lemma_cleared_has(prior, pending, prior.len(), i);
    let first = cleared(prior, pending, prior.len());
    let at = choose|k: int| 0 <= k < first.len() && first[k] == clear_message(key);
    assert(flush(pending, prior)[at] == clear_message(key));
}

/// An alarm that is live and that the mirror holds with the same payload was
/// processed before: the flush gives no message on the alarm's topic.
pub proof fn lemma_flush_drops_processed(
    pending: Seq<(Seq<u8>, MessageView)>,
    prior: Seq<(Seq<u8>, MessageView)>,
    key: Seq<u8>,
)
    requires
        (AlarmState::Syncing { pending, prior }).wf(),
        has_key(pending, key),
        has_key(prior, key),
        pending[position(pending, key, 0)->0].1.payload == prior[position(
            prior,
            key,
            0,
        )->0].1.payload,
    ensures
        forall|k: int|
            0 <= k < flush(pending, prior).len() ==> (#[trigger] flush(pending, prior)[k]).topic
                != alarms_prefix() + key,
{
    lemma_position(pending, key, 0);
    lemma_position(prior, key, 0);
    let here = position(pending, key, 0)->0;
    let first = cleared(prior, pending, prior.len());
    let second = remaining(pending, prior, pending.len());
    assert forall|k: int| 0 <= k < flush(pending, prior).len() implies (#[trigger] flush(
        pending,
        prior,
    )[k]).topic != alarms_prefix() + key by {
        if k < first.len() {
            lemma_cleared_only(prior, pending, prior.len(), k);
            let i = choose|i: int|
                0 <= i < prior.len() && !has_key(pending, prior[i].0) && first[k] == clear_message(
                    prior[i].0,
                );
            if first[k].topic == alarms_prefix() + key {
                lemma_joined_keys(alarms_prefix(), prior[i].0, key);
            }
        } else {
            let at = k - first.len();
            lemma_remaining_only(pending, prior, pending.len(), at);
            let j = choose|j: int|
                0 <= j < pending.len() && !already_processed(prior, pending[j]) && second[at]
                    == pending[j].1;
            assert(pending[j].1.topic == alarms_prefix() + pending[j].0);
            if second[at].topic == alarms_prefix() + key {
                lemma_joined_keys(alarms_prefix(), pending[j].0, key);
                assert(j == here);
            }
        }
    }
}

/// Whatever alarm or mirrored alarm is taken, each map goes on holding each
/// key once, under the key that the topic gives.
pub proof fn lemma_maps_stay_in_order(state: AlarmState, message: MessageView)
    requires
        state.wf(),
    ensures
        alarm_next(state, message).wf(),
        mirror_next(state, message).wf(),
{
    match state {
        AlarmState::Syncing { pending, prior } => {
            match stripped(message.topic, alarms_prefix()) {
                Some(key) => {
                    crate::text::lemma_stripped_joins(message.topic, alarms_prefix());
                    lemma_inserted_keeps_order(pending, key, message, alarms_prefix());
                },
                None => {},
            }
            match stripped(message.topic, internal_alarms_prefix()) {
                Some(key) => {
                    crate::text::lemma_stripped_joins(message.topic, internal_alarms_prefix());
                    lemma_inserted_keeps_order(prior, key, message, internal_alarms_prefix());
                },
                None => {},
            }
        },
        AlarmState::Synced => {},
    }
}

} // verus!

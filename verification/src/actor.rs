//! The store actor: the one owner of the store. It takes the messages of the
//! two queues one at a time, applies each to the store and hands back the
//! answer together with the caller it is meant for.

use vstd::prelude::*;
use crate::execute::{Operation, OperationView, QueryView};
use crate::record::{Record, RecordView, StoreError};
use crate::store::{
    lemma_selected_by_key, lemma_upserted_holds_record, lemma_upserted_is_valid,
    lemma_upserted_keeps_others, selected, upserted, valid_store, Store,
};
use crate::execute::dispatched;
use crate::transport::{Channels, ChannelsView, Lane, SelectRequestView, WriteRequestView};

verus! {

/// The answer to one operation, over record contents.
pub type Reply = Result<Option<Seq<RecordView>>, StoreError>;

/// The answer to one operation: the records of a read, nothing for a write
/// that was applied, or the reason the store turned the operation down.
pub type Outcome = Result<Option<Vec<Record>>, StoreError>;

/// The mathematical content of an [`Outcome`].
pub open spec fn reply_of(outcome: Outcome) -> Reply {
    match outcome {
        Ok(Some(records)) => Ok(Some(records.deep_view())),
        Ok(None) => Ok(None),
        Err(error) => Err(error),
    }
}

/// The store and the answer after `op` was applied to `store`. A read
/// answers with the records it asks for and changes nothing. A write of a
/// record with a key puts the record in place and answers with nothing; a
/// record without a key is turned down and changes nothing.
pub open spec fn applied(store: Seq<RecordView>, op: OperationView) -> (Seq<RecordView>, Reply) {
    match op {
        OperationView::Read(query) => (store, Ok(Some(selected(store, query)))),
        OperationView::Write(record) => if record.key.len() == 0 {
            (store, Err(StoreError::EmptyKey))
        } else {
            (upserted(store, record), Ok(None))
        },
    }
}

/// The queue to serve next, given how many messages wait in each and which
/// queue was served last: while both hold messages they take turns,
/// otherwise the one that holds any is served.
pub open spec fn next_lane(reads: nat, writes: nat, last: Lane) -> Option<Lane> {
    if reads > 0 && writes > 0 {
        Some(last.other())
    } else if reads > 0 {
        Some(Lane::Read)
    } else if writes > 0 {
        Some(Lane::Write)
    } else {
        None
    }
}

/// The queue to serve next, by the policy of [`next_lane`].
pub fn choose_lane(reads: usize, writes: usize, last: Lane) -> (lane: Option<Lane>)
    ensures
        lane == next_lane(reads as nat, writes as nat, last),
{
    if reads > 0 && writes > 0 {
        Some(last.opposite())
    } else if reads > 0 {
        Some(Lane::Read)
    } else if writes > 0 {
        Some(Lane::Write)
    } else {
        None
    }
}

/// Whether the actor still applies operations.
#[derive(Debug, Clone, Copy, PartialEq, Eq, Structural)]
pub enum ActorState {
    Running,
    /// Terminal: nothing is applied any more.
    Closed,
}

/// The store together with its owner's state.
pub struct Actor {
    store: Store,
    state: ActorState,
    last: Lane,
}

/// The mathematical content of an [`Actor`]: the records of its store, its
/// state, and the queue it served last.
pub struct ActorView {
    pub store: Seq<RecordView>,
    pub state: ActorState,
    pub last: Lane,
}

impl View for Actor {
    type V = ActorView;

    closed spec fn view(&self) -> ActorView {
        ActorView { store: self.store@, state: self.state, last: self.last }
    }
}

/// An answer on its way back: the outcome, and the caller that asked.
#[derive(Debug, PartialEq, Eq)]
pub struct Delivery {
    pub reply_to: u64,
    pub outcome: Outcome,
}

/// The mathematical content of a [`Delivery`].
pub struct DeliveryView {
    pub reply_to: u64,
    pub reply: Reply,
}

impl View for Delivery {
    type V = DeliveryView;

    open spec fn view(&self) -> DeliveryView {
        DeliveryView { reply_to: self.reply_to, reply: reply_of(self.outcome) }
    }
}

impl DeepView for Delivery {
    type V = DeliveryView;

    open spec fn deep_view(&self) -> DeliveryView {
        self@
    }
}

/// What one turn of the actor came to.
#[derive(Debug, PartialEq, Eq)]
pub enum Service {
    /// One message was applied; here is its answer.
    Delivered(Delivery),
    /// Both queues are empty; the actor waits.
    Idle,
    /// The actor is closed.
    Closed,
}

/// The mathematical content of a [`Service`].
pub enum ServiceView {
    Delivered(DeliveryView),
    Idle,
    Closed,
}

impl View for Service {
    type V = ServiceView;

    open spec fn view(&self) -> ServiceView {
        match self {
            Service::Delivered(delivery) => ServiceView::Delivered(delivery@),
            Service::Idle => ServiceView::Idle,
            Service::Closed => ServiceView::Closed,
        }
    }
}

/// One turn of the actor: its state, the queues and the result afterwards.
pub struct Turn {
    pub actor: ActorView,
    pub channels: ChannelsView,
    pub service: ServiceView,
}

/// One turn of an actor over the queues `channels`. A closed actor does
/// nothing. A running one serves the oldest message of the queue that
/// [`next_lane`] names. With both queues empty it waits while senders are
/// alive, and closes once they are gone.
pub open spec fn served(actor: ActorView, channels: ChannelsView, senders_alive: bool) -> Turn {
    if actor.state == ActorState::Closed {
        Turn { actor, channels, service: ServiceView::Closed }
    } else {
        match next_lane(channels.reads.len(), channels.writes.len(), actor.last) {
            Some(Lane::Read) => {
                let request = channels.reads[0];
                Turn {
                    actor: ActorView { last: Lane::Read, ..actor },
                    channels: ChannelsView { reads: channels.reads.drop_first(), ..channels },
                    service: ServiceView::Delivered(
                        DeliveryView {
                            reply_to: request.reply_to,
                            reply: applied(actor.store, OperationView::Read(request.query)).1,
                        },
                    ),
                }
            },
            Some(Lane::Write) => {
                let request = channels.writes[0];
                let outcome = applied(actor.store, OperationView::Write(request.record));
                Turn {
                    actor: ActorView { store: outcome.0, last: Lane::Write, ..actor },
                    channels: ChannelsView { writes: channels.writes.drop_first(), ..channels },
                    service: ServiceView::Delivered(
                        DeliveryView { reply_to: request.reply_to, reply: outcome.1 },
                    ),
                }
            },
            None => if senders_alive {
                Turn { actor, channels, service: ServiceView::Idle }
            } else {
                Turn {
                    actor: ActorView { state: ActorState::Closed, ..actor },
                    channels,
                    service: ServiceView::Closed,
                }
            },
        }
    }
}

/// A run of turns until the actor finds nothing to serve: its state, the
/// queues and the answers afterwards.
pub struct Drain {
    pub actor: ActorView,
    pub channels: ChannelsView,
    pub deliveries: Seq<DeliveryView>,
}

/// Turn after turn, as [`served`] takes them, until a turn delivers
/// nothing. The answers stand in the order in which the messages were
/// served.
pub open spec fn drained(actor: ActorView, channels: ChannelsView) -> Drain
    decreases channels.reads.len() + channels.writes.len(),
{
    let turn = served(actor, channels, true);
    match turn.service {
        ServiceView::Delivered(delivery) => {
            let rest = drained(turn.actor, turn.channels);
            Drain { deliveries: seq![delivery] + rest.deliveries, ..rest }
        },
        _ => Drain { actor, channels, deliveries: Seq::empty() },
    }
}

/// Opens the store: an actor that is running, over an empty store. When
/// both queues hold messages it starts with the read queue.
pub fn db_open() -> (actor: Actor)
    ensures
        actor@ == (ActorView {
            store: Seq::<RecordView>::empty(),
            state: ActorState::Running,
            last: Lane::Write,
        }),
{
    Actor { store: Store::new(), state: ActorState::Running, last: Lane::Write }
}

impl Actor {
    /// Whether the actor still applies operations.
    pub fn is_running(&self) -> (running: bool)
        ensures
            running == (self@.state == ActorState::Running),
    {
        self.state == ActorState::Running
    }

    /// The number of records in the store.
    pub fn record_count(&self) -> (n: usize)
        ensures
            n == self@.store.len(),
    {
        self.store.len()
    }

    /// Closes the actor for good. The store keeps its records; nothing is
    /// applied to it any more.
    pub fn shutdown(&mut self)
        ensures
            final(self)@ == (ActorView { state: ActorState::Closed, ..old(self)@ }),
    {
        self.state = ActorState::Closed;
    }

    /// Applies one operation to the store. A closed actor applies nothing
    /// and says so.
    pub fn apply(&mut self, op: Operation) -> (outcome: Outcome)
        ensures
            old(self)@.state == ActorState::Closed ==> final(self)@ == old(self)@ && outcome
                == Outcome::Err(StoreError::Closed),
            old(self)@.state == ActorState::Running ==> final(self)@ == (ActorView {
                store: applied(old(self)@.store, op@).0,
                ..old(self)@
            }) && reply_of(outcome) == applied(old(self)@.store, op@).1,
            valid_store(final(self)@.store),
    {
        proof {
            use_type_invariant(&self.store);
        }
        if self.state == ActorState::Closed {
            return Err(StoreError::Closed);
        }
        match op {
            Operation::Read(query) => Ok(Some(self.store.select(&query))),
            Operation::Write(record) => match self.store.insert(record) {
                Ok(()) => Ok(None),
                Err(error) => Err(error),
            },
        }
    }

    /// Takes one turn: serves the oldest message of the queue whose turn it
    /// is, if any message waits. `senders_alive` says whether anyone can
    /// still send; with both queues empty and no sender left the actor
    /// closes.
    pub fn serve(&mut self, channels: &mut Channels, senders_alive: bool) -> (service: Service)
        ensures
            final(self)@ == served(old(self)@, old(channels)@, senders_alive).actor,
            final(channels)@ == served(old(self)@, old(channels)@, senders_alive).channels,
            service@ == served(old(self)@, old(channels)@, senders_alive).service,
            valid_store(final(self)@.store),
    {
        proof {
            use_type_invariant(&self.store);
        }
        if self.state == ActorState::Closed {
            return Service::Closed;
        }
        match choose_lane(channels.reads_waiting(), channels.writes_waiting(), self.last) {
            Some(Lane::Read) => {
                match channels.recv_select() {
                    Some(request) => {
                        let outcome = self.apply(Operation::Read(request.query));
                        self.last = Lane::Read;
                        Service::Delivered(Delivery { reply_to: request.reply_to, outcome })
                    },
                    None => Service::Idle,
                }
            },
            Some(Lane::Write) => {
                match channels.recv_write() {
                    Some(request) => {
                        let outcome = self.apply(Operation::Write(request.record));
                        self.last = Lane::Write;
                        Service::Delivered(Delivery { reply_to: request.reply_to, outcome })
                    },
                    None => Service::Idle,
                }
            },
            None => {
                if senders_alive {
                    Service::Idle
                } else {
                    self.state = ActorState::Closed;
                    Service::Closed
                }
            },
        }
    }

    /// Serves both queues until they are empty, and returns the answers in
    /// the order in which the messages were served. A closed actor serves
    /// nothing and leaves the queues as they are.
    pub fn drain(&mut self, channels: &mut Channels) -> (deliveries: Vec<Delivery>)
        ensures
            final(self)@ == drained(old(self)@, old(channels)@).actor,
            final(channels)@ == drained(old(self)@, old(channels)@).channels,
            deliveries.deep_view() == drained(old(self)@, old(channels)@).deliveries,
            valid_store(final(self)@.store),
    {
        proof {
            use_type_invariant(&self.store);
        }
        let ghost whole = drained(self@, channels@);
        let mut deliveries: Vec<Delivery> = Vec::new();
        loop
            invariant
                valid_store(self@.store),
                whole.actor == drained(self@, channels@).actor,
                whole.channels == drained(self@, channels@).channels,
                whole.deliveries == deliveries.deep_view() + drained(self@, channels@).deliveries,
            ensures
                valid_store(self@.store),
                whole.actor == self@,
                whole.channels == channels@,
                whole.deliveries == deliveries.deep_view(),
            decreases channels@.reads.len() + channels@.writes.len(),
        {
            match self.serve(channels, true) {
                Service::Delivered(delivery) => {
                    deliveries.push(delivery);
                    assert(whole.deliveries =~= deliveries.deep_view() + drained(
                        self@,
                        channels@,
                    ).deliveries);
                },
                _ => {
                    break ;
                },
            }
        }
        deliveries
    }
}

/// A store and the answers it gave.
pub struct Run {
    pub store: Seq<RecordView>,
    pub replies: Seq<Reply>,
}

/// The store after the operations `ops` were applied to `store` one after
/// the other, and the answer to each.
pub open spec fn run(store: Seq<RecordView>, ops: Seq<OperationView>) -> Run
    decreases ops.len(),
{
    if ops.len() == 0 {
        Run { store, replies: Seq::empty() }
    } else {
        let before = run(store, ops.drop_last());
        let last = applied(before.store, ops.last());
        Run { store: last.0, replies: before.replies.push(last.1) }
    }
}

/// Whether `op` writes a record under the key `key`.
pub open spec fn writes_key(op: OperationView, key: Seq<char>) -> bool {
    op matches OperationView::Write(record) && record.key == key
}

/// Every operation gets one answer.
pub proof fn lemma_run_answers_each(store: Seq<RecordView>, ops: Seq<OperationView>)
    ensures
        run(store, ops).replies.len() == ops.len(),
    decreases ops.len(),
{
    if ops.len() > 0 {
        lemma_run_answers_each(store, ops.drop_last());
    }
}

/// Operations keep a valid store valid.
pub proof fn lemma_run_keeps_valid(store: Seq<RecordView>, ops: Seq<OperationView>)
    requires
        valid_store(store),
    ensures
        valid_store(run(store, ops).store),
    decreases ops.len(),
{
    if ops.len() > 0 {
        lemma_run_keeps_valid(store, ops.drop_last());
        if let OperationView::Write(record) = ops.last() {
            if record.key.len() > 0 {
                lemma_upserted_is_valid(run(store, ops.drop_last()).store, record);
            }
        }
    }
}

/// A write is neither lost nor overtaken: once a record with a key has been
/// written, a read of its key returns exactly that record, whatever else
/// was applied in between, until the key is written again.
pub proof fn lemma_read_observes_write(
    store: Seq<RecordView>,
    ops: Seq<OperationView>,
    i: int,
    record: RecordView,
)
    requires
        valid_store(store),
        0 <= i < ops.len(),
        ops[i] == OperationView::Write(record),
        record.key.len() > 0,
        forall|j: int| i < j < ops.len() ==> !writes_key(#[trigger] ops[j], record.key),
    ensures
        run(store, ops).replies[i] == Reply::Ok(None),
        applied(run(store, ops).store, OperationView::Read(QueryView::Key(record.key))).1
            == Reply::Ok(Some(seq![record])),
{
    lemma_write_stays(store, ops, i, record);
    lemma_run_answers_each(store, ops);
    lemma_run_keeps_valid(store, ops);
    lemma_selected_by_key(run(store, ops).store, record.key);
}

proof fn lemma_write_stays(
    store: Seq<RecordView>,
    ops: Seq<OperationView>,
    i: int,
    record: RecordView,
)
    requires
        valid_store(store),
        0 <= i < ops.len(),
        ops[i] == OperationView::Write(record),
        record.key.len() > 0,
        forall|j: int| i < j < ops.len() ==> !writes_key(#[trigger] ops[j], record.key),
    ensures
        run(store, ops).replies.len() == ops.len(),
        run(store, ops).replies[i] == Reply::Ok(None),
        exists|p: int|
            0 <= p < run(store, ops).store.len() && #[trigger] run(store, ops).store[p] == record,
    decreases ops.len(),
{
    let earlier = ops.drop_last();
    let before = run(store, earlier);
    let after = run(store, ops);
    lemma_run_keeps_valid(store, earlier);
    lemma_run_answers_each(store, earlier);
    if i == ops.len() - 1 {
        lemma_upserted_holds_record(before.store, record);
        let p = choose|p: int|
            0 <= p < upserted(before.store, record).len() && #[trigger] upserted(
                before.store,
                record,
            )[p] == record;
        assert(after.store[p] == record);
    } else {
        lemma_write_stays(store, earlier, i, record);
        let p = choose|p: int| 0 <= p < before.store.len() && #[trigger] before.store[p] == record;
        match ops.last() {
            OperationView::Read(_) => {},
            OperationView::Write(other) => {
                if other.key.len() > 0 {
                    lemma_upserted_keeps_others(before.store, other, p);
                }
            },
        }
        assert(0 <= p < after.store.len() && after.store[p] == record);
    }
}

/// Reads change nothing and do not depend on one another: after any number
/// of reads the store is what it was, and each read got the answer it would
/// have got alone. In whatever order reads are served, each gets the same
/// answer.
pub proof fn lemma_reads_are_independent(store: Seq<RecordView>, ops: Seq<OperationView>)
    requires
        forall|j: int| 0 <= j < ops.len() ==> #[trigger] ops[j] is Read,
    ensures
        run(store, ops).store == store,
        run(store, ops).replies.len() == ops.len(),
        forall|j: int|
            0 <= j < ops.len() ==> #[trigger] run(store, ops).replies[j] == applied(
                store,
                ops[j],
            ).1,
    decreases ops.len(),
{
    if ops.len() > 0 {
        lemma_reads_are_independent(store, ops.drop_last());
    }
}

/// Every operation is idempotent. A read changes nothing. A write puts its
/// record in place of whatever its key held, so writing the same record
/// again finds it there and leaves the store as the first write left it,
/// with the same answer.
pub proof fn lemma_apply_is_idempotent(store: Seq<RecordView>, op: OperationView)
    ensures
        applied(applied(store, op).0, op) == applied(store, op),
{
    if let OperationView::Write(record) = op {
        if record.key.len() > 0 {
            lemma_upserted_holds_record(store, record);
        }
    }
}

/// A running actor that drains the queues answers every message once and
/// leaves both queues empty; a closed one touches nothing.
pub proof fn lemma_drain_answers_every_message(actor: ActorView, channels: ChannelsView)
    ensures
        actor.state == ActorState::Running ==> {
            &&& drained(actor, channels).actor.state == ActorState::Running
            &&& drained(actor, channels).channels.reads.len() == 0
            &&& drained(actor, channels).channels.writes.len() == 0
            &&& drained(actor, channels).deliveries.len() == channels.reads.len()
                + channels.writes.len()
        },
        actor.state == ActorState::Closed ==> drained(actor, channels) == (Drain {
            actor,
            channels,
            deliveries: Seq::empty(),
        }),
    decreases channels.reads.len() + channels.writes.len(),
{
    let turn = served(actor, channels, true);
    if turn.service is Delivered {
        lemma_drain_answers_every_message(turn.actor, turn.channels);
    }
}

/// Applying `op` and then `rest` is applying them all: the first answer is
/// that of `op`, the others follow.
pub proof fn lemma_run_from_front(
    store: Seq<RecordView>,
    op: OperationView,
    rest: Seq<OperationView>,
)
    ensures
        run(store, seq![op] + rest).store == run(applied(store, op).0, rest).store,
        run(store, seq![op] + rest).replies == seq![applied(store, op).1] + run(
            applied(store, op).0,
            rest,
        ).replies,
    decreases rest.len(),
{
    let all = seq![op] + rest;
    if rest.len() == 0 {
        assert(run(store, all.drop_last()) == (Run { store, replies: Seq::empty() }));
        assert(run(store, all).replies =~= seq![applied(store, op).1] + run(
            applied(store, op).0,
            rest,
        ).replies);
    } else {
        assert(all.drop_last() =~= seq![op] + rest.drop_last());
        lemma_run_from_front(store, op, rest.drop_last());
        assert(run(store, all).replies =~= seq![applied(store, op).1] + run(
            applied(store, op).0,
            rest,
        ).replies);
    }
}

/// The operations that the messages of a write queue stand for, oldest
/// first.
pub open spec fn write_ops(writes: Seq<WriteRequestView>) -> Seq<OperationView> {
    writes.map_values(|request: WriteRequestView| OperationView::Write(request.record))
}

/// The write queue is served first in, first out: with no read waiting, a
/// drain applies the records in the order in which they were sent, and
/// answers each sender in that order.
pub proof fn lemma_writes_are_served_in_order(actor: ActorView, channels: ChannelsView)
    requires
        actor.state == ActorState::Running,
        channels.reads.len() == 0,
    ensures
        drained(actor, channels).actor.store == run(actor.store, write_ops(channels.writes)).store,
        drained(actor, channels).deliveries.len() == channels.writes.len(),
        forall|i: int|
            0 <= i < channels.writes.len() ==> #[trigger] drained(actor, channels).deliveries[i]
                == (DeliveryView {
                reply_to: channels.writes[i].reply_to,
                reply: run(actor.store, write_ops(channels.writes)).replies[i],
            }),
    decreases channels.writes.len(),
{
    let writes = channels.writes;
    lemma_run_answers_each(actor.store, write_ops(writes));
    if writes.len() > 0 {
        let turn = served(actor, channels, true);
        let first = OperationView::Write(writes[0].record);
        let rest = writes.drop_first();
        lemma_writes_are_served_in_order(turn.actor, turn.channels);
        assert(write_ops(writes) =~= seq![first] + write_ops(rest));
        lemma_run_from_front(actor.store, first, write_ops(rest));
        lemma_run_answers_each(turn.actor.store, write_ops(rest));
    }
}

/// Reads are served alike wherever they stand in the queue: with no write
/// waiting, a drain leaves the store as it was and answers each read, in the
/// order in which the reads were sent, with what its query selects from
/// that store.
pub proof fn lemma_reads_are_served_alike(actor: ActorView, channels: ChannelsView)
    requires
        actor.state == ActorState::Running,
        channels.writes.len() == 0,
    ensures
        drained(actor, channels).actor.store == actor.store,
        drained(actor, channels).deliveries.len() == channels.reads.len(),
        forall|i: int|
            0 <= i < channels.reads.len() ==> #[trigger] drained(actor, channels).deliveries[i]
                == (DeliveryView {
                reply_to: channels.reads[i].reply_to,
                reply: Ok(Some(selected(actor.store, channels.reads[i].query))),
            }),
    decreases channels.reads.len(),
{
    let reads = channels.reads;
    if reads.len() > 0 {
        let turn = served(actor, channels, true);
        lemma_reads_are_served_alike(turn.actor, turn.channels);
    }
}

/// A request sent while nothing else waits is answered to its sender, with
/// what applying its operation to the store gives.
pub proof fn lemma_lone_request_is_answered(actor: ActorView, op: OperationView, reply_to: u64)
    requires
        actor.state == ActorState::Running,
    ensures
        ({
            let idle = ChannelsView { reads: Seq::empty(), writes: Seq::empty() };
            let after = drained(actor, dispatched(idle, op, reply_to));
            &&& after.actor.store == applied(actor.store, op).0
            &&& after.channels == idle
            &&& after.deliveries == seq![
                DeliveryView { reply_to, reply: applied(actor.store, op).1 },
            ]
        }),
{
    let idle = ChannelsView { reads: Seq::<SelectRequestView>::empty(), writes: Seq::empty() };
    let sent = dispatched(idle, op, reply_to);
    let turn = served(actor, sent, true);
    assert(turn.channels.reads =~= idle.reads);
    assert(turn.channels.writes =~= idle.writes);
    assert(drained(turn.actor, turn.channels).deliveries =~= Seq::<DeliveryView>::empty());
    assert(drained(actor, sent).deliveries =~= seq![
        DeliveryView { reply_to, reply: applied(actor.store, op).1 },
    ]);
}

/// While both queues hold messages neither is served twice in a row.
pub proof fn lemma_lanes_take_turns(actor: ActorView, channels: ChannelsView)
    requires
        actor.state == ActorState::Running,
        channels.reads.len() >= 2,
        channels.writes.len() >= 2,
    ensures
        ({
            let first = served(actor, channels, true);
            let second = served(first.actor, first.channels, true);
            &&& first.actor.last == actor.last.other()
            &&& second.actor.last == actor.last
            &&& first.service is Delivered
            &&& second.service is Delivered
        }),
{
}

} // verus!

//! Operations, and the messages that carry them to the store.

use vstd::prelude::*;
use vstd::string::*;
use crate::record::{Record, RecordView};
use crate::transport::{
    Channels, ChannelsView, Lane, SelectRequest, SelectRequestView, WriteRequest,
    WriteRequestView,
};

verus! {

/// Which records a read asks for.
#[derive(Debug, Clone, PartialEq, Eq)]
pub enum Query {
    /// Every record.
    All,
    /// The record stored under this key, if there is one.
    Key(String),
}

/// The mathematical content of a [`Query`].
pub enum QueryView {
    All,
    Key(Seq<char>),
}

impl View for Query {
    type V = QueryView;

    open spec fn view(&self) -> QueryView {
        match self {
            Query::All => QueryView::All,
            Query::Key(key) => QueryView::Key(key@),
        }
    }
}

/// One client request.
#[derive(Debug, Clone, PartialEq, Eq)]
pub enum Operation {
    /// Asks for records; changes nothing.
    Read(Query),
    /// Stores a record under its key, in place of any record already there.
    Write(Record),
}

/// The mathematical content of an [`Operation`].
pub enum OperationView {
    Read(QueryView),
    Write(RecordView),
}

impl View for Operation {
    type V = OperationView;

    open spec fn view(&self) -> OperationView {
        match self {
            Operation::Read(query) => OperationView::Read(query@),
            Operation::Write(record) => OperationView::Write(record@),
        }
    }
}

/// The queue that carries `op`: reads and writes travel apart.
pub open spec fn lane_of(op: OperationView) -> Lane {
    match op {
        OperationView::Read(_) => Lane::Read,
        OperationView::Write(_) => Lane::Write,
    }
}

impl Operation {
    /// The queue that carries this operation.
    pub fn lane(&self) -> (lane: Lane)
        ensures
            lane == lane_of(self@),
    {
        match self {
            Operation::Read(_) => Lane::Read,
            Operation::Write(_) => Lane::Write,
        }
    }
}

/// The queues after `op` was sent on behalf of the caller `reply_to`: one
/// message more at the back of the queue of its kind, the other queue
/// untouched.
pub open spec fn dispatched(channels: ChannelsView, op: OperationView, reply_to: u64)
    -> ChannelsView {
    match op {
        OperationView::Read(query) => ChannelsView {
            reads: channels.reads.push(SelectRequestView { query, reply_to }),
            writes: channels.writes,
        },
        OperationView::Write(record) => ChannelsView {
            reads: channels.reads,
            writes: channels.writes.push(WriteRequestView { record, reply_to }),
        },
    }
}

/// Sends `op` towards the store on behalf of the caller `reply_to`, and
/// says on which queue it went. The answer comes back from the actor, under
/// the same `reply_to`, once the message has been served.
pub fn execute(op: Operation, reply_to: u64, channels: &mut Channels) -> (lane: Lane)
    ensures
        lane == lane_of(op@),
        final(channels)@ == dispatched(old(channels)@, op@, reply_to),
{
    match op {
        Operation::Read(query) => {
            channels.send_select(SelectRequest { query, reply_to });
            Lane::Read
        },
        Operation::Write(record) => {
            channels.send_write(WriteRequest { record, reply_to });
            Lane::Write
        },
    }
}

} // verus!

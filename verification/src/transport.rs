//! The channel transport: two first-in, first-out queues that carry requests
//! from the connections to the store actor, one for reads and one for
//! writes. Nothing orders the two queues against each other.

use std::collections::VecDeque;
use vstd::prelude::*;
use crate::execute::{Query, QueryView};
use crate::record::{Record, RecordView};

verus! {

/// One of the two queues.
#[derive(Debug, Clone, Copy, PartialEq, Eq, Structural)]
pub enum Lane {
    Read,
    Write,
}

impl Lane {
    /// The other queue.
    pub open spec fn other(self) -> Lane {
        match self {
            Lane::Read => Lane::Write,
            Lane::Write => Lane::Read,
        }
    }

    /// The other queue.
    pub fn opposite(self) -> (lane: Lane)
        ensures
            lane == self.other(),
    {
        match self {
            Lane::Read => Lane::Write,
            Lane::Write => Lane::Read,
        }
    }
}

/// A message of the read queue: a query, and where its answer goes.
#[derive(Debug, Clone, PartialEq, Eq)]
pub struct SelectRequest {
    pub query: Query,
    pub reply_to: u64,
}

/// The mathematical content of a [`SelectRequest`].
pub struct SelectRequestView {
    pub query: QueryView,
    pub reply_to: u64,
}

impl View for SelectRequest {
    type V = SelectRequestView;

    open spec fn view(&self) -> SelectRequestView {
        SelectRequestView { query: self.query@, reply_to: self.reply_to }
    }
}

impl DeepView for SelectRequest {
    type V = SelectRequestView;

    open spec fn deep_view(&self) -> SelectRequestView {
        self@
    }
}

/// A message of the write queue: a record, and where its acknowledgement
/// goes.
#[derive(Debug, Clone, PartialEq, Eq)]
pub struct WriteRequest {
    pub record: Record,
    pub reply_to: u64,
}

/// The mathematical content of a [`WriteRequest`].
pub struct WriteRequestView {
    pub record: RecordView,
    pub reply_to: u64,
}

impl View for WriteRequest {
    type V = WriteRequestView;

    open spec fn view(&self) -> WriteRequestView {
        WriteRequestView { record: self.record@, reply_to: self.reply_to }
    }
}

impl DeepView for WriteRequest {
    type V = WriteRequestView;

    open spec fn deep_view(&self) -> WriteRequestView {
        self@
    }
}

/// The two queues.
pub struct Channels {
    reads: VecDeque<SelectRequest>,
    writes: VecDeque<WriteRequest>,
}

/// The mathematical content of [`Channels`]: the messages waiting in each
/// queue, oldest first.
pub struct ChannelsView {
    pub reads: Seq<SelectRequestView>,
    pub writes: Seq<WriteRequestView>,
}

impl View for Channels {
    type V = ChannelsView;

    closed spec fn view(&self) -> ChannelsView {
        ChannelsView { reads: self.reads.deep_view(), writes: self.writes.deep_view() }
    }
}

impl Channels {
    /// Two empty queues.
    pub fn new() -> (channels: Channels)
        ensures
            channels@.reads == Seq::<SelectRequestView>::empty(),
            channels@.writes == Seq::<WriteRequestView>::empty(),
    {
        Channels { reads: VecDeque::new(), writes: VecDeque::new() }
    }

    /// The number of messages waiting in the read queue.
    pub fn reads_waiting(&self) -> (n: usize)
        ensures
            n == self@.reads.len(),
    {
        self.reads.len()
    }

    /// The number of messages waiting in the write queue.
    pub fn writes_waiting(&self) -> (n: usize)
        ensures
            n == self@.writes.len(),
    {
        self.writes.len()
    }

    /// Puts a message at the back of the read queue.
    pub fn send_select(&mut self, request: SelectRequest)
        ensures
            final(self)@.reads == old(self)@.reads.push(request@),
            final(self)@.writes == old(self)@.writes,
    {
        self.reads.push_back(request);
    }

    /// Puts a message at the back of the write queue.
    pub fn send_write(&mut self, request: WriteRequest)
        ensures
            final(self)@.writes == old(self)@.writes.push(request@),
            final(self)@.reads == old(self)@.reads,
    {
        self.writes.push_back(request);
    }

    /// Takes the oldest message of the read queue, if there is one.
    pub fn recv_select(&mut self) -> (request: Option<SelectRequest>)
        ensures
            final(self)@.writes == old(self)@.writes,
            match request {
                Some(oldest) => old(self)@.reads.len() > 0 && oldest@ == old(self)@.reads[0]
                    && final(self)@.reads == old(self)@.reads.drop_first(),
                None => old(self)@.reads.len() == 0 && final(self)@.reads == old(self)@.reads,
            },
    {
        self.reads.pop_front()
    }

    /// Takes the oldest message of the write queue, if there is one.
    pub fn recv_write(&mut self) -> (request: Option<WriteRequest>)
        ensures
            final(self)@.reads == old(self)@.reads,
            match request {
                Some(oldest) => old(self)@.writes.len() > 0 && oldest@ == old(self)@.writes[0]
                    && final(self)@.writes == old(self)@.writes.drop_first(),
                None => old(self)@.writes.len() == 0 && final(self)@.writes == old(self)@.writes,
            },
    {
        self.writes.pop_front()
    }
}

} // verus!

//! The serving side of a connection: what is sent back for a request, and
//! the protocol that one connection follows from its first byte to its close.

use vstd::prelude::*;
use vstd::string::*;
use vstd::utf8::*;
use crate::actor::Outcome;
use crate::codec::{
    decode_frame, decoding_of, encode_frame, frame_of, lemma_frame_round_trip,
    lemma_partial_frame_is_incomplete, Decoded, Decoding,
};
use crate::execute::Operation;
use crate::record::{Record, RecordView, StoreError};
use crate::text::{debug_quote, debug_text, decimal_of, push_decimal};

verus! {

/// One record as it appears in a reply.
pub open spec fn record_text(record: RecordView) -> Seq<char> {
    "Record { key: "@ + debug_text(record.key) + ", value: "@ + decimal_of(record.value as int)
        + " }"@
}

/// The records of a reply in their given order, separated by a comma and a
/// space.
pub open spec fn listed(records: Seq<RecordView>) -> Seq<char>
    decreases records.len(),
{
    if records.len() == 0 {
        Seq::empty()
    } else if records.len() == 1 {
        record_text(records[0])
    } else {
        listed(records.drop_last()) + ", "@ + record_text(records.last())
    }
}

/// A sequence of records as it appears in a reply: the records in their
/// given order, between square brackets.
pub open spec fn records_text(records: Seq<RecordView>) -> Seq<char> {
    "["@ + listed(records) + "]"@
}

/// The reply to an operation that came back from the store with `outcome`.
pub open spec fn reply_text(outcome: Result<Option<Vec<Record>>, StoreError>) -> Seq<char> {
    match outcome {
        Ok(Some(records)) => records_text(records.deep_view()),
        Ok(None) => "Operation completed"@,
        Err(error) => "Error: "@ + error.message_text(),
    }
}

/// The reply to a request whose text is no operation.
pub open spec fn unrecognized_text(request: Seq<char>) -> Seq<char> {
    "Unrecognized input: "@ + request
}

fn push_record(out: &mut String, record: &Record)
    ensures
        final(out)@ == old(out)@ + record_text(record@),
{
    out.append("Record { key: ");
    let key = debug_quote(record.key.as_str());
    out.append(key.as_str());
    out.append(", value: ");
    push_decimal(out, record.value);
    out.append(" }");
}

/// Renders the records that a read returned, in the order in which the
/// store returned them.
pub fn postprocess(result: Vec<Record>) -> (text: String)
    ensures
        text@ == records_text(result.deep_view()),
{
    let ghost views = result.deep_view();
    let mut out = String::from_str("[");
    let mut i: usize = 0;
    while i < result.len()
        invariant
            i <= result.len(),
            views == result.deep_view(),
            out@ == "["@ + listed(views.take(i as int)),
        decreases result.len() - i,
    {
        if i > 0 {
            out.append(", ");
        }
        push_record(&mut out, &result[i]);
        assert(views.take(i + 1).drop_last() =~= views.take(i as int));
        i += 1;
    }
    out.append("]");
    assert(views.take(i as int) =~= views);
    out
}

/// Renders the outcome of an operation as the text of its reply.
pub fn render(outcome: Result<Option<Vec<Record>>, StoreError>) -> (text: String)
    ensures
        text@ == reply_text(outcome),
{
    match outcome {
        Ok(Some(records)) => postprocess(records),
        Ok(None) => String::from_str("Operation completed"),
        Err(error) => {
            let mut out = String::from_str("Error: ");
            let message = error.message();
            out.append(message.as_str());
            out
        },
    }
}

/// The reply to a request whose text is no operation: it names the text.
pub fn unrecognized(request: &str) -> (text: String)
    ensures
        text@ == unrecognized_text(request@),
{
    let mut out = String::from_str("Unrecognized input: ");
    out.append(request);
    out
}

/// Where a connection stands between two steps.
#[derive(Debug, Clone, Copy, PartialEq, Eq, Structural)]
pub enum Phase {
    /// Waiting for the bytes of the next request.
    Receiving,
    /// A request has arrived in full; its text is being decoded.
    Parsing,
    /// An operation is with the store; its outcome is awaited.
    Executing,
    /// A reply is being written.
    Replying,
    /// Terminal: the connection is over.
    Closed,
}

/// What happened on the connection since the last step.
#[derive(Debug, PartialEq, Eq)]
pub enum Event {
    /// Bytes were read from the stream.
    Received(Vec<u8>),
    /// The stream ended or failed, while reading or while writing.
    Disconnected,
    /// The text handed out for decoding is this operation, or none.
    Parsed(Option<Operation>),
    /// The store answered the operation handed out for execution.
    Completed(Outcome),
    /// The reply handed out for sending was written in full.
    Sent,
}

/// What the handler of the connection has to do next.
#[derive(Debug, PartialEq, Eq)]
pub enum Action {
    /// Read more bytes from the stream.
    Receive,
    /// Decode this text into an operation.
    Parse(String),
    /// Send this operation to the store and wait for its outcome.
    Execute(Operation),
    /// Write these bytes, one reply frame, to the stream.
    Send(Vec<u8>),
    /// Shut the stream down.
    Close,
}

/// The mathematical content of an [`Action`].
pub enum ActionView {
    Receive,
    Parse(Seq<char>),
    Execute(Operation),
    Send(Seq<u8>),
    Close,
}

impl View for Action {
    type V = ActionView;

    open spec fn view(&self) -> ActionView {
        match self {
            Action::Receive => ActionView::Receive,
            Action::Parse(text) => ActionView::Parse(text@),
            Action::Execute(op) => ActionView::Execute(*op),
            Action::Send(bytes) => ActionView::Send(bytes@),
            Action::Close => ActionView::Close,
        }
    }
}

/// One connection: its phase, the bytes received and not yet consumed by a
/// frame, and the text of the request that is being decoded.
pub struct Connection {
    phase: Phase,
    inbox: Vec<u8>,
    request: String,
}

/// The mathematical content of a [`Connection`].
pub struct ConnectionView {
    pub phase: Phase,
    pub inbox: Seq<u8>,
    pub request: Seq<char>,
}

impl View for Connection {
    type V = ConnectionView;

    closed spec fn view(&self) -> ConnectionView {
        ConnectionView { phase: self.phase, inbox: self.inbox@, request: self.request@ }
    }
}

/// One step of a connection: its state afterwards, and what to do next.
pub struct Step {
    pub connection: ConnectionView,
    pub action: ActionView,
}

/// A connection that waits for its first request.
pub open spec fn fresh() -> ConnectionView {
    ConnectionView { phase: Phase::Receiving, inbox: Seq::empty(), request: Seq::empty() }
}

/// The end of a connection: whatever was buffered is dropped.
pub open spec fn closing() -> Step {
    Step {
        connection: ConnectionView {
            phase: Phase::Closed,
            inbox: Seq::empty(),
            request: Seq::empty(),
        },
        action: ActionView::Close,
    }
}

/// A connection that turns to its next request with `inbox` received so
/// far. A whole frame at the front is taken out and its text handed out for
/// decoding; a frame still in part waits for more bytes; bytes that are no
/// frame end the connection.
pub open spec fn resumed(inbox: Seq<u8>) -> Step {
    match decoding_of(inbox) {
        Decoding::Incomplete => Step {
            connection: ConnectionView { phase: Phase::Receiving, inbox, request: Seq::empty() },
            action: ActionView::Receive,
        },
        Decoding::Frame { text, consumed } => Step {
            connection: ConnectionView {
                phase: Phase::Parsing,
                inbox: inbox.skip(consumed),
                request: text,
            },
            action: ActionView::Parse(text),
        },
        Decoding::Malformed => closing(),
    }
}

/// The protocol of one connection: receive a request, decode it, execute
/// it, reply, and turn to the next. Text that is no operation is answered
/// and costs nothing else. The end of the stream, and any event that the
/// phase does not wait for, ends the connection.
pub open spec fn stepped(connection: ConnectionView, event: Event) -> Step {
    match (connection.phase, event) {
        (Phase::Receiving, Event::Received(bytes)) => resumed(connection.inbox + bytes@),
        (Phase::Parsing, Event::Parsed(Some(op))) => Step {
            connection: ConnectionView {
                phase: Phase::Executing,
                inbox: connection.inbox,
                request: Seq::empty(),
            },
            action: ActionView::Execute(op),
        },
        (Phase::Parsing, Event::Parsed(None)) => Step {
            connection: ConnectionView {
                phase: Phase::Replying,
                inbox: connection.inbox,
                request: Seq::empty(),
            },
            action: ActionView::Send(frame_of(unrecognized_text(connection.request))),
        },
        (Phase::Executing, Event::Completed(outcome)) => Step {
            connection: ConnectionView {
                phase: Phase::Replying,
                inbox: connection.inbox,
                request: Seq::empty(),
            },
            action: ActionView::Send(frame_of(reply_text(outcome))),
        },
        (Phase::Replying, Event::Sent) => resumed(connection.inbox),
        _ => closing(),
    }
}

impl Connection {
    /// A connection that waits for its first request: its handler starts by
    /// receiving.
    pub fn new() -> (connection: Connection)
        ensures
            connection@ == fresh(),
    {
        Connection { phase: Phase::Receiving, inbox: Vec::new(), request: String::new() }
    }

    /// The phase the connection is in.
    pub fn phase(&self) -> (phase: Phase)
        ensures
            phase == self@.phase,
    {
        self.phase
    }

    /// Whether the connection is over.
    pub fn is_closed(&self) -> (closed: bool)
        ensures
            closed == (self@.phase == Phase::Closed),
    {
        self.phase == Phase::Closed
    }

    fn close(&mut self) -> (action: Action)
        ensures
            final(self)@ == closing().connection,
            action@ == closing().action,
    {
        self.phase = Phase::Closed;
        self.inbox = Vec::new();
        self.request = String::new();
        Action::Close
    }

    fn reply(&mut self, text: String) -> (action: Action)
        ensures
            final(self)@ == (ConnectionView {
                phase: Phase::Replying,
                inbox: old(self)@.inbox,
                request: Seq::empty(),
            }),
            action@ == ActionView::Send(frame_of(text@)),
    {
        self.phase = Phase::Replying;
        self.request = String::new();
        Action::Send(encode_frame(&text))
    }

    fn resume(&mut self) -> (action: Action)
        ensures
            final(self)@ == resumed(old(self)@.inbox).connection,
            action@ == resumed(old(self)@.inbox).action,
    {
        match decode_frame(self.inbox.as_slice()) {
            Decoded::Incomplete => {
                self.phase = Phase::Receiving;
                self.request = String::new();
                Action::Receive
            },
            Decoded::Frame { text, consumed } => {
                let rest = self.inbox.split_off(consumed);
                self.inbox = rest;
                self.phase = Phase::Parsing;
                self.request = text.clone();
                Action::Parse(text)
            },
            Decoded::Malformed => self.close(),
        }
    }

    /// Takes one step of the protocol: takes in what happened, and says
    /// what to do next.
    pub fn step(&mut self, event: Event) -> (action: Action)
        ensures
            final(self)@ == stepped(old(self)@, event).connection,
            action@ == stepped(old(self)@, event).action,
    {
        match self.phase {
            Phase::Receiving => match event {
                Event::Received(bytes) => {
                    let mut bytes = bytes;
                    self.inbox.append(&mut bytes);
                    self.resume()
                },
                _ => self.close(),
            },
            Phase::Parsing => match event {
                Event::Parsed(Some(op)) => {
                    self.phase = Phase::Executing;
                    self.request = String::new();
                    Action::Execute(op)
                },
                Event::Parsed(None) => {
                    let text = unrecognized(self.request.as_str());
                    self.reply(text)
                },
                _ => self.close(),
            },
            Phase::Executing => match event {
                Event::Completed(outcome) => {
                    let text = render(outcome);
                    self.reply(text)
                },
                _ => self.close(),
            },
            Phase::Replying => match event {
                Event::Sent => self.resume(),
                _ => self.close(),
            },
            Phase::Closed => self.close(),
        }
    }
}

/// Text that is no operation costs a reply and nothing else. The connection
/// answers with the text it could not read, stays open with its buffer
/// untouched, and once the reply is written it stands exactly where it
/// stands after any request that the store answered.
pub proof fn lemma_unrecognized_input_costs_a_reply(
    connection: ConnectionView,
    op: Operation,
    outcome: Outcome,
)
    requires
        connection.phase == Phase::Parsing,
    ensures
        stepped(connection, Event::Parsed(None)).action == ActionView::Send(
            frame_of(unrecognized_text(connection.request)),
        ),
        stepped(connection, Event::Parsed(None)).connection.phase == Phase::Replying,
        stepped(connection, Event::Parsed(None)).connection.inbox == connection.inbox,
        stepped(stepped(connection, Event::Parsed(None)).connection, Event::Sent) == stepped(
            stepped(
                stepped(connection, Event::Parsed(Some(op))).connection,
                Event::Completed(outcome),
            ).connection,
            Event::Sent,
        ),
{
}

/// After text that was no operation, the next request is taken up as any
/// other. However the bytes of its frame are split between those that came
/// before the reply was written and those that come after, the connection
/// waits for the rest, hands out the text, and hands out the operation that
/// the text stands for.
pub proof fn lemma_next_request_is_served(
    connection: ConnectionView,
    bytes: Vec<u8>,
    text: Seq<char>,
    op: Operation,
)
    requires
        connection.phase == Phase::Parsing,
        8 + encode_utf8(text).len() <= usize::MAX,
        bytes@.len() > 0,
        connection.inbox + bytes@ == frame_of(text),
    ensures
        ({
            let answered = stepped(connection, Event::Parsed(None));
            let ready = stepped(answered.connection, Event::Sent);
            let taken = stepped(ready.connection, Event::Received(bytes));
            let begun = stepped(taken.connection, Event::Parsed(Some(op)));
            &&& answered.connection.phase == Phase::Replying
            &&& ready.connection.phase == Phase::Receiving
            &&& ready.action == ActionView::Receive
            &&& taken.connection.phase == Phase::Parsing
            &&& taken.action == ActionView::Parse(text)
            &&& begun.connection.phase == Phase::Executing
            &&& begun.action == ActionView::Execute(op)
        }),
{
    let frame = frame_of(text);
    let held = connection.inbox;
    assert(held =~= frame.subrange(0, held.len() as int));
    lemma_partial_frame_is_incomplete(text, held.len() as int);
    lemma_frame_round_trip(text, Seq::empty());
}

/// The end of the stream ends the connection in whatever phase it is, and
/// what was received of a frame in part is dropped with it.
pub proof fn lemma_disconnect_closes(connection: ConnectionView)
    ensures
        stepped(connection, Event::Disconnected) == closing(),
        stepped(closing().connection, Event::Disconnected) == closing(),
{
}

} // verus!

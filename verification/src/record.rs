//! Records, and the errors the store reports about them.

use vstd::prelude::*;
use vstd::string::*;

verus! {

/// One stored item: a key and the value held under it.
#[derive(Debug, Clone, PartialEq, Eq)]
pub struct Record {
    pub key: String,
    pub value: i64,
}

/// The mathematical content of a [`Record`].
pub struct RecordView {
    pub key: Seq<char>,
    pub value: i64,
}

impl View for Record {
    type V = RecordView;

    open spec fn view(&self) -> RecordView {
        RecordView { key: self.key@, value: self.value }
    }
}

impl DeepView for Record {
    type V = RecordView;

    open spec fn deep_view(&self) -> RecordView {
        self@
    }
}

impl Record {
    /// A record with the given key and value.
    pub fn new(key: &str, value: i64) -> (record: Record)
        ensures
            record@ == (RecordView { key: key@, value }),
    {
        Record { key: String::from_str(key), value }
    }

    /// A copy of this record.
    pub fn duplicate(&self) -> (copy: Record)
        ensures
            copy@ == self@,
    {
        Record { key: self.key.clone(), value: self.value }
    }
}

/// Why the store turned an operation down.
#[derive(Debug, Clone, Copy, PartialEq, Eq, Structural)]
pub enum StoreError {
    /// A record was written without a key.
    EmptyKey,
    /// The store is closed and applies nothing any more.
    Closed,
}

impl StoreError {
    /// The text of [`StoreError::message`].
    pub open spec fn message_text(self) -> Seq<char> {
        match self {
            StoreError::EmptyKey => "record key is empty"@,
            StoreError::Closed => "store is closed"@,
        }
    }

    /// The error as text for a client.
    pub fn message(&self) -> (text: String)
        ensures
            text@ == self.message_text(),
    {
        match self {
            StoreError::EmptyKey => String::from_str("record key is empty"),
            StoreError::Closed => String::from_str("store is closed"),
        }
    }
}

} // verus!

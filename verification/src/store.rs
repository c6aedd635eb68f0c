//! The store: records under distinct keys, in the order in which their keys
//! first arrived.

use vstd::prelude::*;
use vstd::string::*;
use crate::execute::{Query, QueryView};
use crate::record::{Record, RecordView, StoreError};

verus! {

/// Whether some record of `records` has the key `key`.
pub open spec fn holds_key(records: Seq<RecordView>, key: Seq<char>) -> bool {
    exists|i: int| 0 <= i < records.len() && (#[trigger] records[i]).key == key
}

/// What a store may hold: no record without a key, and no key twice.
pub open spec fn valid_store(records: Seq<RecordView>) -> bool {
    &&& forall|i: int| 0 <= i < records.len() ==> (#[trigger] records[i]).key.len() > 0
    &&& forall|i: int, j: int|
        0 <= i < j < records.len() ==> (#[trigger] records[i]).key != (#[trigger] records[j]).key
}

/// The store after `record` was written: it stands where a record with its
/// key stood before, or at the end if there was none.
pub open spec fn upserted(records: Seq<RecordView>, record: RecordView) -> Seq<RecordView> {
    if holds_key(records, record.key) {
        records.map_values(|held: RecordView| if held.key == record.key { record } else { held })
    } else {
        records.push(record)
    }
}

/// The records that `query` asks for, in the store's order.
pub open spec fn selected(records: Seq<RecordView>, query: QueryView) -> Seq<RecordView> {
    match query {
        QueryView::All => records,
        QueryView::Key(key) => records.filter(|held: RecordView| held.key == key),
    }
}

fn upsert(records: &mut Vec<Record>, record: Record)
    requires
        valid_store(old(records).deep_view()),
    ensures
        final(records).deep_view() == upserted(old(records).deep_view(), record@),
{
    let ghost before = records.deep_view();
    let ghost new = record@;
    let mut i: usize = 0;
    while i < records.len()
        invariant
            i <= records.len(),
            records.deep_view() == before,
            before == old(records).deep_view(),
            new == record@,
            valid_store(before),
            forall|j: int| 0 <= j < i ==> (#[trigger] before[j]).key != new.key,
        decreases records.len() - i,
    {
        if records[i].key == record.key {
            records.set(i, record);
            assert(before[i as int].key == new.key);
            return ;
        }
        i += 1;
    }
    records.push(record);
}

/// The records of the store.
pub struct Store {
    records: Vec<Record>,
}

impl View for Store {
    type V = Seq<RecordView>;

    closed spec fn view(&self) -> Seq<RecordView> {
        self.records.deep_view()
    }
}

impl Store {
    /// What every store holds to.
    #[verifier::type_invariant]
    pub open spec fn well_formed(self) -> bool {
        valid_store(self@)
    }

    /// An empty store.
    pub fn new() -> (store: Store)
        ensures
            store@ == Seq::<RecordView>::empty(),
    {
        let store = Store { records: Vec::new() };
        store
    }

    /// The number of records held.
    pub fn len(&self) -> (n: usize)
        ensures
            n == self@.len(),
    {
        self.records.len()
    }

    /// Writes `record` under its key, replacing the record held under that
    /// key if there is one. A record without a key is turned down and
    /// leaves the store as it was.
    pub fn insert(&mut self, record: Record) -> (result: Result<(), StoreError>)
        ensures
            record.key@.len() == 0 ==> result == Err::<(), StoreError>(StoreError::EmptyKey)
                && final(self)@ == old(self)@,
            record.key@.len() > 0 ==> result is Ok && final(self)@ == upserted(
                old(self)@,
                record@,
            ),
            valid_store(final(self)@),
    {
        proof {
            use_type_invariant(&*self);
        }
        if record.key.as_str().is_empty() {
            return Err(StoreError::EmptyKey);
        }
        let mut records: Vec<Record> = Vec::new();
        core::mem::swap(&mut self.records, &mut records);
        proof {
            lemma_upserted_is_valid(records.deep_view(), record@);
        }
        upsert(&mut records, record);
        self.records = records;
        Ok(())
    }

    /// The records that `query` asks for, in the store's order.
    pub fn select(&self, query: &Query) -> (records: Vec<Record>)
        ensures
            records.deep_view() == selected(self@, query@),
            valid_store(self@),
    {
        proof {
            use_type_invariant(self);
        }
        let mut found: Vec<Record> = Vec::new();
        let mut i: usize = 0;
        match query {
            Query::All => {
                while i < self.records.len()
                    invariant
                        i <= self.records.len(),
                        found.deep_view() == self@.take(i as int),
                    decreases self.records.len() - i,
                {
                    let ghost so_far = found.deep_view();
                    found.push(self.records[i].duplicate());
                    assert(found.deep_view() =~= so_far.push(self.records[i as int]@));
                    i += 1;
                }
            },
            Query::Key(key) => {
                let ghost wanted = |held: RecordView| held.key == key@;
                proof {
                    reveal(Seq::filter);
                }
                while i < self.records.len()
                    invariant
                        i <= self.records.len(),
                        wanted == |held: RecordView| held.key == key@,
                        found.deep_view() == self@.take(i as int).filter(wanted),
                    decreases self.records.len() - i,
                {
                    if self.records[i].key == *key {
                        found.push(self.records[i].duplicate());
                    }
                    proof {
                        reveal(Seq::filter);
                        assert(self@.take(i + 1).drop_last() =~= self@.take(i as int));
                    }
                    i += 1;
                }
                assert(self@.take(i as int) =~= self@);
            },
        }
        found
    }
}

/// Writing a record with a key into a valid store leaves a valid store.
pub proof fn lemma_upserted_is_valid(records: Seq<RecordView>, record: RecordView)
    requires
        valid_store(records),
        record.key.len() > 0,
    ensures
        valid_store(upserted(records, record)),
{
}

/// In a valid store a key selects the one record held under it, or nothing
/// where no record has that key.
pub proof fn lemma_selected_by_key(records: Seq<RecordView>, key: Seq<char>)
    requires
        valid_store(records),
    ensures
        !holds_key(records, key) ==> selected(records, QueryView::Key(key)) == Seq::<
            RecordView,
        >::empty(),
        forall|i: int|
            0 <= i < records.len() && (#[trigger] records[i]).key == key ==> selected(
                records,
                QueryView::Key(key),
            ) == seq![records[i]],
    decreases records.len(),
{
    reveal(Seq::filter);
    if records.len() > 0 {
        let rest = records.drop_last();
        let last = records.len() - 1;
        assert forall|i: int| 0 <= i < rest.len() implies #[trigger] rest[i] == records[i] by {}
        lemma_selected_by_key(rest, key);
        if records.last().key == key {
            // No key stands twice, so the last record is the only one.
            assert(!holds_key(rest, key));
            assert forall|i: int| 0 <= i < records.len() && (#[trigger] records[i]).key
                == key implies i == last by {}
        } else {
            assert forall|i: int| 0 <= i < records.len() && (#[trigger] records[i]).key
                == key implies selected(records, QueryView::Key(key)) == seq![records[i]] by {
                assert(rest[i].key == key);
            }
        }
    }
}

/// After a record was written it stands in the store.
pub proof fn lemma_upserted_holds_record(records: Seq<RecordView>, record: RecordView)
    ensures
        exists|i: int|
            0 <= i < upserted(records, record).len() && #[trigger] upserted(records, record)[i]
                == record,
{
    let after = upserted(records, record);
    if holds_key(records, record.key) {
        let i = choose|i: int| 0 <= i < records.len() && (#[trigger] records[i]).key == record.key;
        assert(after[i] == record);
    } else {
        assert(after[records.len() as int] == record);
    }
}

/// Writing a record leaves every record under another key where it is.
pub proof fn lemma_upserted_keeps_others(records: Seq<RecordView>, record: RecordView, i: int)
    requires
        0 <= i < records.len(),
        records[i].key != record.key,
    ensures
        i < upserted(records, record).len(),
        upserted(records, record)[i] == records[i],
{
}

} // verus!

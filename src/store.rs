//! The append-only collection of identity records.
//!
//! The store is held in memory; its backing file is read and written in full
//! by the caller, who hands over what reading the file gave (`StoreFile`) and
//! writes back `records()` after each append.
use vstd::prelude::*;

use crate::matcher::views;
use crate::record::{EmbeddingRecord, RecordView};

verus! {

/// No identifier occurs twice.
pub open spec fn ids_distinct(records: Seq<RecordView>) -> bool {
    forall|i: int, j: int|
        0 <= i < j < records.len() ==> #[trigger] records[i].id != #[trigger] records[j].id
}

/// Some record carries `id`.
pub open spec fn holds_id(records: Seq<RecordView>, id: Seq<char>) -> bool {
    exists|i: int| 0 <= i < records.len() && #[trigger] records[i].id == id
}

/// Why the store could not be read or changed.
#[derive(Clone, Copy, Debug, PartialEq, Eq, Structural)]
pub enum StoreError {
    /// The backing file exists but could not be read.
    Unreadable,
    /// An identifier is already taken.
    DuplicateId,
}

/// What reading the backing file gave.
pub enum StoreFile {
    /// There is no backing file yet.
    Missing,
    /// The file exists but could not be opened or read.
    Unreadable,
    /// The file was read but does not hold a sequence of records.
    Corrupt,
    /// The records that the file holds, in stored order.
    Parsed(Vec<EmbeddingRecord>),
}

/// The records that loading `file` gives, or `None` when it cannot be read.
pub open spec fn loaded_records(file: StoreFile) -> Option<Seq<RecordView>> {
    match file {
        StoreFile::Missing | StoreFile::Corrupt => Some(Seq::empty()),
        StoreFile::Unreadable => None,
        StoreFile::Parsed(v) => Some(views(v@)),
    }
}

/// What appending `record` to `records` gives: the records followed by it,
/// or an error when its identifier is taken.
pub open spec fn appended(records: Seq<RecordView>, record: RecordView) -> Result<
    Seq<RecordView>,
    StoreError,
> {
    if holds_id(records, record.id) {
        Err(StoreError::DuplicateId)
    } else {
        Ok(records.push(record))
    }
}

/// The identity records, in the order they were enrolled.
pub struct Store {
    records: Vec<EmbeddingRecord>,
}

impl View for Store {
    type V = Seq<RecordView>;

    closed spec fn view(&self) -> Seq<RecordView> {
        views(self.records@)
    }
}

proof fn lemma_views_push(rs: Seq<EmbeddingRecord>, r: EmbeddingRecord)
    ensures
        views(rs.push(r)) == views(rs).push(r@),
{
    assert(views(rs.push(r)) =~= views(rs).push(r@));
}

proof fn lemma_push_keeps_ids_distinct(records: Seq<RecordView>, record: RecordView)
    requires
        ids_distinct(records),
        !holds_id(records, record.id),
    ensures
        ids_distinct(records.push(record)),
{
    let after = records.push(record);
    assert forall|a: int, b: int| 0 <= a < b < after.len() implies after[a].id != after[b].id by {
        if b == records.len() {
            assert(records[a].id != record.id);
        } else {
            assert(after[a] == records[a]);
            assert(after[b] == records[b]);
        }
    }
}

impl Store {
    /// Identifiers are unique. Appending keeps this; a loaded file may not
    /// have it.
    pub open spec fn wf(&self) -> bool {
        ids_distinct(self@)
    }

    /// An empty store.
    pub fn new() -> (r: Store)
        ensures
            r@ == Seq::<RecordView>::empty(),
            r.wf(),
    {
        let r = Store { records: Vec::new() };
        assert(r@ =~= Seq::<RecordView>::empty());
        r
    }

    /// A store holding `records`, in their order.
    pub fn from_records(records: Vec<EmbeddingRecord>) -> (r: Store)
        ensures
            r@ == views(records@),
    {
        Store { records }
    }

    /// Number of records.
    pub fn len(&self) -> (r: usize)
        ensures
            r == self@.len(),
    {
        self.records.len()
    }

    /// The records, in stored order.
    pub fn records(&self) -> (r: &Vec<EmbeddingRecord>)
        ensures
            views(r@) == self@,
    {
        &self.records
    }

    /// Whether some record carries `id`.
    pub fn contains_id(&self, id: &String) -> (r: bool)
        ensures
            r == holds_id(self@, id@),
    {
        let mut i: usize = 0;
        while i < self.records.len()
            invariant
                i <= self.records.len(),
                forall|j: int| 0 <= j < i ==> #[trigger] self@[j].id != id@,
            decreases self.records.len() - i,
        {
            if self.records[i].id == *id {
                assert(self@[i as int].id == id@);
                return true;
            }
            i = i + 1;
        }
        false
    }

    /// The store that reading the backing file gives: empty when the file is
    /// missing or corrupt, an error when it cannot be read, else every record
    /// it holds, in stored order.
    pub fn load(file: StoreFile) -> (r: Result<Store, StoreError>)
        ensures
            match r {
                Ok(s) => loaded_records(file) == Some(s@),
                Err(e) => loaded_records(file).is_none() && e == StoreError::Unreadable,
            },
    {
        match file {
            StoreFile::Missing => Ok(Store::new()),
            StoreFile::Corrupt => Ok(Store::new()),
            StoreFile::Unreadable => Err(StoreError::Unreadable),
            StoreFile::Parsed(v) => Ok(Store::from_records(v)),
        }
    }

    /// Adds `record` after the others, refused when its identifier is taken.
    pub fn append(&mut self, record: EmbeddingRecord) -> (r: Result<(), StoreError>)
        ensures
            old(self).wf() ==> final(self).wf(),
            match r {
                Ok(()) => appended(old(self)@, record@) == Ok::<_, StoreError>(final(self)@),
                Err(e) => {
                    &&& appended(old(self)@, record@) == Err::<Seq<RecordView>, _>(e)
                    &&& final(self)@ == old(self)@
                },
            },
    {
        if self.contains_id(&record.id) {
            return Err(StoreError::DuplicateId);
        }
        proof {
            lemma_views_push(self.records@, record);
            if ids_distinct(self@) {
                lemma_push_keeps_ids_distinct(self@, record@);
            }
        }
        self.records.push(record);
        Ok(())
    }
}

/// Loading what an append wrote gives the records loaded before, in their
/// order, followed by the appended record; the unique-identifier rule
/// carries over.
pub proof fn lemma_append_then_load(
    before: StoreFile,
    record: RecordView,
    after: Seq<RecordView>,
    written: StoreFile,
)
    requires
        loaded_records(before) is Some,
        appended(loaded_records(before).unwrap(), record) == Ok::<_, StoreError>(after),
        written matches StoreFile::Parsed(v) && views(v@) == after,
    ensures
        loaded_records(written) == Some(loaded_records(before).unwrap().push(record)),
        ids_distinct(loaded_records(before).unwrap()) ==> ids_distinct(
            loaded_records(written).unwrap(),
        ),
{
    let previous = loaded_records(before).unwrap();
    if ids_distinct(previous) {
        lemma_push_keeps_ids_distinct(previous, record);
    }
}

} // verus!

//! The access decision for one incoming embedding: either it resolves to a
//! known identity, whose stored decision applies, or the caller obtains a
//! decision and enrolls it as a new identity.
use vstd::prelude::*;

use crate::matcher::{
    find_match, is_first_match, lemma_similar_to_itself, no_match, similar, squared_norm, squared_norm_of, MatchError,
    MAX_DIM,
};
use crate::identity::is_random_uuid;
use crate::record::{EmbeddingRecord, RecordView};
use crate::store::{holds_id, Store, StoreError};

verus! {

/// The embedding can be looked up: within `MAX_DIM` and not zero.
pub open spec fn valid_query(query: Seq<u8>) -> bool {
    query.len() <= MAX_DIM && squared_norm(query) > 0
}

/// Why an embedding cannot be looked up, if it cannot.
pub open spec fn query_error(query: Seq<u8>) -> Option<MatchError> {
    if query.len() > MAX_DIM {
        Some(MatchError::TooLong)
    } else if squared_norm(query) == 0 {
        Some(MatchError::ZeroVector)
    } else {
        None
    }
}

/// Where a lookup ends.
#[derive(Clone, Copy, Debug, PartialEq, Eq, Structural)]
pub enum Resolution {
    /// The embedding is that of the record at `index`, whose decision applies.
    Matched { index: usize, decision: bool },
    /// No record matches: a decision is needed, and the embedding is enrolled.
    Unmatched,
}

/// Why an access decision could not be made.
#[derive(Clone, Copy, Debug, PartialEq, Eq, Structural)]
pub enum AccessError {
    InvalidQuery(MatchError),
    Store(StoreError),
}

/// `r` is the resolution of `query` against `records`.
pub open spec fn resolves(records: Seq<RecordView>, query: Seq<u8>, r: Resolution) -> bool {
    match r {
        Resolution::Matched { index, decision } => {
            &&& is_first_match(query, records, index as int)
            &&& decision == records[index as int].decision
        },
        Resolution::Unmatched => no_match(query, records),
    }
}

/// Looks `query` up in `store`. The store is left as it is.
pub fn resolve(store: &Store, query: &Vec<u8>) -> (r: Result<Resolution, AccessError>)
    ensures
        match r {
            Ok(res) => valid_query(query@) && resolves(store@, query@, res),
            Err(e) => query_error(query@) matches Some(m) && e == AccessError::InvalidQuery(m),
        },
{
    if query.len() > MAX_DIM {
        return Err(AccessError::InvalidQuery(MatchError::TooLong));
    }
    if squared_norm_of(query) == 0 {
        return Err(AccessError::InvalidQuery(MatchError::ZeroVector));
    }
    match find_match(query, store.records()) {
        Some(i) => {
            let decision = store.records()[i].decision;
            Ok(Resolution::Matched { index: i, decision })
        },
        None => Ok(Resolution::Unmatched),
    }
}

/// Enrolls `query` as a new identity with `decision`, under a fresh random
/// identifier, which is returned. It fails, leaving the store as it was,
/// when the query cannot be looked up, or when the drawn identifier is
/// already stored, which only a store holding random identifiers allows.
pub fn enroll(store: &mut Store, query: Vec<u8>, decision: bool) -> (r: Result<String, AccessError>)
    ensures
        old(store).wf() ==> final(store).wf(),
        match r {
            Ok(id) => {
                &&& valid_query(query@)
                &&& is_random_uuid(id@)
                &&& !holds_id(old(store)@, id@)
                &&& final(store)@ == old(store)@.push(
                    RecordView { id: id@, embedding: query@, decision },
                )
            },
            Err(e) => {
                &&& final(store)@ == old(store)@
                &&& match query_error(query@) {
                    Some(m) => e == AccessError::InvalidQuery(m),
                    None => {
                        &&& e == AccessError::Store(StoreError::DuplicateId)
                        &&& exists|i: int|
                            0 <= i < old(store)@.len() && is_random_uuid(
                                #[trigger] old(store)@[i].id,
                            )
                    },
                }
            },
        },
{
    if query.len() > MAX_DIM {
        return Err(AccessError::InvalidQuery(MatchError::TooLong));
    }
    if squared_norm_of(&query) == 0 {
        return Err(AccessError::InvalidQuery(MatchError::ZeroVector));
    }
    let record = EmbeddingRecord::new(query, decision);
    let id = record.id.clone();
    let ghost drawn = record@;
    match store.append(record) {
        Ok(()) => Ok(id),
        Err(e) => {
            proof {
                let i = choose|i: int| 0 <= i < old(store)@.len() && old(store)@[i].id == drawn.id;
                assert(is_random_uuid(old(store)@[i].id));
            }
            Err(AccessError::Store(e))
        },
    }
}

/// A lookup has one result: two resolutions of one query against the same
/// records are equal, so asking twice gives the same decision.
pub proof fn lemma_resolution_is_unique(
    records: Seq<RecordView>,
    query: Seq<u8>,
    r1: Resolution,
    r2: Resolution,
)
    requires
        resolves(records, query, r1),
        resolves(records, query, r2),
    ensures
        r1 == r2,
{
    match (r1, r2) {
        (Resolution::Matched { index: i1, .. }, Resolution::Matched { index: i2, .. }) => {
            if i1 < i2 {
                assert(!similar(query, records[i1 as int].embedding));
            } else if i2 < i1 {
                assert(!similar(query, records[i2 as int].embedding));
            }
        },
        (Resolution::Matched { index, .. }, Resolution::Unmatched) => {
            assert(!similar(query, records[index as int].embedding));
        },
        (Resolution::Unmatched, Resolution::Matched { index, .. }) => {
            assert(!similar(query, records[index as int].embedding));
        },
        (Resolution::Unmatched, Resolution::Unmatched) => {},
    }
}

/// After an unmatched embedding is enrolled with a decision, looking the same
/// embedding up again finds the new record and its decision.
pub proof fn lemma_enrollment_persists(
    records: Seq<RecordView>,
    query: Seq<u8>,
    id: Seq<char>,
    decision: bool,
    r: Resolution,
)
    requires
        valid_query(query),
        no_match(query, records),
        resolves(records.push(RecordView { id, embedding: query, decision }), query, r),
    ensures
        r matches Resolution::Matched { index, decision: d } && index == records.len() && d
            == decision,
{
    let after = records.push(RecordView { id, embedding: query, decision });
    lemma_similar_to_itself(query);
    assert(similar(query, after[records.len() as int].embedding));
    match r {
        Resolution::Matched { index, .. } => {
            if index < records.len() {
                assert(after[index as int] == records[index as int]);
                assert(!similar(query, records[index as int].embedding));
            }
        },
        Resolution::Unmatched => {},
    }
}

} // verus!

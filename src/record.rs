//! The stored identity record.
use vstd::prelude::*;

use crate::identity::{is_random_uuid, random_uuid};

verus! {

/// What a record is, mathematically.
pub struct RecordView {
    pub id: Seq<char>,
    pub embedding: Seq<u8>,
    pub decision: bool,
}

/// One enrolled identity: its identifier, its embedding, and the access
/// decision taken when it was enrolled.
pub struct EmbeddingRecord {
    pub id: String,
    pub embedding: Vec<u8>,
    pub decision: bool,
}

impl View for EmbeddingRecord {
    type V = RecordView;

    open spec fn view(&self) -> RecordView {
        RecordView { id: self.id@, embedding: self.embedding@, decision: self.decision }
    }
}

impl EmbeddingRecord {
    /// A record under a fresh random identifier.
    pub fn new(embedding: Vec<u8>, decision: bool) -> (r: EmbeddingRecord)
        ensures
            is_random_uuid(r.id@),
            r.embedding@ == embedding@,
            r.decision == decision,
    {
        EmbeddingRecord { id: random_uuid(), embedding, decision }
    }

    /// A record under a given identifier.
    pub fn with_id(id: String, embedding: Vec<u8>, decision: bool) -> (r: EmbeddingRecord)
        ensures
            r@ == (RecordView { id: id@, embedding: embedding@, decision }),
    {
        EmbeddingRecord { id, embedding, decision }
    }
}

} // verus!

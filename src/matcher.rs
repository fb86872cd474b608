//! Cosine similarity between embeddings, and the first-match lookup.
//!
//! Similarity is kept as the exact triple (dot product, squared norm of each
//! side): the cosine is `dot / sqrt(norm_a * norm_b)`. Comparing it with the
//! threshold `9 / 10` is done on squares, so no rounding enters the decision.
use vstd::prelude::*;

use crate::record::{EmbeddingRecord, RecordView};

verus! {

/// The longest embedding that can be compared.
pub const MAX_DIM: usize = 16_777_216;

/// Numerator of the similarity threshold.
pub const THRESHOLD_NUM: u64 = 9;

/// Denominator of the similarity threshold.
pub const THRESHOLD_DEN: u64 = 10;

/// Sum of `a[i] * b[i]` over the first `n` positions.
pub open spec fn dot_upto(a: Seq<u8>, b: Seq<u8>, n: int) -> int
    decreases n,
{
    if n <= 0 {
        0
    } else {
        dot_upto(a, b, n - 1) + a[n - 1] * b[n - 1]
    }
}

/// Dot product of two embeddings of equal length.
pub open spec fn dot(a: Seq<u8>, b: Seq<u8>) -> int {
    dot_upto(a, b, a.len() as int)
}

/// Squared Euclidean norm.
pub open spec fn squared_norm(a: Seq<u8>) -> int {
    dot(a, a)
}

/// The cosine of `a` and `b` is defined: equal lengths, within `MAX_DIM`,
/// neither vector zero.
pub open spec fn comparable(a: Seq<u8>, b: Seq<u8>) -> bool {
    &&& a.len() == b.len()
    &&& a.len() <= MAX_DIM
    &&& squared_norm(a) > 0
    &&& squared_norm(b) > 0
}

/// `d / sqrt(na * nb) > 9 / 10`, for `na, nb > 0`: the left side is positive
/// and the squares compare strictly.
pub open spec fn above_threshold(d: int, na: int, nb: int) -> bool {
    &&& d > 0
    &&& THRESHOLD_DEN * THRESHOLD_DEN * (d * d) > THRESHOLD_NUM * THRESHOLD_NUM * (na * nb)
}

/// `a` and `b` are the same identity: comparable, with a cosine strictly
/// above the threshold.
pub open spec fn similar(a: Seq<u8>, b: Seq<u8>) -> bool {
    &&& comparable(a, b)
    &&& above_threshold(dot(a, b), squared_norm(a), squared_norm(b))
}

/// Why two embeddings cannot be compared.
#[derive(Clone, Copy, Debug, PartialEq, Eq, Structural)]
pub enum MatchError {
    LengthMismatch,
    TooLong,
    ZeroVector,
}

/// The error that `cosine_similarity` gives for `a` and `b`, if any.
pub open spec fn match_error(a: Seq<u8>, b: Seq<u8>) -> Option<MatchError> {
    if a.len() != b.len() {
        Some(MatchError::LengthMismatch)
    } else if a.len() > MAX_DIM {
        Some(MatchError::TooLong)
    } else if squared_norm(a) == 0 || squared_norm(b) == 0 {
        Some(MatchError::ZeroVector)
    } else {
        None
    }
}

/// The cosine similarity `dot / sqrt(norm_a * norm_b)`, held exactly.
#[derive(Clone, Copy, Debug, PartialEq, Eq, Structural)]
pub struct Cosine {
    pub dot: u64,
    pub norm_a: u64,
    pub norm_b: u64,
}

/// Largest value of a dot product or squared norm within `MAX_DIM`.
pub open spec fn max_product_sum() -> int {
    MAX_DIM * 65025
}

proof fn lemma_dot_upto_bounds(a: Seq<u8>, b: Seq<u8>, n: int)
    requires
        0 <= n <= a.len(),
        n <= b.len(),
    ensures
        0 <= dot_upto(a, b, n) <= n * 65025,
    decreases n,
{
    if n > 0 {
        lemma_dot_upto_bounds(a, b, n - 1);
        let x = a[n - 1] as int;
        let y = b[n - 1] as int;
        assert(0 <= x * y <= 65025) by (nonlinear_arith)
            requires
                0 <= x <= 255,
                0 <= y <= 255,
        ;
    }
}

/// Dot product of two embeddings of equal length.
pub fn dot_product(a: &Vec<u8>, b: &Vec<u8>) -> (r: u64)
    requires
        a.len() == b.len(),
        a.len() <= MAX_DIM,
    ensures
        r == dot(a@, b@),
        r <= max_product_sum(),
{
    let mut acc: u64 = 0;
    let mut i: usize = 0;
    while i < a.len()
        invariant
            i <= a.len(),
            a.len() == b.len(),
            a.len() <= MAX_DIM,
            acc == dot_upto(a@, b@, i as int),
        decreases a.len() - i,
    {
        proof {
            lemma_dot_upto_bounds(a@, b@, i as int + 1);
        }
        let x = a[i] as u64;
        let y = b[i] as u64;
        acc = acc + x * y;
        i = i + 1;
    }
    proof {
        lemma_dot_upto_bounds(a@, b@, a.len() as int);
    }
    acc
}

/// Squared Euclidean norm of an embedding.
pub fn squared_norm_of(a: &Vec<u8>) -> (r: u64)
    requires
        a.len() <= MAX_DIM,
    ensures
        r == squared_norm(a@),
        r <= max_product_sum(),
{
    dot_product(a, a)
}

impl Cosine {
    /// The values are those of embeddings within `MAX_DIM`.
    pub open spec fn in_range(&self) -> bool {
        &&& self.dot <= max_product_sum()
        &&& self.norm_a <= max_product_sum()
        &&& self.norm_b <= max_product_sum()
    }

    /// Whether this cosine lies strictly above the threshold.
    pub fn exceeds_threshold(&self) -> (r: bool)
        requires
            self.in_range(),
        ensures
            r == above_threshold(self.dot as int, self.norm_a as int, self.norm_b as int),
    {
        if self.dot == 0 {
            return false;
        }
        let d = self.dot as u128;
        let na = self.norm_a as u128;
        let nb = self.norm_b as u128;
        // 2^40, above max_product_sum(): the products below fit in 80 bits.
        let m: u128 = 1_099_511_627_776;
        assert(d * d <= m * m && na * nb <= m * m) by (nonlinear_arith)
            requires
                d <= m,
                na <= m,
                nb <= m,
        ;
        let den = (THRESHOLD_DEN * THRESHOLD_DEN) as u128;
        let num = (THRESHOLD_NUM * THRESHOLD_NUM) as u128;
        den * (d * d) > num * (na * nb)
    }
}

/// Cosine similarity of `a` and `b`, or why it is undefined.
pub fn cosine_similarity(a: &Vec<u8>, b: &Vec<u8>) -> (r: Result<Cosine, MatchError>)
    ensures
        match r {
            Ok(c) => {
                &&& match_error(a@, b@).is_none()
                &&& c.dot == dot(a@, b@)
                &&& c.norm_a == squared_norm(a@)
                &&& c.norm_b == squared_norm(b@)
                &&& c.in_range()
            },
            Err(e) => match_error(a@, b@) == Some(e),
        },
{
    if a.len() != b.len() {
        return Err(MatchError::LengthMismatch);
    }
    if a.len() > MAX_DIM {
        return Err(MatchError::TooLong);
    }
    let d = dot_product(a, b);
    let na = squared_norm_of(a);
    let nb = squared_norm_of(b);
    if na == 0 || nb == 0 {
        return Err(MatchError::ZeroVector);
    }
    Ok(Cosine { dot: d, norm_a: na, norm_b: nb })
}

/// Whether `a` and `b` are the same identity, or why they cannot be compared.
pub fn is_similar(a: &Vec<u8>, b: &Vec<u8>) -> (r: Result<bool, MatchError>)
    ensures
        match r {
            Ok(m) => match_error(a@, b@).is_none() && m == similar(a@, b@),
            Err(e) => match_error(a@, b@) == Some(e),
        },
{
    match cosine_similarity(a, b) {
        Ok(c) => Ok(c.exceeds_threshold()),
        Err(e) => Err(e),
    }
}

/// Record `i` is the first of `records` that `query` is similar to.
pub open spec fn is_first_match(query: Seq<u8>, records: Seq<RecordView>, i: int) -> bool {
    &&& 0 <= i < records.len()
    &&& similar(query, records[i].embedding)
    &&& forall|j: int| 0 <= j < i ==> !similar(query, #[trigger] records[j].embedding)
}

/// `query` is similar to none of `records`.
pub open spec fn no_match(query: Seq<u8>, records: Seq<RecordView>) -> bool {
    forall|j: int| 0 <= j < records.len() ==> !similar(query, #[trigger] records[j].embedding)
}

/// The views of a vector of records.
pub open spec fn views(records: Seq<EmbeddingRecord>) -> Seq<RecordView> {
    records.map_values(|r: EmbeddingRecord| r@)
}

/// Position of the first record, in stored order, whose embedding is similar
/// to `query`. Records that cannot be compared with `query` are passed over.
pub fn find_match(query: &Vec<u8>, records: &Vec<EmbeddingRecord>) -> (r: Option<usize>)
    ensures
        match r {
            Some(i) => is_first_match(query@, views(records@), i as int),
            None => no_match(query@, views(records@)),
        },
{
    let mut i: usize = 0;
    while i < records.len()
        invariant
            i <= records.len(),
            forall|j: int| 0 <= j < i ==> !similar(query@, #[trigger] views(records@)[j].embedding),
        decreases records.len() - i,
    {
        let found = match is_similar(query, &records[i].embedding) {
            Ok(m) => m,
            Err(_) => false,
        };
        if found {
            return Some(i);
        }
        i = i + 1;
    }
    None
}

/// The threshold is strict: comparable embeddings whose cosine is exactly
/// nine tenths are not the same identity, and any cosine above it is.
pub proof fn lemma_threshold_is_strict(a: Seq<u8>, b: Seq<u8>)
    requires
        comparable(a, b),
    ensures
        dot(a, b) >= 0 && THRESHOLD_DEN * THRESHOLD_DEN * (dot(a, b) * dot(a, b))
            == THRESHOLD_NUM * THRESHOLD_NUM * (squared_norm(a) * squared_norm(b))
            ==> !similar(a, b),
        dot(a, b) > 0 && THRESHOLD_DEN * THRESHOLD_DEN * (dot(a, b) * dot(a, b))
            > THRESHOLD_NUM * THRESHOLD_NUM * (squared_norm(a) * squared_norm(b))
            ==> similar(a, b),
{
}

/// Every embedding that can be compared with itself matches itself.
pub proof fn lemma_similar_to_itself(a: Seq<u8>)
    requires
        a.len() <= MAX_DIM,
        squared_norm(a) > 0,
    ensures
        similar(a, a),
{
    let n = squared_norm(a);
    assert(THRESHOLD_DEN * THRESHOLD_DEN * (n * n) > THRESHOLD_NUM * THRESHOLD_NUM * (n * n))
        by (nonlinear_arith)
        requires
            n > 0,
            THRESHOLD_DEN == 10,
            THRESHOLD_NUM == 9,
    ;
}

/// Among several records that match a query, the first match is the one
/// stored earliest.
pub proof fn lemma_first_match_is_earliest(
    query: Seq<u8>,
    records: Seq<RecordView>,
    i: int,
    j: int,
)
    requires
        is_first_match(query, records, i),
        0 <= j < records.len(),
        similar(query, records[j].embedding),
    ensures
        i <= j,
{
}

} // verus!

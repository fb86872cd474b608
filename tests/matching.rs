use face_access::matcher::{
    cosine_similarity, dot_product, find_match, is_similar, squared_norm_of, Cosine, MatchError,
    MAX_DIM,
};
use face_access::record::EmbeddingRecord;

fn record(id: &str, embedding: Vec<u8>, decision: bool) -> EmbeddingRecord {
    EmbeddingRecord::with_id(id.to_string(), embedding, decision)
}

#[test]
fn dot_product_and_norm_are_exact() {
    assert_eq!(dot_product(&vec![1, 2, 3], &vec![4, 5, 6]), 32);
    assert_eq!(squared_norm_of(&vec![3, 4]), 25);
    assert_eq!(dot_product(&vec![255, 255], &vec![255, 255]), 130050);
}

#[test]
fn cosine_of_identical_vectors_matches() {
    let c = cosine_similarity(&vec![1, 0, 0], &vec![1, 0, 0]).unwrap();
    assert_eq!(c, Cosine { dot: 1, norm_a: 1, norm_b: 1 });
    assert!(c.exceeds_threshold());
}

#[test]
fn orthogonal_vectors_do_not_match() {
    let c = cosine_similarity(&vec![1, 0, 0], &vec![0, 1, 0]).unwrap();
    assert_eq!(c.dot, 0);
    assert!(!c.exceeds_threshold());
    assert_eq!(is_similar(&vec![1, 0, 0], &vec![0, 1, 0]), Ok(false));
}

#[test]
fn cosine_exactly_at_threshold_does_not_match() {
    // dot 9, norms 1 and 100: cosine 9 / 10.
    let c = cosine_similarity(&vec![1, 0, 0, 0], &vec![9, 3, 3, 1]).unwrap();
    assert_eq!(c, Cosine { dot: 9, norm_a: 1, norm_b: 100 });
    assert!(!c.exceeds_threshold());
    assert_eq!(is_similar(&vec![1, 0, 0, 0], &vec![9, 3, 3, 1]), Ok(false));
}

#[test]
fn cosine_just_above_threshold_matches() {
    let at = Cosine { dot: 9_000_000, norm_a: 10_000_000, norm_b: 10_000_000 };
    let above = Cosine { dot: 9_000_001, norm_a: 10_000_000, norm_b: 10_000_000 };
    assert!(!at.exceeds_threshold());
    assert!(above.exceeds_threshold());
    // 9 / sqrt(99), a little over nine tenths.
    assert_eq!(is_similar(&vec![1, 0, 0, 0], &vec![9, 3, 3, 0]), Ok(true));
}

#[test]
fn scaled_vectors_match() {
    assert_eq!(is_similar(&vec![10, 20, 30], &vec![20, 40, 60]), Ok(true));
}

#[test]
fn length_mismatch_is_reported() {
    assert_eq!(cosine_similarity(&vec![1, 0], &vec![1, 0, 0]), Err(MatchError::LengthMismatch));
}

#[test]
fn zero_vector_is_reported() {
    assert_eq!(cosine_similarity(&vec![0, 0, 0], &vec![1, 0, 0]), Err(MatchError::ZeroVector));
    assert_eq!(is_similar(&vec![1, 0, 0], &vec![0, 0, 0]), Err(MatchError::ZeroVector));
}

#[test]
fn overlong_vector_is_reported() {
    let a = vec![1u8; MAX_DIM + 1];
    let b = vec![1u8; MAX_DIM + 1];
    assert_eq!(cosine_similarity(&a, &b), Err(MatchError::TooLong));
}

#[test]
fn first_match_wins() {
    let records = vec![
        record("1", vec![0, 1, 0], true),
        record("2", vec![1, 0, 0], false),
        record("3", vec![2, 0, 0], true),
    ];
    assert_eq!(find_match(&vec![1, 0, 0], &records), Some(1));
}

#[test]
fn incomparable_records_are_passed_over() {
    let records = vec![
        record("1", vec![1, 0], true),
        record("2", vec![0, 0, 0], true),
        record("3", vec![5, 0, 0], false),
    ];
    assert_eq!(find_match(&vec![1, 0, 0], &records), Some(2));
    assert_eq!(find_match(&vec![0, 0, 1], &records), None);
}

#[test]
fn no_records_no_match() {
    assert_eq!(find_match(&vec![1, 1, 1], &Vec::new()), None);
}

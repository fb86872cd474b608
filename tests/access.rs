use face_access::access::{enroll, resolve, AccessError, Resolution};
use face_access::matcher::{MatchError, MAX_DIM};
use face_access::record::EmbeddingRecord;
use face_access::store::Store;

fn store_of(records: Vec<EmbeddingRecord>) -> Store {
    Store::from_records(records)
}

fn rec(id: &str, embedding: Vec<u8>, decision: bool) -> EmbeddingRecord {
    EmbeddingRecord::with_id(id.to_string(), embedding, decision)
}

#[test]
fn known_identity_is_matched_and_unknown_is_not() {
    // One record a1 with embedding [1, 0, 0] and access granted.
    let store = store_of(vec![rec("a1", vec![1, 0, 0], true)]);
    assert_eq!(
        resolve(&store, &vec![1, 0, 0]),
        Ok(Resolution::Matched { index: 0, decision: true })
    );
    assert_eq!(resolve(&store, &vec![0, 1, 0]), Ok(Resolution::Unmatched));
}

#[test]
fn denied_enrollment_is_found_again() {
    let mut store = Store::new();
    let query = vec![1, 1, 1];
    assert_eq!(resolve(&store, &query), Ok(Resolution::Unmatched));
    let id = enroll(&mut store, query.clone(), false).unwrap();
    assert_eq!(id.len(), 36);
    assert_eq!(id.as_bytes()[14], b'4');
    assert_eq!(store.len(), 1);
    let stored = &store.records()[0];
    assert_eq!(stored.id, id);
    assert_eq!(stored.embedding, vec![1, 1, 1]);
    assert!(!stored.decision);
    assert_eq!(
        resolve(&store, &query),
        Ok(Resolution::Matched { index: 0, decision: false })
    );
}

#[test]
fn lookup_twice_gives_same_result() {
    let store = store_of(vec![
        rec("1", vec![9, 1, 0], false),
        rec("2", vec![0, 9, 1], true),
    ]);
    let first = resolve(&store, &vec![0, 10, 1]);
    let second = resolve(&store, &vec![0, 10, 1]);
    assert_eq!(first, second);
    assert_eq!(first, Ok(Resolution::Matched { index: 1, decision: true }));
    assert_eq!(store.len(), 2);
}

#[test]
fn earlier_record_wins_a_tie() {
    let store = store_of(vec![
        rec("1", vec![4, 4, 0], false),
        rec("2", vec![5, 5, 0], true),
    ]);
    assert_eq!(
        resolve(&store, &vec![3, 3, 0]),
        Ok(Resolution::Matched { index: 0, decision: false })
    );
}

#[test]
fn enrollments_keep_their_order_and_ids_differ() {
    let mut store = Store::new();
    let a = enroll(&mut store, vec![1, 0, 0], true).unwrap();
    let b = enroll(&mut store, vec![0, 1, 0], false).unwrap();
    assert_ne!(a, b);
    assert_eq!(store.records()[0].id, a);
    assert_eq!(store.records()[1].id, b);
    assert_eq!(
        resolve(&store, &vec![0, 1, 0]),
        Ok(Resolution::Matched { index: 1, decision: false })
    );
}

#[test]
fn zero_query_is_rejected() {
    let mut store = Store::new();
    assert_eq!(
        resolve(&store, &vec![0, 0, 0]),
        Err(AccessError::InvalidQuery(MatchError::ZeroVector))
    );
    assert_eq!(
        enroll(&mut store, vec![0, 0], true),
        Err(AccessError::InvalidQuery(MatchError::ZeroVector))
    );
    assert_eq!(store.len(), 0);
}

#[test]
fn overlong_query_is_rejected() {
    let store = Store::new();
    assert_eq!(
        resolve(&store, &vec![1u8; MAX_DIM + 1]),
        Err(AccessError::InvalidQuery(MatchError::TooLong))
    );
}

#[test]
fn enrollment_succeeds_beside_plain_ids() {
    let mut store = store_of(vec![rec("a1", vec![1, 0, 0], true), rec("a1", vec![0, 1, 0], false)]);
    let id = enroll(&mut store, vec![0, 0, 1], true).unwrap();
    assert_eq!(store.len(), 3);
    assert_eq!(store.records()[2].id, id);
    assert!(store.records()[2].decision);
}

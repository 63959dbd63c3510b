use shortener::service::{
    create, create_retry_step, delete, resolve, validate_request, CreateStep, DeleteReq,
    ServiceError, ShortenReq, MAX_CREATE_ATTEMPTS,
};
use shortener::store::{MemStore, StoreError};

const EXAMPLE: &str = "https://example.com";

fn shorten_req(url: &str, length: Option<usize>) -> ShortenReq {
    ShortenReq { url: url.to_string(), length }
}

#[test]
fn store_enforces_key_uniqueness() {
    let mut store = MemStore::new();
    assert!(store.create("k1".to_string(), EXAMPLE.to_string()).is_ok());
    assert_eq!(
        store.create("k1".to_string(), "https://other.example".to_string()),
        Err(StoreError::DuplicateKey)
    );
    let link = store.find_by_key(&"k1".to_string()).unwrap();
    assert_eq!(link.key, "k1");
    assert_eq!(link.target_url, EXAMPLE);
    assert_eq!(link.hits, 0);
}

#[test]
fn store_delete_reports_rows_affected() {
    let mut store = MemStore::new();
    store.create("k1".to_string(), EXAMPLE.to_string()).unwrap();
    assert_eq!(store.delete_by_key(&"k1".to_string()), 1);
    assert_eq!(store.delete_by_key(&"k1".to_string()), 0);
    assert_eq!(store.delete_by_key(&"never".to_string()), 0);
}

#[test]
fn store_increment_after_delete_is_silent_noop() {
    let mut store = MemStore::new();
    store.create("k1".to_string(), EXAMPLE.to_string()).unwrap();
    assert_eq!(store.delete_by_key(&"k1".to_string()), 1);
    store.increment_hits(&"k1".to_string());
    assert!(store.find_by_key(&"k1".to_string()).is_none());
    assert_eq!(store.delete_by_key(&"k1".to_string()), 0);
}

#[test]
fn store_counts_hits_per_increment() {
    let mut store = MemStore::new();
    store.create("k1".to_string(), EXAMPLE.to_string()).unwrap();
    store.increment_hits(&"k1".to_string());
    store.increment_hits(&"k1".to_string());
    assert_eq!(store.find_by_key(&"k1".to_string()).unwrap().hits, 2);
}

#[test]
fn create_resolve_delete_scenario() {
    let mut store = MemStore::new();
    let created = create(&mut store, shorten_req(EXAMPLE, Some(6))).unwrap();
    assert_eq!(created.short_key.chars().count(), 6);
    assert_eq!(created.target_url, EXAMPLE);

    let target = resolve(&mut store, &created.short_key).unwrap();
    assert_eq!(target, EXAMPLE);

    assert_eq!(delete(&mut store, DeleteReq { key: created.short_key.clone() }), Ok(()));
    assert_eq!(
        resolve(&mut store, &created.short_key),
        Err(ServiceError::NotFound)
    );
}

#[test]
fn create_round_trip_returns_original_url() {
    let mut store = MemStore::new();
    for url in ["https://example.com/a?b=c", "http://other.example/x"] {
        let created = create(&mut store, shorten_req(url, None)).unwrap();
        assert_eq!(created.short_key.chars().count(), 10);
        assert_eq!(resolve(&mut store, &created.short_key).unwrap(), url);
    }
}

#[test]
fn create_rejects_invalid_url() {
    let mut store = MemStore::new();
    assert_eq!(
        create(&mut store, shorten_req("not-a-url", None)).unwrap_err(),
        ServiceError::ValidationError
    );
}

#[test]
fn create_rejects_disallowed_scheme() {
    let mut store = MemStore::new();
    assert_eq!(
        create(&mut store, shorten_req("ftp://example.com/file", None)).unwrap_err(),
        ServiceError::ValidationError
    );
}

#[test]
fn create_rejects_zero_length() {
    let mut store = MemStore::new();
    assert_eq!(
        create(&mut store, shorten_req(EXAMPLE, Some(0))).unwrap_err(),
        ServiceError::ValidationError
    );
}

#[test]
fn resolve_increments_hits_once_per_resolve() {
    let mut store = MemStore::new();
    let created = create(&mut store, shorten_req(EXAMPLE, None)).unwrap();
    assert_eq!(store.find_by_key(&created.short_key).unwrap().hits, 0);
    resolve(&mut store, &created.short_key).unwrap();
    assert_eq!(store.find_by_key(&created.short_key).unwrap().hits, 1);
    resolve(&mut store, &created.short_key).unwrap();
    resolve(&mut store, &created.short_key).unwrap();
    assert_eq!(store.find_by_key(&created.short_key).unwrap().hits, 3);
}

#[test]
fn absent_key_stays_absent() {
    let mut store = MemStore::new();
    let key = "nevermade".to_string();
    assert_eq!(resolve(&mut store, &key), Err(ServiceError::NotFound));
    assert_eq!(resolve(&mut store, &key), Err(ServiceError::NotFound));
    assert_eq!(
        delete(&mut store, DeleteReq { key: key.clone() }),
        Err(ServiceError::NotFound)
    );
    assert_eq!(
        delete(&mut store, DeleteReq { key: key.clone() }),
        Err(ServiceError::NotFound)
    );
}

#[test]
fn delete_rejects_empty_key() {
    let mut store = MemStore::new();
    assert_eq!(
        delete(&mut store, DeleteReq { key: String::new() }),
        Err(ServiceError::ValidationError)
    );
}

#[test]
fn validate_request_resolves_length() {
    let url = EXAMPLE.to_string();
    assert_eq!(validate_request(&url, None), Ok(10));
    assert_eq!(validate_request(&url, Some(6)), Ok(6));
    assert_eq!(
        validate_request(&url, Some(0)),
        Err(ServiceError::ValidationError)
    );
    assert_eq!(
        validate_request(&"bogus".to_string(), None),
        Err(ServiceError::ValidationError)
    );
}

#[test]
fn retry_policy_of_create() {
    assert_eq!(create_retry_step(&Ok(()), 1), CreateStep::Done);
    assert_eq!(
        create_retry_step(&Err(StoreError::DuplicateKey), 1),
        CreateStep::Retry
    );
    assert_eq!(
        create_retry_step(&Err(StoreError::DuplicateKey), MAX_CREATE_ATTEMPTS),
        CreateStep::GiveUp
    );
    assert_eq!(
        create_retry_step(&Err(StoreError::Backend), 1),
        CreateStep::GiveUp
    );
}

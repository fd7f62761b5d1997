//! Tests for the in-memory state store.

use news_tagger::model::{AccountState, PublishedRecord};
use news_tagger::ports::StateStore;
use news_tagger::state_memory::InMemoryStateStore;

#[test]
fn test_account_state_roundtrip() {
    let mut store = InMemoryStateStore::new();

    let state = AccountState {
        account: "testuser".to_string(),
        since_id: Some("12345".to_string()),
        updated_at: 0,
    };

    store.set_account_state(&state).unwrap();
    let retrieved = store.get_account_state("testuser").unwrap();

    assert!(retrieved.is_some());
    assert_eq!(retrieved.unwrap().since_id, Some("12345".to_string()));
}

#[test]
fn test_get_nonexistent_account() {
    let store = InMemoryStateStore::new();
    let result = store.get_account_state("nonexistent").unwrap();
    assert!(result.is_none());
}

#[test]
fn test_published_record_roundtrip() {
    let mut store = InMemoryStateStore::new();

    let record = PublishedRecord {
        id: "record-1".to_string(),
        source_post_id: "post123".to_string(),
        taxonomy_hash: "hash456".to_string(),
        x_post_id: Some("xpost789".to_string()),
        nostr_event_id: None,
        published_at: 0,
    };

    store.record_published(&record).unwrap();

    let is_processed = store.is_processed("post123", "hash456").unwrap();
    assert!(is_processed);

    let retrieved = store.get_published("post123", "hash456").unwrap();
    assert!(retrieved.is_some());
    assert_eq!(retrieved.unwrap().x_post_id, Some("xpost789".to_string()));
}

#[test]
fn test_not_processed_with_different_hash() {
    let mut store = InMemoryStateStore::new();

    let record = PublishedRecord {
        id: "record-2".to_string(),
        source_post_id: "post123".to_string(),
        taxonomy_hash: "hash456".to_string(),
        x_post_id: None,
        nostr_event_id: None,
        published_at: 0,
    };

    store.record_published(&record).unwrap();

    // Same post but different taxonomy hash should not be processed
    let is_processed = store.is_processed("post123", "different_hash").unwrap();
    assert!(!is_processed);
}

#[test]
fn test_upsert_account_state() {
    let mut store = InMemoryStateStore::new();
    let first = AccountState {
        account: "u".to_string(),
        since_id: Some("1".to_string()),
        updated_at: 1,
    };
    let second = AccountState {
        account: "u".to_string(),
        since_id: Some("2".to_string()),
        updated_at: 2,
    };
    store.set_account_state(&first).unwrap();
    store.set_account_state(&second).unwrap();
    let got = store.get_account_state("u").unwrap().unwrap();
    assert_eq!(got.since_id, Some("2".to_string()));
    assert_eq!(got.updated_at, 2);
}

#[test]
fn system_clock_reads_the_wall_clock() {
    let clock = news_tagger::ports::SystemClock::new();
    let now = news_tagger::ports::Clock::now(&clock);
    // Unix seconds well after 2020 and well before the year 3000
    assert!(now > 1_577_836_800);
    assert!(now < 32_503_680_000);
}

use raspirus::digest::is_digest_str;
use raspirus::store::{SignatureStore, StoreError};
use raspirus::utils::Utils;

const MD5_ABC: &str = "900150983cd24fb0d6963f7d28e17f72";
const MD5_HELLO: &str = "5d41402abc4b2a76b9719d911017c592";
const MD5_EMPTY: &str = "d41d8cd98f00b204e9800998ecf8427e";

#[test]
fn digest_validation() {
    assert!(is_digest_str(MD5_ABC));
    assert!(is_digest_str(MD5_EMPTY));
    // Too short (truncated), too long, uppercase, and a non-hex letter.
    assert!(!is_digest_str("900150983cd24fb0d6963f7d28e17f7"));
    assert!(!is_digest_str("900150983cd24fb0d6963f7d28e17f722"));
    assert!(!is_digest_str("900150983CD24FB0D6963F7D28E17F72"));
    assert!(!is_digest_str("900150983cd24fb0d6963f7d28e17g72"));
    assert!(!is_digest_str(""));
}

#[test]
fn new_store_is_empty_and_never_refreshed() {
    let store = SignatureStore::new();
    assert_eq!(store.entry_count(), 0);
    assert_eq!(store.last_refresh(), "Never");
    assert_eq!(store.contains(&MD5_ABC.to_string()), Ok(false));
}

#[test]
fn load_collapses_duplicates() {
    let store = SignatureStore::load(
        vec![
            MD5_ABC.to_string(),
            MD5_HELLO.to_string(),
            MD5_ABC.to_string(),
        ],
        "Never".to_string(),
    )
    .unwrap();
    assert_eq!(store.entry_count(), 2);
    assert_eq!(store.contains(&MD5_ABC.to_string()), Ok(true));
    assert_eq!(store.contains(&MD5_HELLO.to_string()), Ok(true));
    assert_eq!(store.contains(&MD5_EMPTY.to_string()), Ok(false));
}

#[test]
fn load_rejects_corrupt_storage() {
    let r = SignatureStore::load(
        vec![MD5_ABC.to_string(), "not a digest".to_string()],
        "Never".to_string(),
    );
    match r {
        Err(e) => {
            assert_eq!(e, StoreError::Unavailable);
            assert_eq!(e.message(), "signature store unavailable");
        }
        Ok(_) => panic!("corrupt storage must be unavailable"),
    }
}

#[test]
fn refresh_replaces_contents_and_metadata() {
    let mut store = SignatureStore::load(vec![MD5_ABC.to_string()], "Never".to_string()).unwrap();
    let feed = vec![MD5_HELLO.to_string(), MD5_EMPTY.to_string()];
    let count = store
        .refresh_from_feed(&feed, "2024_01_07_22_00_00", None)
        .unwrap();
    assert_eq!(count, 2);
    assert_eq!(store.entry_count(), 2);
    assert_eq!(store.last_refresh(), "2024_01_07_22_00_00");
    // The old contents are fully replaced.
    assert_eq!(store.contains(&MD5_ABC.to_string()), Ok(false));
    assert_eq!(store.contains(&MD5_HELLO.to_string()), Ok(true));
    assert_eq!(store.contains(&MD5_EMPTY.to_string()), Ok(true));
}

#[test]
fn refresh_deduplicates_the_feed() {
    let mut store = SignatureStore::new();
    let feed = vec![
        MD5_HELLO.to_string(),
        MD5_HELLO.to_string(),
        MD5_ABC.to_string(),
    ];
    let count = store.refresh_from_feed(&feed, "t", None).unwrap();
    assert_eq!(count, 2);
}

#[test]
fn failed_refresh_leaves_the_store_unchanged() {
    // A truncated feed line (31 hex characters) aborts the refresh; all
    // lookups afterwards observe only the pre-refresh state.
    let mut store = SignatureStore::load(vec![MD5_ABC.to_string()], "Never".to_string()).unwrap();
    let truncated = vec![
        MD5_HELLO.to_string(),
        "900150983cd24fb0d6963f7d28e17f7".to_string(),
    ];
    let r = store.refresh_from_feed(&truncated, "2024_02_01_10_00_00", None);
    match r {
        Err(StoreError::RefreshFailed(reason)) => {
            assert_eq!(reason, "malformed digest in feed");
        }
        other => panic!("expected a refresh failure, got {:?}", other),
    }
    assert_eq!(store.entry_count(), 1);
    assert_eq!(store.last_refresh(), "Never");
    assert_eq!(store.contains(&MD5_ABC.to_string()), Ok(true));
    assert_eq!(store.contains(&MD5_HELLO.to_string()), Ok(false));
}

#[test]
fn refresh_reports_progress() {
    let (sender, receiver) = flume::unbounded();
    let mut store = SignatureStore::new();
    let feed = vec![MD5_ABC.to_string(), MD5_HELLO.to_string()];
    store.refresh_from_feed(&feed, "t", Some(&sender)).unwrap();
    let got: Vec<u32> = receiver.try_iter().collect();
    assert_eq!(got, vec![50, 100]);
}

#[test]
fn store_error_messages() {
    assert_eq!(
        StoreError::QueryFailed.message(),
        "signature store query failed"
    );
    assert_eq!(
        StoreError::RefreshFailed("boom".to_string()).message(),
        "signature store refresh failed: boom"
    );
}

#[test]
fn update_database_reports_the_new_count() {
    let mut store = SignatureStore::new();
    let feed = vec![MD5_ABC.to_string(), MD5_HELLO.to_string()];
    let r = Utils::update_database(&mut store, &feed, "2024_03_03_09_00_00", None);
    assert_eq!(r, Ok("2".to_string()));
    assert_eq!(store.last_refresh(), "2024_03_03_09_00_00");
}

#[test]
fn update_database_surfaces_the_failure() {
    let mut store = SignatureStore::load(vec![MD5_ABC.to_string()], "Never".to_string()).unwrap();
    let feed = vec!["garbage".to_string()];
    let r = Utils::update_database(&mut store, &feed, "t", None);
    assert_eq!(
        r,
        Err("signature store refresh failed: malformed digest in feed".to_string())
    );
    assert_eq!(store.entry_count(), 1);
    assert_eq!(store.last_refresh(), "Never");
}

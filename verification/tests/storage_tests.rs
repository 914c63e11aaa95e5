use dioxus_sdk::keymap::KeyMap;
use dioxus_sdk::storage::codec::{
    from_hex, serde_from_string, serde_to_string, to_hex, try_serde_from_string,
    try_serde_to_string,
};
use dioxus_sdk::storage::persistence::{decimal_text, singleton_key};
use dioxus_sdk::storage::session::{
    initial_value, refreshed_value, save_needed, SessionStore, StorageType,
};
use dioxus_sdk::storage::subscriptions::{ChangeOutcome, SubscriptionTable, WatcherAction};

#[test]
fn hex_is_lowercase_two_digits_per_byte() {
    assert_eq!(to_hex(&[0x00, 0x0f, 0xab, 0xff]), "000fabff");
    assert_eq!(to_hex(&[]), "");
}

#[test]
fn hex_reads_either_case_and_rejects_bad_text() {
    assert_eq!(from_hex("000fABff"), Some(vec![0x00, 0x0f, 0xab, 0xff]));
    assert_eq!(from_hex(""), Some(vec![]));
    assert_eq!(from_hex("abc"), None);
    assert_eq!(from_hex("zz"), None);
}

#[test]
fn stored_text_reads_back_as_the_bytes() {
    let bytes: Vec<u8> = (0..200u8).chain(0..50u8).collect();
    let text = serde_to_string(&bytes);
    assert!(text.chars().all(|c| c.is_ascii_hexdigit() && !c.is_ascii_uppercase()));
    assert_eq!(try_serde_from_string(&text), Some(bytes.clone()));
    assert_eq!(serde_from_string(&text), bytes);
    assert_eq!(try_serde_to_string(&bytes), Some(text));
}

#[test]
fn stored_text_is_zlib_in_hex() {
    let text = serde_to_string(b"hello");
    let compressed = yazi::compress(b"hello", yazi::Format::Zlib, yazi::CompressionLevel::BestSize).unwrap();
    assert_eq!(from_hex(&text), Some(compressed));
}

#[test]
fn unreadable_stored_text_gives_nothing() {
    assert_eq!(try_serde_from_string("not hex"), None);
    assert_eq!(try_serde_from_string("0011"), None);
}

#[test]
fn session_store_reads_back_writes() {
    let mut store: SessionStore<u32> = SessionStore::new();
    assert_eq!(store.get(&"a".to_string()), None);
    store.set("a".to_string(), 1);
    store.set("b".to_string(), 2);
    store.set("a".to_string(), 3);
    assert_eq!(store.get(&"a".to_string()), Some(&3));
    assert_eq!(store.get(&"b".to_string()), Some(&2));
}

#[test]
fn initial_value_prefers_stored() {
    assert_eq!(initial_value(Some(5), || 7), (5, false));
    assert_eq!(initial_value(None, || 7), (7, true));
    assert_eq!(refreshed_value(1, Some(2)), 2);
    assert_eq!(refreshed_value(1, None), 1);
    assert!(StorageType::Local != StorageType::Session);
}

#[test]
fn keymap_insert_get_remove() {
    let mut map: KeyMap<i32> = KeyMap::new();
    map.insert("x".to_string(), 1);
    map.insert("y".to_string(), 2);
    map.insert("x".to_string(), 3);
    assert_eq!(map.len(), 2);
    assert_eq!(map.get(&"x".to_string()), Some(&3));
    assert_eq!(map.entry_at(0).0, "x");
    assert_eq!(map.remove(&"x".to_string()), Some(3));
    assert_eq!(map.get(&"x".to_string()), None);
    assert!(map.contains_key(&"y".to_string()));
    assert_eq!(map.remove(&"x".to_string()), None);
}

#[test]
fn subscriptions_follow_the_watcher_rules() {
    let mut table: SubscriptionTable<u8> = SubscriptionTable::new();
    assert!(table.existing(&"k".to_string()).is_none());
    match table.register("k".to_string(), 9) {
        WatcherAction::Subscribe(k) => assert_eq!(k, "k"),
        WatcherAction::Unsubscribe(_) => panic!("expected a subscribe action"),
    }
    assert_eq!(table.existing(&"k".to_string()), Some(&9));
    assert_eq!(table.on_change(&"other".to_string(), false), ChangeOutcome::Ignored);
    assert_eq!(table.on_change(&"k".to_string(), false), ChangeOutcome::Notify);
    assert_eq!(table.on_change(&"k".to_string(), true), ChangeOutcome::Removed);
    assert!(table.existing(&"k".to_string()).is_none());
    table.register("k".to_string(), 1);
    assert!(matches!(table.unsubscribe(&"k".to_string()), Some(WatcherAction::Unsubscribe(_))));
    assert!(table.unsubscribe(&"k".to_string()).is_none());
}

#[test]
fn singleton_keys_are_file_and_line() {
    assert_eq!(decimal_text(0), "0");
    assert_eq!(decimal_text(1234), "1234");
    assert_eq!(decimal_text(u32::MAX), u32::MAX.to_string());
    assert_eq!(singleton_key("src/main.rs", 42), "src/main.rs:42");
}

#[test]
fn synced_entries_save_only_changed_values() {
    assert!(!save_needed(Some(true)));
    assert!(save_needed(Some(false)));
    assert!(save_needed(None));
}

#[test]
fn subscribing_twice_joins_the_first_subscription() {
    let mut table: SubscriptionTable<u32> = SubscriptionTable::new();
    match table.subscribe("k".to_string(), || 1) {
        Some(WatcherAction::Subscribe(k)) => assert_eq!(k, "k"),
        _ => panic!("expected a subscribe action"),
    }
    assert!(table.subscribe("k".to_string(), || 2).is_none());
    assert_eq!(table.existing(&"k".to_string()), Some(&1));
}

#[test]
fn singleton_keys_differ_by_line() {
    assert_ne!(singleton_key("src/app.rs", 1), singleton_key("src/app.rs", 10));
    assert_eq!(singleton_key("src/app.rs", 7), singleton_key("src/app.rs", 7));
}

use anthere::session_data::SessionData;
use anthere::store::{Record, SessionStore};
use anthere::timestamp::Timestamp;

const BASE: i64 = 1_700_000_000;

fn fresh_record(expiry: Timestamp) -> Record {
    Record { id: String::new(), data: SessionData::new(), expiry_date: expiry }
}

#[test]
fn test_create() {
    let mut store = SessionStore::new();
    let mut record = fresh_record(Timestamp::new(BASE + 30 * 60, 0));
    assert!(store.create(&mut record).is_ok());
}

#[test]
fn test_save() {
    let mut store = SessionStore::new();
    let record = fresh_record(Timestamp::new(BASE + 30 * 60, 0));
    assert!(store.save(&record).is_ok());
}

#[test]
fn test_load() {
    let mut store = SessionStore::new();
    let mut record = fresh_record(Timestamp::new(BASE + 30 * 60, 0));
    store.create(&mut record).unwrap();
    let loaded_record = store.load(&record.id).unwrap();
    assert_eq!(Some(record), loaded_record);
}

#[test]
fn test_delete() {
    let mut store = SessionStore::new();
    let mut record = fresh_record(Timestamp::new(BASE + 30 * 60, 0));
    store.create(&mut record).unwrap();
    assert!(store.delete(&record.id).is_ok());
    assert_eq!(None, store.load(&record.id).unwrap());
}

#[test]
fn test_create_id_collision() {
    let mut store = SessionStore::new();
    let expiry_date = Timestamp::new(BASE + 30 * 60, 0);
    let mut record1 = fresh_record(expiry_date);
    let mut record2 = fresh_record(expiry_date);
    store.create(&mut record1).unwrap();
    record2.id = record1.id.clone();
    store.create(&mut record2).unwrap();
    assert_ne!(record1.id, record2.id);
}

#[test]
fn create_keeps_a_free_candidate_id() {
    let mut store = SessionStore::new();
    let mut record = fresh_record(Timestamp::new(BASE + 30 * 60, 0));
    record.id = "caller-chosen-id".to_string();
    store.create(&mut record).unwrap();
    assert_eq!(record.id, "caller-chosen-id");
    assert!(store.load(&record.id).unwrap().is_some());
}

#[test]
fn create_round_trip_keeps_payload_and_normalized_expiry() {
    let mut store = SessionStore::new();
    let mut data = SessionData::new();
    data.insert("theme".to_string(), "dark".to_string());
    data.insert("lang".to_string(), "fr".to_string());
    let mut record =
        Record { id: String::new(), data, expiry_date: Timestamp::new(BASE + 30 * 60, 123_456_789) };
    store.create(&mut record).unwrap();
    // The expiry written back has its sub-microsecond digits truncated.
    assert_eq!(record.expiry_date, Timestamp::new(BASE + 30 * 60, 123_456_000));
    let loaded = store.load(&record.id).unwrap().unwrap();
    assert_eq!(loaded.expiry_date, Timestamp::new(BASE + 30 * 60, 123_456_000));
    assert_eq!(loaded.data.get(&"theme".to_string()), Some(&"dark".to_string()));
    assert_eq!(loaded.data.get(&"lang".to_string()), Some(&"fr".to_string()));
    assert_eq!(loaded, record);
}

#[test]
fn create_with_empty_payload_loads_empty_payload() {
    let mut store = SessionStore::new();
    let mut record = fresh_record(Timestamp::new(BASE + 30 * 60, 0));
    store.create(&mut record).unwrap();
    let loaded = store.load(&record.id).unwrap().unwrap();
    assert_eq!(loaded.data, SessionData::new());
    assert_eq!(loaded.expiry_date, Timestamp::new(BASE + 30 * 60, 0));
}

#[test]
fn save_updates_data_and_expiry_in_place() {
    let mut store = SessionStore::new();
    let mut record = fresh_record(Timestamp::new(BASE + 30 * 60, 0));
    store.create(&mut record).unwrap();
    record.data.insert("counter".to_string(), "2".to_string());
    record.expiry_date = Timestamp::new(BASE + 60 * 60, 0);
    assert!(store.save(&record).is_ok());
    let loaded = store.load(&record.id).unwrap().unwrap();
    assert_eq!(loaded, record);
}

#[test]
fn delete_of_absent_id_is_a_noop_success() {
    let mut store = SessionStore::new();
    assert!(store.delete(&"nothing-here".to_string()).is_ok());
    assert_eq!(None, store.load(&"nothing-here".to_string()).unwrap());
}

#[test]
fn id_exists_tracks_create_and_delete() {
    let mut store = SessionStore::new();
    let mut record = fresh_record(Timestamp::new(BASE + 30 * 60, 0));
    assert!(!store.id_exists(&record.id));
    store.create(&mut record).unwrap();
    assert!(store.id_exists(&record.id));
    store.delete(&record.id).unwrap();
    assert!(!store.id_exists(&record.id));
}

#[test]
fn delete_expired_prunes_past_rows_and_keeps_the_rest() {
    let mut store = SessionStore::new();
    let now = Timestamp::new(BASE, 0);
    let mut past = fresh_record(Timestamp::new(BASE - 60, 0));
    let mut future = fresh_record(Timestamp::new(BASE + 60, 0));
    let mut boundary = fresh_record(Timestamp::new(BASE, 0));
    store.create(&mut past).unwrap();
    store.create(&mut future).unwrap();
    store.create(&mut boundary).unwrap();
    assert!(store.delete_expired(&now).is_ok());
    assert_eq!(None, store.load(&past.id).unwrap());
    assert!(store.load(&future.id).unwrap().is_some());
    // A row expiring exactly now is not strictly before now: it stays.
    assert!(store.load(&boundary.id).unwrap().is_some());
}

use anthere::errors::{adapt_app_error, AppError};
use anthere::session_data::SessionData;
use anthere::store::StoreError;
use anthere::sweeper::{SweepAction, Sweeper};
use anthere::timestamp::Timestamp;

#[test]
fn normalization_truncates_below_the_microsecond() {
    let t = Timestamp::new(10, 123_456_789);
    assert_eq!(t.normalized(), Timestamp::new(10, 123_456_000));
}

#[test]
fn normalization_is_idempotent() {
    let t = Timestamp::new(10, 999_999_999);
    let once = t.normalized();
    assert_eq!(once.normalized(), once);
}

#[test]
fn before_orders_instants() {
    let a = Timestamp::new(10, 5);
    let b = Timestamp::new(10, 6);
    let c = Timestamp::new(11, 0);
    assert!(a.before(&b));
    assert!(b.before(&c));
    assert!(!b.before(&a));
    assert!(!a.before(&a));
}

#[test]
fn error_messages_match_the_two_outward_classes() {
    assert_eq!(AppError::NotFound.message(), "Not found");
    assert_eq!(AppError::InternalServerError.message(), "Internal server error");
}

#[test]
fn store_errors_collapse_to_internal_server_error() {
    let backend = StoreError::Backend("pool exhausted".to_string());
    let serial = StoreError::Serialization("bad blob".to_string());
    assert_eq!(adapt_app_error(backend), AppError::InternalServerError);
    assert_eq!(adapt_app_error(serial), AppError::InternalServerError);
    assert_eq!(adapt_app_error("plain failure"), AppError::InternalServerError);
}

#[test]
fn sweeper_sweeps_until_cancelled_and_then_stops_forever() {
    let mut sweeper = Sweeper::new();
    assert_eq!(sweeper.on_tick(), SweepAction::Sweep);
    assert_eq!(sweeper.on_tick(), SweepAction::Sweep);
    sweeper.cancel();
    assert_eq!(sweeper.on_tick(), SweepAction::Stop);
    assert_eq!(sweeper.on_tick(), SweepAction::Stop);
}

#[test]
fn session_data_insert_get_remove() {
    let mut data = SessionData::new();
    assert_eq!(data.get(&"k".to_string()), None);
    data.insert("k".to_string(), "v1".to_string());
    assert_eq!(data.get(&"k".to_string()), Some(&"v1".to_string()));
    data.insert("k".to_string(), "v2".to_string());
    assert_eq!(data.get(&"k".to_string()), Some(&"v2".to_string()));
    data.remove(&"k".to_string());
    assert_eq!(data.get(&"k".to_string()), None);
}

#[test]
fn from_entries_rejects_repeated_keys() {
    let dup = vec![
        ("a".to_string(), "1".to_string()),
        ("a".to_string(), "2".to_string()),
    ];
    assert!(SessionData::from_entries(dup).is_none());
    let ok = vec![
        ("a".to_string(), "1".to_string()),
        ("b".to_string(), "2".to_string()),
    ];
    let data = SessionData::from_entries(ok).unwrap();
    assert_eq!(data.get(&"b".to_string()), Some(&"2".to_string()));
}

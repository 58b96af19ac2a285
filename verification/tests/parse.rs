use contest_core::json::JsonValue;
use contest_core::parse::{day_from_json, day_from_parts};
use contest_core::store::{ContestStore, LoadError};

fn fresh_armed_store() -> ContestStore {
    let mut store = ContestStore::new();
    store.start_contest();
    store
}

#[test]
fn day_from_parts_accepts_complete_entries() {
    let d = day_from_parts(
        Some(3),
        Some(200),
        Some("v".to_string()),
        Some(vec!["h".to_string()]),
    )
    .expect("a complete entry must parse");
    assert_eq!(d.day, 3);
    assert_eq!(d.species, 200);
    assert_eq!(d.version, "v");
    assert_eq!(d.hints, vec!["h".to_string()]);
}

#[test]
fn day_from_parts_rejects_missing_or_oversized_parts() {
    let v = || Some("v".to_string());
    let h = || Some(Vec::<String>::new());
    assert!(day_from_parts(None, Some(1), v(), h()).is_none());
    assert!(day_from_parts(Some(1), None, v(), h()).is_none());
    assert!(day_from_parts(Some(1), Some(1), None, h()).is_none());
    assert!(day_from_parts(Some(1), Some(1), v(), None).is_none());
    assert!(day_from_parts(Some(256), Some(1), v(), h()).is_none());
    assert!(day_from_parts(Some(1), Some(256), v(), h()).is_none());
    assert!(day_from_parts(Some(255), Some(255), v(), h()).is_some());
}

#[test]
fn non_array_documents_are_malformed() {
    let mut store = fresh_armed_store();
    assert_eq!(store.load_schedule(b"{}"), Err(LoadError::Malformed));
}

#[test]
fn missing_fields_are_malformed() {
    let mut store = fresh_armed_store();
    assert_eq!(
        store.load_schedule(br#"[{"day": 1, "species": 1, "version": "v"}]"#),
        Err(LoadError::Malformed)
    );
}

#[test]
fn oversized_day_numbers_are_malformed() {
    let mut store = fresh_armed_store();
    assert_eq!(
        store.load_schedule(br#"[{"day": 256, "species": 1, "version": "v", "hints": []}]"#),
        Err(LoadError::Malformed)
    );
}

#[test]
fn non_string_hints_are_malformed() {
    let mut store = fresh_armed_store();
    assert_eq!(
        store.load_schedule(br#"[{"day": 1, "species": 1, "version": "v", "hints": [1]}]"#),
        Err(LoadError::Malformed)
    );
}

#[test]
fn non_numeric_days_are_malformed() {
    let mut store = fresh_armed_store();
    assert_eq!(
        store.load_schedule(br#"[{"day": "1", "species": 1, "version": "v", "hints": []}]"#),
        Err(LoadError::Malformed)
    );
}

#[test]
fn extra_fields_are_tolerated() {
    let mut store = fresh_armed_store();
    assert!(store
        .load_schedule(
            br#"[{"day": 1, "species": 1, "version": "v", "hints": [], "note": "x"}]"#
        )
        .is_ok());
    assert_eq!(store.schedule_len(), Some(1));
}

#[test]
fn day_object_walk_reads_the_fields() {
    let v = JsonValue::Object(vec![
        ("day".to_string(), JsonValue::UInt(3)),
        ("species".to_string(), JsonValue::UInt(7)),
        ("version".to_string(), JsonValue::Text("v".to_string())),
        (
            "hints".to_string(),
            JsonValue::Array(vec![
                JsonValue::Text("a".to_string()),
                JsonValue::Text("b".to_string()),
            ]),
        ),
        ("note".to_string(), JsonValue::Other),
    ]);
    let d = day_from_json(&v).expect("a complete day object must parse");
    assert_eq!(d.day, 3);
    assert_eq!(d.species, 7);
    assert_eq!(d.version, "v");
    assert_eq!(d.hints, vec!["a".to_string(), "b".to_string()]);
}

#[test]
fn day_object_walk_rejects_wrong_shapes() {
    assert!(day_from_json(&JsonValue::UInt(1)).is_none());
    let no_hints = JsonValue::Object(vec![
        ("day".to_string(), JsonValue::UInt(3)),
        ("species".to_string(), JsonValue::UInt(7)),
        ("version".to_string(), JsonValue::Text("v".to_string())),
        ("hints".to_string(), JsonValue::Text("a".to_string())),
    ]);
    assert!(day_from_json(&no_hints).is_none());
    let bad_day = JsonValue::Object(vec![
        ("day".to_string(), JsonValue::Text("3".to_string())),
        ("species".to_string(), JsonValue::UInt(7)),
        ("version".to_string(), JsonValue::Text("v".to_string())),
        ("hints".to_string(), JsonValue::Array(vec![])),
    ]);
    assert!(day_from_json(&bad_day).is_none());
}

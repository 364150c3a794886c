use stations::json::uuid_string;
use stations::station::{SensorSummary, Station, StationsChangeset, StationsError, StationsModel};
use stations::table::StationsTable;

fn sensor(id: u128, station_id: u128, label: &str) -> SensorSummary {
    SensorSummary { id, station_id, label: label.to_string() }
}

#[test]
fn create_then_find_matches_label_and_key() {
    let mut t = StationsTable::new();
    let st = t.create("alpha".to_string()).unwrap();
    let found = t.find(st.id).unwrap();
    assert_eq!(found.id, st.id);
    assert_eq!(found.label, "alpha");
    assert!(!found.key.is_empty());
    assert_eq!(found.key, st.key);
}

#[test]
fn create_returns_view_without_sensors() {
    let mut t = StationsTable::new();
    let st = t.create("alpha".to_string()).unwrap();
    assert!(st.sensors.is_none());
    assert_eq!(st.label, "alpha");
}

#[test]
fn find_missing_is_not_found() {
    let t = StationsTable::new();
    let r = t.find(42);
    assert!(matches!(r, Err(StationsError::NotFound)));
}

#[test]
fn find_loads_sensors() {
    let mut t = StationsTable::new();
    let a = t.create("with sensors".to_string()).unwrap();
    let b = t.create("without sensors".to_string()).unwrap();
    t.record_sensor(sensor(1, a.id, "temperature"));
    t.record_sensor(sensor(2, b.id, "humidity"));
    t.record_sensor(sensor(3, a.id, "pressure"));
    let fa = t.find(a.id).unwrap();
    let sa = fa.sensors.unwrap();
    assert_eq!(sa.len(), 2);
    assert_eq!(sa[0].label, "temperature");
    assert_eq!(sa[1].label, "pressure");
    assert!(sa.iter().all(|s| s.station_id == a.id));
    let fb = t.find(b.id).unwrap();
    let sb = fb.sensors.unwrap();
    assert_eq!(sb.len(), 1);
    assert_eq!(sb[0].label, "humidity");
}

#[test]
fn delete_missing_returns_zero_not_error() {
    let mut t = StationsTable::new();
    let n = t.delete(7).unwrap();
    assert_eq!(n, 0);
}

#[test]
fn delete_existing_returns_one_and_removes() {
    let mut t = StationsTable::new();
    let st = t.create("doomed".to_string()).unwrap();
    let n = t.delete(st.id).unwrap();
    assert_eq!(n, 1);
    assert!(matches!(t.find(st.id), Err(StationsError::NotFound)));
    assert_eq!(t.delete(st.id).unwrap(), 0);
}

#[test]
fn update_rotates_label_and_key() {
    let mut t = StationsTable::new();
    let st = t.create("old label".to_string()).unwrap();
    let m = t.update(st.id, "new label".to_string(), "rotatedrotatedrotatedrot".to_string()).unwrap();
    assert_eq!(m.id, st.id);
    assert_eq!(m.label, "new label");
    assert_eq!(m.key, "rotatedrotatedrotatedrot");
    let found = t.find(st.id).unwrap();
    assert_eq!(found.label, "new label");
    assert_eq!(found.key, "rotatedrotatedrotatedrot");
}

#[test]
fn update_missing_is_not_found() {
    let mut t = StationsTable::new();
    let r = t.update(9, "label".to_string(), "key".to_string());
    assert!(matches!(r, Err(StationsError::NotFound)));
}

#[test]
fn as_hash_keys_by_id_and_loads_no_sensors() {
    let mut t = StationsTable::new();
    let a = t.create("first".to_string()).unwrap();
    let b = t.create("second".to_string()).unwrap();
    t.record_sensor(sensor(1, a.id, "temperature"));
    let hash = t.as_hash();
    assert_eq!(hash.len(), 2);
    let ha = hash.get(&a.id).unwrap();
    assert_eq!(ha.label, "first");
    assert!(ha.sensors.is_none());
    let hb = hash.get(&b.id).unwrap();
    assert_eq!(hb.label, "second");
    assert!(hb.sensors.is_none());
}

#[test]
fn find_all_always_loads_sensors() {
    let mut t = StationsTable::new();
    let a = t.create("first".to_string()).unwrap();
    let b = t.create("second".to_string()).unwrap();
    t.record_sensor(sensor(1, a.id, "temperature"));
    let all = t.find_all();
    assert_eq!(all.len(), 2);
    assert_eq!(all[0].id, a.id);
    assert_eq!(all[1].id, b.id);
    let sa = all[0].sensors.as_ref().unwrap();
    assert_eq!(sa.len(), 1);
    assert_eq!(sa[0].label, "temperature");
    let sb = all[1].sensors.as_ref().unwrap();
    assert!(sb.is_empty());
}

#[test]
fn created_keys_are_24_alphanumeric_and_distinct() {
    let mut t = StationsTable::new();
    let a = t.create("one".to_string()).unwrap();
    let b = t.create("two".to_string()).unwrap();
    for key in [&a.key, &b.key] {
        assert_eq!(key.chars().count(), 24);
        assert!(key.chars().all(|c| c.is_ascii_alphanumeric()));
    }
    assert_ne!(a.key, b.key);
    assert_ne!(a.id, b.id);
}

#[test]
fn insert_with_key_conflicts_on_taken_id() {
    let mut t = StationsTable::new();
    let first = t.insert_with_key(5, "a".to_string(), "k1".to_string());
    assert!(first.is_ok());
    let second = t.insert_with_key(5, "b".to_string(), "k2".to_string());
    assert!(matches!(second, Err(StationsError::Conflict)));
    assert_eq!(t.find(5).unwrap().label, "a");
}

#[test]
fn belonging_to_filters_by_station() {
    let mut t = StationsTable::new();
    t.record_sensor(sensor(1, 10, "a"));
    t.record_sensor(sensor(2, 11, "b"));
    t.record_sensor(sensor(3, 10, "c"));
    let own = t.belonging_to(10);
    assert_eq!(own.len(), 2);
    assert_eq!(own[0].id, 1);
    assert_eq!(own[1].id, 3);
    assert!(t.belonging_to(12).is_empty());
}

#[test]
fn json_never_contains_the_key() {
    let st = Station {
        id: 0,
        label: "alpha".to_string(),
        key: "hushhushsecret".to_string(),
        sensors: None,
    };
    let json = st.to_json();
    assert_eq!(
        json,
        "{\"id\":\"00000000-0000-0000-0000-000000000000\",\"label\":\"alpha\"}"
    );
    assert!(!json.contains("hushhushsecret"));
    assert!(!json.contains("key"));
}

#[test]
fn json_is_the_same_whatever_the_key() {
    let a = Station {
        id: 3,
        label: "alpha".to_string(),
        key: "one key".to_string(),
        sensors: None,
    };
    let b = Station {
        id: 3,
        label: "alpha".to_string(),
        key: "another key".to_string(),
        sensors: None,
    };
    assert_eq!(a.to_json(), b.to_json());
}

#[test]
fn json_writes_hyphenated_uuid() {
    let id: u128 = 0x123e4567_e89b_12d3_a456_426614174000;
    assert_eq!(uuid_string(id), "123e4567-e89b-12d3-a456-426614174000");
    assert_eq!(uuid_string(u128::MAX), "ffffffff-ffff-ffff-ffff-ffffffffffff");
}

#[test]
fn json_escapes_label() {
    let st = Station {
        id: 0,
        label: "a\"b\\c\nd\u{1}".to_string(),
        key: String::new(),
        sensors: None,
    };
    assert_eq!(
        st.to_json(),
        "{\"id\":\"00000000-0000-0000-0000-000000000000\",\"label\":\"a\\\"b\\\\c\\nd\\u0001\"}"
    );
}

#[test]
fn json_writes_loaded_sensors_array() {
    let st = Station {
        id: 1,
        label: "site".to_string(),
        key: "k".to_string(),
        sensors: Some(vec![sensor(2, 1, "temp")]),
    };
    assert_eq!(
        st.to_json(),
        "{\"id\":\"00000000-0000-0000-0000-000000000001\",\"label\":\"site\",\
         \"sensors\":[{\"id\":\"00000000-0000-0000-0000-000000000002\",\
         \"station_id\":\"00000000-0000-0000-0000-000000000001\",\"label\":\"temp\"}]}"
    );
}

#[test]
fn json_writes_empty_sensors_array_when_loaded() {
    let st = Station {
        id: 1,
        label: "site".to_string(),
        key: "k".to_string(),
        sensors: Some(Vec::new()),
    };
    assert_eq!(
        st.to_json(),
        "{\"id\":\"00000000-0000-0000-0000-000000000001\",\"label\":\"site\",\"sensors\":[]}"
    );
}

#[test]
fn error_maps_to_status_codes() {
    assert_eq!(StationsError::NotFound.status_code(), 404);
    assert_eq!(StationsError::Conflict.status_code(), 409);
    assert_eq!(StationsError::NotFound.describe(), "station not found");
    assert_eq!(StationsError::Conflict.describe(), "station id already taken");
}

#[test]
fn changeset_carries_the_label() {
    let c = StationsChangeset { label: "renamed".to_string() };
    assert_eq!(c.label, "renamed");
}

#[test]
fn updated_row_json_omits_key() {
    let mut t = StationsTable::new();
    t.insert_with_key(3, "site".to_string(), "firstsecret".to_string()).unwrap();
    let m = t.update(3, "renamed".to_string(), "rotatedsecret".to_string()).unwrap();
    let json = m.to_json();
    assert_eq!(
        json,
        "{\"id\":\"00000000-0000-0000-0000-000000000003\",\"label\":\"renamed\"}"
    );
    assert!(!json.contains("rotatedsecret"));
    assert!(!json.contains("key"));
}

#[test]
fn model_json_is_the_same_whatever_the_key() {
    let a = StationsModel { id: 9, label: "x".to_string(), key: "one key".to_string() };
    let b = StationsModel { id: 9, label: "x".to_string(), key: "another key".to_string() };
    assert_eq!(a.to_json(), b.to_json());
}

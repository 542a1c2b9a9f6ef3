use notion_into_sqlite::json_util::{dig_json, JsonKey};
use serde_json::Value;

#[test]
fn test_dig_json() {
    let data = serde_json::from_str::<Value>("{}").unwrap();
    let keys: Vec<JsonKey> = vec!["foo".into(), "foo".into(), 1.into()];
    assert!(dig_json(&data, &keys).is_none());

    let data = serde_json::from_str::<Value>(
        r#"{
            "foo": {
                "bar": [
                    {
                        "id": "xxx"
                    }
                ]
            }
        }"#,
    )
    .unwrap();
    let keys: Vec<JsonKey> = vec!["foo".into(), "bar".into(), 0.into(), "id".into()];
    assert_eq!(dig_json(&data, &keys).unwrap(), "xxx");
}

#[test]
fn dig_json_with_no_keys_gives_the_source() {
    let data = serde_json::from_str::<Value>(r#"{"a": [1, 2]}"#).unwrap();
    let keys: Vec<JsonKey> = vec![];
    assert_eq!(dig_json(&data, &keys).unwrap(), &data);
}

#[test]
fn dig_json_stops_at_the_first_step_that_fails() {
    let data = serde_json::from_str::<Value>(r#"{"a": [10, {"b": true}], "s": "text"}"#).unwrap();
    // a missing field
    let keys: Vec<JsonKey> = vec!["x".into(), "a".into()];
    assert!(dig_json(&data, &keys).is_none());
    // an index out of range
    let keys: Vec<JsonKey> = vec!["a".into(), 2.into()];
    assert!(dig_json(&data, &keys).is_none());
    // an index into what is no array
    let keys: Vec<JsonKey> = vec!["s".into(), 0.into()];
    assert!(dig_json(&data, &keys).is_none());
    // a name into what is no object
    let keys: Vec<JsonKey> = vec!["a".into(), "b".into()];
    assert!(dig_json(&data, &keys).is_none());
    // a path that resolves
    let keys: Vec<JsonKey> = vec!["a".into(), 1.into(), "b".into()];
    assert_eq!(dig_json(&data, &keys).unwrap(), &Value::Bool(true));
    let keys: Vec<JsonKey> = vec!["a".into(), 0.into()];
    assert_eq!(dig_json(&data, &keys).unwrap().as_u64(), Some(10));
}

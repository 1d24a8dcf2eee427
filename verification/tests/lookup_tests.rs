use evtx_archiver::json_tree::{extract_json_field, JsonValue};

fn sample_record() -> JsonValue {
    JsonValue::Object(vec![(
        "Event".to_string(),
        JsonValue::Object(vec![(
            "System".to_string(),
            JsonValue::Object(vec![
                (
                    "Channel".to_string(),
                    JsonValue::Text("Application".to_string()),
                ),
                (
                    "Computer".to_string(),
                    JsonValue::Text("WIN-ABC123.domain.local".to_string()),
                ),
                ("EventID".to_string(), JsonValue::Number("1000".to_string())),
                (
                    "Flags".to_string(),
                    JsonValue::Array(vec![JsonValue::Text("audit".to_string())]),
                ),
            ]),
        )]),
    )])
}

#[test]
fn present_path_returns_stored_leaf() {
    let record = sample_record();
    assert_eq!(
        extract_json_field(&record, "Event.System.Channel"),
        Some("Application".to_string())
    );
    assert_eq!(
        extract_json_field(&record, "Event.System.Computer"),
        Some("WIN-ABC123.domain.local".to_string())
    );
}

#[test]
fn missing_intermediate_segment_returns_none() {
    let record = sample_record();
    assert_eq!(extract_json_field(&record, "Event.UserData.Channel"), None);
}

#[test]
fn missing_leaf_segment_returns_none() {
    let record = sample_record();
    assert_eq!(extract_json_field(&record, "Event.System.Provider"), None);
}

#[test]
fn path_through_string_leaf_returns_none() {
    let record = sample_record();
    assert_eq!(
        extract_json_field(&record, "Event.System.Channel.Name"),
        None
    );
}

#[test]
fn path_through_array_returns_none() {
    let record = sample_record();
    assert_eq!(extract_json_field(&record, "Event.System.Flags.0"), None);
}

#[test]
fn non_string_leaf_returns_none() {
    let record = sample_record();
    assert_eq!(extract_json_field(&record, "Event.System.EventID"), None);
}

#[test]
fn empty_path_returns_none() {
    let record = sample_record();
    assert_eq!(extract_json_field(&record, ""), None);
}

#[test]
fn lookup_on_scalar_root_returns_none() {
    let scalar = JsonValue::Text("no object here".to_string());
    assert_eq!(extract_json_field(&scalar, "Event.System.Channel"), None);
    let null = JsonValue::Null;
    assert_eq!(extract_json_field(&null, "Event"), None);
}

#[test]
fn first_binding_wins_on_duplicate_keys() {
    let record = JsonValue::Object(vec![
        ("Key".to_string(), JsonValue::Text("first".to_string())),
        ("Key".to_string(), JsonValue::Text("second".to_string())),
    ]);
    assert_eq!(
        extract_json_field(&record, "Key"),
        Some("first".to_string())
    );
}

use telemetry_push::json::{set_member, Json, JsonNumber};
use telemetry_push::loader::load_data_text;
use telemetry_push::transform::{
    extract_telemetry_values, find_random_target, insert_send_time, observe_replacement,
    transform_value, with_replacement, Replacement, TransformError,
};

fn refuse(_: &JsonNumber) -> Option<JsonNumber> {
    None
}

fn seven_and_a_half(_: &JsonNumber) -> Option<JsonNumber> {
    Some(JsonNumber::Real("7.5".to_string()))
}

fn number(v: i128) -> Json {
    Json::Number(JsonNumber::Integer(v))
}

fn literal(digits: &str) -> Json {
    Json::Number(JsonNumber::Real(digits.to_string()))
}

fn word(s: &str) -> Json {
    Json::String(s.to_string())
}

fn named(name: &str, value: Json) -> (String, Json) {
    (name.to_string(), value)
}

fn key(name: &str) -> Option<String> {
    Some(name.to_string())
}

fn sensor_record() -> Json {
    Json::Object(vec![named(
        "sensor",
        Json::Object(vec![named("v", number(5)), named("unit", word("C"))]),
    )])
}

#[test]
fn nested_number_under_key_is_randomized() {
    for _ in 0..500 {
        let values = extract_telemetry_values(&sensor_record(), &key("v"), &refuse).unwrap();
        assert_eq!(values.len(), 1);
        assert_eq!(values[0].0, "sensor");
        match &values[0].1 {
            Json::Object(inner) => {
                assert_eq!(inner.len(), 2);
                assert_eq!(inner[0].0, "v");
                match &inner[0].1 {
                    Json::Number(JsonNumber::Integer(v)) => assert!((1..=10).contains(v)),
                    other => panic!("unexpected: {:?}", other),
                }
                assert_eq!(inner[1], named("unit", word("C")));
            }
            other => panic!("unexpected: {:?}", other),
        }
    }
}

#[test]
fn absent_key_leaves_value_unchanged() {
    let record = Json::Object(vec![named("sensor", Json::Object(vec![named("v", number(5))]))]);
    let values = extract_telemetry_values(&record, &key("other"), &refuse).unwrap();
    assert_eq!(values, vec![named("sensor", Json::Object(vec![named("v", number(5))]))]);
}

#[test]
fn no_key_leaves_record_unchanged() {
    let values = extract_telemetry_values(&sensor_record(), &None, &refuse).unwrap();
    assert_eq!(Json::Object(values), sensor_record());
}

#[test]
fn value_under_key_that_is_no_number_stays() {
    let record = Json::Object(vec![
        named("a", Json::Object(vec![named("v", word("5"))])),
        named("b", Json::Object(vec![named("v", Json::Null)])),
        named("c", Json::Object(vec![named("v", Json::Array(vec![number(5)]))])),
        named("d", Json::Object(vec![named("v", Json::Object(vec![named("v", number(5))]))])),
    ]);
    let values = extract_telemetry_values(&record, &key("v"), &refuse).unwrap();
    assert_eq!(Json::Object(values), record);
}

#[test]
fn top_level_number_is_not_randomized() {
    let record = Json::Object(vec![
        named("v", number(5)),
        named("list", Json::Array(vec![Json::Object(vec![named("v", number(5))])])),
        named("flag", Json::Bool(true)),
        named("text", word("v")),
    ]);
    let values = extract_telemetry_values(&record, &key("v"), &refuse).unwrap();
    assert_eq!(Json::Object(values), record);
}

#[test]
fn every_nested_object_with_key_is_randomized() {
    let record = Json::Object(vec![
        named("first", Json::Object(vec![named("v", number(0))])),
        named("plain", number(9)),
        named("second", Json::Object(vec![named("w", number(3)), named("v", number(-4))])),
    ]);
    let values = extract_telemetry_values(&record, &key("v"), &refuse).unwrap();
    assert_eq!(
        values,
        vec![
            named("first", Json::Object(vec![named("v", number(1))])),
            named("plain", number(9)),
            named("second", Json::Object(vec![named("w", number(3)), named("v", number(1))])),
        ]
    );
}

#[test]
fn other_number_under_key_takes_the_draw() {
    let record = Json::Object(vec![named(
        "sensor",
        Json::Object(vec![named("unit", word("C")), named("v", literal("4.0"))]),
    )]);
    let values = extract_telemetry_values(&record, &key("v"), &seven_and_a_half).unwrap();
    assert_eq!(
        values,
        vec![named(
            "sensor",
            Json::Object(vec![named("unit", word("C")), named("v", literal("7.5"))]),
        )]
    );
}

#[test]
fn record_that_is_no_object_fails() {
    for record in [Json::Null, number(1), word("x"), Json::Array(vec![sensor_record()])] {
        assert_eq!(
            extract_telemetry_values(&record, &key("v"), &refuse),
            Err(TransformError::NotAnObject)
        );
    }
}

#[test]
fn record_without_members_fails() {
    assert_eq!(
        extract_telemetry_values(&Json::Object(vec![]), &key("v"), &refuse),
        Err(TransformError::Empty)
    );
    assert_eq!(
        extract_telemetry_values(&Json::Object(vec![]), &None, &refuse),
        Err(TransformError::Empty)
    );
}

#[test]
fn refused_draw_fails_the_record() {
    let record = Json::Object(vec![
        named("a", number(1)),
        named("sensor", Json::Object(vec![named("v", literal("4.0"))])),
    ]);
    assert_eq!(
        extract_telemetry_values(&record, &key("v"), &refuse),
        Err(TransformError::Synthesis)
    );
    assert!(extract_telemetry_values(&record, &key("w"), &refuse).is_ok());
}

#[test]
fn record_is_not_changed_in_place() {
    let record = sensor_record();
    let _ = extract_telemetry_values(&record, &key("v"), &refuse).unwrap();
    assert_eq!(record, sensor_record());
}

#[test]
fn target_is_first_member_of_that_name() {
    assert_eq!(find_random_target(&sensor_record(), &key("v")), None);
    let inner = Json::Object(vec![named("unit", word("C")), named("v", number(5))]);
    assert_eq!(find_random_target(&inner, &key("v")), Some(1));
    assert_eq!(find_random_target(&inner, &key("unit")), None);
    assert_eq!(find_random_target(&inner, &key("x")), None);
    assert_eq!(find_random_target(&inner, &None), None);
    assert_eq!(find_random_target(&number(5), &key("v")), None);
}

#[test]
fn transform_value_replaces_only_the_target() {
    let inner = Json::Object(vec![named("unit", word("C")), named("v", number(0))]);
    assert_eq!(
        transform_value(&inner, &key("v"), &refuse),
        Ok(Json::Object(vec![named("unit", word("C")), named("v", number(1))]))
    );
    assert_eq!(transform_value(&inner, &key("unit"), &refuse), Ok(inner.clone()));
    assert_eq!(transform_value(&word("v"), &key("v"), &refuse), Ok(word("v")));
}

#[test]
fn replacement_can_be_read_off() {
    let before = Json::Object(vec![named("unit", word("C")), named("v", number(5))]);
    let after = transform_value(&before, &key("v"), &refuse).unwrap();
    match observe_replacement(&before, &after, &key("v")) {
        Some(Replacement { before: JsonNumber::Integer(5), after: JsonNumber::Integer(v) }) => {
            assert!((1..=10).contains(&v))
        }
        other => panic!("unexpected: {:?}", other),
    }
    assert_eq!(observe_replacement(&before, &after, &key("unit")), None);
    assert_eq!(observe_replacement(&before, &after, &None), None);
    assert_eq!(observe_replacement(&before, &Json::Null, &key("v")), None);
    assert_eq!(observe_replacement(&before, &Json::Object(vec![]), &key("v")), None);
}

#[test]
fn send_time_is_added_last() {
    let mut values = vec![named("a", number(1))];
    insert_send_time(&mut values, &"2024-05-06 07:08:09".to_string());
    assert_eq!(
        values,
        vec![named("a", number(1)), named("send_time", word("2024-05-06 07:08:09"))]
    );
}

#[test]
fn send_time_overwrites_field_of_that_name() {
    let mut values =
        vec![named("send_time", number(0)), named("a", number(1)), named("send_time", number(2))];
    insert_send_time(&mut values, &"2024-05-06 07:08:09".to_string());
    assert_eq!(
        values,
        vec![
            named("send_time", word("2024-05-06 07:08:09")),
            named("a", number(1)),
            named("send_time", number(2)),
        ]
    );
}

#[test]
fn set_member_replaces_or_appends() {
    let mut members = vec![named("a", number(1)), named("b", number(2))];
    set_member(&mut members, "a".to_string(), Json::Null);
    assert_eq!(members, vec![named("a", Json::Null), named("b", number(2))]);
    set_member(&mut members, "c".to_string(), Json::Bool(false));
    assert_eq!(
        members,
        vec![named("a", Json::Null), named("b", number(2)), named("c", Json::Bool(false))]
    );
}

#[test]
fn loaded_batch_is_transformed_with_its_key() {
    let batch = load_data_text(
        r#"{"random_key": "drp", "data": [{"rain": {"drp": 0, "id": "r1"}}, {"wind": {"id": "w1"}}]}"#,
    )
    .unwrap();
    let first = extract_telemetry_values(&batch.data[0], &batch.random_key, &refuse).unwrap();
    assert_eq!(
        first,
        vec![named("rain", Json::Object(vec![named("drp", number(1)), named("id", word("r1"))]))]
    );
    let second = extract_telemetry_values(&batch.data[1], &batch.random_key, &refuse).unwrap();
    assert_eq!(second, vec![named("wind", Json::Object(vec![named("id", word("w1"))]))]);
}

#[test]
fn replacement_goes_where_the_target_is() {
    let inner = Json::Object(vec![
        named("unit", word("C")),
        named("v", number(5)),
        named("w", number(6)),
    ]);
    assert_eq!(
        with_replacement(&inner, &key("v"), number(9)),
        Json::Object(vec![named("unit", word("C")), named("v", number(9)), named("w", number(6))])
    );
    assert_eq!(
        with_replacement(&inner, &key("w"), literal("2.5")),
        Json::Object(vec![
            named("unit", word("C")),
            named("v", number(5)),
            named("w", literal("2.5")),
        ])
    );
}

#[test]
fn replacement_without_target_is_a_copy() {
    let inner = Json::Object(vec![named("unit", word("C")), named("v", number(5))]);
    assert_eq!(with_replacement(&inner, &key("unit"), number(9)), inner);
    assert_eq!(with_replacement(&inner, &key("x"), number(9)), inner);
    assert_eq!(with_replacement(&inner, &None, number(9)), inner);
    assert_eq!(with_replacement(&number(5), &key("v"), number(9)), number(5));
    assert_eq!(with_replacement(&sensor_record(), &key("v"), number(9)), sensor_record());
}

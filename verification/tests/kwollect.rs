use kwollect_input::json::{JsonNumber, JsonValue};
use kwollect_input::kwollect::{
    assemble_record, decode_record, encode_record, parse_measurements, BatchError, DecodeError,
    Field, MeasureKwollect, NumericValue, Timestamp,
};
use kwollect_input::label::{decode_label, join, LabelValue, Labels};

fn json(text: &str) -> JsonValue {
    JsonValue::parse(text).expect("the text is JSON")
}

#[test]
/// Test for parsing a measurement with power consumption data.
fn test_parse_measurement_with_power_consumption() {
    let power_consumption_measurement = json(
        r#"{
            "device_id": "taurus-7",
            "metric_id": "wattmetre_power_watt",
            "timestamp": "2025-07-21T16:15:31+02:00",
            "value": 131.7,
            "labels": {
                "_device_orig": "wattmetre1-port6"
            }
        }"#,
    );

    let parsed_measurement = decode_record(&power_consumption_measurement);
    assert!(
        parsed_measurement.is_ok(),
        "Failed to parse measurement: {:?}",
        parsed_measurement.err()
    );

    let parsed_measurement = parsed_measurement.unwrap();
    assert_eq!(parsed_measurement.device_id, "taurus-7");
    assert_eq!(parsed_measurement.metric_id, "wattmetre_power_watt");
    assert!(
        matches!(parsed_measurement.value, NumericValue::Float64(v) if (f64::from_bits(v) - 131.7).abs() < f64::EPSILON)
    );

    assert!(parsed_measurement.labels.contains_key("_device_orig"));
    assert_eq!(
        parsed_measurement.labels.get("_device_orig"),
        Some(&LabelValue::String("wattmetre1-port6".to_string()))
    );
}

#[test]
fn test_parse_measurement_with_different_value_types() {
    let measurement_with_u64 = json(
        r#"{
            "device_id": "taurus-7",
            "metric_id": "wattmetre_power_watt",
            "timestamp": "2025-07-21T16:15:31+02:00",
            "value": 131,
            "labels": {
                "_device_orig": "wattmetre1-port6"
            }
        }"#,
    );

    let parsed_measurement = decode_record(&measurement_with_u64);
    assert!(
        parsed_measurement.is_ok(),
        "Failed to parse measurement: {:?}",
        parsed_measurement.err()
    );

    let parsed_measurement = parsed_measurement.unwrap();
    assert_eq!(parsed_measurement.device_id, "taurus-7");
    assert_eq!(parsed_measurement.metric_id, "wattmetre_power_watt");
    assert!(matches!(parsed_measurement.value, NumericValue::UInt64(131)));
}

#[test]
fn test_parse_measurement_with_different_timestamp_format() {
    let measurement_with_string_timestamp = json(
        r#"{
            "device_id": "taurus-7",
            "metric_id": "wattmetre_power_watt",
            "timestamp": "2025-07-21T16:15:31+02:00",
            "value": 131.7,
            "labels": {
                "_device_orig": "wattmetre1-port6"
            }
        }"#,
    );

    let parsed_measurement = decode_record(&measurement_with_string_timestamp);
    assert!(
        parsed_measurement.is_ok(),
        "Expected to successfully parse measurement with string timestamp"
    );
}

#[test]
fn test_parse_measurement_with_array_labels() {
    let measurement_with_array_labels = json(
        r#"{
            "device_id": "taurus-7",
            "metric_id": "wattmetre_power_watt",
            "timestamp": "2025-07-21T16:15:31+02:00",
            "value": 131.7,
            "labels": {
                "_device_orig": ["wattmetre1-port6", "wattmetre2-port7"]
            }
        }"#,
    );

    let parsed_measurement = decode_record(&measurement_with_array_labels);
    assert!(
        parsed_measurement.is_ok(),
        "Failed to parse measurement: {:?}",
        parsed_measurement.err()
    );

    let parsed_measurement = parsed_measurement.unwrap();
    assert_eq!(parsed_measurement.device_id, "taurus-7");
    assert_eq!(parsed_measurement.metric_id, "wattmetre_power_watt");
    assert!(
        matches!(parsed_measurement.value, NumericValue::Float64(v) if (f64::from_bits(v) - 131.7).abs() < f64::EPSILON)
    );
}

#[test]
fn test_manual_deserialization() {
    let json_data = json(
        r#"{
            "device_id": "taurus-7",
            "metric_id": "wattmetre_power_watt",
            "timestamp": "2025-07-22T08:46:26+02:00",
            "value": 3.8189189189189183,
            "labels": {
                "_device_orig": ["wattmetre1-port6"]
            }
        }"#,
    );

    let parsed_measurement = decode_record(&json_data);
    assert!(
        parsed_measurement.is_ok(),
        "Failed to parse measurement: {:?}",
        parsed_measurement.err()
    );

    let parsed_measurement = parsed_measurement.unwrap();
    assert_eq!(parsed_measurement.device_id, "taurus-7");
    assert_eq!(parsed_measurement.metric_id, "wattmetre_power_watt");
    assert!(
        matches!(parsed_measurement.value, NumericValue::Float64(v) if (f64::from_bits(v) - 3.8189189189189183).abs() < f64::EPSILON)
    );
}

fn record_text(value: &str, labels: &str) -> String {
    format!(
        r#"{{"device_id":"taurus-7","metric_id":"wattmetre_power_watt","timestamp":"2025-07-21T16:15:31+02:00","value":{},"labels":{}}}"#,
        value, labels
    )
}

#[test]
fn parse_reads_every_shape() {
    assert_eq!(json("null"), JsonValue::Null);
    assert_eq!(json("true"), JsonValue::Bool(true));
    assert_eq!(json("7"), JsonValue::Number(JsonNumber::PosInt(7)));
    assert_eq!(json("-7"), JsonValue::Number(JsonNumber::NegInt(-7)));
    assert_eq!(json("1.5"), JsonValue::Number(JsonNumber::Float(1.5f64.to_bits())));
    assert_eq!(json(r#""a""#), JsonValue::String("a".to_string()));
    assert_eq!(
        json(r#"[1, "a"]"#),
        JsonValue::Array(vec![
            (JsonValue::Number(JsonNumber::PosInt(1)), "1".to_string()),
            (JsonValue::String("a".to_string()), r#""a""#.to_string()),
        ])
    );
    assert_eq!(
        json(r#"{"k": false}"#),
        JsonValue::Object(vec![("k".to_string(), JsonValue::Bool(false))])
    );
}

#[test]
fn parse_refuses_what_is_not_json() {
    assert_eq!(JsonValue::parse("{"), None);
    assert_eq!(JsonValue::parse(""), None);
    assert_eq!(JsonValue::parse("device_id"), None);
}

#[test]
fn floating_value_is_float64() {
    let parsed = decode_record(&json(&record_text("131.7", "{}"))).unwrap();
    assert_eq!(parsed.value, NumericValue::Float64(131.7f64.to_bits()));
    let parsed = decode_record(&json(&record_text("2.0", "{}"))).unwrap();
    assert_eq!(parsed.value, NumericValue::Float64(2.0f64.to_bits()));
}

#[test]
fn integer_beyond_the_unsigned_range_is_float64() {
    let parsed = decode_record(&json(&record_text("18446744073709551616", "{}"))).unwrap();
    assert_eq!(parsed.value, NumericValue::Float64(18446744073709551616.0f64.to_bits()));
    let parsed = decode_record(&json(&record_text("1e3", "{}"))).unwrap();
    assert_eq!(parsed.value, NumericValue::Float64(1000.0f64.to_bits()));
}

#[test]
fn integer_value_is_uint64() {
    let parsed = decode_record(&json(&record_text("131", "{}"))).unwrap();
    assert_eq!(parsed.value, NumericValue::UInt64(131));
    let parsed = decode_record(&json(&record_text("18446744073709551615", "{}"))).unwrap();
    assert_eq!(parsed.value, NumericValue::UInt64(u64::MAX));
    let parsed = decode_record(&json(&record_text("0", "{}"))).unwrap();
    assert_eq!(parsed.value, NumericValue::UInt64(0));
}

#[test]
fn negative_or_non_numeric_value_is_refused() {
    for bad in ["-3", "\"131\"", "true", "null", "[1]", "{}"] {
        assert_eq!(
            decode_record(&json(&record_text(bad, "{}"))),
            Err(DecodeError::BadValue(Field::Value)),
            "value {}",
            bad
        );
    }
}

#[test]
fn label_shapes() {
    assert_eq!(decode_label(&json("true")), Ok(LabelValue::Bool(true)));
    assert_eq!(decode_label(&json("1.25")), Ok(LabelValue::Float64(1.25f64.to_bits())));
    assert_eq!(decode_label(&json("42")), Ok(LabelValue::UInt64(42)));
    assert_eq!(decode_label(&json("\"x\"")), Ok(LabelValue::String("x".to_string())));
    assert_eq!(decode_label(&json("null")), Err(DecodeError::UnsupportedShape));
    assert_eq!(decode_label(&json("{\"a\":1}")), Err(DecodeError::UnsupportedShape));
}

#[test]
fn negative_integer_label_keeps_its_bits() {
    assert_eq!(decode_label(&json("-1")), Ok(LabelValue::UInt64(u64::MAX)));
    assert_eq!(decode_label(&json("-2")), Ok(LabelValue::UInt64(u64::MAX - 1)));
    assert_eq!(
        decode_label(&json("-9223372036854775808")),
        Ok(LabelValue::UInt64(1u64 << 63))
    );
}

#[test]
fn array_label_is_joined() {
    assert_eq!(decode_label(&json(r#"["a","b"]"#)), Ok(LabelValue::String("a, b".to_string())));
    assert_eq!(decode_label(&json(r#"["a"]"#)), Ok(LabelValue::String("a".to_string())));
    assert_eq!(decode_label(&json("[]")), Ok(LabelValue::String(String::new())));
    assert_eq!(
        decode_label(&json(r#"["b","a","c"]"#)),
        Ok(LabelValue::String("b, a, c".to_string()))
    );
}

#[test]
fn array_label_of_other_elements_uses_their_json_text() {
    assert_eq!(
        decode_label(&json(r#"[1, 2.5, true, null, "s", [3, "t"], {"k": -4}]"#)),
        Ok(LabelValue::String(r#"1, 2.5, true, null, s, [3,"t"], {"k":-4}"#.to_string()))
    );
}

#[test]
fn array_label_in_a_record() {
    let parsed = decode_record(&json(&record_text(
        "131.7",
        r#"{"_device_orig": ["wattmetre1-port6", "wattmetre2-port7"]}"#,
    )))
    .unwrap();
    assert_eq!(
        parsed.labels.get("_device_orig"),
        Some(&LabelValue::String("wattmetre1-port6, wattmetre2-port7".to_string()))
    );
}

#[test]
fn join_puts_the_separator_between() {
    assert_eq!(join(&vec![], ","), "");
    assert_eq!(join(&vec!["a".to_string()], ","), "a");
    assert_eq!(join(&vec!["a".to_string(), "b".to_string(), "c".to_string()], ", "), "a, b, c");
}

#[test]
fn missing_field_is_named() {
    let no_device = json(
        r#"{"metric_id":"m","timestamp":"2025-07-21T16:15:31+02:00","value":1,"labels":{}}"#,
    );
    assert_eq!(decode_record(&no_device), Err(DecodeError::MissingField(Field::DeviceId)));
    assert_eq!(Field::DeviceId.name(), "device_id");
    let no_metric = json(
        r#"{"device_id":"d","timestamp":"2025-07-21T16:15:31+02:00","value":1,"labels":{}}"#,
    );
    assert_eq!(decode_record(&no_metric), Err(DecodeError::MissingField(Field::MetricId)));
    let no_timestamp = json(r#"{"device_id":"d","metric_id":"m","value":1,"labels":{}}"#);
    assert_eq!(decode_record(&no_timestamp), Err(DecodeError::MissingField(Field::Timestamp)));
    let no_value = json(
        r#"{"device_id":"d","metric_id":"m","timestamp":"2025-07-21T16:15:31+02:00","labels":{}}"#,
    );
    assert_eq!(decode_record(&no_value), Err(DecodeError::MissingField(Field::Value)));
    let no_labels = json(
        r#"{"device_id":"d","metric_id":"m","timestamp":"2025-07-21T16:15:31+02:00","value":1}"#,
    );
    assert_eq!(decode_record(&no_labels), Err(DecodeError::MissingField(Field::Labels)));
    assert_eq!(decode_record(&json("{}")), Err(DecodeError::MissingField(Field::DeviceId)));
}

#[test]
fn field_names() {
    assert_eq!(Field::DeviceId.name(), "device_id");
    assert_eq!(Field::MetricId.name(), "metric_id");
    assert_eq!(Field::Timestamp.name(), "timestamp");
    assert_eq!(Field::Value.name(), "value");
    assert_eq!(Field::Labels.name(), "labels");
}

#[test]
fn malformed_field_is_named() {
    let bad_device = json(
        r#"{"device_id":7,"metric_id":"m","timestamp":"2025-07-21T16:15:31+02:00","value":1,"labels":{}}"#,
    );
    assert_eq!(decode_record(&bad_device), Err(DecodeError::BadValue(Field::DeviceId)));
    let bad_metric = json(
        r#"{"device_id":"d","metric_id":null,"timestamp":"2025-07-21T16:15:31+02:00","value":1,"labels":{}}"#,
    );
    assert_eq!(decode_record(&bad_metric), Err(DecodeError::BadValue(Field::MetricId)));
    let bad_labels = json(
        r#"{"device_id":"d","metric_id":"m","timestamp":"2025-07-21T16:15:31+02:00","value":1,"labels":[]}"#,
    );
    assert_eq!(decode_record(&bad_labels), Err(DecodeError::BadValue(Field::Labels)));
    let negative_timestamp =
        json(r#"{"device_id":"d","metric_id":"m","timestamp":-5,"value":1,"labels":{}}"#);
    assert_eq!(decode_record(&negative_timestamp), Err(DecodeError::BadValue(Field::Timestamp)));
}

#[test]
fn first_failing_field_gives_the_error() {
    let two_faults = json(r#"{"device_id":"d","metric_id":3,"value":"x","labels":{}}"#);
    assert_eq!(decode_record(&two_faults), Err(DecodeError::BadValue(Field::MetricId)));
}

#[test]
fn record_must_be_an_object() {
    assert_eq!(decode_record(&json("[]")), Err(DecodeError::NotAnObject));
    assert_eq!(decode_record(&json("3")), Err(DecodeError::NotAnObject));
    assert_eq!(decode_record(&json("null")), Err(DecodeError::NotAnObject));
}

#[test]
fn timestamp_encodings() {
    let with = |timestamp: &str| {
        decode_record(&json(&format!(
            r#"{{"device_id":"d","metric_id":"m","timestamp":{},"value":1,"labels":{{}}}}"#,
            timestamp
        )))
        .map(|m| m.timestamp)
    };
    assert_eq!(with("1753107331.5"), Ok(Timestamp::EpochFloat(1753107331.5f64.to_bits())));
    assert_eq!(with("1753107331"), Ok(Timestamp::EpochSeconds(1753107331)));
    assert_eq!(
        with("\"2025-07-21T16:15:31+02:00\""),
        Ok(Timestamp::Rfc3339("2025-07-21T16:15:31+02:00".to_string()))
    );
    assert_eq!(
        with("\"2025-07-21T14:15:31Z\""),
        Ok(Timestamp::Rfc3339("2025-07-21T14:15:31Z".to_string()))
    );
    assert_eq!(with("\"yesterday\""), Err(DecodeError::BadTimestamp));
    assert_eq!(with("\"2025-07-21\""), Err(DecodeError::BadTimestamp));
    assert_eq!(with("\"2025-13-41T16:15:31+02:00\""), Err(DecodeError::BadTimestamp));
    assert_eq!(with("true"), Err(DecodeError::BadTimestamp));
    assert_eq!(with("null"), Err(DecodeError::BadTimestamp));
    assert_eq!(with("[]"), Err(DecodeError::BadTimestamp));
}

#[test]
fn bad_label_aborts_the_record() {
    let parsed = decode_record(&json(&record_text("1", r#"{"a": 1, "b": null, "c": 2}"#)));
    assert_eq!(parsed, Err(DecodeError::UnsupportedShape));
    let parsed = decode_record(&json(&record_text("1", r#"{"a": {"nested": 1}}"#)));
    assert_eq!(parsed, Err(DecodeError::UnsupportedShape));
}

#[test]
fn unknown_members_are_passed_over() {
    let parsed = decode_record(&json(
        r#"{"extra":[1,2],"device_id":"d","metric_id":"m","timestamp":1,"value":2,"labels":{},"more":null}"#,
    ))
    .unwrap();
    assert_eq!(parsed.device_id, "d");
    assert_eq!(parsed.timestamp, Timestamp::EpochSeconds(1));
    assert_eq!(parsed.value, NumericValue::UInt64(2));
    assert_eq!(parsed.labels.len(), 0);
}

#[test]
fn labels_keep_names_apart() {
    let mut labels = Labels::new();
    assert_eq!(labels.len(), 0);
    assert!(!labels.contains_key("a"));
    assert_eq!(labels.get("a"), None);
    labels.insert("a".to_string(), LabelValue::UInt64(1));
    labels.insert("b".to_string(), LabelValue::Bool(true));
    labels.insert("a".to_string(), LabelValue::UInt64(3));
    assert_eq!(labels.len(), 2);
    assert_eq!(labels.key_at(0), "a");
    assert_eq!(labels.value_at(0), &LabelValue::UInt64(3));
    assert_eq!(labels.key_at(1), "b");
    assert_eq!(labels.get("a"), Some(&LabelValue::UInt64(3)));
    assert_eq!(labels.get("b"), Some(&LabelValue::Bool(true)));
    assert!(labels.contains_key("b"));
    assert!(!labels.contains_key("c"));
}

#[test]
fn repeated_member_name_takes_the_first() {
    let twice = JsonValue::Object(vec![
        ("device_id".to_string(), JsonValue::String("first".to_string())),
        ("device_id".to_string(), JsonValue::String("second".to_string())),
        ("metric_id".to_string(), JsonValue::String("m".to_string())),
        ("timestamp".to_string(), JsonValue::Number(JsonNumber::PosInt(1))),
        ("value".to_string(), JsonValue::Number(JsonNumber::PosInt(2))),
        (
            "labels".to_string(),
            JsonValue::Object(vec![
                ("k".to_string(), JsonValue::Bool(false)),
                ("k".to_string(), JsonValue::Bool(true)),
            ]),
        ),
    ]);
    let parsed = decode_record(&twice).unwrap();
    assert_eq!(parsed.device_id, "first");
    assert_eq!(parsed.labels.len(), 1);
    assert_eq!(parsed.labels.get("k"), Some(&LabelValue::Bool(true)));
}

fn sample() -> MeasureKwollect {
    let mut labels = Labels::new();
    labels.insert("_device_orig".to_string(), LabelValue::String("wattmetre1-port6".to_string()));
    labels.insert("ok".to_string(), LabelValue::Bool(true));
    labels.insert("ratio".to_string(), LabelValue::Float64(0.5f64.to_bits()));
    labels.insert("count".to_string(), LabelValue::UInt64(9));
    MeasureKwollect {
        device_id: "taurus-7".to_string(),
        labels,
        metric_id: "wattmetre_power_watt".to_string(),
        timestamp: Timestamp::Rfc3339("2025-07-21T16:15:31+02:00".to_string()),
        value: NumericValue::Float64(131.7f64.to_bits()),
    }
}

#[test]
fn encode_orders_the_members() {
    let encoded = encode_record(&sample());
    let expected = JsonValue::Object(vec![
        ("timestamp".to_string(), JsonValue::String("2025-07-21T16:15:31+02:00".to_string())),
        ("metric_id".to_string(), JsonValue::String("wattmetre_power_watt".to_string())),
        ("device_id".to_string(), JsonValue::String("taurus-7".to_string())),
        ("value".to_string(), JsonValue::Number(JsonNumber::Float(131.7f64.to_bits()))),
        (
            "labels".to_string(),
            JsonValue::Object(vec![
                ("_device_orig".to_string(), JsonValue::String("wattmetre1-port6".to_string())),
                ("ok".to_string(), JsonValue::Bool(true)),
                ("ratio".to_string(), JsonValue::Number(JsonNumber::Float(0.5f64.to_bits()))),
                ("count".to_string(), JsonValue::Number(JsonNumber::PosInt(9))),
            ]),
        ),
    ]);
    assert_eq!(encoded, expected);
}

#[test]
fn decode_inverts_encode() {
    let record = sample();
    assert_eq!(decode_record(&encode_record(&record)), Ok(sample()));
    let numeric = MeasureKwollect {
        device_id: String::new(),
        labels: Labels::new(),
        metric_id: "m".to_string(),
        timestamp: Timestamp::EpochSeconds(1753107331),
        value: NumericValue::UInt64(131),
    };
    let again = decode_record(&encode_record(&numeric)).unwrap();
    assert_eq!(again, numeric);
    let floating = MeasureKwollect {
        device_id: "d".to_string(),
        labels: Labels::new(),
        metric_id: "m".to_string(),
        timestamp: Timestamp::EpochFloat(1.5f64.to_bits()),
        value: NumericValue::Float64(3.8189189189189183f64.to_bits()),
    };
    let again = decode_record(&encode_record(&floating)).unwrap();
    assert_eq!(again, floating);
}

#[test]
fn batch_must_be_an_array() {
    for text in ["{}", "null", "3", "\"[]\"", "true", r#"{"device_id":"d"}"#] {
        assert_eq!(parse_measurements(&json(text)), Err(BatchError::NotAnArray), "{}", text);
    }
}

#[test]
fn batch_of_records() {
    let text = format!("[{},{}]", record_text("131.7", "{}"), record_text("131", "{\"a\":1}"));
    let records = parse_measurements(&json(&text)).unwrap();
    assert_eq!(records.len(), 2);
    assert_eq!(records[0].value, NumericValue::Float64(131.7f64.to_bits()));
    assert_eq!(records[1].value, NumericValue::UInt64(131));
    assert_eq!(records[1].labels.get("a"), Some(&LabelValue::UInt64(1)));
    assert_eq!(parse_measurements(&json("[]")), Ok(vec![]));
}

#[test]
fn batch_stops_at_the_first_bad_record() {
    let text = format!(
        "[{},{},{}]",
        record_text("1", "{}"),
        r#"{"metric_id":"m","timestamp":1,"value":1,"labels":{}}"#,
        "7"
    );
    assert_eq!(
        parse_measurements(&json(&text)),
        Err(BatchError::BadRecord { index: 1, error: DecodeError::MissingField(Field::DeviceId) })
    );
    assert_eq!(
        parse_measurements(&json("[7]")),
        Err(BatchError::BadRecord { index: 0, error: DecodeError::NotAnObject })
    );
}

#[test]
fn assembling_goes_by_the_answer_on_the_timestamp() {
    let with_text = json(&record_text("1", "{}"));
    let accepted = assemble_record(&with_text, true).unwrap();
    assert_eq!(accepted.timestamp, Timestamp::Rfc3339("2025-07-21T16:15:31+02:00".to_string()));
    assert_eq!(assemble_record(&with_text, false), Err(DecodeError::BadTimestamp));
    let with_number =
        json(r#"{"device_id":"d","metric_id":"m","timestamp":5,"value":1,"labels":{}}"#);
    assert_eq!(assemble_record(&with_number, false).unwrap().timestamp, Timestamp::EpochSeconds(5));
    assert_eq!(assemble_record(&with_number, true).unwrap().timestamp, Timestamp::EpochSeconds(5));
    assert_eq!(assemble_record(&json("[]"), true), Err(DecodeError::NotAnObject));
}

#[test]
fn copies_are_equal() {
    for label in [
        LabelValue::Bool(true),
        LabelValue::Float64(2.5f64.to_bits()),
        LabelValue::UInt64(7),
        LabelValue::String("s".to_string()),
    ] {
        assert_eq!(label.clone(), label);
    }
    for timestamp in [
        Timestamp::EpochFloat(2.5f64.to_bits()),
        Timestamp::EpochSeconds(7),
        Timestamp::Rfc3339("2025-07-21T16:15:31+02:00".to_string()),
    ] {
        assert_eq!(timestamp.clone(), timestamp);
    }
}

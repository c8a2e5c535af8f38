use telemetry_push::clock::{check_send_time_text, ClockReading};
use telemetry_push::dispatch::{
    build_telemetry, check_response, classify_attempt, is_success_status, load_config,
    prepare_telemetry, telemetry_body, telemetry_url, Config, ConfigError, SendError, SendOutcome,
    TelemetryData,
};
use telemetry_push::json::{Json, JsonNumber};
use telemetry_push::transform::TransformError;

fn nothing(_: &JsonNumber) -> Option<JsonNumber> {
    None
}

fn count(v: i128) -> Json {
    Json::Number(JsonNumber::Integer(v))
}

fn entry(name: &str, value: Json) -> (String, Json) {
    (name.to_string(), value)
}

fn local_config() -> Config {
    Config { server: "http://localhost:8080".to_string(), device_token: "abc123".to_string() }
}

#[test]
fn config_needs_both_settings() {
    assert_eq!(
        load_config(Some("http://h".to_string()), Some("tok".to_string())),
        Ok(Config { server: "http://h".to_string(), device_token: "tok".to_string() })
    );
    assert_eq!(load_config(None, Some("tok".to_string())), Err(ConfigError::MissingServer));
    assert_eq!(load_config(None, None), Err(ConfigError::MissingServer));
    assert_eq!(
        load_config(Some("http://h".to_string()), None),
        Err(ConfigError::MissingDeviceToken)
    );
}

#[test]
fn url_names_server_and_device() {
    assert_eq!(telemetry_url(&local_config()), "http://localhost:8080/api/v1/abc123/telemetry");
    let bare = Config { server: String::new(), device_token: String::new() };
    assert_eq!(telemetry_url(&bare), "/api/v1//telemetry");
}

fn at(millis: u128, local_time: &str) -> ClockReading {
    ClockReading::new(Some(millis), local_time.to_string()).unwrap()
}

#[test]
fn reading_holds_what_the_clocks_gave() {
    let reading = at(1_700_000_000_123, "2023-11-14 22:13:20");
    assert_eq!(reading.ts(), 1_700_000_000_123);
    assert_eq!(reading.send_time(), "2023-11-14 22:13:20");
    assert_eq!(at(0, "0000-00-00 00:00:00").ts(), 0);
    assert_eq!(at(u64::MAX as u128, "9999-12-31 23:59:59").ts(), u64::MAX);
    assert_eq!(at(u64::MAX as u128 + 6, "2023-11-14 22:13:20").ts(), 5);
}

#[test]
fn reading_needs_the_system_clock() {
    assert_eq!(ClockReading::new(None, "2023-11-14 22:13:20".to_string()), None);
}

#[test]
fn reading_needs_local_time_in_form() {
    for text in [
        "",
        "2023-11-14",
        "2023-11-14 22:13:2",
        "2023-11-14 22:13:200",
        "2023/11/14 22:13:20",
        "2023-11-14T22:13:20",
        "2023-11-14 22.13.20",
        "2023-11-14 22:13:2x",
        "+10000-01-01 00:00:00",
        "２０２３-11-14 22:13:20",
        "2023-11-14 22:13:20 ",
    ] {
        assert!(!check_send_time_text(text), "{:?}", text);
        assert_eq!(ClockReading::new(Some(1), text.to_string()), None);
    }
    for text in ["2023-11-14 22:13:20", "0000-00-00 00:00:00", "9999-99-99 99:99:99"] {
        assert!(check_send_time_text(text), "{:?}", text);
        assert!(ClockReading::new(Some(1), text.to_string()).is_some());
    }
}

#[test]
fn status_in_the_two_hundreds_is_success() {
    for status in [200u16, 201, 204, 250, 299] {
        assert!(is_success_status(status));
        assert_eq!(check_response(status, "ignored".to_string()), Ok(()));
    }
    for status in [0u16, 100, 199, 300, 301, 400, 404, 500, 503, 999, u16::MAX] {
        assert!(!is_success_status(status));
    }
}

#[test]
fn other_status_is_a_rejection_with_status_and_body() {
    assert_eq!(
        check_response(401, "bad token".to_string()),
        Err(SendError::Rejected { status: 401, body: "bad token".to_string() })
    );
    assert_eq!(
        check_response(500, String::new()),
        Err(SendError::Rejected { status: 500, body: String::new() })
    );
}

#[test]
fn only_the_clock_is_fatal() {
    assert_eq!(classify_attempt(&Ok(())), SendOutcome::Sent);
    assert_eq!(classify_attempt(&Err(SendError::ClockUnreadable)), SendOutcome::Fatal);
    assert_eq!(
        classify_attempt(&Err(SendError::Transform(TransformError::NotAnObject))),
        SendOutcome::Failed
    );
    assert_eq!(
        classify_attempt(&Err(SendError::Transform(TransformError::Empty))),
        SendOutcome::Failed
    );
    assert_eq!(
        classify_attempt(&Err(SendError::Transport("refused".to_string()))),
        SendOutcome::Failed
    );
    assert_eq!(
        classify_attempt(&Err(SendError::Rejected { status: 500, body: String::new() })),
        SendOutcome::Failed
    );
}

#[test]
fn payload_holds_values_and_send_time() {
    let record = Json::Object(vec![entry(
        "sensor",
        Json::Object(vec![entry("v", count(5)), entry("unit", Json::String("C".to_string()))]),
    )]);
    for _ in 0..200 {
        let telemetry = build_telemetry(
            &record,
            &Some("v".to_string()),
            &at(1_700_000_000_123, "2023-11-14 22:13:20"),
            &nothing,
        )
        .unwrap();
        assert_eq!(telemetry.ts, 1_700_000_000_123);
        assert_eq!(telemetry.values.len(), 2);
        assert_eq!(telemetry.values[0].0, "sensor");
        match &telemetry.values[0].1 {
            Json::Object(inner) => {
                assert!(
                    matches!(&inner[0], (name, Json::Number(JsonNumber::Integer(v))) if name == "v" && (1..=10).contains(v))
                );
                assert_eq!(inner[1], entry("unit", Json::String("C".to_string())));
            }
            other => panic!("unexpected: {:?}", other),
        }
        assert_eq!(
            telemetry.values[1],
            entry("send_time", Json::String("2023-11-14 22:13:20".to_string()))
        );
    }
}

#[test]
fn send_time_of_the_record_is_overwritten() {
    let record = Json::Object(vec![
        entry("send_time", Json::String("old".to_string())),
        entry("a", count(1)),
    ]);
    let telemetry =
        build_telemetry(&record, &None, &at(7, "2023-11-14 22:13:20"), &nothing).unwrap();
    assert_eq!(
        telemetry.values,
        vec![
            entry("send_time", Json::String("2023-11-14 22:13:20".to_string())),
            entry("a", count(1)),
        ]
    );
}

#[test]
fn payload_fails_as_the_record_does() {
    let reading = at(1, "2023-11-14 22:13:20");
    assert_eq!(
        build_telemetry(&Json::Null, &None, &reading, &nothing),
        Err(TransformError::NotAnObject)
    );
    assert_eq!(
        build_telemetry(&Json::Object(vec![]), &None, &reading, &nothing),
        Err(TransformError::Empty)
    );
}

#[test]
fn body_is_timestamp_and_values() {
    let telemetry = TelemetryData {
        ts: 1_700_000_000_123,
        values: vec![entry("a", count(1)), entry("send_time", Json::String("t".to_string()))],
    };
    assert_eq!(
        telemetry_body(telemetry),
        Json::Object(vec![
            entry("ts", count(1_700_000_000_123)),
            entry(
                "values",
                Json::Object(vec![
                    entry("a", count(1)),
                    entry("send_time", Json::String("t".to_string())),
                ]),
            ),
        ])
    );
}

#[test]
fn request_is_url_and_payload() {
    let record = Json::Object(vec![entry("a", count(1))]);
    let stamp = "2023-11-14 22:13:20".to_string();
    let request =
        prepare_telemetry(&local_config(), &record, &None, Some(42), stamp.clone(), &nothing)
            .unwrap();
    assert_eq!(request.url, "http://localhost:8080/api/v1/abc123/telemetry");
    assert_eq!(
        request.telemetry,
        TelemetryData {
            ts: 42,
            values: vec![entry("a", count(1)), entry("send_time", Json::String(stamp.clone()))],
        }
    );
}

#[test]
fn unreadable_clock_fails_before_the_record() {
    let stamp = "2023-11-14 22:13:20".to_string();
    let record = Json::Object(vec![entry("a", count(1))]);
    assert_eq!(
        prepare_telemetry(&local_config(), &Json::Null, &None, None, stamp.clone(), &nothing),
        Err(SendError::ClockUnreadable)
    );
    assert_eq!(
        prepare_telemetry(&local_config(), &record, &None, None, stamp.clone(), &nothing),
        Err(SendError::ClockUnreadable)
    );
    assert_eq!(
        prepare_telemetry(&local_config(), &record, &None, Some(1), "now".to_string(), &nothing),
        Err(SendError::ClockUnreadable)
    );
    assert_eq!(
        prepare_telemetry(&local_config(), &Json::Null, &None, Some(1), stamp.clone(), &nothing),
        Err(SendError::Transform(TransformError::NotAnObject))
    );
    assert_eq!(
        prepare_telemetry(
            &local_config(),
            &Json::Object(vec![]),
            &None,
            Some(1),
            stamp.clone(),
            &nothing
        ),
        Err(SendError::Transform(TransformError::Empty))
    );
}

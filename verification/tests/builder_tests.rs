use std::fmt;
use std::fmt::Formatter;
use terror::codec::encode;
use terror::Capabilities;
use terror::DocValue;
use terror::Terror;
use terror::Timestamp;

#[derive(Debug)]
struct TestError;

impl fmt::Display for TestError {
    fn fmt(&self, f: &mut Formatter<'_>) -> fmt::Result {
        f.write_str("generic error")
    }
}

fn builder() -> terror::Builder {
    Terror::new(404, String::from("generic error"))
}

fn obj(pairs: Vec<(&str, DocValue)>) -> DocValue {
    DocValue::Object(pairs.into_iter().map(|(k, v)| (k.to_string(), v)).collect())
}

fn text(s: &str) -> DocValue {
    DocValue::Text(s.to_string())
}

#[test]
fn build_with_explicit_status() {
    let built = builder().build();

    let expected = obj(vec![("status", DocValue::Int(404)), ("message", text("generic error"))]);
    let actual = encode(&built);
    assert_eq!(expected, actual);
}

#[test]
fn build_from_error() {
    let error = TestError;
    let built = Terror::from_error(error.to_string()).build();

    let expected = obj(vec![("status", DocValue::Int(500)), ("message", text("generic error"))]);
    let actual = encode(&built);
    assert_eq!(expected, actual);
}

#[test]
fn build_w_shorthand() {
    let built = builder().shorthand("generic".to_string()).build();

    let expected = obj(vec![
        ("status", DocValue::Int(404)),
        ("message", text("generic error")),
        ("short_message", text("generic")),
    ]);
    let actual = encode(&built);
    assert_eq!(expected, actual);
}

#[test]
fn build_w_error_code() {
    let built = builder().error_code("generic.failure".to_string()).build();

    let expected = obj(vec![
        ("status", DocValue::Int(404)),
        ("message", text("generic error")),
        ("error_code", text("generic.failure")),
    ]);
    let actual = encode(&built);
    assert_eq!(expected, actual);
}

#[test]
fn build_w_reference() {
    let built = builder().reference().build();

    let expected = obj(vec![
        ("status", DocValue::Int(404)),
        ("message", text("generic error")),
        ("reference", text("https://developer.mozilla.org/en-US/docs/Web/HTTP/Status/404")),
    ]);
    let actual = encode(&built);
    assert_eq!(expected, actual);
}

#[test]
fn build_w_string_detail() {
    let built = builder().add_text_detail("key".to_string(), "val".to_string()).build();

    let expected = obj(vec![
        ("status", DocValue::Int(404)),
        ("message", text("generic error")),
        ("details", obj(vec![("key", text("val"))])),
    ]);
    let actual = encode(&built);
    assert_eq!(expected, actual);
}

#[test]
fn build_w_number_detail() {
    let built = builder().add_int_detail("key".to_string(), 53i64).build();

    let expected = obj(vec![
        ("status", DocValue::Int(404)),
        ("message", text("generic error")),
        ("details", obj(vec![("key", DocValue::Int(53))])),
    ]);
    let actual = encode(&built);
    assert_eq!(expected, actual);
}

#[test]
fn build_w_bool_detail() {
    let built = builder().add_bool_detail("key".to_string(), true).build();

    let expected = obj(vec![
        ("status", DocValue::Int(404)),
        ("message", text("generic error")),
        ("details", obj(vec![("key", DocValue::Bool(true))])),
    ]);
    let actual = encode(&built);
    assert_eq!(expected, actual);
}

#[test]
fn build_w_value_detail() {
    let detail = obj(vec![("id", DocValue::Int(25)), ("name", text("server"))]);

    let built = builder().add_value_detail("key".to_string(), detail).build();

    let expected = obj(vec![
        ("status", DocValue::Int(404)),
        ("message", text("generic error")),
        ("details", obj(vec![("key", obj(vec![("id", DocValue::Int(25)), ("name", text("server"))]))])),
    ]);
    let actual = encode(&built);
    assert_eq!(expected, actual);
}

#[test]
fn build_with_several_details() {
    let built = builder()
        .add_text_detail("str".to_string(), "val".to_string())
        .add_int_detail("num".to_string(), 53i64)
        .add_bool_detail("flg".to_string(), true)
        .build();

    let expected = obj(vec![
        ("status", DocValue::Int(404)),
        ("message", text("generic error")),
        (
            "details",
            obj(vec![
                ("str", text("val")),
                ("num", DocValue::Int(53)),
                ("flg", DocValue::Bool(true)),
            ]),
        ),
    ]);
    let actual = encode(&built);
    assert_eq!(expected, actual);
}

#[test]
fn build_w_explicit_status() {
    let caps = Capabilities { timestamp: true, identifier: true, reference: false };
    let mut built = Terror::new_with(caps, 404, String::from("generic error")).build();

    let now = chrono::Utc::now();

    let id = built.id.expect("identifier capability enabled");
    assert_eq!(4, (id >> 76) & 0xf);
    let stamp = built.timestamp.expect("timestamp capability enabled");
    assert_eq!(chrono::Datelike::year(&now), stamp.year as i32);
    assert_eq!(chrono::Datelike::month(&now), stamp.month as u32);
    assert_eq!(chrono::Datelike::day(&now), stamp.day as u32);

    // overwrite to check document values
    built.id = Some(0xa1a2a3a4b1b2c1c2d1d2d3d4d5d6d7d8);
    built.timestamp = Some(Timestamp { year: 2022, month: 1, day: 1, hour: 21, minute: 0, second: 0 });

    let expected = obj(vec![
        ("status", DocValue::Int(404)),
        ("message", text("generic error")),
        ("timestamp", text("2022-01-01T21:00:00Z")),
        ("id", text("a1a2a3a4-b1b2-c1c2-d1d2-d3d4d5d6d7d8")),
    ]);
    let actual = encode(&built);
    assert_eq!(expected, actual);
}

#[test]
fn lib_build_from_error() {
    let error = TestError;
    let caps = Capabilities { timestamp: true, identifier: true, reference: false };
    let mut built = Terror::from_error_with(caps, error.to_string()).build();

    let now = chrono::Utc::now();

    let id = built.id.expect("identifier capability enabled");
    assert_eq!(4, (id >> 76) & 0xf);
    let stamp = built.timestamp.expect("timestamp capability enabled");
    assert_eq!(chrono::Datelike::year(&now), stamp.year as i32);
    assert_eq!(chrono::Datelike::month(&now), stamp.month as u32);
    assert_eq!(chrono::Datelike::day(&now), stamp.day as u32);

    // overwrite to check document values
    built.id = Some(0xa1a2a3a4b1b2c1c2d1d2d3d4d5d6d7d8);
    built.timestamp = Some(Timestamp { year: 2022, month: 1, day: 1, hour: 21, minute: 0, second: 0 });

    let expected = obj(vec![
        ("status", DocValue::Int(500)),
        ("message", text("generic error")),
        ("timestamp", text("2022-01-01T21:00:00Z")),
        ("id", text("a1a2a3a4-b1b2-c1c2-d1d2-d3d4d5d6d7d8")),
    ]);
    let actual = encode(&built);
    assert_eq!(expected, actual);
}

#[test]
fn last_write_wins_per_key() {
    let built = builder()
        .add_text_detail("k".to_string(), "first".to_string())
        .add_int_detail("n".to_string(), 1)
        .add_int_detail("k".to_string(), 2)
        .build();

    assert_eq!(built.details.len(), 2);
    assert_eq!(built.detail("k"), Some(&terror::DetailValue::Int(2)));
    assert_eq!(built.detail("n"), Some(&terror::DetailValue::Int(1)));
    assert_eq!(built.detail("missing"), None);
}

#[test]
fn default_is_generic_500() {
    let built = Terror::default();
    assert_eq!(built.status, 500);
    assert_eq!(built.message, "generic error");
    assert_eq!(built.short_message, None);
    assert_eq!(built.error_code, None);
    assert!(built.details.is_empty());
    assert_eq!(built.reference, None);
    assert_eq!(built.timestamp, None);
    assert_eq!(built.id, None);
    assert!(built.tags.is_empty());
}

#[test]
fn fresh_timestamps_are_well_formed() {
    let caps = Capabilities { timestamp: true, identifier: false, reference: false };
    let built = Terror::new_with(caps, 200, String::from("ok")).build();
    let stamp = built.timestamp.expect("timestamp capability enabled");
    assert!(stamp.year <= 9999);
    assert!((1..=12).contains(&stamp.month));
    assert!((1..=31).contains(&stamp.day));
    assert!(stamp.hour <= 23);
    assert!(stamp.minute <= 59);
    assert!(stamp.second <= 59);
}

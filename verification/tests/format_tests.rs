use terror::ident::parse_uuid;
use terror::ident::render_uuid;
use terror::timestamp::parse_rfc3339;
use terror::Terror;
use terror::Timestamp;

#[test]
fn log_line_with_tags() {
    let built = Terror::new(409, String::from("failed to persist entity due to version conflict"))
        .add_tag(String::from("op:persist"))
        .add_tag(String::from("ctx:none"))
        .build();
    assert_eq!(
        built.log_line(),
        "[op:persist ctx:none] (409) :: failed to persist entity due to version conflict"
    );
}

#[test]
fn log_line_without_tags() {
    let built =
        Terror::new(409, String::from("failed to persist entity due to version conflict")).build();
    assert_eq!(built.log_line(), "(409) :: failed to persist entity due to version conflict");
}

#[test]
fn log_line_for_small_status() {
    let built = Terror::new(0, String::from("")).build();
    assert_eq!(built.log_line(), "(0) :: ");
}

#[test]
fn reference_is_derived_from_status() {
    let built = Terror::new(404, String::from("generic error")).reference().build();
    assert_eq!(
        built.reference.as_deref(),
        Some("https://developer.mozilla.org/en-US/docs/Web/HTTP/Status/404")
    );

    let other = Terror::new(503, String::from("x")).reference().build();
    assert_eq!(
        other.reference.as_deref(),
        Some("https://developer.mozilla.org/en-US/docs/Web/HTTP/Status/503")
    );
}

#[test]
fn timestamps_render_zero_padded() {
    let stamp = Timestamp { year: 1, month: 2, day: 3, hour: 4, minute: 5, second: 6 };
    assert_eq!(stamp.render_rfc3339(), "0001-02-03T04:05:06Z");
    assert_eq!(parse_rfc3339("0001-02-03T04:05:06Z"), Some(stamp));
}

#[test]
fn timestamp_parsing_checks_shape_and_ranges() {
    assert_eq!(
        parse_rfc3339("2022-01-01T21:00:00Z"),
        Some(Timestamp { year: 2022, month: 1, day: 1, hour: 21, minute: 0, second: 0 })
    );
    assert_eq!(parse_rfc3339("2022-01-01 21:00:00Z"), None);
    assert_eq!(parse_rfc3339("2022-13-01T21:00:00Z"), None);
    assert_eq!(parse_rfc3339("2022-00-01T21:00:00Z"), None);
    assert_eq!(parse_rfc3339("2022-01-32T21:00:00Z"), None);
    assert_eq!(parse_rfc3339("2022-01-01T24:00:00Z"), None);
    assert_eq!(parse_rfc3339("2022-01-01T21:60:00Z"), None);
    assert_eq!(parse_rfc3339("2022-01-01T21:00:61Z"), None);
    assert_eq!(parse_rfc3339("2022-01-01T21:00:00"), None);
    assert_eq!(parse_rfc3339(""), None);
}

#[test]
fn identifiers_render_hyphenated() {
    let id: u128 = 0xa1a2a3a4b1b2c1c2d1d2d3d4d5d6d7d8;
    assert_eq!(render_uuid(id), "a1a2a3a4-b1b2-c1c2-d1d2-d3d4d5d6d7d8");
    assert_eq!(parse_uuid("a1a2a3a4-b1b2-c1c2-d1d2-d3d4d5d6d7d8"), Some(id));
    assert_eq!(parse_uuid("A1A2A3A4-B1B2-C1C2-D1D2-D3D4D5D6D7D8"), Some(id));
    assert_eq!(render_uuid(0), "00000000-0000-0000-0000-000000000000");
    assert_eq!(parse_uuid("00000000-0000-0000-0000-000000000000"), Some(0));
    assert_eq!(parse_uuid("a1a2a3a4b1b2c1c2d1d2d3d4d5d6d7d8"), None);
    assert_eq!(parse_uuid("a1a2a3a4-b1b2-c1c2-d1d2-d3d4d5d6d7dx"), None);
    assert_eq!(parse_uuid(""), None);
}

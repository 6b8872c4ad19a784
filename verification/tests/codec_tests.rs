use terror::codec::decode;
use terror::codec::encode;
use terror::Capabilities;
use terror::DecodeError;
use terror::DocValue;
use terror::Terror;
use terror::Timestamp;

fn obj(pairs: Vec<(&str, DocValue)>) -> DocValue {
    DocValue::Object(pairs.into_iter().map(|(k, v)| (k.to_string(), v)).collect())
}

fn text(s: &str) -> DocValue {
    DocValue::Text(s.to_string())
}

/// Equality up to the order of the details entries, as a mapping comparison.
fn same_error(a: &Terror, b: &Terror) -> bool {
    a.status == b.status
        && a.message == b.message
        && a.short_message == b.short_message
        && a.error_code == b.error_code
        && a.reference == b.reference
        && a.timestamp == b.timestamp
        && a.id == b.id
        && a.tags == b.tags
        && a.details.len() == b.details.len()
        && a.details.iter().all(|(k, v)| b.detail(k.as_str()) == Some(v))
}

#[test]
fn deserialize_all_fields() {
    let inbound = obj(vec![
        ("status", DocValue::Int(405)),
        ("message", text("Method not allowed; use GET")),
        ("short_message", text("Not allowed")),
        ("error_code", text("web.generic")),
        (
            "details",
            obj(vec![
                ("allowed", DocValue::Array(vec![text("GET")])),
                ("got", text("OPTIONS")),
            ]),
        ),
        (
            "reference",
            text(&format!(
                "{}/{}",
                "https://developer.mozilla.org/en-US/docs/Web/HTTP/Status", 405
            )),
        ),
    ]);

    let as_struct = decode(&inbound);
    assert!(as_struct.is_ok());

    let expected = Terror::new(405, String::from("Method not allowed; use GET"))
        .shorthand(String::from("Not allowed"))
        .error_code(String::from("web.generic"))
        .add_text_detail(String::from("got"), String::from("OPTIONS"))
        .add_value_detail(String::from("allowed"), DocValue::Array(vec![text("GET")]))
        .reference()
        .build();

    assert!(same_error(&expected, &as_struct.unwrap()));
}

#[test]
fn deserialize_some_fields() {
    let inbound = obj(vec![
        ("status", DocValue::Int(405)),
        ("message", text("Method not allowed; use GET")),
        ("error_code", text("web.generic")),
    ]);

    let as_struct = decode(&inbound);
    assert!(as_struct.is_ok());

    let expected = Terror::new(405, String::from("Method not allowed; use GET"))
        .error_code(String::from("web.generic"))
        .build();

    assert_eq!(expected, as_struct.unwrap());
}

#[test]
fn lib_deserialize_some_fields() {
    let inbound = obj(vec![
        ("status", DocValue::Int(405)),
        ("message", text("Method not allowed; use GET")),
        ("id", text("2d10a950-d6f4-11ec-ab97-00155d887325")),
        ("timestamp", text("2022-01-01T21:00:00Z")),
    ]);

    let as_struct = decode(&inbound);
    assert!(as_struct.is_ok());

    let mut expected = Terror::new(405, String::from("Method not allowed; use GET")).build();

    expected.id = Some(0x2d10a950d6f411ecab9700155d887325);
    expected.timestamp =
        Some(Timestamp { year: 2022, month: 1, day: 1, hour: 21, minute: 0, second: 0 });

    assert_eq!(expected, as_struct.unwrap());
}

#[test]
fn round_trip_across_capabilities() {
    let toggles = [
        (false, false, false),
        (true, false, false),
        (false, true, false),
        (false, false, true),
        (true, true, true),
    ];
    for (timestamp, identifier, reference) in toggles {
        let caps = Capabilities { timestamp, identifier, reference };
        let built = Terror::new_with(caps, 503, String::from("backend unavailable"))
            .shorthand(String::from("unavailable"))
            .error_code(String::from("svc.down"))
            .add_text_detail(String::from("svc"), String::from("db"))
            .add_int_detail(String::from("attempt"), 3)
            .add_bool_detail(String::from("final"), true)
            .add_null_detail(String::from("cause"))
            .add_value_detail(
                String::from("ctx"),
                obj(vec![("shard", DocValue::Int(7)), ("ok", DocValue::Bool(false))]),
            )
            .build();

        let decoded = decode(&encode(&built)).expect("an encoded object decodes");
        assert_eq!(built, decoded);
    }
}

#[test]
fn round_trip_normalizes_scalar_structured_details() {
    // A scalar handed in as a document value is stored as the scalar detail,
    // so the wire form and the reconstruction agree.
    let built = Terror::new(400, String::from("bad input"))
        .add_value_detail(String::from("given"), text("just text"))
        .build();
    assert_eq!(built.detail("given"), Some(&terror::DetailValue::Text("just text".to_string())));
    let decoded = decode(&encode(&built)).expect("an encoded object decodes");
    assert_eq!(built, decoded);
}

#[test]
fn minimal_object_encodes_to_two_fields() {
    let caps = Capabilities { timestamp: true, identifier: true, reference: true };
    let built = Terror::new_with(caps, 204, String::from("empty")).build();
    let doc = encode(&built);
    match &doc {
        DocValue::Object(pairs) => {
            let keys: Vec<&str> = pairs.iter().map(|(k, _)| k.as_str()).collect();
            assert_eq!(keys, vec!["status", "message", "reference", "timestamp", "id"]);
        },
        other => panic!("expected an object, got {:?}", other),
    }

    let plain = Terror::new(204, String::from("empty")).build();
    let expected = obj(vec![("status", DocValue::Int(204)), ("message", text("empty"))]);
    assert_eq!(expected, encode(&plain));
}

#[test]
fn decode_rejects_non_objects() {
    assert_eq!(decode(&DocValue::Int(7)), Err(DecodeError::NotAnObject));
    assert_eq!(decode(&DocValue::Null), Err(DecodeError::NotAnObject));
}

#[test]
fn decode_requires_status() {
    assert_eq!(decode(&obj(vec![("message", text("m"))])), Err(DecodeError::MissingStatus));
    assert_eq!(
        decode(&obj(vec![("status", text("404")), ("message", text("m"))])),
        Err(DecodeError::BadStatus)
    );
    assert_eq!(
        decode(&obj(vec![("status", DocValue::Int(70000)), ("message", text("m"))])),
        Err(DecodeError::BadStatus)
    );
    assert_eq!(
        decode(&obj(vec![("status", DocValue::Int(-1)), ("message", text("m"))])),
        Err(DecodeError::BadStatus)
    );
}

#[test]
fn decode_requires_message() {
    assert_eq!(decode(&obj(vec![("status", DocValue::Int(404))])), Err(DecodeError::MissingMessage));
    assert_eq!(
        decode(&obj(vec![("status", DocValue::Int(404)), ("message", DocValue::Int(1))])),
        Err(DecodeError::BadMessage)
    );
}

#[test]
fn decode_rejects_mistyped_optional_fields() {
    let base = |extra: (&str, DocValue)| {
        obj(vec![("status", DocValue::Int(404)), ("message", text("m")), extra])
    };
    assert_eq!(
        decode(&base(("short_message", DocValue::Int(1)))),
        Err(DecodeError::BadShortMessage)
    );
    assert_eq!(decode(&base(("error_code", DocValue::Null))), Err(DecodeError::BadErrorCode));
    assert_eq!(decode(&base(("details", DocValue::Int(3)))), Err(DecodeError::BadDetails));
    assert_eq!(
        decode(&base(("reference", DocValue::Bool(true)))),
        Err(DecodeError::BadReference)
    );
    assert_eq!(
        decode(&base(("timestamp", text("yesterday")))),
        Err(DecodeError::BadTimestamp)
    );
    assert_eq!(decode(&base(("timestamp", DocValue::Int(0)))), Err(DecodeError::BadTimestamp));
    assert_eq!(
        decode(&base(("id", text("not-an-identifier")))),
        Err(DecodeError::BadIdentifier)
    );
    assert_eq!(decode(&base(("id", DocValue::Int(0)))), Err(DecodeError::BadIdentifier));
}

#[test]
fn decode_ignores_unknown_fields_and_defaults_details() {
    let inbound = obj(vec![
        ("status", DocValue::Int(418)),
        ("message", text("teapot")),
        ("flavour", text("earl grey")),
    ]);
    let decoded = decode(&inbound).expect("unknown fields are ignored");
    assert_eq!(decoded.status, 418);
    assert!(decoded.details.is_empty());
}

#[test]
fn decode_keeps_last_duplicate_field() {
    let inbound = obj(vec![
        ("status", DocValue::Int(400)),
        ("message", text("first")),
        ("message", text("second")),
        (
            "details",
            obj(vec![("k", DocValue::Int(1)), ("k", DocValue::Int(2))]),
        ),
    ]);
    let decoded = decode(&inbound).expect("duplicates collapse to the last entry");
    assert_eq!(decoded.message, "second");
    assert_eq!(decoded.details.len(), 1);
    assert_eq!(decoded.detail("k"), Some(&terror::DetailValue::Int(2)));
}

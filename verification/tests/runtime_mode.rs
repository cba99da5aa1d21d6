use alvr_core::session::{
    read_runtime_mode, read_runtime_mode_bytes, write_runtime_mode, write_runtime_mode_bytes, Json,
    RuntimeModeError, RUNTIME_MODE_OPENXR, RUNTIME_MODE_STEAMVR,
};

fn text(s: &str) -> Json {
    Json::Str(s.to_string())
}

fn number(s: &str) -> Json {
    Json::Number(s.to_string())
}

fn obj(members: Vec<(&str, Json)>) -> Json {
    Json::Object(
        members
            .into_iter()
            .map(|(k, v)| (k.to_string(), v))
            .collect(),
    )
}

fn fixture_session_json(runtime_variant: Option<&str>) -> Json {
    let runtime = match runtime_variant {
        Some(v) => obj(vec![("variant", text(v))]),
        None => obj(vec![]),
    };
    obj(vec![
        ("server_version", text("21.0.0-dev13")),
        (
            "openvr_config",
            obj(vec![
                ("eye_resolution_width", number("800")),
                ("extra_field_a", number("42")),
            ]),
        ),
        ("client_connections", obj(vec![])),
        (
            "session_settings",
            obj(vec![
                (
                    "extra",
                    obj(vec![
                        ("runtime", runtime),
                        ("other_extra_field", text("preserve_me")),
                    ]),
                ),
                ("video", obj(vec![("preserve_me_too", Json::Bool(true))])),
            ]),
        ),
    ])
}

fn get<'a>(v: &'a Json, key: &str) -> &'a Json {
    match v {
        Json::Object(members) => &members.iter().find(|(k, _)| k == key).unwrap().1,
        _ => panic!("not an object"),
    }
}

fn get_mut<'a>(v: &'a mut Json, key: &str) -> &'a mut Json {
    match v {
        Json::Object(members) => &mut members.iter_mut().find(|(k, _)| k == key).unwrap().1,
        _ => panic!("not an object"),
    }
}

#[test]
fn read_runtime_mode_field_absent() {
    // The fixture has `runtime` as an empty object — no variant inside.
    assert_eq!(read_runtime_mode(&fixture_session_json(None)), None);
}

#[test]
fn read_runtime_mode_steamvr() {
    let doc = fixture_session_json(Some(RUNTIME_MODE_STEAMVR));
    assert_eq!(read_runtime_mode(&doc).as_deref(), Some(RUNTIME_MODE_STEAMVR));
}

#[test]
fn read_runtime_mode_openxr() {
    let doc = fixture_session_json(Some(RUNTIME_MODE_OPENXR));
    assert_eq!(read_runtime_mode(&doc).as_deref(), Some(RUNTIME_MODE_OPENXR));
}

#[test]
fn write_runtime_mode_roundtrips_both_variants() {
    let mut doc = fixture_session_json(Some(RUNTIME_MODE_STEAMVR));

    write_runtime_mode(&mut doc, RUNTIME_MODE_OPENXR).unwrap();
    assert_eq!(read_runtime_mode(&doc).as_deref(), Some(RUNTIME_MODE_OPENXR));

    write_runtime_mode(&mut doc, RUNTIME_MODE_STEAMVR).unwrap();
    assert_eq!(read_runtime_mode(&doc).as_deref(), Some(RUNTIME_MODE_STEAMVR));
}

#[test]
fn write_runtime_mode_preserves_other_fields() {
    let before = fixture_session_json(Some(RUNTIME_MODE_STEAMVR));
    let mut after = fixture_session_json(Some(RUNTIME_MODE_STEAMVR));

    write_runtime_mode(&mut after, RUNTIME_MODE_OPENXR).unwrap();

    assert_eq!(get(&after, "server_version"), get(&before, "server_version"));
    assert_eq!(get(&after, "openvr_config"), get(&before, "openvr_config"));
    assert_eq!(get(&after, "client_connections"), get(&before, "client_connections"));
    assert_eq!(
        get(get(&after, "session_settings"), "video"),
        get(get(&before, "session_settings"), "video")
    );
    assert_eq!(
        get(get(get(&after, "session_settings"), "extra"), "other_extra_field"),
        get(get(get(&before, "session_settings"), "extra"), "other_extra_field")
    );
    assert_eq!(
        get(get(get(get(&after, "session_settings"), "extra"), "runtime"), "variant"),
        &text(RUNTIME_MODE_OPENXR)
    );
}

#[test]
fn write_runtime_mode_errors_when_runtime_missing() {
    let mut malformed = fixture_session_json(None);
    match get_mut(get_mut(&mut malformed, "session_settings"), "extra") {
        Json::Object(members) => members.retain(|(k, _)| k != "runtime"),
        _ => panic!("not an object"),
    }

    let res = write_runtime_mode(&mut malformed, RUNTIME_MODE_OPENXR);
    assert!(res.is_err(), "expected error when runtime field absent");
}

#[test]
fn write_runtime_mode_missing_runtime_is_reported_and_leaves_doc() {
    let mut doc = fixture_session_json(None);
    match get_mut(get_mut(&mut doc, "session_settings"), "extra") {
        Json::Object(members) => members.retain(|(k, _)| k != "runtime"),
        _ => panic!("not an object"),
    }
    let mut expected = fixture_session_json(None);
    match get_mut(get_mut(&mut expected, "session_settings"), "extra") {
        Json::Object(members) => members.retain(|(k, _)| k != "runtime"),
        _ => panic!("not an object"),
    }
    assert_eq!(
        write_runtime_mode(&mut doc, RUNTIME_MODE_OPENXR),
        Err(RuntimeModeError::MissingRuntimeField)
    );
    assert_eq!(doc, expected);
}

#[test]
fn write_runtime_mode_refuses_non_object_runtime() {
    let mut doc = fixture_session_json(None);
    *get_mut(get_mut(get_mut(&mut doc, "session_settings"), "extra"), "runtime") = text("Steamvr");
    assert_eq!(
        write_runtime_mode(&mut doc, RUNTIME_MODE_OPENXR),
        Err(RuntimeModeError::RuntimeNotObject)
    );
    assert_eq!(read_runtime_mode(&doc), None);
}

#[test]
fn write_runtime_mode_adds_variant_to_empty_runtime() {
    let mut doc = fixture_session_json(None);
    write_runtime_mode(&mut doc, RUNTIME_MODE_OPENXR).unwrap();
    assert_eq!(read_runtime_mode(&doc).as_deref(), Some(RUNTIME_MODE_OPENXR));
    assert_eq!(doc, fixture_session_json(Some(RUNTIME_MODE_OPENXR)));
}

#[test]
fn read_runtime_mode_ignores_non_string_variant() {
    let mut doc = fixture_session_json(None);
    *get_mut(get_mut(get_mut(&mut doc, "session_settings"), "extra"), "runtime") =
        obj(vec![("variant", number("1"))]);
    assert_eq!(read_runtime_mode(&doc), None);
    assert_eq!(read_runtime_mode(&Json::Null), None);
}

const SESSION_BYTES: &str = r#"{
  "server_version": "21.0.0-dev13",
  "openvr_config": { "eye_resolution_width": 800, "extra_field_a": 42 },
  "client_connections": {},
  "session_settings": {
    "extra": { "runtime": { "variant": "Steamvr" }, "other_extra_field": "preserve_me" },
    "video": { "preserve_me_too": true }
  }
}"#;

#[test]
fn read_runtime_mode_malformed_json() {
    assert_eq!(read_runtime_mode_bytes(b"not actually json {{ }}"), None);
}

#[test]
fn runtime_mode_bytes_round_trip() {
    assert_eq!(read_runtime_mode_bytes(SESSION_BYTES.as_bytes()).as_deref(), Some(RUNTIME_MODE_STEAMVR));
    let out = write_runtime_mode_bytes(SESSION_BYTES.as_bytes(), RUNTIME_MODE_OPENXR).unwrap();
    assert_eq!(read_runtime_mode_bytes(&out).as_deref(), Some(RUNTIME_MODE_OPENXR));
    let text = String::from_utf8(out.clone()).unwrap();
    assert!(text.contains("\"other_extra_field\": \"preserve_me\""));
    assert!(text.contains("\"eye_resolution_width\": 800"));
    assert!(text.contains("\"preserve_me_too\": true"));
    assert!(text.contains("\"server_version\": \"21.0.0-dev13\""));
    assert!(text.contains("\n  "));
}

#[test]
fn runtime_mode_bytes_errors() {
    assert_eq!(
        write_runtime_mode_bytes(b"{ nope", RUNTIME_MODE_OPENXR),
        Err(RuntimeModeError::InvalidJson)
    );
    assert_eq!(
        write_runtime_mode_bytes(br#"{"session_settings": {"extra": {}}}"#, RUNTIME_MODE_OPENXR),
        Err(RuntimeModeError::MissingRuntimeField)
    );
    assert_eq!(
        write_runtime_mode_bytes(
            br#"{"session_settings": {"extra": {"runtime": 3}}}"#,
            RUNTIME_MODE_OPENXR
        ),
        Err(RuntimeModeError::RuntimeNotObject)
    );
    assert_eq!(read_runtime_mode_bytes(br#"{"session_settings": 1}"#), None);
}

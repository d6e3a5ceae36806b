use learnme::error::RepoError;
use learnme::methods::anki::import::{
    deck_name_and_method, extract_pointer, parse_deck_bytes, schema_error, schema_result, validate_schema, ImportError, SchemaViolation,
    DECK_SCHEMA,
};

fn doc(text: &str) -> serde_json::Value {
    parse_deck_bytes(text.as_bytes()).unwrap()
}

#[test]
fn validate_schema_valid_deck() {
    let value = doc(
        r#"{"schemaVersion":"1.0.0","method":"anki","name":"Spanish A2","tags":[],
            "cards":[{"front":"casa","back":"house","tags":["noun"]},{"front":"perro","back":"dog"}]}"#,
    );
    assert!(validate_schema(&value).is_ok(), "valid deck must pass schema");
}

#[test]
fn validate_schema_missing_method() {
    let value = doc(r#"{"schemaVersion":"1.0.0","name":"x","cards":[]}"#);
    match validate_schema(&value).unwrap_err() {
        ImportError::Schema { ref pointer, .. } => {
            assert!(pointer.contains("method"), "error pointer must reference 'method', got: {pointer}");
            assert_eq!(pointer, "/method");
        }
        other => panic!("expected ImportError::Schema, got: {other:?}"),
    }
}

#[test]
fn validate_schema_missing_schema_version() {
    let value = doc(r#"{"method":"anki","cards":[]}"#);
    match validate_schema(&value).unwrap_err() {
        ImportError::Schema { ref pointer, .. } => {
            assert!(pointer.contains("schemaVersion"), "got: {pointer}");
        }
        other => panic!("expected ImportError::Schema, got: {other:?}"),
    }
}

#[test]
fn validate_schema_missing_cards() {
    let value = doc(r#"{"schemaVersion":"1.0.0","method":"anki"}"#);
    match validate_schema(&value).unwrap_err() {
        ImportError::Schema { ref pointer, .. } => {
            assert!(pointer.contains("cards"), "got: {pointer}");
        }
        other => panic!("expected ImportError::Schema, got: {other:?}"),
    }
}

#[test]
fn validate_schema_null_value() {
    let err = validate_schema(&serde_json::Value::Null).unwrap_err();
    assert!(matches!(err, ImportError::Schema { .. }), "null value must produce SchemaError");
}

#[test]
fn validate_schema_unicode_deck() {
    let value = doc(
        r#"{"schemaVersion":"1.0.0","method":"anki","name":"日本語 ✓",
            "cards":[{"front":"猫","back":"gato 🐈"},{"front":"ñandú","back":"rhea\u0000"}]}"#,
    );
    assert!(validate_schema(&value).is_ok(), "unicode deck must pass schema");
}

#[test]
fn schema_violation_inside_a_card_points_into_the_document() {
    let value = doc(r#"{"schemaVersion":"1.0.0","method":"anki","cards":[{"front":1,"back":"b"}]}"#);
    match validate_schema(&value).unwrap_err() {
        ImportError::Schema { pointer, message } => {
            assert_eq!(pointer, "/cards/0/front");
            assert!(!message.is_empty());
        }
        other => panic!("expected ImportError::Schema, got: {other:?}"),
    }
}

#[test]
fn parse_file_binary_file() {
    let err = parse_deck_bytes(&[0xff, 0xfe, 0x00, 0x01, 0x89]).unwrap_err();
    assert!(matches!(err, ImportError::Parse(_)), "binary file must produce ParseError, got: {err:?}");
}

#[test]
fn parse_file_schema_invalid_json_is_still_ok_value() {
    assert!(parse_deck_bytes(br#"{"schemaVersion":"1.0.0","method":"anki"}"#).is_ok());
}

#[test]
fn deck_schema_is_a_json_document() {
    assert!(parse_deck_bytes(DECK_SCHEMA.as_bytes()).is_ok());
}

#[test]
fn pointers_of_violations() {
    let missing = SchemaViolation {
        missing_property: Some(Some("method".into())),
        instance_path: "".into(),
        message: "\"method\" is a required property".into(),
    };
    assert_eq!(extract_pointer(&missing), "/method");
    let unnamed = SchemaViolation {
        missing_property: Some(None),
        instance_path: "".into(),
        message: "m".into(),
    };
    assert_eq!(extract_pointer(&unnamed), "/?");
    let typed = SchemaViolation {
        missing_property: None,
        instance_path: "/cards/3/back".into(),
        message: "m".into(),
    };
    assert_eq!(extract_pointer(&typed), "/cards/3/back");
    assert_eq!(
        schema_error(typed),
        ImportError::Schema { pointer: "/cards/3/back".into(), message: "m".into() }
    );
}

#[test]
fn deck_import_error_messages() {
    assert_eq!(ImportError::Io("gone".into()).message(), "io error: gone");
    assert_eq!(ImportError::Parse("bad".into()).message(), "parse error: bad");
    assert_eq!(
        ImportError::Schema { pointer: "/method".into(), message: "m".into() }.message(),
        "schema error at /method: m"
    );
    assert_eq!(
        ImportError::Repo(RepoError::NotFound).message(),
        "database error: record not found"
    );
}

#[test]
fn schema_result_passes_without_violation() {
    assert_eq!(schema_result(None), Ok(()));
    let v = SchemaViolation {
        missing_property: Some(Some("cards".into())),
        instance_path: "".into(),
        message: "\"cards\" is a required property".into(),
    };
    assert_eq!(
        schema_result(Some(v)),
        Err(ImportError::Schema {
            pointer: "/cards".into(),
            message: "\"cards\" is a required property".into()
        })
    );
}

#[test]
fn deck_name_and_method_are_trimmed_members() {
    let value = doc(r#"{"schemaVersion":"1.0.0","method":" anki ","name":"  Spanish A2\n","cards":[]}"#);
    assert_eq!(deck_name_and_method(&value), ("Spanish A2".to_string(), "anki".to_string()));
    let value = doc(r#"{"method":7,"cards":[]}"#);
    assert_eq!(deck_name_and_method(&value), (String::new(), String::new()));
    assert_eq!(deck_name_and_method(&serde_json::Value::Null), (String::new(), String::new()));
}

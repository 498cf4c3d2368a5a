//! Descriptions of events.
use tracing_throttle::{EventMetadata, FieldMap};

/// Sets a field.
fn put(fields: &mut FieldMap, name: impl Into<String>, value: impl Into<String>) {
    fields.insert(name.into(), value.into());
}

#[test]
fn test_format_brief() {
    let metadata = EventMetadata::new(
        "ERROR".to_string(),
        "Connection failed".to_string(),
        "database::connection".to_string(),
        FieldMap::new(),
    );

    assert_eq!(
        metadata.format_brief(),
        "[ERROR] database::connection: Connection failed"
    );
}

#[test]
fn test_format_detailed_no_fields() {
    let metadata = EventMetadata::new(
        "INFO".to_string(),
        "Request processed".to_string(),
        "api::handler".to_string(),
        FieldMap::new(),
    );

    assert_eq!(
        metadata.format_detailed(),
        "[INFO] api::handler: Request processed"
    );
}

#[test]
fn test_format_detailed_with_fields() {
    let mut fields = FieldMap::new();
    put(&mut fields, "error_code", "TIMEOUT");
    put(&mut fields, "retry_count", "3");

    let metadata = EventMetadata::new(
        "ERROR".to_string(),
        "Connection failed".to_string(),
        "database::connection".to_string(),
        fields,
    );

    let formatted = metadata.format_detailed();
    assert!(formatted.contains("[ERROR] database::connection: Connection failed"));
    assert!(formatted.contains("error_code=\"TIMEOUT\""));
    assert!(formatted.contains("retry_count=\"3\""));
}

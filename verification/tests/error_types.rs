//! Error-type identity and metadata collection.

use gts_validator::error_type::GtsErrorType;
use gts_validator::error_type::MetaField;
use gts_validator::error_type::MetaRole;
use gts_validator::error_type::error_metadata;
use gts_validator::node::Node;
use gts_validator::node::fields_get;

fn base_error() -> GtsErrorType {
    GtsErrorType::root("gts.cf.core.errors.err.v1", 500, "Error").unwrap()
}

fn entity_not_found() -> GtsErrorType {
    GtsErrorType::child(&base_error(), "cf.system.logical.not_found.v1", 404, "Not Found").unwrap()
}

fn validation_failed() -> GtsErrorType {
    GtsErrorType::child(
        &base_error(),
        "cf.system.logical.validation_failed.v1",
        422,
        "Validation Failed",
    )
    .unwrap()
}

fn connection_refused() -> GtsErrorType {
    GtsErrorType::child(
        &base_error(),
        "cf.system.transport.connection_refused.v1",
        503,
        "Connection Refused",
    )
    .unwrap()
}

fn internal_server_error() -> GtsErrorType {
    GtsErrorType::child(
        &base_error(),
        "cf.system.http.internal_server_error.v1",
        500,
        "Internal Server Error",
    )
    .unwrap()
}

fn rate_limited() -> GtsErrorType {
    GtsErrorType::child(&base_error(), "cf.system.http.rate_limited.v1", 429, "Rate Limited")
        .unwrap()
}

fn conflict() -> GtsErrorType {
    GtsErrorType::child(&base_error(), "cf.system.logical.conflict.v1", 409, "Conflict").unwrap()
}

fn unit_root_error() -> GtsErrorType {
    GtsErrorType::root("gts.cf.core.errors.unit.v1", 500, "Unit Error").unwrap()
}

#[test]
fn test_root_error_gts_id() {
    assert_eq!(base_error().gts_id(), "gts://gts.cf.core.errors.err.v1~");
}

#[test]
fn test_child_error_gts_id() {
    assert_eq!(
        entity_not_found().gts_id(),
        "gts://gts.cf.core.errors.err.v1~cf.system.logical.not_found.v1~"
    );
}

#[test]
fn test_gts_id_starts_with_gts_uri_prefix() {
    assert!(base_error().gts_id().starts_with("gts://"));
    assert!(entity_not_found().gts_id().starts_with("gts://"));
    assert!(validation_failed().gts_id().starts_with("gts://"));
    assert!(connection_refused().gts_id().starts_with("gts://"));
    assert!(internal_server_error().gts_id().starts_with("gts://"));
}

#[test]
fn test_gts_id_ends_with_tilde() {
    assert!(base_error().gts_id().ends_with('~'));
    assert!(entity_not_found().gts_id().ends_with('~'));
    assert!(validation_failed().gts_id().ends_with('~'));
    assert!(internal_server_error().gts_id().ends_with('~'));
}

#[test]
fn test_gts_id_contains_base_segment() {
    assert!(entity_not_found().gts_id().contains("gts.cf.core.errors.err.v1~"));
    assert!(validation_failed().gts_id().contains("gts.cf.core.errors.err.v1~"));
}

#[test]
fn test_root_error_single_segment() {
    let id = base_error().gts_id();
    let without_prefix = id.strip_prefix("gts://").unwrap();
    let without_trailing = without_prefix.strip_suffix('~').unwrap();
    let segments: Vec<&str> = without_trailing.split('~').collect();
    assert_eq!(
        segments.len(),
        1,
        "Root error should have 1 segment, got: {segments:?}"
    );
}

#[test]
fn test_child_error_two_segment_chain() {
    let id = entity_not_found().gts_id();
    let without_prefix = id.strip_prefix("gts://").unwrap();
    let without_trailing = without_prefix.strip_suffix('~').unwrap();
    let segments: Vec<&str> = without_trailing.split('~').collect();
    assert_eq!(
        segments.len(),
        2,
        "Child error should have 2-segment chain, got: {segments:?}"
    );
}

#[test]
fn test_title_constant() {
    assert_eq!(entity_not_found().title, "Not Found");
    assert_eq!(validation_failed().title, "Validation Failed");
    assert_eq!(connection_refused().title, "Connection Refused");
    assert_eq!(internal_server_error().title, "Internal Server Error");
    assert_eq!(rate_limited().title, "Rate Limited");
}

#[test]
fn test_display_format() {
    let err = entity_not_found();
    let display = err.display_string();
    assert_eq!(
        display,
        "Not Found: gts://gts.cf.core.errors.err.v1~cf.system.logical.not_found.v1~"
    );
}

#[test]
fn test_display_root_error() {
    let err = base_error();
    let display = err.display_string();
    assert_eq!(display, "Error: gts://gts.cf.core.errors.err.v1~");
}

#[test]
fn test_display_unit_root_error() {
    let err = unit_root_error();
    let display = err.display_string();
    assert_eq!(display, "Unit Error: gts://gts.cf.core.errors.unit.v1~");
}

#[test]
fn test_metadata_basic_field() {
    let fields = vec![MetaField {
        name: "gts_id".to_owned(),
        value: Node::text("entity-42"),
        role: MetaRole::Plain,
    }];
    let metadata = error_metadata(&fields).expect("should have metadata");
    assert_eq!(metadata.len(), 1);
    assert_eq!(
        fields_get(&metadata, "gts_id").unwrap().as_text().unwrap(),
        "entity-42"
    );
}

#[test]
fn test_metadata_multiple_fields() {
    let fields = vec![MetaField {
        name: "retry_after".to_owned(),
        value: Node::number_u64(30),
        role: MetaRole::Plain,
    }];
    let metadata = error_metadata(&fields).expect("should have metadata");
    assert_eq!(metadata.len(), 1);
    assert_eq!(
        fields_get(&metadata, "retry_after").unwrap().as_number().unwrap(),
        "30"
    );
}

#[test]
fn test_metadata_skip_metadata() {
    let fields = vec![
        MetaField {
            name: "target_host".to_owned(),
            value: Node::text("db.example.com"),
            role: MetaRole::Plain,
        },
        MetaField {
            name: "internal_trace".to_owned(),
            value: Node::text("sensitive-stack-trace"),
            role: MetaRole::Skip,
        },
    ];
    let metadata = error_metadata(&fields).expect("should have metadata");
    assert_eq!(metadata.len(), 1);
    assert!(fields_get(&metadata, "target_host").is_some());
    assert!(
        fields_get(&metadata, "internal_trace").is_none(),
        "skip_metadata field should be excluded"
    );
}

#[test]
fn test_metadata_as_errors() {
    let fields = vec![
        MetaField {
            name: "violations".to_owned(),
            value: Node::Array(vec![
                Node::text("field 'name' is required"),
                Node::text("field 'email' is invalid"),
            ]),
            role: MetaRole::AsErrors,
        },
        MetaField {
            name: "entity_type".to_owned(),
            value: Node::text("User"),
            role: MetaRole::Plain,
        },
    ];
    let metadata = error_metadata(&fields).expect("should have metadata");
    assert_eq!(metadata.len(), 2);
    assert!(
        fields_get(&metadata, "errors").is_some(),
        "as_errors field should be under 'errors' key"
    );
    assert!(fields_get(&metadata, "entity_type").is_some());

    let errors = fields_get(&metadata, "errors").unwrap().as_array().unwrap();
    assert_eq!(errors.len(), 2);
    assert_eq!(errors[0].as_text().unwrap(), "field 'name' is required");
}

#[test]
fn test_metadata_as_errors_with_complex_type() {
    let violation = Node::Object(vec![
        ("field".to_owned(), Node::text("email")),
        ("message".to_owned(), Node::text("invalid format")),
    ]);
    let fields = vec![
        MetaField {
            name: "violations".to_owned(),
            value: Node::Array(vec![violation]),
            role: MetaRole::AsErrors,
        },
        MetaField {
            name: "entity_type".to_owned(),
            value: Node::text("User"),
            role: MetaRole::Plain,
        },
        MetaField {
            name: "raw_input".to_owned(),
            value: Node::text("should-be-excluded"),
            role: MetaRole::Skip,
        },
    ];
    let metadata = error_metadata(&fields).expect("should have metadata");
    assert_eq!(metadata.len(), 2);
    assert!(fields_get(&metadata, "errors").is_some());
    assert!(fields_get(&metadata, "entity_type").is_some());
    assert!(
        fields_get(&metadata, "raw_input").is_none(),
        "skip_metadata field should be excluded"
    );

    let errors = fields_get(&metadata, "errors").unwrap().as_array().unwrap();
    assert_eq!(errors.len(), 1);
    let first = errors[0].as_object().unwrap();
    assert_eq!(fields_get(first, "field").unwrap().as_text().unwrap(), "email");
    assert_eq!(
        fields_get(first, "message").unwrap().as_text().unwrap(),
        "invalid format"
    );
}

#[test]
fn test_metadata_unit_struct_returns_none() {
    let fields: Vec<MetaField> = vec![];
    assert!(error_metadata(&fields).is_none());
}

#[test]
fn test_metadata_child_with_all_skipped_returns_none() {
    let fields = vec![MetaField {
        name: "cause".to_owned(),
        value: Node::text("something"),
        role: MetaRole::Skip,
    }];
    assert!(
        error_metadata(&fields).is_none(),
        "all fields are skip_metadata, should return None"
    );
}

#[test]
fn test_metadata_all_fields_skipped_returns_none() {
    let fields = vec![
        MetaField {
            name: "debug_info".to_owned(),
            value: Node::text("some debug"),
            role: MetaRole::Skip,
        },
        MetaField {
            name: "stack_trace".to_owned(),
            value: Node::text("some trace"),
            role: MetaRole::Skip,
        },
    ];
    assert!(
        error_metadata(&fields).is_none(),
        "all fields are skip_metadata, should return None"
    );
}

#[test]
fn test_clone_is_derived() {
    let fields = vec![MetaField {
        name: "gts_id".to_owned(),
        value: Node::text("test"),
        role: MetaRole::Plain,
    }];
    let cloned: Vec<MetaField> = fields
        .iter()
        .map(|f| MetaField { name: f.name.clone(), value: f.value.duplicate(), role: f.role })
        .collect();
    let md_cloned = error_metadata(&cloned).unwrap();
    let md_orig = error_metadata(&fields).unwrap();
    assert_eq!(
        fields_get(&md_cloned, "gts_id").unwrap().as_text().unwrap(),
        fields_get(&md_orig, "gts_id").unwrap().as_text().unwrap()
    );
}

#[test]
fn test_status_as_u16() {
    assert_eq!(entity_not_found().status, 404);
    assert_eq!(base_error().status, 500);
    assert_eq!(rate_limited().status, 429);
}

#[test]
fn test_conflict_error_status() {
    assert_eq!(conflict().status, 409);
}

#[test]
fn test_root_error_rejects_bad_inputs() {
    assert!(GtsErrorType::root("gts.cf.core.errors.err.v1", 99, "Error").is_none());
    assert!(GtsErrorType::root("gts.cf.core.errors.err.v1", 600, "Error").is_none());
    assert!(GtsErrorType::root("not-an-identifier", 500, "Error").is_none());
    assert!(GtsErrorType::root("cf.core.errors.err.v1", 500, "Error").is_none());
}

#[test]
fn test_child_error_rejects_malformed_segment() {
    let base = base_error();
    assert!(GtsErrorType::child(&base, "cf.system.bad-segment.x.v1", 404, "Bad").is_none());
    assert!(GtsErrorType::child(&base, "cf.system.logical.not_found.v1", 1000, "Bad").is_none());
}

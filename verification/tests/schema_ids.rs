//! Identifier-chain behaviour: parsing schema identifiers back and forth,
//! base chains and instance identifiers.

use gts_validator::grammar::ParsedIdentifier;

#[test]
fn test_versioned_struct_v2_1_schema_id() {
    let id = ParsedIdentifier::parse("gts.x.test.entities.versioned.v2.1~").unwrap();
    assert_eq!(id.to_text(), "gts.x.test.entities.versioned.v2.1~");
}

#[test]
fn test_versioned_struct_v2_1_base_schema_id() {
    let id = ParsedIdentifier::parse("gts.x.test.entities.versioned.v2.1~").unwrap();
    let base_id = id.base_text();
    assert!(base_id.is_none());
}

#[test]
fn test_underscore_segments_schema_id() {
    let id = ParsedIdentifier::parse("gts.vendor_name.package_name.namespace_name.type_name.v1~")
        .unwrap();
    assert_eq!(
        id.to_text(),
        "gts.vendor_name.package_name.namespace_name.type_name.v1~"
    );
}

#[test]
fn test_underscore_segments_make_instance_id() {
    let id = ParsedIdentifier::parse("gts.vendor_name.package_name.namespace_name.type_name.v1~")
        .unwrap();
    let instance_id = id.instance_id("test.app.instance.v1");
    assert_eq!(
        instance_id,
        "gts.vendor_name.package_name.namespace_name.type_name.v1~test.app.instance.v1"
    );
}

#[test]
fn test_unit_struct_schema_id() {
    let id = ParsedIdentifier::parse("gts.x.test.entities.empty.v1~").unwrap();
    assert_eq!(id.to_text(), "gts.x.test.entities.empty.v1~");
}

#[test]
fn test_child_unit_struct_schema_id() {
    let id = ParsedIdentifier::parse("gts.x.test.entities.parent.v1~x.test.entities.child.v1~")
        .unwrap();
    assert_eq!(
        id.to_text(),
        "gts.x.test.entities.parent.v1~x.test.entities.child.v1~"
    );
}

#[test]
fn test_child_unit_struct_base_schema_id() {
    let id = ParsedIdentifier::parse("gts.x.test.entities.parent.v1~x.test.entities.child.v1~")
        .unwrap();
    let base_id = id.base_text();
    assert!(base_id.is_some());
    assert_eq!(base_id.unwrap(), "gts.x.test.entities.parent.v1~");
}

#[test]
fn test_multi_version_schema_id() {
    let id = ParsedIdentifier::parse("gts.x.test.entities.multiversion.v10.20~").unwrap();
    assert_eq!(id.to_text(), "gts.x.test.entities.multiversion.v10.20~");
}

#[test]
fn test_segment_count_of_chain() {
    let root = ParsedIdentifier::parse("gts.x.test.entities.parent.v1~").unwrap();
    assert_eq!(root.segment_count(), 1);
    let child =
        ParsedIdentifier::parse("gts.x.test.entities.parent.v1~x.test.entities.child.v1~")
            .unwrap();
    assert_eq!(child.segment_count(), 2);
}

#[test]
fn test_parse_rejects_malformed() {
    assert!(ParsedIdentifier::parse("gts.my-vendor.core.events.type.v1~").is_none());
    assert!(ParsedIdentifier::parse("gts.invalid").is_none());
    assert!(ParsedIdentifier::parse("gts.x.core.pkg.mytype.v1").is_none());
    assert!(ParsedIdentifier::parse("gts.x.core.pkg.v1~").is_none());
    assert!(ParsedIdentifier::parse("*").is_none());
    assert!(ParsedIdentifier::parse("").is_none());
}

#[test]
fn test_parse_accepts_uri_form() {
    let id = ParsedIdentifier::parse("gts://gts.x.core.events.type.v1~").unwrap();
    assert_eq!(id.to_text(), "gts.x.core.events.type.v1~");
    assert_eq!(id.uri(), "gts://gts.x.core.events.type.v1~");
}

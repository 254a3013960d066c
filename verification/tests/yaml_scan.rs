//! YAML scanning: value discovery, wildcard exemption, and multi-document
//! isolation.

use gts_validator::config::VendorPolicy;
use gts_validator::yaml::scan_yaml_content;
use gts_validator::yaml::split_yaml_documents;

#[test]
fn test_scan_yaml_valid_id() {
    let content = "\n$id: gts://gts.x.core.events.type.v1~\n";
    let errors = scan_yaml_content(content, "test.yaml", &VendorPolicy::Any, false);
    assert!(errors.is_empty(), "Unexpected errors: {errors:?}");
}

#[test]
fn test_scan_yaml_invalid_id() {
    let content = "\n$id: gts.invalid\n";
    let errors = scan_yaml_content(content, "test.yaml", &VendorPolicy::Any, false);
    assert!(!errors.is_empty());
}

#[test]
fn test_scan_yaml_xgts_ref_wildcard() {
    let content = "\nx-gts-ref: gts.x.core.*\n";
    let errors = scan_yaml_content(content, "test.yaml", &VendorPolicy::Any, false);
    assert!(errors.is_empty(), "Wildcards in x-gts-ref should be allowed");
}

#[test]
fn test_scan_yaml_xgts_ref_bare_wildcard() {
    let content = "\nx-gts-ref: \"*\"\n";
    let errors = scan_yaml_content(content, "test.yaml", &VendorPolicy::Any, false);
    assert!(errors.is_empty(), "Bare wildcard in x-gts-ref should be skipped");
}

#[test]
fn test_scan_yaml_nested_values() {
    let content = "\nproperties:\n  type:\n    x-gts-ref: gts.x.core.events.type.v1~\n";
    let errors = scan_yaml_content(content, "test.yaml", &VendorPolicy::Any, false);
    assert!(errors.is_empty(), "Nested values should be found and validated");
}

#[test]
fn test_scan_yaml_array_values() {
    let content = "\ncapabilities:\n  - gts.x.core.events.type.v1~\n  - gts.x.core.events.topic.v1~\n";
    let errors = scan_yaml_content(content, "test.yaml", &VendorPolicy::Any, false);
    assert!(errors.is_empty(), "Array values should be found and validated");
}

#[test]
fn test_scan_yaml_invalid_yaml() {
    let content = "\ninvalid: yaml: syntax:\n";
    let errors = scan_yaml_content(content, "test.yaml", &VendorPolicy::Any, false);
    assert!(errors.is_empty(), "Invalid YAML should be skipped with warning");
}

#[test]
fn test_scan_yaml_multi_document_all_validated() {
    // All documents in a multi-document stream must be validated.
    let content = "$id: gts.x.core.events.type.v1~\n---\n$id: gts.invalid\n";
    let errors = scan_yaml_content(content, "multi.yaml", &VendorPolicy::Any, false);
    // Both documents are parsed; gts.invalid in doc 2 must produce an error.
    assert!(
        !errors.is_empty(),
        "Multi-document YAML: second document with invalid ID should be caught, got no errors"
    );
}

#[test]
fn test_scan_yaml_multi_document_malformed_doc_does_not_suppress_valid_doc() {
    // A malformed document must be skipped, but valid documents around it
    // must still be validated.
    let content =
        "$id: gts.y.core.pkg.mytype.v1~\n---\ninvalid: yaml: syntax:\n---\n$id: gts.y.core.pkg.mytype.v1~\n";
    // With vendor "x", both valid docs should produce vendor-mismatch errors.
    // If the malformed middle doc caused an early return, errors would be empty.
    let errors = scan_yaml_content(
        content,
        "multi.yaml",
        &VendorPolicy::MustMatch("x".to_owned()),
        false,
    );
    assert!(
        !errors.is_empty(),
        "Valid documents must be validated even when a sibling document is malformed, got no errors"
    );
}

#[test]
fn test_multi_document_isolation_yields_exactly_two_mismatches() {
    let content =
        "doc1:\n  $id: gts.y.core.pkg.mytype.v1~\n---\ninvalid: yaml: syntax:\n---\ndoc3:\n  $id: gts.y.core.pkg.mytype.v1~\n";
    let errors = scan_yaml_content(
        content,
        "multi.yaml",
        &VendorPolicy::MustMatch("x".to_owned()),
        false,
    );
    assert_eq!(errors.len(), 2);
    for e in &errors {
        assert!(e.message.contains("Vendor mismatch"));
    }
}

#[test]
fn test_split_yaml_documents_drops_blank_pieces() {
    let docs = split_yaml_documents("a: 1\n---\n\n---\nb: 2\n");
    assert_eq!(docs.len(), 2);
    assert_eq!(docs[0], "a: 1");
    assert_eq!(docs[1], "b: 2");
}

#[test]
fn test_split_yaml_documents_single_doc() {
    let docs = split_yaml_documents("a: 1\nb: 2\n");
    assert_eq!(docs.len(), 1);
    assert_eq!(docs[0], "a: 1\nb: 2");
}

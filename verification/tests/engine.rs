//! The engine end to end: Markdown scanning under both discovery modes, skip
//! tokens, JSON key scanning, wildcard contexts, format detection, the
//! orchestrator, and report rendering.

use gts_validator::config::FsSourceConfig;
use gts_validator::config::ValidationConfig;
use gts_validator::config::VendorPolicy;
use gts_validator::grammar::DiscoveryMode;
use gts_validator::json::scan_json_content;
use gts_validator::markdown::scan_markdown_content;
use gts_validator::output::write_human;
use gts_validator::validator::ContentFormat;
use gts_validator::validator::FileInput;
use gts_validator::validator::ValidationItem;
use gts_validator::validator::content_format_for;
use gts_validator::validator::matches_file_pattern;
use gts_validator::validator::validate_items;
use gts_validator::verror::ErrorKind;
use gts_validator::verror::ErrorLocation;

fn config(vendor: Option<&str>, strict: bool, scan_keys: bool, skip: &[&str]) -> ValidationConfig {
    ValidationConfig {
        vendor_policy: match vendor {
            Some(v) => VendorPolicy::MustMatch(v.to_owned()),
            None => VendorPolicy::Any,
        },
        discovery_mode: if strict {
            DiscoveryMode::Heuristic
        } else {
            DiscoveryMode::StrictSpecOnly
        },
        scan_keys,
        skip_tokens: skip.iter().map(|s| (*s).to_owned()).collect(),
    }
}

#[test]
fn strict_spec_only_ignores_malformed_token() {
    let content = "Malformed token: gts.my-vendor.core.events.type.v1~\n";
    let errors = scan_markdown_content(content, "strict.md", &config(None, false, false, &[]));
    assert!(errors.is_empty());
}

#[test]
fn heuristic_reports_malformed_token() {
    let content = "Malformed token: gts.my-vendor.core.events.type.v1~\n";
    let errors = scan_markdown_content(content, "strict.md", &config(None, true, false, &[]));
    assert_eq!(errors.len(), 1);
    assert_eq!(errors[0].kind, ErrorKind::MalformedIdentifier);
    assert_eq!(errors[0].snippet, "gts.my-vendor.core.events.type.v1~");
    assert!(errors[0].message.contains("Invalid GTS identifier"));
}

#[test]
fn skip_token_suppresses_candidate_on_same_line() {
    let content = "**given** gts.y.core.pkg.mytype.v1~ is registered\n";
    let without = scan_markdown_content(content, "bdd.md", &config(Some("x"), false, false, &[]));
    assert_eq!(without.len(), 1);
    assert_eq!(without[0].kind, ErrorKind::VendorMismatch);
    let with = scan_markdown_content(
        content,
        "bdd.md",
        &config(Some("x"), false, false, &["**given**"]),
    );
    assert!(with.is_empty());
}

#[test]
fn skip_token_matches_case_insensitively() {
    let content = "**GIVEN** gts.y.core.pkg.mytype.v1~ is registered\n";
    let with = scan_markdown_content(
        content,
        "bdd.md",
        &config(Some("x"), false, false, &["**given**"]),
    );
    assert!(with.is_empty());
}

#[test]
fn skip_token_only_protects_later_candidates_of_its_line() {
    let content = "gts.y.core.pkg.mytype.v1~ before **given**\n**given** on previous line\ngts.y.core.pkg.mytype.v1~\n";
    let errors = scan_markdown_content(
        content,
        "bdd.md",
        &config(Some("x"), false, false, &["**given**"]),
    );
    // Neither candidate is preceded by the token on its own line.
    assert_eq!(errors.len(), 2);
}

#[test]
fn markdown_error_carries_line_number() {
    let content = "first line\nsecond gts.y.core.pkg.mytype.v1~\n";
    let errors = scan_markdown_content(content, "doc.md", &config(Some("x"), false, false, &[]));
    assert_eq!(errors.len(), 1);
    match &errors[0].location {
        ErrorLocation::Line(n) => assert_eq!(*n, 2),
        ErrorLocation::Pointer(p) => panic!("expected a line, got pointer {p}"),
    }
    assert_eq!(errors[0].path, "doc.md");
}

#[test]
fn vendor_mismatch_message_names_both_vendors() {
    let content = "Uses `gts.y.core.pkg.mytype.v1~` schema.\n";
    let errors = scan_markdown_content(content, "test.md", &config(Some("x"), false, false, &[]));
    assert_eq!(errors.len(), 1);
    assert_eq!(errors[0].message, "Vendor mismatch: expected 'x', found 'y'");
}

#[test]
fn well_formed_baseline_passes_both_modes() {
    let content = "Uses `gts.x.core.pkg.mytype.v1~` schema.\n";
    for strict in [false, true] {
        let errors =
            scan_markdown_content(content, "test.md", &config(None, strict, false, &[]));
        assert!(errors.is_empty());
    }
}

#[test]
fn json_key_scan_toggle() {
    let content = "{\"gts.y.core.pkg.badtype.v1~\": \"value\"}";
    let off = scan_json_content(
        content,
        "keys.json",
        &VendorPolicy::MustMatch("x".to_owned()),
        false,
    )
    .unwrap();
    assert!(off.is_empty());
    let on = scan_json_content(
        content,
        "keys.json",
        &VendorPolicy::MustMatch("x".to_owned()),
        true,
    )
    .unwrap();
    assert_eq!(on.len(), 1);
    assert_eq!(on[0].kind, ErrorKind::VendorMismatch);
    assert!(on[0].message.contains("Vendor mismatch"));
    match &on[0].location {
        ErrorLocation::Pointer(p) => assert_eq!(p, "$.gts.y.core.pkg.badtype.v1~"),
        ErrorLocation::Line(n) => panic!("expected a pointer, got line {n}"),
    }
}

#[test]
fn json_wildcard_value_outside_exempt_context_is_reported() {
    let content = "{\"$id\": \"gts.x.core.*\"}";
    let errors = scan_json_content(content, "w.json", &VendorPolicy::Any, false).unwrap();
    assert_eq!(errors.len(), 1);
    assert_eq!(errors[0].kind, ErrorKind::WildcardContext);
    assert!(errors[0].message.contains("Wildcard"));
}

#[test]
fn json_xgts_ref_wildcards_are_exempt() {
    for content in ["{\"x-gts-ref\": \"*\"}", "{\"x-gts-ref\": \"gts.x.core.*\"}"] {
        for vendor in [None, Some("x")] {
            let policy = match vendor {
                Some(v) => VendorPolicy::MustMatch(v.to_owned()),
                None => VendorPolicy::Any,
            };
            for scan_keys in [false, true] {
                let errors = scan_json_content(content, "w.json", &policy, scan_keys).unwrap();
                assert!(errors.is_empty());
            }
        }
    }
}

#[test]
fn json_bare_star_value_is_ignored_by_grammar() {
    let content = "{\"anything\": \"*\"}";
    let errors = scan_json_content(content, "w.json", &VendorPolicy::Any, false).unwrap();
    assert!(errors.is_empty());
}

#[test]
fn json_array_elements_carry_positional_pointers() {
    let content = "{\"caps\": [\"gts.y.core.pkg.a.v1~\", \"gts.y.core.pkg.b.v1~\"]}";
    let errors = scan_json_content(
        content,
        "arr.json",
        &VendorPolicy::MustMatch("x".to_owned()),
        false,
    )
    .unwrap();
    assert_eq!(errors.len(), 2);
    match &errors[0].location {
        ErrorLocation::Pointer(p) => assert_eq!(p, "$.caps[0]"),
        ErrorLocation::Line(_) => panic!("expected a pointer"),
    }
    match &errors[1].location {
        ErrorLocation::Pointer(p) => assert_eq!(p, "$.caps[1]"),
        ErrorLocation::Line(_) => panic!("expected a pointer"),
    }
}

#[test]
fn json_parse_failure_is_skipped_silently() {
    assert!(scan_json_content("{not json", "bad.json", &VendorPolicy::Any, false).is_none());
}

#[test]
fn format_detection_by_extension() {
    assert_eq!(content_format_for("docs/a.md"), Some(ContentFormat::Markdown));
    assert_eq!(content_format_for("a.json"), Some(ContentFormat::Json));
    assert_eq!(content_format_for("deep/dir/a.yaml"), Some(ContentFormat::Yaml));
    assert_eq!(content_format_for("a.yml"), Some(ContentFormat::Yaml));
    assert_eq!(content_format_for("a.txt"), None);
    assert_eq!(content_format_for("noext"), None);
    assert_eq!(content_format_for("dir.md/noext"), None);
    assert_eq!(content_format_for(".md"), None);
    assert!(matches_file_pattern("a.md"));
    assert!(!matches_file_pattern("a.rs"));
}

fn md_file(path: &str, content: &str) -> FileInput {
    FileInput {
        path: path.to_owned(),
        format: ContentFormat::Markdown,
        item: ValidationItem { content: content.to_owned() },
    }
}

#[test]
fn well_formed_baseline_scans_one_file() {
    let files = vec![md_file("test.md", "# Title\n\nUses `gts.x.core.pkg.mytype.v1~` schema.\n")];
    let report = validate_items(&files, &config(None, false, false, &[]));
    assert!(report.ok);
    assert_eq!(report.scanned_files, 1);
    assert_eq!(report.errors_count, 0);
}

#[test]
fn running_twice_yields_identical_reports() {
    let files = vec![
        md_file("a.md", "gts.y.core.pkg.mytype.v1~ and gts.bad-token.core.pkg.t.v1~\n"),
        FileInput {
            path: "b.json".to_owned(),
            format: ContentFormat::Json,
            item: ValidationItem {
                content: "{\"$id\": \"gts.y.core.pkg.mytype.v1~\"}".to_owned(),
            },
        },
    ];
    let cfg = config(Some("x"), true, true, &["**given**"]);
    let r1 = validate_items(&files, &cfg);
    let r2 = validate_items(&files, &cfg);
    assert_eq!(write_human(&r1, false), write_human(&r2, false));
    assert_eq!(r1.scanned_files, r2.scanned_files);
    assert_eq!(r1.errors_count, r2.errors_count);
    assert_eq!(r1.ok, r2.ok);
}

#[test]
fn undecodable_json_file_is_not_counted_as_scanned() {
    let files = vec![FileInput {
        path: "bad.json".to_owned(),
        format: ContentFormat::Json,
        item: ValidationItem { content: "{oops".to_owned() },
    }];
    let report = validate_items(&files, &config(None, false, false, &[]));
    assert!(report.ok);
    assert_eq!(report.scanned_files, 0);
}

#[test]
fn report_orders_errors_by_file_then_discovery() {
    let files = vec![
        md_file("a.md", "gts.y.core.pkg.first.v1~\ngts.y.core.pkg.second.v1~\n"),
        md_file("b.md", "gts.y.core.pkg.third.v1~\n"),
    ];
    let report = validate_items(&files, &config(Some("x"), false, false, &[]));
    assert_eq!(report.errors_count, 3);
    assert!(!report.ok);
    assert_eq!(report.errors[0].snippet, "gts.y.core.pkg.first.v1~");
    assert_eq!(report.errors[1].snippet, "gts.y.core.pkg.second.v1~");
    assert_eq!(report.errors[2].snippet, "gts.y.core.pkg.third.v1~");
    assert_eq!(report.errors[2].path, "b.md");
}

#[test]
fn human_report_for_clean_run() {
    let files = vec![md_file("test.md", "nothing to see\n")];
    let report = validate_items(&files, &config(None, false, false, &[]));
    let text = write_human(&report, false);
    assert!(text.contains("GTS DOCUMENTATION VALIDATOR"));
    assert!(text.contains("Files scanned: 1"));
    assert!(text.contains("Errors found:  0"));
    assert!(text.contains("\u{2713} All 1 files passed validation"));
    assert!(!text.contains("ERRORS"));
}

#[test]
fn human_report_for_failing_run_lists_errors_and_hints() {
    let files = vec![md_file("test.md", "Uses `gts.y.core.pkg.mytype.v1~` schema.\n")];
    let report = validate_items(&files, &config(Some("x"), false, false, &[]));
    let text = write_human(&report, false);
    assert!(text.contains("VALIDATION") || text.contains("ERRORS"));
    assert!(text.contains("Vendor mismatch"));
    assert!(text.contains("test.md:1"));
    assert!(text.contains("\u{2717} 1 invalid GTS identifiers found"));
    assert!(text.contains("Ensure all GTS IDs use the expected vendor"));
    assert!(!text.contains("No hyphens allowed"));
}

#[test]
fn human_report_hints_for_malformed_tokens() {
    let files = vec![md_file("test.md", "gts.my-vendor.core.events.type.v1~\n")];
    let report = validate_items(&files, &config(None, true, false, &[]));
    let text = write_human(&report, false);
    assert!(text.contains("Schema IDs must end with ~"));
    assert!(text.contains("No hyphens allowed, use underscores"));
}

#[test]
fn default_configs_match_documented_values() {
    let vc = ValidationConfig::default();
    assert!(matches!(vc.vendor_policy, VendorPolicy::Any));
    assert_eq!(vc.discovery_mode, DiscoveryMode::StrictSpecOnly);
    assert!(!vc.scan_keys);
    assert!(vc.skip_tokens.is_empty());
    let fc = FsSourceConfig::default();
    assert!(fc.paths.is_empty());
    assert!(fc.exclude.is_empty());
    assert_eq!(fc.max_file_size, 10_485_760);
    assert!(fc.follow_links);
}

#[test]
fn chained_identifier_with_continuation_segments_is_well_formed() {
    let content = "`gts.x.core.events.base.v1~x.core.events.derived.v2~` is a chain\n";
    let errors = scan_markdown_content(content, "chain.md", &config(None, true, false, &[]));
    assert!(errors.is_empty());
    let errors = scan_markdown_content(content, "chain.md", &config(Some("x"), true, false, &[]));
    assert!(errors.is_empty());
    let errors = scan_markdown_content(content, "chain.md", &config(Some("y"), true, false, &[]));
    assert_eq!(errors.len(), 1);
}

#[test]
fn vendor_policy_checks_every_segment() {
    let content = "`gts.x.core.events.base.v1~y.core.events.derived.v2~`\n";
    let errors = scan_markdown_content(content, "chain.md", &config(Some("x"), false, false, &[]));
    assert_eq!(errors.len(), 1);
    assert_eq!(errors[0].message, "Vendor mismatch: expected 'x', found 'y'");
}

#[test]
fn candidate_is_cut_back_to_its_last_tilde() {
    let content = "See gts.x.core.pkg.mytype.v1~.\n";
    let errors = scan_markdown_content(content, "prose.md", &config(Some("y"), true, false, &[]));
    assert_eq!(errors.len(), 1);
    assert_eq!(errors[0].snippet, "gts.x.core.pkg.mytype.v1~");
}

#[test]
fn non_string_leaves_are_never_classified() {
    let content = "{\"a\": null, \"b\": true, \"c\": 42, \"d\": [1, false, null]}";
    let errors = scan_json_content(
        content,
        "scalars.json",
        &VendorPolicy::MustMatch("x".to_owned()),
        true,
    )
    .unwrap();
    assert!(errors.is_empty());
}

#[test]
fn colored_report_still_carries_the_headline() {
    let files = vec![md_file("test.md", "nothing\n")];
    let report = validate_items(&files, &config(None, false, false, &[]));
    let text = write_human(&report, true);
    assert!(text.contains("GTS DOCUMENTATION VALIDATOR"));
    assert!(text.contains("Files scanned: 1"));
}

#[test]
fn windows_line_endings_are_handled() {
    let content = "first\r\nsecond gts.y.core.pkg.mytype.v1~\r\n";
    let errors = scan_markdown_content(content, "doc.md", &config(Some("x"), false, false, &[]));
    assert_eq!(errors.len(), 1);
    match &errors[0].location {
        ErrorLocation::Line(n) => assert_eq!(*n, 2),
        ErrorLocation::Pointer(_) => panic!("expected a line"),
    }
}

#[test]
fn empty_content_yields_no_errors() {
    let errors = scan_markdown_content("", "empty.md", &config(Some("x"), true, true, &[]));
    assert!(errors.is_empty());
    let report = validate_items(&vec![], &config(None, false, false, &[]));
    assert!(report.ok);
    assert_eq!(report.scanned_files, 0);
}

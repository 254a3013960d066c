//! Validation errors: what kind of finding, where it was found, a
//! human-readable message and the offending snippet.

use vstd::prelude::*;

use crate::text::dec_digits;
use crate::text::u64_to_string;

verus! {

/// The kinds of reported findings.
#[derive(Debug, Clone, Copy, PartialEq, Eq, Structural)]
pub enum ErrorKind {
    /// The candidate violates the identifier grammar.
    MalformedIdentifier,
    /// A segment's vendor differs from the expected one.
    VendorMismatch,
    /// A wildcard outside a filter/pattern context.
    WildcardContext,
}

/// Where a finding was made: a 1-indexed Markdown line, or a JSON-Pointer-like
/// path through a value tree.
#[derive(Debug, Clone)]
pub enum ErrorLocation {
    Line(usize),
    Pointer(String),
}

/// The mathematical content of a location.
pub enum LocationModel {
    Line(int),
    Pointer(Seq<char>),
}

impl View for ErrorLocation {
    type V = LocationModel;

    open spec fn view(&self) -> LocationModel {
        match self {
            ErrorLocation::Line(n) => LocationModel::Line(*n as int),
            ErrorLocation::Pointer(p) => LocationModel::Pointer(p@),
        }
    }
}

/// One reported finding; immutable once created.
#[derive(Debug, Clone)]
pub struct ValidationError {
    /// The scanned file's path.
    pub path: String,
    /// Line or tree position of the finding.
    pub location: ErrorLocation,
    /// The kind of finding.
    pub kind: ErrorKind,
    /// Human-readable message.
    pub message: String,
    /// The offending candidate text.
    pub snippet: String,
}

/// The mathematical content of one finding.
pub struct ErrorModel {
    pub path: Seq<char>,
    pub location: LocationModel,
    pub kind: ErrorKind,
    pub message: Seq<char>,
    pub snippet: Seq<char>,
}

impl View for ValidationError {
    type V = ErrorModel;

    open spec fn view(&self) -> ErrorModel {
        ErrorModel {
            path: self.path@,
            location: self.location@,
            kind: self.kind,
            message: self.message@,
            snippet: self.snippet@,
        }
    }
}

impl DeepView for ValidationError {
    type V = ErrorModel;

    open spec fn deep_view(&self) -> ErrorModel {
        self.view()
    }
}

pub open spec fn malformed_message(snippet: Seq<char>) -> Seq<char> {
    "Invalid GTS identifier: '"@ + snippet + "'"@
}

pub open spec fn vendor_mismatch_message(expected: Seq<char>, found: Seq<char>) -> Seq<char> {
    "Vendor mismatch: expected '"@ + expected + "', found '"@ + found + "'"@
}

pub open spec fn wildcard_message(snippet: Seq<char>) -> Seq<char> {
    "Wildcard '*' is only allowed in filter context: '"@ + snippet + "'"@
}

pub open spec fn malformed_error_model(
    path: Seq<char>,
    location: LocationModel,
    snippet: Seq<char>,
) -> ErrorModel {
    ErrorModel {
        path,
        location,
        kind: ErrorKind::MalformedIdentifier,
        message: malformed_message(snippet),
        snippet,
    }
}

pub open spec fn vendor_mismatch_error_model(
    path: Seq<char>,
    location: LocationModel,
    expected: Seq<char>,
    found: Seq<char>,
    snippet: Seq<char>,
) -> ErrorModel {
    ErrorModel {
        path,
        location,
        kind: ErrorKind::VendorMismatch,
        message: vendor_mismatch_message(expected, found),
        snippet,
    }
}

pub open spec fn wildcard_error_model(
    path: Seq<char>,
    location: LocationModel,
    snippet: Seq<char>,
) -> ErrorModel {
    ErrorModel {
        path,
        location,
        kind: ErrorKind::WildcardContext,
        message: wildcard_message(snippet),
        snippet,
    }
}

/// Builds a malformed-identifier finding.
pub fn malformed_error(path: &str, location: ErrorLocation, snippet: &str) -> (e: ValidationError)
    ensures
        e@ == malformed_error_model(path@, location@, snippet@),
{
    let mut message = "Invalid GTS identifier: '".to_owned();
    message.append(snippet);
    message.append("'");
    proof {
        assert(message@ =~= malformed_message(snippet@));
    }
    ValidationError {
        path: path.to_owned(),
        location,
        kind: ErrorKind::MalformedIdentifier,
        message,
        snippet: snippet.to_owned(),
    }
}

/// Builds a vendor-mismatch finding.
pub fn vendor_mismatch_error(
    path: &str,
    location: ErrorLocation,
    expected: &str,
    found: &str,
    snippet: &str,
) -> (e: ValidationError)
    ensures
        e@ == vendor_mismatch_error_model(path@, location@, expected@, found@, snippet@),
{
    let mut message = "Vendor mismatch: expected '".to_owned();
    message.append(expected);
    message.append("', found '");
    message.append(found);
    message.append("'");
    proof {
        assert(message@ =~= vendor_mismatch_message(expected@, found@));
    }
    ValidationError {
        path: path.to_owned(),
        location,
        kind: ErrorKind::VendorMismatch,
        message,
        snippet: snippet.to_owned(),
    }
}

/// Builds a wildcard-context finding.
pub fn wildcard_error(path: &str, location: ErrorLocation, snippet: &str) -> (e: ValidationError)
    ensures
        e@ == wildcard_error_model(path@, location@, snippet@),
{
    let mut message = "Wildcard '*' is only allowed in filter context: '".to_owned();
    message.append(snippet);
    message.append("'");
    proof {
        assert(message@ =~= wildcard_message(snippet@));
    }
    ValidationError {
        path: path.to_owned(),
        location,
        kind: ErrorKind::WildcardContext,
        message,
        snippet: snippet.to_owned(),
    }
}

/// The location rendered for a human: `:<line>` or ` at <pointer>`.
pub open spec fn location_text(location: LocationModel) -> Seq<char> {
    match location {
        LocationModel::Line(n) => ":"@ + dec_digits(n as nat),
        LocationModel::Pointer(p) => " at "@ + p,
    }
}

/// One finding rendered for a human: path, location and message.
pub open spec fn human_line_model(e: ErrorModel) -> Seq<char> {
    "  "@ + e.path + location_text(e.location) + ": "@ + e.message
}

impl ValidationError {
    /// Renders the finding as one line for a human-readable report.
    pub fn human_line(&self) -> (r: String)
        ensures
            r@ == human_line_model(self@),
    {
        let mut r = "  ".to_owned();
        r.append(self.path.as_str());
        match &self.location {
            ErrorLocation::Line(n) => {
                r.append(":");
                let d = u64_to_string(*n as u64);
                r.append(d.as_str());
            },
            ErrorLocation::Pointer(p) => {
                r.append(" at ");
                r.append(p.as_str());
            },
        }
        r.append(": ");
        r.append(self.message.as_str());
        proof {
            assert(r@ =~= human_line_model(self@));
        }
        r
    }
}

} // verus!

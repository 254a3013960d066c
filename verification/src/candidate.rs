//! Judging one discovered candidate: the grammar's verdict, the vendor
//! policy, and the findings that follow from them.

use vstd::prelude::*;

use crate::config::PolicyModel;
use crate::config::VendorPolicy;
use crate::grammar::Classification;
use crate::grammar::DiscoveryMode;
use crate::grammar::chain_model;
use crate::grammar::classify;
use crate::grammar::is_star;
use crate::grammar::well_formed_chain_text;
use crate::text::str_contains_char;
use crate::vendor::chain_conforms;
use crate::vendor::first_mismatch;
use crate::vendor::vendor_check;
use crate::verror::ErrorLocation;
use crate::verror::ErrorModel;
use crate::verror::LocationModel;
use crate::verror::ValidationError;
use crate::verror::malformed_error;
use crate::verror::malformed_error_model;
use crate::verror::vendor_mismatch_error;
use crate::verror::vendor_mismatch_error_model;
use crate::verror::wildcard_error;
use crate::verror::wildcard_error_model;

verus! {

/// The findings of the vendor check on a well-formed candidate: nothing when
/// the chain conforms, one mismatch finding naming the first offending
/// segment's vendor otherwise.
pub open spec fn vendor_errs(
    cand: Seq<char>,
    fpath: Seq<char>,
    location: LocationModel,
    policy: PolicyModel,
) -> Seq<ErrorModel> {
    match policy {
        PolicyModel::Any => Seq::empty(),
        PolicyModel::MustMatch(expected) => {
            let chain = chain_model(cand);
            if chain_conforms(chain, policy) {
                Seq::empty()
            } else {
                seq![
                    vendor_mismatch_error_model(
                        fpath,
                        location,
                        expected,
                        chain[first_mismatch(chain, expected, 0)].vendor,
                        cand,
                    ),
                ]
            }
        },
    }
}

/// The findings on one candidate.  A bare `*` is never judged.  A well-formed
/// candidate is vendor-checked.  A malformed one is reported only when
/// `report_malformed` holds (Markdown under `Heuristic`, and always in the
/// tree walkers): as a wildcard finding when it holds a `*`, as a grammar
/// finding otherwise.
pub open spec fn judge_model(
    cand: Seq<char>,
    fpath: Seq<char>,
    location: LocationModel,
    policy: PolicyModel,
    report_malformed: bool,
) -> Seq<ErrorModel> {
    if is_star(cand) {
        Seq::empty()
    } else if well_formed_chain_text(cand) {
        vendor_errs(cand, fpath, location, policy)
    } else if report_malformed {
        if cand.contains('*') {
            seq![wildcard_error_model(fpath, location, cand)]
        } else {
            seq![malformed_error_model(fpath, location, cand)]
        }
    } else {
        Seq::empty()
    }
}

/// Judges `cand` and appends its findings.
pub fn judge_candidate(
    cand: &str,
    fpath: &str,
    location: ErrorLocation,
    policy: &VendorPolicy,
    report_malformed: bool,
    errors: &mut Vec<ValidationError>,
)
    ensures
        final(errors).deep_view() =~= old(errors).deep_view() + judge_model(
            cand@,
            fpath@,
            location@,
            policy@,
            report_malformed,
        ),
{
    let mode = if report_malformed {
        DiscoveryMode::Heuristic
    } else {
        DiscoveryMode::StrictSpecOnly
    };
    let ghost old_errors = errors.deep_view();
    match classify(cand, mode) {
        Option::None => {},
        Option::Some(Classification::WellFormed(p)) => {
            if let VendorPolicy::MustMatch(expected) = policy {
                if let Option::Some(found) = vendor_check(&p, policy) {
                    let e = vendor_mismatch_error(
                        fpath,
                        location,
                        expected.as_str(),
                        found.as_str(),
                        cand,
                    );
                    errors.push(e);
                    proof {
                        assert(errors.deep_view() =~= old_errors.push(e@));
                    }
                }
            }
        },
        Option::Some(Classification::Malformed) => {
            if str_contains_char(cand, '*') {
                let e = wildcard_error(fpath, location, cand);
                errors.push(e);
                proof {
                    assert(errors.deep_view() =~= old_errors.push(e@));
                }
            } else {
                let e = malformed_error(fpath, location, cand);
                errors.push(e);
                proof {
                    assert(errors.deep_view() =~= old_errors.push(e@));
                }
            }
        },
    }
}

} // verus!

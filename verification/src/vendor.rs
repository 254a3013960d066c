//! The vendor policy check: every segment of a discovered identifier chain
//! must carry the expected vendor when the policy demands one.

use vstd::prelude::*;

use crate::config::PolicyModel;
use crate::config::VendorPolicy;
use crate::grammar::ParsedIdentifier;
use crate::grammar::SegmentModel;

verus! {

/// All segments carry the expected vendor.
pub open spec fn chain_vendor_ok(chain: Seq<SegmentModel>, expected: Seq<char>) -> bool {
    forall|i: int| 0 <= i < chain.len() ==> (#[trigger] chain[i]).vendor == expected
}

/// The chain conforms to the policy.
pub open spec fn chain_conforms(chain: Seq<SegmentModel>, policy: PolicyModel) -> bool {
    match policy {
        PolicyModel::Any => true,
        PolicyModel::MustMatch(expected) => chain_vendor_ok(chain, expected),
    }
}

/// The index of the first segment whose vendor differs from `expected`, from
/// position `i` on; the chain's length when all conform.
pub open spec fn first_mismatch(chain: Seq<SegmentModel>, expected: Seq<char>, i: int) -> int
    decreases chain.len() - i,
{
    if i < 0 || i >= chain.len() {
        chain.len() as int
    } else if chain[i].vendor != expected {
        i
    } else {
        first_mismatch(chain, expected, i + 1)
    }
}

/// Checks the chain against the policy.  Returns the vendor of the first
/// non-conforming segment, or `None` when the chain conforms.
pub fn vendor_check(p: &ParsedIdentifier, policy: &VendorPolicy) -> (r: Option<String>)
    ensures
        r is None <==> chain_conforms(p@, policy@),
        r matches Some(found) ==> (policy@ matches PolicyModel::MustMatch(expected) && found@
            == p@[first_mismatch(p@, expected, 0)].vendor),
{
    let expected: &String = match policy {
        VendorPolicy::Any => {
            return None;
        },
        VendorPolicy::MustMatch(v) => v,
    };
    let ghost exp = expected@;
    let n = p.segments.len();
    let mut i: usize = 0;
    while i < n
        invariant
            0 <= i <= n == p.segments@.len(),
            forall|j: int| 0 <= j < i ==> (#[trigger] p@[j]).vendor == exp,
            policy@ matches PolicyModel::MustMatch(e) && e == exp,
            expected@ == exp,
        decreases n - i,
    {
        assert(p@[i as int] == p.segments@[i as int].deep_view());
        assert(p@[i as int].vendor == p.segments@[i as int].vendor@);
        let same = p.segments[i].vendor.eq(expected);
        assert(same == (p.segments@[i as int].vendor@ == expected@));
        if !same {
            proof {
                assert(p@[i as int].vendor != exp);
                lemma_first_mismatch_step(p@, exp, 0, i as int);
            }
            return Some(p.segments[i].vendor.clone());
        }
        proof {
            assert(p@[i as int].vendor == exp);
        }
        i = i + 1;
    }
    assert(chain_vendor_ok(p@, exp));
    None
}

/// If all vendors before `i` conform, the first mismatch from 0 equals the
/// first mismatch from `i`.
proof fn lemma_first_mismatch_step(chain: Seq<SegmentModel>, expected: Seq<char>, j: int, i: int)
    requires
        0 <= j <= i < chain.len(),
        forall|t: int| 0 <= t < i ==> (#[trigger] chain[t]).vendor == expected,
        chain[i].vendor != expected,
    ensures
        first_mismatch(chain, expected, j) == i,
    decreases i - j,
{
    if j < i {
        lemma_first_mismatch_step(chain, expected, j + 1, i);
    }
}

} // verus!

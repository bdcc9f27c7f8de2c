//! Suite-level metadata that is not an implementation failure: fixtures
//! whose expected result is not portable C99 behaviour.

use vstd::prelude::*;

verus! {

/// Metadata attached to a single test-case id.
#[derive(Copy, Clone, Debug, PartialEq, Eq)]
pub struct CaseMetadata {
    /// Stable `TestCase::id`.
    pub id: &'static str,
    /// Human-readable skip/demotion reason.
    pub reason: &'static str,
}

/// Cases whose stdout depends on unspecified function-argument evaluation
/// order or another C99-unspecified operand order.
pub fn unspecified_eval_order_cases() -> (v: Vec<CaseMetadata>)
    ensures
        v@.len() == 1,
        v@[0].id@ == "chibicc::eval-order"@,
        v@[0].reason@ == "stdout depends on unspecified function-argument evaluation order"@,
{
    vec![
        CaseMetadata {
            id: "chibicc::eval-order",
            reason: "stdout depends on unspecified function-argument evaluation order",
        },
    ]
}

/// Return the skip reason for an unspecified-evaluation-order case.
pub fn unspecified_eval_order_reason(id: &str) -> (r: Option<&'static str>)
    ensures
        match crate::adapters::eval_order_reason(id@) {
            Some(reason) => r matches Some(s) && s@ == reason,
            None => r is None,
        },
{
    let cases = unspecified_eval_order_cases();
    for k in 0..cases.len()
        invariant
            cases@.len() == 1,
            cases@[0].id@ == "chibicc::eval-order"@,
            cases@[0].reason@ == "stdout depends on unspecified function-argument evaluation order"@,
            k == 1 ==> id@ != "chibicc::eval-order"@,
    {
        if crate::text::str_eq(cases[k].id, id) {
            return Some(cases[k].reason);
        }
    }
    None
}

} // verus!

//! What a policy evaluation decided, and how it is reported.

use vstd::prelude::*;

verus! {

/// The outcome of evaluating one record against the policies.
#[derive(Clone, Debug, PartialEq, Eq)]
pub enum EvaluateResult {
    /// No policy matched.
    NoMatch,
    /// The matched policy keeps the record.
    Keep { policy_id: String },
    /// The matched policy drops the record.
    Drop { policy_id: String },
    /// The matched policy samples; `keep` tells how the draw went.
    Sample { policy_id: String, keep: bool },
    /// The matched policy limits the rate; `allowed` tells whether the record
    /// was within the limit.
    RateLimit { policy_id: String, allowed: bool },
}

/// One line of the report: a record, the decision, and the policy behind it.
#[derive(Clone, Debug, PartialEq, Eq)]
pub struct ResultEntry {
    pub record_id: String,
    pub decision: String,
    pub matched_policy_ids: Vec<String>,
}

/// The record is kept.
pub open spec fn is_kept(result: EvaluateResult) -> bool {
    match result {
        EvaluateResult::NoMatch => false,
        EvaluateResult::Keep { .. } => true,
        EvaluateResult::Drop { .. } => false,
        EvaluateResult::Sample { keep, .. } => keep,
        EvaluateResult::RateLimit { allowed, .. } => allowed,
    }
}

/// The decision as it is reported: `no_match`, `keep` or `drop`.
pub open spec fn decision_name(result: EvaluateResult) -> Seq<char> {
    if result is NoMatch {
        "no_match"@
    } else if is_kept(result) {
        "keep"@
    } else {
        "drop"@
    }
}

/// The policy that decided, if one matched.
pub open spec fn deciding_policy(result: EvaluateResult) -> Option<String> {
    match result {
        EvaluateResult::NoMatch => None,
        EvaluateResult::Keep { policy_id } => Some(policy_id),
        EvaluateResult::Drop { policy_id } => Some(policy_id),
        EvaluateResult::Sample { policy_id, .. } => Some(policy_id),
        EvaluateResult::RateLimit { policy_id, .. } => Some(policy_id),
    }
}

/// The decision as it is reported.
pub fn map_decision(result: &EvaluateResult) -> (r: &'static str)
    ensures
        r@ == decision_name(*result),
{
    match result {
        EvaluateResult::NoMatch => "no_match",
        EvaluateResult::Keep { .. } => "keep",
        EvaluateResult::Drop { .. } => "drop",
        EvaluateResult::Sample { keep, .. } => {
            if *keep {
                "keep"
            } else {
                "drop"
            }
        },
        EvaluateResult::RateLimit { allowed, .. } => {
            if *allowed {
                "keep"
            } else {
                "drop"
            }
        },
    }
}

/// The identifiers of the policies that decided: one, or none without a
/// match.
pub fn matched_policy_id(result: &EvaluateResult) -> (r: Vec<String>)
    ensures
        match deciding_policy(*result) {
            Some(id) => r@.len() == 1 && r@[0]@ == id@,
            None => r@.len() == 0,
        },
{
    match result {
        EvaluateResult::NoMatch => Vec::new(),
        EvaluateResult::Keep { policy_id }
        | EvaluateResult::Drop { policy_id }
        | EvaluateResult::Sample { policy_id, .. }
        | EvaluateResult::RateLimit { policy_id, .. } => {
            let mut ids: Vec<String> = Vec::new();
            ids.push(policy_id.clone());
            ids
        },
    }
}

/// The report line for the record `record_id` with the outcome `result`.
pub fn result_entry(record_id: &str, result: &EvaluateResult) -> (r: ResultEntry)
    ensures
        r.record_id@ == record_id@,
        r.decision@ == decision_name(*result),
        match deciding_policy(*result) {
            Some(id) => r.matched_policy_ids@.len() == 1 && r.matched_policy_ids@[0]@ == id@,
            None => r.matched_policy_ids@.len() == 0,
        },
{
    ResultEntry {
        record_id: record_id.to_owned(),
        decision: map_decision(result).to_owned(),
        matched_policy_ids: matched_policy_id(result),
    }
}

} // verus!

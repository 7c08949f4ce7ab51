//! What a provider's stop reason says about a turn.
//!
//! Stop reasons are compared without the white space around them and without regard to ASCII case.
use vstd::prelude::*;

use crate::agent::Agent;
use crate::text::{self, contains, equals, lower, trim};

verus! {

/// A stop reason as it is compared.
pub open spec fn normalized_spec(reason: Seq<char>) -> Seq<char> {
    text::lower_spec(text::trim_spec(reason))
}

/// A normalized stop reason with which a provider ends a turn in good order.
pub open spec fn is_orderly(reason: Seq<char>) -> bool {
    reason == "stop"@ || reason == "end_turn"@ || reason == "tool_use"@
}

/// A normalized stop reason that speaks of a response cut short.
pub open spec fn speaks_of_truncation(reason: Seq<char>) -> bool {
    ||| text::contains_spec(reason, "incomplete"@)
    ||| text::contains_spec(reason, "max_output_tokens"@)
    ||| text::contains_spec(reason, "max_tokens"@)
    ||| text::contains_spec(reason, "length"@)
    ||| text::contains_spec(reason, "trunc"@)
    ||| text::contains_spec(reason, "commentary"@)
}

/// The response ended before it was complete.
pub open spec fn continue_spec(stop_reason: Seq<char>) -> bool {
    let reason = normalized_spec(stop_reason);
    reason.len() != 0 && !is_orderly(reason) && speaks_of_truncation(reason)
}

/// A normalized stop reason that speaks of a guardrail.
pub open spec fn speaks_of_guardrail(reason: Seq<char>) -> bool {
    ||| reason == "refusal"@
    ||| reason == "content_filter"@
    ||| reason == "safety"@
    ||| text::contains_spec(reason, "guardrail"@)
    ||| text::contains_spec(reason, "policy_violation"@)
}

/// The model's own guardrails stopped the response.
pub open spec fn guardrail_spec(stop_reason: Option<Seq<char>>) -> bool {
    match stop_reason {
        Some(reason) => speaks_of_guardrail(normalized_spec(reason)),
        None => false,
    }
}

/// The provider said that it stopped for a tool call.
pub open spec fn stranded_spec(stop_reason: Option<Seq<char>>) -> bool {
    match stop_reason {
        Some(reason) => normalized_spec(reason) == "tool_use"@,
        None => false,
    }
}

/// A guardrail stopped a model of the family that is asked to reconsider, and another attempt is
/// left.
pub open spec fn reconsider_spec(
    model: Seq<char>,
    stop_reason: Option<Seq<char>>,
    attempts: u32,
    max_attempts: u32,
) -> bool {
    guardrail_spec(stop_reason) && text::contains_spec(text::lower_spec(model), "fable-5"@)
        && attempts < max_attempts
}

/// A stop reason as it is compared.
fn normalized(reason: &str) -> (r: Vec<char>)
    ensures
        r@ == normalized_spec(reason@),
{
    lower(trim(reason))
}

impl Agent {
    /// Whether a response that ended for `stop_reason` is incomplete and to be continued.
    pub fn should_continue_after_stop_reason(stop_reason: &str) -> (r: bool)
        ensures
            r == continue_spec(stop_reason@),
    {
        let reason = normalized(stop_reason);
        if reason.is_empty() {
            return false;
        }
        if equals(&reason, "stop") || equals(&reason, "end_turn") || equals(&reason, "tool_use") {
            return false;
        }
        contains(&reason, "incomplete") || contains(&reason, "max_output_tokens") || contains(
            &reason,
            "max_tokens",
        ) || contains(&reason, "length") || contains(&reason, "trunc") || contains(
            &reason,
            "commentary",
        )
    }

    /// Whether the stop reason indicates a guardrail or safety stop on the model's side (such as
    /// `refusal`), as opposed to a normal end of turn or truncation.
    pub fn is_guardrail_stop_reason(stop_reason: Option<&str>) -> (r: bool)
        ensures
            r == guardrail_spec(text::opt_text(stop_reason)),
    {
        let reason = match stop_reason {
            Some(reason) => normalized(reason),
            None => return false,
        };
        equals(&reason, "refusal") || equals(&reason, "content_filter") || equals(
            &reason,
            "safety",
        ) || contains(&reason, "guardrail") || contains(&reason, "policy_violation")
    }

    /// Whether the provider said that it stopped to call a tool. Where no tool call survived
    /// parsing this is a contradiction: the model meant to act and there is nothing to run, so
    /// the turn is continued like any other incomplete response.
    pub fn is_stranded_tool_use_stop(stop_reason: Option<&str>) -> (r: bool)
        ensures
            r == stranded_spec(text::opt_text(stop_reason)),
    {
        match stop_reason {
            Some(reason) => equals(&normalized(reason), "tool_use"),
            None => false,
        }
    }

    /// Whether a model of the Fable 5 family is to be asked to reconsider a guardrail stop.
    pub fn should_reconsider_fable_guardrail(
        model: &str,
        stop_reason: Option<&str>,
        attempts: u32,
        max_attempts: u32,
    ) -> (r: bool)
        ensures
            r == reconsider_spec(model@, text::opt_text(stop_reason), attempts, max_attempts),
    {
        Self::is_guardrail_stop_reason(stop_reason) && contains(&lower(model), "fable-5")
            && attempts < max_attempts
    }
}

} // verus!

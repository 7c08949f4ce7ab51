//! What the user and the log are told of a turn that ended without visible output.
use vstd::prelude::*;
use vstd::string::*;

use crate::agent::Agent;
use crate::stop_reason;
use crate::text::{self, trim};

verus! {

/// The stop reason as notices show it.
pub open spec fn reason_label_spec(stop_reason: Option<Seq<char>>) -> Seq<char> {
    match stop_reason {
        Some(reason) => if text::trim_spec(reason).len() > 0 {
            text::trim_spec(reason)
        } else {
            "unknown"@
        },
        None => "unknown"@,
    }
}

/// The notice for a guardrail stop.
pub open spec fn guardrail_notice_spec(label: Seq<char>) -> Seq<char> {
    "Provider guardrail stopped the response (stop_reason: "@ + label
        + "). The model declined to answer this request. Rephrasing, narrowing the request, or providing more context may help."@
}

/// The notice for a turn that ended without visible output for another reason.
pub open spec fn empty_notice_spec(label: Seq<char>, had_reasoning: bool) -> Seq<char> {
    "The model ended its turn without any visible output"@ + (if had_reasoning {
        " after producing only internal reasoning"@
    } else {
        Seq::empty()
    }) + " (stop_reason: "@ + label
        + "). The provider returned an empty response; this is usually a transient upstream failure rather than a content filter. Retrying the request may help."@
}

/// The notice that a turn calls for, if any.
pub open spec fn provider_notice_spec(
    stop_reason: Option<Seq<char>>,
    visible_text_empty: bool,
    had_reasoning: bool,
) -> Option<Seq<char>> {
    if stop_reason::guardrail_spec(stop_reason) {
        Some(guardrail_notice_spec(reason_label_spec(stop_reason)))
    } else if visible_text_empty {
        Some(empty_notice_spec(reason_label_spec(stop_reason), had_reasoning))
    } else {
        None
    }
}

/// The log event of an empty final turn.
pub open spec fn log_event_spec(stop_reason: Option<Seq<char>>) -> Seq<char> {
    if stop_reason::guardrail_spec(stop_reason) {
        "PROVIDER_GUARDRAIL"@
    } else {
        "PROVIDER_EMPTY_RESPONSE"@
    }
}

/// The stop reason as notices show it.
fn reason_label<'a>(stop_reason: Option<&'a str>) -> (r: &'a str)
    ensures
        r@ == reason_label_spec(text::opt_text(stop_reason)),
{
    if let Some(reason) = stop_reason {
        let label = trim(reason);
        if !label.is_empty() {
            return label;
        }
    }
    "unknown"
}

impl Agent {
    /// The user-facing notice for a turn that ended with no visible assistant output (no text, no
    /// tool calls). There is none where the turn looks normal.
    ///
    /// An empty output without a guardrail stop is usually a transient upstream failure (a dropped
    /// or empty stream), so its notice does not speak of a content filter as the cause.
    pub fn provider_guardrail_notice(
        stop_reason: Option<&str>,
        visible_text_empty: bool,
        had_reasoning: bool,
    ) -> (r: Option<String>)
        ensures
            text::opt_string(r) == provider_notice_spec(
                text::opt_text(stop_reason),
                visible_text_empty,
                had_reasoning,
            ),
    {
        let guardrail = Self::is_guardrail_stop_reason(stop_reason);
        if !guardrail && !visible_text_empty {
            return None;
        }
        let label = reason_label(stop_reason);
        let mut notice = String::new();
        if guardrail {
            notice.append("Provider guardrail stopped the response (stop_reason: ");
            notice.append(label);
            notice.append(
                "). The model declined to answer this request. Rephrasing, narrowing the request, or providing more context may help.",
            );
            return Some(notice);
        }
        notice.append("The model ended its turn without any visible output");
        if had_reasoning {
            notice.append(" after producing only internal reasoning");
        }
        notice.append(" (stop_reason: ");
        notice.append(label);
        notice.append(
            "). The provider returned an empty response; this is usually a transient upstream failure rather than a content filter. Retrying the request may help.",
        );
        Some(notice)
    }

    /// The log event for an empty final turn: guardrail stops keep a name of their own, so that
    /// they can be told from transient empty responses.
    pub fn empty_turn_log_event(stop_reason: Option<&str>) -> (r: &'static str)
        ensures
            r@ == log_event_spec(text::opt_text(stop_reason)),
    {
        if Self::is_guardrail_stop_reason(stop_reason) {
            "PROVIDER_GUARDRAIL"
        } else {
            "PROVIDER_EMPTY_RESPONSE"
        }
    }
}

} // verus!

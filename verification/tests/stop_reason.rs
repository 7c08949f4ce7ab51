use response_recovery::agent::Agent;

#[test]
fn truncated_responses_are_continued() {
    for reason in [
        "incomplete",
        "max_output_tokens",
        "max_tokens",
        "length",
        "truncated",
        "commentary",
        "response.incomplete",
        "model_length_limit",
        " MAX_TOKENS\n",
        "Length",
    ] {
        assert!(Agent::should_continue_after_stop_reason(reason), "{}", reason);
    }
}

#[test]
fn orderly_and_unknown_stops_are_not_continued() {
    for reason in ["", "  \t", "stop", "end_turn", "tool_use", " STOP ", "refusal", "other", "max token"] {
        assert!(!Agent::should_continue_after_stop_reason(reason), "{}", reason);
    }
}

#[test]
fn guardrail_stops_are_told_apart() {
    for reason in [
        "refusal",
        "content_filter",
        "safety",
        "Refusal",
        " safety ",
        "provider_guardrail_hit",
        "POLICY_VIOLATION:x",
    ] {
        assert!(Agent::is_guardrail_stop_reason(Some(reason)), "{}", reason);
    }
    for reason in ["", "stop", "refusals", "safety_ok", "content filter", "length"] {
        assert!(!Agent::is_guardrail_stop_reason(Some(reason)), "{}", reason);
    }
    assert!(!Agent::is_guardrail_stop_reason(None));
}

#[test]
fn stranded_stop_is_tool_use_in_any_case() {
    assert!(Agent::is_stranded_tool_use_stop(Some("tool_use")));
    assert!(Agent::is_stranded_tool_use_stop(Some("  Tool_Use\n")));
    assert!(!Agent::is_stranded_tool_use_stop(Some("tool_uses")));
    assert!(!Agent::is_stranded_tool_use_stop(Some("")));
    assert!(!Agent::is_stranded_tool_use_stop(None));
}

#[test]
fn stranded_stop_is_neither_truncation_nor_guardrail() {
    for reason in ["tool_use", " TOOL_USE "] {
        assert!(Agent::is_stranded_tool_use_stop(Some(reason)));
        assert!(!Agent::should_continue_after_stop_reason(reason));
        assert!(!Agent::is_guardrail_stop_reason(Some(reason)));
    }
}

#[test]
fn reconsideration_needs_model_guardrail_and_attempt() {
    let should = Agent::should_reconsider_fable_guardrail;
    assert!(should("fable-5", Some("refusal"), 0, 3));
    assert!(should("vendor/Fable-5-large", Some("refusal"), 2, 3));
    assert!(!should("fable-5", Some("refusal"), 3, 3));
    assert!(!should("fable-5", Some("refusal"), 0, 0));
    assert!(!should("fable-4", Some("refusal"), 0, 3));
    assert!(!should("fable-5", Some("stop"), 0, 3));
    assert!(!should("fable-5", None, 0, 3));
}

use response_recovery::agent::Agent;

#[test]
fn normal_turn_has_no_notice() {
    assert_eq!(Agent::provider_guardrail_notice(Some("stop"), false, false), None);
    assert_eq!(Agent::provider_guardrail_notice(None, false, true), None);
}

#[test]
fn guardrail_notice_shows_the_reason() {
    let expected = "Provider guardrail stopped the response (stop_reason: Refusal). The model declined to answer this request. Rephrasing, narrowing the request, or providing more context may help.";
    assert_eq!(Agent::provider_guardrail_notice(Some(" Refusal "), false, false).as_deref(), Some(expected));
    assert_eq!(Agent::provider_guardrail_notice(Some("Refusal"), true, true).as_deref(), Some(expected));
}

#[test]
fn empty_notice_blames_the_transport() {
    assert_eq!(
        Agent::provider_guardrail_notice(Some("stop"), true, false).as_deref(),
        Some("The model ended its turn without any visible output (stop_reason: stop). The provider returned an empty response; this is usually a transient upstream failure rather than a content filter. Retrying the request may help.")
    );
    assert_eq!(
        Agent::provider_guardrail_notice(None, true, true).as_deref(),
        Some("The model ended its turn without any visible output after producing only internal reasoning (stop_reason: unknown). The provider returned an empty response; this is usually a transient upstream failure rather than a content filter. Retrying the request may help.")
    );
    assert_eq!(
        Agent::provider_guardrail_notice(Some(" \n"), true, false),
        Agent::provider_guardrail_notice(None, true, false)
    );
}

#[test]
fn log_events_are_separable() {
    assert_eq!(Agent::empty_turn_log_event(Some("refusal")), "PROVIDER_GUARDRAIL");
    assert_eq!(Agent::empty_turn_log_event(Some("stop")), "PROVIDER_EMPTY_RESPONSE");
    assert_eq!(Agent::empty_turn_log_event(None), "PROVIDER_EMPTY_RESPONSE");
}

use response_recovery::agent::{Agent, Role, SessionEffect};

/// The user messages among the effects, each followed by a save.
fn messages(agent: &mut Agent) -> Vec<String> {
    let mut found = Vec::new();
    let effects = agent.take_effects();
    assert_eq!(effects.len() % 2, 0);
    for (i, effect) in effects.into_iter().enumerate() {
        match effect {
            SessionEffect::AddMessage { role, text } => {
                assert_eq!(i % 2, 0);
                assert_eq!(role, Role::User);
                found.push(text);
            }
            SessionEffect::Save => assert_eq!(i % 2, 1),
            other => panic!("unexpected {:?}", other),
        }
    }
    found
}

#[test]
fn refusals_go_through_the_prompts_and_stop() {
    let mut agent = Agent::new(9, 9);
    let mut attempts = 0u32;
    for expected in 1..=3u32 {
        assert!(agent.maybe_reconsider_fable_guardrail("Fable-5", Some("refusal"), &mut attempts));
        assert_eq!(attempts, expected);
    }
    for _ in 0..5 {
        assert!(!agent.maybe_reconsider_fable_guardrail("Fable-5", Some("refusal"), &mut attempts));
        assert_eq!(attempts, 3);
    }
    let sent = messages(&mut agent);
    assert_eq!(sent, Agent::FABLE_GUARDRAIL_RECONSIDERATION_PROMPTS);
    assert!(sent[0].starts_with("Reassess the user's request"));
    assert!(sent[1].starts_with("Review the request again"));
    assert!(sent[2].starts_with("Perform one final, independent policy check."));
}

#[test]
fn other_stops_are_not_reconsidered() {
    let mut agent = Agent::new(9, 9);
    let mut attempts = 0u32;
    assert!(!agent.maybe_reconsider_fable_guardrail("fable-5", Some("length"), &mut attempts));
    assert!(!agent.maybe_reconsider_fable_guardrail("fable-5", None, &mut attempts));
    assert!(!agent.maybe_reconsider_fable_guardrail("opal-2", Some("refusal"), &mut attempts));
    assert_eq!(attempts, 0);
    assert!(agent.take_effects().is_empty());
}

#[test]
fn empty_response_after_tools_is_retried() {
    let mut agent = Agent::new(0, 2);
    let mut attempts = 0u32;
    assert!(agent.maybe_continue_empty_post_tool_response(true, true, Some("stop"), &mut attempts));
    assert!(agent.maybe_continue_empty_post_tool_response(true, true, None, &mut attempts));
    assert!(!agent.maybe_continue_empty_post_tool_response(true, true, None, &mut attempts));
    assert_eq!(attempts, 2);
    let prompt = "<system-reminder>The previous provider response was empty after tool results. Provide the final answer to the user's last request using the tool results above. Do not call more tools unless absolutely necessary.</system-reminder>";
    assert_eq!(messages(&mut agent), [prompt, prompt]);
}

#[test]
fn empty_response_is_left_alone_otherwise() {
    let mut agent = Agent::new(9, 9);
    let mut attempts = 0u32;
    assert!(!agent.maybe_continue_empty_post_tool_response(false, true, None, &mut attempts));
    assert!(!agent.maybe_continue_empty_post_tool_response(true, false, None, &mut attempts));
    assert!(!agent.maybe_continue_empty_post_tool_response(true, true, Some("refusal"), &mut attempts));
    assert_eq!(attempts, 0);
    assert!(agent.take_effects().is_empty());
}

#[test]
fn incomplete_response_is_continued_up_to_the_limit() {
    let mut agent = Agent::new(2, 0);
    let mut attempts = 0u32;
    assert!(agent.maybe_continue_incomplete_response(Some(" max_tokens "), &mut attempts));
    assert!(agent.maybe_continue_incomplete_response(Some("Length"), &mut attempts));
    assert!(!agent.maybe_continue_incomplete_response(Some("length"), &mut attempts));
    assert_eq!(attempts, 2);
    assert_eq!(
        messages(&mut agent),
        [
            "[System reminder: your previous response ended before completion (stop_reason: max_tokens). Continue exactly where you left off, do not repeat completed content, and if the next step is a tool call, emit the tool call now.]",
            "[System reminder: your previous response ended before completion (stop_reason: Length). Continue exactly where you left off, do not repeat completed content, and if the next step is a tool call, emit the tool call now.]",
        ]
    );
}

#[test]
fn complete_response_is_not_continued() {
    let mut agent = Agent::new(9, 9);
    let mut attempts = 0u32;
    for reason in [None, Some(""), Some("  "), Some("stop"), Some("end_turn"), Some("tool_use"), Some("refusal")] {
        assert!(!agent.maybe_continue_incomplete_response(reason, &mut attempts));
    }
    assert_eq!(attempts, 0);
    assert!(agent.take_effects().is_empty());
}

#[test]
fn count_beyond_the_limit_stays() {
    let mut agent = Agent::new(2, 2);
    let mut attempts = u32::MAX;
    assert!(!agent.maybe_continue_incomplete_response(Some("length"), &mut attempts));
    assert!(!agent.maybe_continue_stranded_tool_use(Some("tool_use"), &mut attempts));
    assert!(!agent.maybe_continue_empty_post_tool_response(true, true, None, &mut attempts));
    assert!(!agent.maybe_reconsider_fable_guardrail("fable-5", Some("refusal"), &mut attempts));
    assert_eq!(attempts, u32::MAX);
    assert!(agent.take_effects().is_empty());
}

#[test]
fn stranded_tool_use_is_asked_for_again() {
    let mut agent = Agent::new(1, 0);
    let mut attempts = 0u32;
    assert!(!agent.maybe_continue_stranded_tool_use(Some("stop"), &mut attempts));
    assert!(!agent.maybe_continue_stranded_tool_use(None, &mut attempts));
    assert_eq!(attempts, 0);
    assert!(agent.maybe_continue_stranded_tool_use(Some(" TOOL_USE"), &mut attempts));
    assert!(!agent.maybe_continue_stranded_tool_use(Some("tool_use"), &mut attempts));
    assert_eq!(attempts, 1);
    assert_eq!(
        messages(&mut agent),
        ["[System reminder: your previous response ended with stop_reason \"tool_use\" but no tool call arrived. Nothing was executed. Re-issue the tool call you intended, do not repeat completed work, and continue the task.]"]
    );
}

#[test]
fn effects_of_several_rules_keep_their_order() {
    let mut agent = Agent::new(3, 3);
    let mut attempts = 0u32;
    assert!(agent.maybe_continue_incomplete_response(Some("length"), &mut attempts));
    assert!(agent.maybe_continue_stranded_tool_use(Some("tool_use"), &mut attempts));
    assert_eq!(attempts, 2);
    let sent = messages(&mut agent);
    assert!(sent[0].contains("before completion"));
    assert!(sent[1].contains("no tool call arrived"));
    assert!(agent.take_effects().is_empty());
}

#[test]
fn continuation_prompt_trims_the_reason() {
    assert_eq!(
        Agent::continuation_prompt_for_stop_reason("\tlength "),
        Agent::continuation_prompt_for_stop_reason("length")
    );
    assert!(Agent::continuation_prompt_for_stop_reason("length").contains("(stop_reason: length)"));
}

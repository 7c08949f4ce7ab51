//! When a turn is taken up again, and what the model is told then.
//!
//! Each rule counts its attempts, so that none of them takes a turn up without end.
use vstd::prelude::*;
use vstd::string::*;

use crate::agent::{self, Agent, AgentView};
use crate::stop_reason;
use crate::text::{self, trim};

verus! {

/// What a rule does that has a message to send, or has none: with a message it sends it, counts
/// an attempt and returns `true`; without one it changes nothing and returns `false`.
pub open spec fn follows(
    message: Option<Seq<char>>,
    before: AgentView,
    attempts_before: u32,
    after: AgentView,
    attempts_after: u32,
    r: bool,
) -> bool {
    match message {
        Some(text) => {
            &&& r
            &&& after == before.with(agent::user_message(text))
            &&& attempts_after == attempts_before + 1
        },
        None => {
            &&& !r
            &&& after == before
            &&& attempts_after == attempts_before
        },
    }
}

/// The message with which a refused response is put to the model again, if it is.
pub open spec fn reconsideration_message(
    model: Seq<char>,
    stop_reason: Option<Seq<char>>,
    attempts: u32,
) -> Option<Seq<char>> {
    let prompts = Agent::FABLE_GUARDRAIL_RECONSIDERATION_PROMPTS@;
    if stop_reason::reconsider_spec(model, stop_reason, attempts, prompts.len() as u32) {
        Some(prompts[attempts as int]@)
    } else {
        None
    }
}

/// The text that asks for the rest of a response that ended for `stop_reason`.
pub open spec fn continuation_prompt_spec(stop_reason: Seq<char>) -> Seq<char> {
    "[System reminder: your previous response ended before completion (stop_reason: "@
        + text::trim_spec(stop_reason)
        + "). Continue exactly where you left off, do not repeat completed content, and if the next step is a tool call, emit the tool call now.]"@
}

/// The message that asks for the rest of an incomplete response, if it is asked for.
pub open spec fn incomplete_message(
    stop_reason: Option<Seq<char>>,
    attempts: u32,
    max_attempts: u32,
) -> Option<Seq<char>> {
    match stop_reason {
        Some(reason) => if stop_reason::continue_spec(reason) && attempts < max_attempts {
            Some(continuation_prompt_spec(reason))
        } else {
            None
        },
        None => None,
    }
}

/// The text that asks for the answer that an empty response left out. It is marked as internal, so
/// that a transcript does not show it as a prompt from the user.
pub open spec fn empty_response_prompt_spec() -> Seq<char> {
    "<system-reminder>The previous provider response was empty after tool results. Provide the final answer to the user's last request using the tool results above. Do not call more tools unless absolutely necessary.</system-reminder>"@
}

/// The message that asks for an answer after an empty response to tool results, if it is asked for.
pub open spec fn empty_post_tool_message(
    visible_text_empty: bool,
    prompt_has_recent_tool_result: bool,
    stop_reason: Option<Seq<char>>,
    attempts: u32,
    max_attempts: u32,
) -> Option<Seq<char>> {
    if visible_text_empty && prompt_has_recent_tool_result && !stop_reason::guardrail_spec(
        stop_reason,
    ) && attempts < max_attempts {
        Some(empty_response_prompt_spec())
    } else {
        None
    }
}

/// The text that asks for a tool call that did not arrive.
pub open spec fn stranded_prompt_spec() -> Seq<char> {
    "[System reminder: your previous response ended with stop_reason \"tool_use\" but no tool call arrived. Nothing was executed. Re-issue the tool call you intended, do not repeat completed work, and continue the task.]"@
}

/// The message that asks for a tool call that did not arrive, if it is asked for.
pub open spec fn stranded_message(
    stop_reason: Option<Seq<char>>,
    attempts: u32,
    max_attempts: u32,
) -> Option<Seq<char>> {
    if stop_reason::stranded_spec(stop_reason) && attempts < max_attempts {
        Some(stranded_prompt_spec())
    } else {
        None
    }
}

impl Agent {
    /// What a Fable 5 model is told after its guardrails stopped a response, attempt by attempt.
    /// Each prompt frames the policy check differently and preserves warranted refusals.
    pub const FABLE_GUARDRAIL_RECONSIDERATION_PROMPTS: [&'static str; 3] = [
        "Reassess the user's request using its full context and likely intent rather than isolated keywords. Determine whether answering would enable a concrete harmful action. If no specific safety concern applies, answer normally. Preserve the refusal only when it is genuinely warranted, and briefly identify the specific concern.",
        "Review the request again and distinguish legitimate coding, debugging, defensive, educational, or analytical work from instructions that facilitate harm. If only part of the request is unsafe, help with the safe portions and narrowly limit the rest instead of issuing a blanket refusal.",
        "Perform one final, independent policy check. Prefer a safe and useful constrained response when possible. Refuse only the specific content that creates a concrete safety risk; otherwise continue with the user's actual task. Do not weaken a refusal that remains genuinely necessary.",
    ];

    /// Tries the next reconsideration prompt after a guardrail stopped a response of `model`. The
    /// fixed number of prompts prevents an unbounded loop of refusals and retries.
    ///
    /// Returns whether a message was added and the request is to be issued again.
    pub fn maybe_reconsider_fable_guardrail(
        &mut self,
        model: &str,
        stop_reason: Option<&str>,
        attempts: &mut u32,
    ) -> (r: bool)
        ensures
            follows(
                reconsideration_message(model@, text::opt_text(stop_reason), *old(attempts)),
                old(self)@,
                *old(attempts),
                final(self)@,
                *final(attempts),
                r,
            ),
            r ==> *old(attempts) < Self::FABLE_GUARDRAIL_RECONSIDERATION_PROMPTS@.len(),
            r ==> *final(attempts) == *old(attempts) + 1,
            r ==> final(self)@.effects.len() == old(self)@.effects.len() + 2,
            !r ==> *final(attempts) == *old(attempts) && final(self)@ == old(self)@,
    {
        if !Self::should_reconsider_fable_guardrail(
            model,
            stop_reason,
            *attempts,
            Self::FABLE_GUARDRAIL_RECONSIDERATION_PROMPTS.len() as u32,
        ) {
            return false;
        }
        let prompt = Self::FABLE_GUARDRAIL_RECONSIDERATION_PROMPTS[*attempts as usize];
        *attempts = *attempts + 1;
        self.send_user_message(prompt.to_owned());
        true
    }

    /// Retries a whitespace-only final response that arrived right after tool results, by asking
    /// the model for the final answer. A refusal is deliberate and not retried.
    ///
    /// Returns whether a message was added and the request is to be issued again.
    pub fn maybe_continue_empty_post_tool_response(
        &mut self,
        visible_text_empty: bool,
        prompt_has_recent_tool_result: bool,
        stop_reason: Option<&str>,
        attempts: &mut u32,
    ) -> (r: bool)
        ensures
            follows(
                empty_post_tool_message(
                    visible_text_empty,
                    prompt_has_recent_tool_result,
                    text::opt_text(stop_reason),
                    *old(attempts),
                    old(self)@.max_empty_post_tool_continuation_attempts,
                ),
                old(self)@,
                *old(attempts),
                final(self)@,
                *final(attempts),
                r,
            ),
            r ==> *old(attempts) < old(self).max_empty_post_tool_continuation_attempts,
            r ==> *final(attempts) == *old(attempts) + 1,
            r ==> final(self)@.effects.len() == old(self)@.effects.len() + 2,
            !r ==> *final(attempts) == *old(attempts) && final(self)@ == old(self)@,
    {
        if !visible_text_empty || !prompt_has_recent_tool_result {
            return false;
        }
        if Self::is_guardrail_stop_reason(stop_reason) {
            return false;
        }
        if *attempts >= self.max_empty_post_tool_continuation_attempts {
            return false;
        }
        *attempts = *attempts + 1;
        self.send_user_message(
            "<system-reminder>The previous provider response was empty after tool results. Provide the final answer to the user's last request using the tool results above. Do not call more tools unless absolutely necessary.</system-reminder>".to_owned(),
        );
        true
    }

    /// The text that asks for the rest of a response that ended for `stop_reason`.
    pub fn continuation_prompt_for_stop_reason(stop_reason: &str) -> (r: String)
        ensures
            r@ == continuation_prompt_spec(stop_reason@),
    {
        let mut prompt = String::new();
        prompt.append(
            "[System reminder: your previous response ended before completion (stop_reason: ",
        );
        prompt.append(trim(stop_reason));
        prompt.append(
            "). Continue exactly where you left off, do not repeat completed content, and if the next step is a tool call, emit the tool call now.]",
        );
        prompt
    }

    /// Asks for the rest of a response that ended before it was complete.
    ///
    /// Returns whether a message was added and the request is to be issued again.
    pub fn maybe_continue_incomplete_response(
        &mut self,
        stop_reason: Option<&str>,
        attempts: &mut u32,
    ) -> (r: bool)
        ensures
            follows(
                incomplete_message(
                    text::opt_text(stop_reason),
                    *old(attempts),
                    old(self)@.max_incomplete_continuation_attempts,
                ),
                old(self)@,
                *old(attempts),
                final(self)@,
                *final(attempts),
                r,
            ),
            r ==> *old(attempts) < old(self).max_incomplete_continuation_attempts,
            r ==> *final(attempts) == *old(attempts) + 1,
            r ==> final(self)@.effects.len() == old(self)@.effects.len() + 2,
            !r ==> *final(attempts) == *old(attempts) && final(self)@ == old(self)@,
    {
        let stop_reason = match stop_reason {
            Some(reason) => {
                proof {
                    text::lemma_trim_idempotent(reason@);
                }
                trim(reason)
            },
            None => return false,
        };
        if stop_reason.is_empty() {
            return false;
        }
        if !Self::should_continue_after_stop_reason(stop_reason) {
            return false;
        }
        if *attempts >= self.max_incomplete_continuation_attempts {
            return false;
        }
        *attempts = *attempts + 1;
        self.send_user_message(Self::continuation_prompt_for_stop_reason(stop_reason));
        true
    }

    /// Asks for the tool call of a response that stopped for one of which nothing arrived.
    ///
    /// Returns whether a message was added and the request is to be issued again.
    pub fn maybe_continue_stranded_tool_use(
        &mut self,
        stop_reason: Option<&str>,
        attempts: &mut u32,
    ) -> (r: bool)
        ensures
            follows(
                stranded_message(
                    text::opt_text(stop_reason),
                    *old(attempts),
                    old(self)@.max_incomplete_continuation_attempts,
                ),
                old(self)@,
                *old(attempts),
                final(self)@,
                *final(attempts),
                r,
            ),
            r ==> *old(attempts) < old(self).max_incomplete_continuation_attempts,
            r ==> *final(attempts) == *old(attempts) + 1,
            r ==> final(self)@.effects.len() == old(self)@.effects.len() + 2,
            !r ==> *final(attempts) == *old(attempts) && final(self)@ == old(self)@,
    {
        if !Self::is_stranded_tool_use_stop(stop_reason) {
            return false;
        }
        if *attempts >= self.max_incomplete_continuation_attempts {
            return false;
        }
        *attempts = *attempts + 1;
        self.send_user_message(
            "[System reminder: your previous response ended with stop_reason \"tool_use\" but no tool call arrived. Nothing was executed. Re-issue the tool call you intended, do not repeat completed work, and continue the task.]".to_owned(),
        );
        true
    }
}

} // verus!

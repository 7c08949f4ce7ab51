//! The tool calls of a response: those recovered from its text, and those lost to truncation.
use vstd::prelude::*;
use vstd::string::*;

use crate::agent::{Agent, SessionEffect, SessionEffectView};
use crate::call_behavior;
use crate::json::{Json, JsonKind, JsonView};
use crate::stop_reason;
use crate::text::{self, trim};
use crate::wrapped_call;

verus! {

/// A call of a tool.
#[derive(Debug)]
pub struct ToolCall {
    pub id: String,
    pub name: String,
    pub input: Json,
    pub intent: Option<String>,
    pub thought_signature: Option<String>,
}

/// A [`ToolCall`] with its texts as sequences of characters.
pub struct ToolCallView {
    pub id: Seq<char>,
    pub name: Seq<char>,
    pub input: JsonView,
    pub intent: Option<Seq<char>>,
    pub thought_signature: Option<Seq<char>>,
}

impl View for ToolCall {
    type V = ToolCallView;

    open spec fn view(&self) -> ToolCallView {
        ToolCallView {
            id: self.id@,
            name: self.name@,
            input: self.input@,
            intent: text::opt_string(self.intent),
            thought_signature: text::opt_string(self.thought_signature),
        }
    }
}

/// The call that is recovered from text, given a fresh identifier and the intent of its arguments.
pub open spec fn recovered_call_spec(
    new_id: Seq<char>,
    name: Seq<char>,
    arguments: JsonView,
    intent: Option<Seq<char>>,
) -> ToolCallView {
    ToolCallView {
        id: "fallback_text_call_"@ + new_id,
        name,
        input: arguments,
        intent,
        thought_signature: None,
    }
}

/// What is left of a text once the call in it is taken out.
pub open spec fn remaining_text_spec(prefix: Seq<char>, suffix: Seq<char>) -> Seq<char> {
    if prefix.len() == 0 {
        suffix
    } else if suffix.len() == 0 {
        prefix
    } else {
        prefix + "\n"@ + suffix
    }
}

/// The call that is there to be recovered: only a response without tool calls is searched.
pub open spec fn recoverable_spec(text: Seq<char>, tool_calls: nat) -> Option<
    (Seq<char>, Seq<char>, JsonView, Seq<char>),
> {
    if tool_calls != 0 || text::trim_spec(text).len() == 0 {
        None
    } else {
        wrapped_call::wrapped_call_spec(text)
    }
}

/// A call whose input was lost.
pub open spec fn is_null_call(call: ToolCall) -> bool {
    call.input@.kind == JsonKind::Null
}

/// The calls that kept their input, in their order.
pub open spec fn kept_calls(calls: Seq<ToolCall>) -> Seq<ToolCall> {
    calls.filter(|call: ToolCall| !is_null_call(call))
}

/// What is done to the session where every call of a message was lost.
pub open spec fn repair_effects(
    before: Seq<ToolCall>,
    message_id: Option<Seq<char>>,
) -> Seq<SessionEffectView> {
    match message_id {
        Some(message_id) if before.len() > 0 && kept_calls(before).len() == 0 => seq![
            SessionEffectView::RemoveToolUseBlocks { message_id },
            SessionEffectView::PersistBestEffort { reason: "truncated tool-call repair"@ },
        ],
        _ => Seq::empty(),
    }
}

/// The text behind an optional stop reason; the empty text where there is none.
pub open spec fn reason_or_empty(stop_reason: Option<Seq<char>>) -> Seq<char> {
    match stop_reason {
        Some(reason) => reason,
        None => Seq::empty(),
    }
}

/// The text of an optional string reference.
pub open spec fn opt_string_ref(s: Option<&String>) -> Option<Seq<char>> {
    match s {
        Some(s) => Some(s@),
        None => None,
    }
}

impl ToolCall {
    /// The call that is recovered from text, given a fresh identifier and the intent of its
    /// arguments.
    pub fn recovered(new_id: &str, name: String, arguments: Json, intent: Option<String>) -> (r:
        ToolCall)
        ensures
            r@ == recovered_call_spec(new_id@, name@, arguments@, text::opt_string(intent)),
            r.id@ == "fallback_text_call_"@ + new_id@,
            r.name == name,
            r.input == arguments,
            r.intent == intent,
            r.thought_signature is None,
    {
        let mut id = String::new();
        id.append("fallback_text_call_");
        id.append(new_id);
        ToolCall { id, name, input: arguments, intent, thought_signature: None }
    }
}

/// What is left of a text once the call in it is taken out.
pub fn remaining_text(prefix: &str, suffix: &str) -> (r: String)
    ensures
        r@ == remaining_text_spec(prefix@, suffix@),
{
    let mut remaining = String::new();
    if !prefix.is_empty() {
        remaining.append(prefix);
    }
    if !suffix.is_empty() {
        if !remaining.as_str().is_empty() {
            remaining.append("\n");
        }
        remaining.append(suffix);
    }
    remaining
}

impl Agent {
    /// Recovers a tool call that the model wrote into its text: takes it out of `text_content`
    /// and adds it to `tool_calls`. Returns whether there was one.
    ///
    /// `new_id` draws a fresh identifier with the prefix it is given, and `intent_from_input`
    /// reads the intent of a call from its arguments. Each is called once, and only for a call
    /// that is recovered.
    pub fn recover_text_wrapped_tool_call<N, I>(
        &self,
        text_content: &mut String,
        tool_calls: &mut Vec<ToolCall>,
        new_id: N,
        intent_from_input: I,
    ) -> (r: bool) where N: FnOnce(&str) -> String, I: FnOnce(&Json) -> Option<String>
        requires
            call_requires(new_id, ("call",)),
            forall|arguments: Json| call_requires(intent_from_input, (&arguments,)),
        ensures
            match recoverable_spec(old(text_content)@, old(tool_calls)@.len()) {
                None => !r && *final(text_content) == *old(text_content) && *final(tool_calls)
                    == *old(tool_calls),
                Some((prefix, name, arguments, suffix)) => {
                    &&& r
                    &&& final(text_content)@ == remaining_text_spec(prefix, suffix)
                    &&& final(tool_calls)@.len() == 1
                    &&& arguments.well_formed()
                    &&& final(tool_calls)@[0]@.name == name
                    &&& final(tool_calls)@[0]@.input == arguments
                    &&& final(tool_calls)@[0]@.thought_signature is None
                    &&& exists|id: String, input: Json, intent: Option<String>|
                        {
                            &&& call_ensures(new_id, ("call",), id)
                            &&& input@ == arguments
                            &&& #[trigger] call_ensures(intent_from_input, (&input,), intent)
                            &&& final(tool_calls)@[0].input == input
                            &&& final(tool_calls)@[0].intent == intent
                            &&& final(tool_calls)@[0]@ == recovered_call_spec(
                                #[trigger] id@,
                                name,
                                arguments,
                                text::opt_string(intent),
                            )
                        }
                },
            },
    {
        if !tool_calls.is_empty() || trim(text_content.as_str()).is_empty() {
            return false;
        }
        let (prefix, name, arguments, suffix) = match Self::parse_text_wrapped_tool_call(
            text_content.as_str(),
        ) {
            Some(call) => call,
            None => return false,
        };
        *text_content = remaining_text(prefix.as_str(), suffix.as_str());
        let id = new_id("call");
        let intent = intent_from_input(&arguments);
        tool_calls.push(ToolCall::recovered(id.as_str(), name, arguments, intent));
        true
    }

    /// Drops the tool calls whose input was lost when the response was cut short. Where none is
    /// left, the tool-use blocks of the message go too.
    pub fn filter_truncated_tool_calls(
        &mut self,
        stop_reason: Option<&str>,
        tool_calls: &mut Vec<ToolCall>,
        assistant_message_id: Option<&String>,
    )
        ensures
            if stop_reason::continue_spec(reason_or_empty(text::opt_text(stop_reason))) {
                &&& final(tool_calls)@ == kept_calls(old(tool_calls)@)
                &&& final(self)@ == old(self)@.with(
                    repair_effects(old(tool_calls)@, opt_string_ref(assistant_message_id)),
                )
            } else {
                &&& *final(tool_calls) == *old(tool_calls)
                &&& final(self)@ == old(self)@
            },
            forall|call: ToolCall| #[trigger]
                final(tool_calls)@.contains(call) <==> old(tool_calls)@.contains(call) && (
                call.input.kind != JsonKind::Null || !stop_reason::continue_spec(
                    reason_or_empty(text::opt_text(stop_reason)),
                )),
            final(self)@.effects.len() > old(self)@.effects.len() <==> {
                &&& stop_reason::continue_spec(reason_or_empty(text::opt_text(stop_reason)))
                &&& assistant_message_id is Some
                &&& old(tool_calls)@.len() > 0
                &&& forall|i: int|
                    0 <= i < old(tool_calls)@.len() ==> (#[trigger] old(
                        tool_calls,
                    )@[i]).input.kind == JsonKind::Null
            },
    {
        let stop_reason = match stop_reason {
            Some(reason) => reason,
            None => "",
        };
        proof {
            reveal_strlit("");
            assert(""@ == Seq::<char>::empty());
        }
        if !Self::should_continue_after_stop_reason(stop_reason) {
            return;
        }
        let before = tool_calls.len();
        drop_null_calls(tool_calls);
        assert forall|call: ToolCall| #[trigger]
            tool_calls@.contains(call) <==> old(tool_calls)@.contains(call) && call.input.kind
                != JsonKind::Null by {
            call_behavior::law_call_is_kept_by_its_input_alone(old(tool_calls)@, call);
        }
        proof {
            if let Some(message_id) = assistant_message_id {
                call_behavior::law_session_is_repaired_where_all_calls_are_lost(
                    old(tool_calls)@,
                    message_id@,
                );
            }
        }
        let discarded = before - tool_calls.len();
        if discarded > 0 && tool_calls.is_empty() {
            if let Some(message_id) = assistant_message_id {
                self.push_effect(
                    SessionEffect::RemoveToolUseBlocks { message_id: message_id.clone() },
                );
                self.push_effect(
                    SessionEffect::PersistBestEffort {
                        reason: "truncated tool-call repair".to_owned(),
                    },
                );
            }
        }
    }
}

/// Drops the calls whose input was lost.
fn drop_null_calls(calls: &mut Vec<ToolCall>)
    ensures
        final(calls)@ == kept_calls(old(calls)@),
        final(calls)@.len() <= old(calls)@.len(),
{
    let mut at: usize = 0;
    let ghost mut seen: int = 0;
    while at < calls.len()
        invariant
            at <= calls@.len(),
            0 <= seen <= old(calls)@.len(),
            at <= seen,
            calls@ == kept_calls(old(calls)@.take(seen)) + old(calls)@.skip(seen),
            at == kept_calls(old(calls)@.take(seen)).len(),
        decreases calls.len() - at,
    {
        proof {
            let next = old(calls)@[seen];
            assert(calls@[at as int] == next);
            assert(old(calls)@.take(seen + 1).drop_last() == old(calls)@.take(seen));
            reveal(Seq::filter);
        }
        if calls[at].input.is_null() {
            calls.remove(at);
        } else {
            at = at + 1;
        }
        proof {
            seen = seen + 1;
        }
    }
    assert(old(calls)@.take(seen) == old(calls)@);
}

} // verus!

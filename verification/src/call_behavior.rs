//! What becomes of tool calls and of the session, told by inputs and results alone.
use vstd::prelude::*;
use vstd::utf8::*;

use crate::agent::{self, Agent, AgentView, Role, SessionEffect, SessionEffectView};
use crate::behavior;
use crate::json::{self, Json, JsonKind, JsonView};
use crate::laws;
use crate::text;
use crate::tool_call::{self, ToolCall};
use crate::wrapped_call;

verus! {

/// A letter, a digit or an underscore of ASCII.
pub open spec fn word_char(c: char) -> bool {
    let code = c as int;
    48 <= code <= 57 || 65 <= code <= 90 || code == 95 || 97 <= code <= 122
}

/// `name` is a whole name: it has characters, all of them word characters, and `rest` does not go
/// on with one.
pub open spec fn names_a_tool(name: Seq<char>, rest: Seq<char>) -> bool {
    &&& name.len() > 0
    &&& forall|i: int| 0 <= i < name.len() ==> word_char(#[trigger] name[i])
    &&& rest.len() > 0 ==> !word_char(rest[0])
}

/// In `before` followed by the marker, the marker does not stand any further left.
pub open spec fn marker_comes_first(before: Seq<char>) -> bool {
    forall|a: Seq<char>, b: Seq<char>|
        before + "to=functions."@ == #[trigger] (a + "to=functions."@ + b) ==> a.len()
            >= before.len()
}

/// At `at` a brace opens, and from there `rest` reads as the object `object` with `behind` left.
pub open spec fn reads_object(
    rest: Seq<char>,
    at: int,
    object: Seq<char>,
    behind: Seq<char>,
) -> bool {
    &&& 0 <= at < rest.len() && rest[at] == '{'
    &&& rest.skip(at) == object + behind
    &&& json::first_json_value(rest.skip(at)) matches Some((kind, end)) && kind == JsonKind::Object
        && end == encode_utf8(object).len()
}

/// At `at` no brace opens, or what stands there does not read as an object.
pub open spec fn reads_no_object(rest: Seq<char>, at: int) -> bool {
    0 <= at < rest.len() && rest[at] == '{' ==> !(json::first_json_value(
        rest.skip(at),
    ) matches Some((kind, _)) && kind == JsonKind::Object)
}

/// At `at` no object reads to the end of the text: there is none, or something visible is left.
pub open spec fn leaves_something(rest: Seq<char>, at: int) -> bool {
    reads_no_object(rest, at) || exists|object: Seq<char>, behind: Seq<char>| #[trigger]
        reads_object(rest, at, object, behind) && !behavior::blank(behind)
}

// ---- reading a call from text ----

proof fn lemma_name_char(c: char)
    ensures
        wrapped_call::is_name_char(c) <==> word_char(c),
{
}

proof fn lemma_marker_found(before: Seq<char>, tail: Seq<char>)
    requires
        marker_comes_first(before),
    ensures
        text::find_spec(before + "to=functions."@ + tail, wrapped_call::marker()) == Some(
            before.len() as int,
        ),
{
    let marker = "to=functions."@;
    let text = before + marker + tail;
    let at = before.len() as int;
    assert(text.subrange(at, at + marker.len()) == marker);
    assert forall|j: int| j < at implies !text::occurs_at(text, marker, j) by {
        if text::occurs_at(text, marker, j) {
            let front = before + marker;
            let (a, b) = (front.take(j), front.skip(j + marker.len()));
            assert(front.subrange(j, j + marker.len()) == text.subrange(j, j + marker.len()));
            assert(front == a + marker + b);
        }
    }
    text::lemma_find(text, marker, at);
}

proof fn lemma_header_read(before: Seq<char>, prefix: Seq<char>, name: Seq<char>, rest: Seq<char>)
    requires
        marker_comes_first(before),
        names_a_tool(name, rest),
        behavior::is_end_core(before, prefix),
    ensures
        wrapped_call::header_spec(before + "to=functions."@ + name + rest) == Some(
            (prefix, name, rest),
        ),
{
    let marker = "to=functions."@;
    let text = before + marker + name + rest;
    assert(text == before + marker + (name + rest));
    lemma_marker_found(before, name + rest);
    let tail = text.skip(before.len() + marker.len() as int);
    assert(tail == name + rest);
    laws::lemma_name_len_concat(name, rest);
    assert(wrapped_call::name_len(rest) == 0);
    assert(tail.take(name.len() as int) == name);
    assert(tail.skip(name.len() as int) == rest);
    assert(text.take(before.len() as int) == before);
    behavior::law_trim_end_leaves_the_front(before, prefix);
}

proof fn lemma_candidate(rest: Seq<char>, at: int, object: Seq<char>, behind: Seq<char>)
    requires
        reads_object(rest, at, object, behind),
    ensures
        wrapped_call::candidate_at(rest, at) == Some(
            (JsonView { kind: JsonKind::Object, text: object }, text::trim_spec(behind)),
        ),
        wrapped_call::closes_at(rest, at) <==> behavior::blank(behind),
{
    laws::lemma_split_concat(object, behind);
    lemma_blank(behind);
}

proof fn lemma_blank(s: Seq<char>)
    ensures
        behavior::blank(s) <==> text::trim_spec(s).len() == 0,
{
    let core = text::trim_spec(s);
    behavior::law_trim_gives_the_core(s, core);
    if behavior::blank(s) {
        text::lemma_trim_white_space(s);
    } else if core.len() == 0 {
        let (a, b) = choose|a: Seq<char>, b: Seq<char>|
            s == #[trigger] (a + core + b) && behavior::blank(a) && behavior::blank(b);
        assert forall|i: int| 0 <= i < s.len() implies text::is_white_space(#[trigger] s[i]) by {
            if i < a.len() {
                assert(s[i] == a[i]);
            } else {
                assert(s[i] == b[i - a.len()]);
            }
        }
    }
}

proof fn lemma_leaves_something(rest: Seq<char>, at: int)
    requires
        leaves_something(rest, at),
    ensures
        !wrapped_call::closes_at(rest, at),
        reads_no_object(rest, at) ==> wrapped_call::candidate_at(rest, at) is None,
{
    if !reads_no_object(rest, at) {
        let (object, behind) = choose|object: Seq<char>, behind: Seq<char>| #[trigger]
            reads_object(rest, at, object, behind) && !behavior::blank(behind);
        lemma_candidate(rest, at, object, behind);
    }
}

/// A text is split at its leftmost marker: the text before it, without white space at its end, the
/// whole name behind it, and the rest.
pub proof fn law_header_is_split_at_the_marker(
    before: Seq<char>,
    prefix: Seq<char>,
    name: Seq<char>,
    rest: Seq<char>,
)
    requires
        marker_comes_first(before),
        names_a_tool(name, rest),
        behavior::is_end_core(before, prefix),
    ensures
        wrapped_call::header_spec(before + "to=functions."@ + name + rest) == Some(
            (prefix, name, rest),
        ),
{
    lemma_header_read(before, prefix, name, rest);
}

/// Where an object takes up the rest of the text, the leftmost such object is the arguments of the
/// call, and nothing is left behind it.
pub proof fn law_object_at_the_end_is_the_arguments(
    before: Seq<char>,
    prefix: Seq<char>,
    name: Seq<char>,
    rest: Seq<char>,
    at: int,
    object: Seq<char>,
    behind: Seq<char>,
)
    requires
        marker_comes_first(before),
        names_a_tool(name, rest),
        behavior::is_end_core(before, prefix),
        reads_object(rest, at, object, behind),
        behavior::blank(behind),
        forall|j: int| 0 <= j < at ==> #[trigger] leaves_something(rest, j),
    ensures
        wrapped_call::wrapped_call_spec(before + "to=functions."@ + name + rest) == Some(
            (
                prefix,
                name,
                JsonView { kind: JsonKind::Object, text: object },
                Seq::<char>::empty(),
            ),
        ),
{
    lemma_header_read(before, prefix, name, rest);
    lemma_candidate(rest, at, object, behind);
    lemma_blank(behind);
    assert forall|j: int| j < at implies !wrapped_call::closes_at(rest, j) by {
        if 0 <= j {
            assert(leaves_something(rest, j));
            lemma_leaves_something(rest, j);
        }
    }
    wrapped_call::lemma_closing(rest, at);
}

/// Where no object takes up the rest of the text, the leftmost object is the arguments of the call,
/// and the visible text behind it is kept.
pub proof fn law_leftmost_object_is_the_arguments(
    before: Seq<char>,
    prefix: Seq<char>,
    name: Seq<char>,
    rest: Seq<char>,
    at: int,
    object: Seq<char>,
    behind: Seq<char>,
    suffix: Seq<char>,
)
    requires
        marker_comes_first(before),
        names_a_tool(name, rest),
        behavior::is_end_core(before, prefix),
        reads_object(rest, at, object, behind),
        behavior::is_core(behind, suffix),
        forall|j: int| 0 <= j < at ==> #[trigger] reads_no_object(rest, j),
        forall|j: int| 0 <= j < rest.len() ==> #[trigger] leaves_something(rest, j),
    ensures
        wrapped_call::wrapped_call_spec(before + "to=functions."@ + name + rest) == Some(
            (prefix, name, JsonView { kind: JsonKind::Object, text: object }, suffix),
        ),
{
    lemma_header_read(before, prefix, name, rest);
    lemma_candidate(rest, at, object, behind);
    behavior::law_trim_gives_the_core(behind, suffix);
    assert forall|j: int| !wrapped_call::closes_at(rest, j) by {
        if 0 <= j < rest.len() {
            assert(leaves_something(rest, j));
            lemma_leaves_something(rest, j);
        }
    }
    assert forall|j: int| j < at implies #[trigger] wrapped_call::candidate_at(rest, j) is None by {
        if 0 <= j {
            assert(reads_no_object(rest, j));
        }
    }
    wrapped_call::lemma_first_candidate(rest, at);
}

/// Without the marker, without a name behind the leftmost one, or without an object behind the
/// name, a text holds no call.
pub proof fn law_text_without_all_parts_holds_no_call(
    text: Seq<char>,
    before: Seq<char>,
    name: Seq<char>,
    rest: Seq<char>,
)
    ensures
        !behavior::holds(text, "to=functions."@) ==> wrapped_call::wrapped_call_spec(text) is None
            && wrapped_call::header_spec(text) is None,
        marker_comes_first(before) && (rest.len() > 0 ==> !word_char(rest[0]))
            ==> wrapped_call::wrapped_call_spec(before + "to=functions."@ + rest) is None
            && wrapped_call::header_spec(before + "to=functions."@ + rest) is None,
        marker_comes_first(before) && names_a_tool(name, rest) && (forall|j: int|
            0 <= j < rest.len() ==> #[trigger] reads_no_object(rest, j))
            ==> wrapped_call::wrapped_call_spec(before + "to=functions."@ + name + rest) is None,
{
    let marker = "to=functions."@;
    behavior::law_search_finds_the_leftmost_part(text, marker);
    if marker_comes_first(before) && (rest.len() > 0 ==> !word_char(rest[0])) {
        lemma_marker_found(before, rest);
        let whole = before + marker + rest;
        assert(whole.skip(before.len() + marker.len() as int) == rest);
    }
    if marker_comes_first(before) && names_a_tool(name, rest) && (forall|j: int|
        0 <= j < rest.len() ==> #[trigger] reads_no_object(rest, j)) {
        let prefix = text::trim_end_spec(before);
        behavior::law_trim_end_leaves_the_front(before, prefix);
        lemma_header_read(before, prefix, name, rest);
        assert forall|j: int| wrapped_call::candidate_at(rest, j) is None by {
            if 0 <= j < rest.len() {
                assert(reads_no_object(rest, j));
            }
        }
    }
}

/// A reading counts exactly where it is an object: then the arguments are the object's own text, and
/// the core of the text behind it is left.
pub proof fn law_only_objects_count(
    object: Seq<char>,
    behind: Seq<char>,
    suffix: Seq<char>,
    kind: JsonKind,
    end: usize,
)
    requires
        behavior::is_core(behind, suffix),
        end == encode_utf8(object).len(),
    ensures
        kind == JsonKind::Object ==> wrapped_call::candidate_spec(
            object + behind,
            Some((kind, end)),
        ) == Some((JsonView { kind: JsonKind::Object, text: object }, suffix)),
        kind != JsonKind::Object ==> wrapped_call::candidate_spec(
            object + behind,
            Some((kind, end)),
        ) is None,
        wrapped_call::candidate_spec(object + behind, None) is None,
{
    laws::lemma_split_concat(object, behind);
    behavior::law_trim_gives_the_core(behind, suffix);
}

/// Splitting a text behind the bytes of its front gives that front and the rest.
pub proof fn law_text_is_split_between_characters(front: Seq<char>, rest: Seq<char>)
    ensures
        json::head_spec(front + rest, encode_utf8(front).len() as int) == front,
        json::tail_spec(front + rest, encode_utf8(front).len() as int) == rest,
{
    laws::lemma_split_concat(front, rest);
}

/// A JSON value is well formed exactly where its text reads as a value of its kind to the last byte.
pub proof fn law_well_formed_text_is_one_value(value: JsonView)
    ensures
        value.well_formed() <==> match json::first_json_value(value.text) {
            Some((kind, end)) => kind == value.kind && end == encode_utf8(value.text).len(),
            None => false,
        },
{
}

// ---- recovering a call ----

/// A recovered call is the one that was read: its input is the arguments and its name the name,
/// whatever the intent is, and its intent is what it was given, even if that is none.
pub proof fn law_recovered_call_is_the_one_read(
    new_id: Seq<char>,
    name: Seq<char>,
    arguments: JsonView,
    intent: Option<Seq<char>>,
)
    ensures
        ({
            let call = tool_call::recovered_call_spec(new_id, name, arguments, intent);
            &&& call.input.kind == arguments.kind
            &&& call.input.text == arguments.text
            &&& call.name == name
            &&& call.intent == intent
            &&& call.thought_signature is None
            &&& call.id == "fallback_text_call_"@ + new_id
        }),
{
}

/// The text that is left after a recovery is what stood around the call: one side where the other
/// is empty, else both with a line break between them.
pub proof fn law_text_around_the_call_is_left(prefix: Seq<char>, suffix: Seq<char>)
    ensures
        ({
            let left = tool_call::remaining_text_spec(prefix, suffix);
            &&& prefix.is_prefix_of(left)
            &&& suffix.is_suffix_of(left)
            &&& prefix.len() == 0 || suffix.len() == 0 ==> left.len() == prefix.len() + suffix.len()
            &&& prefix.len() > 0 && suffix.len() > 0 ==> left.len() == prefix.len() + 1
                + suffix.len() && left[prefix.len() as int] == '\n'
        }),
{
    reveal_strlit("\n");
}

// ---- calls lost to truncation ----

/// Going through the calls, each is kept exactly where the kind of its input is not `Null`,
/// whatever else it holds, and the kept calls stay in their order.
pub proof fn law_call_is_kept_by_its_input_alone(calls: Seq<ToolCall>, call: ToolCall)
    ensures
        tool_call::kept_calls(Seq::empty()) == Seq::<ToolCall>::empty(),
        call.input.kind != JsonKind::Null ==> tool_call::kept_calls(calls.push(call))
            == tool_call::kept_calls(calls).push(call),
        call.input.kind == JsonKind::Null ==> tool_call::kept_calls(calls.push(call))
            == tool_call::kept_calls(calls),
        tool_call::kept_calls(calls).contains(call) <==> calls.contains(call) && call.input.kind
            != JsonKind::Null,
{
    reveal(Seq::filter);
    assert(calls.push(call).drop_last() == calls);
    laws::law_lost_calls_are_dropped_once(calls, call, None);
}

proof fn lemma_none_kept(calls: Seq<ToolCall>)
    ensures
        tool_call::kept_calls(calls).len() == 0 <==> forall|i: int|
            0 <= i < calls.len() ==> (#[trigger] calls[i]).input.kind == JsonKind::Null,
{
    let kept = tool_call::kept_calls(calls);
    if kept.len() > 0 {
        let call = kept[0];
        assert(kept.contains(call));
        law_call_is_kept_by_its_input_alone(calls, call);
        let i = choose|i: int| 0 <= i < calls.len() && calls[i] == call;
        assert(calls[i].input.kind != JsonKind::Null);
    } else {
        assert forall|i: int| 0 <= i < calls.len() implies (#[trigger] calls[i]).input.kind
            == JsonKind::Null by {
            law_call_is_kept_by_its_input_alone(calls, calls[i]);
            if calls[i].input.kind != JsonKind::Null {
                assert(calls.contains(calls[i]));
                assert(kept.contains(calls[i]));
            }
        }
    }
}

/// The session is repaired exactly where there is a message, it had calls, and the input of every
/// one of them is `Null`: then the tool-use blocks of that message go, and this is persisted.
pub proof fn law_session_is_repaired_where_all_calls_are_lost(
    calls: Seq<ToolCall>,
    message_id: Seq<char>,
)
    ensures
        ({
            let lost = calls.len() > 0 && forall|i: int|
                0 <= i < calls.len() ==> (#[trigger] calls[i]).input.kind == JsonKind::Null;
            let effects = tool_call::repair_effects(calls, Some(message_id));
            &&& !lost ==> effects.len() == 0
            &&& lost ==> effects.len() == 2 && effects[0]
                == (SessionEffectView::RemoveToolUseBlocks { message_id }) && effects[1] == (
            SessionEffectView::PersistBestEffort { reason: "truncated tool-call repair"@ })
        }),
        tool_call::repair_effects(calls, None).len() == 0,
{
    lemma_none_kept(calls);
}

// ---- what is seen of values ----

/// Looking at a tool call or a JSON value shows each of its parts.
pub proof fn law_calls_are_seen_whole(call: ToolCall, value: Json)
    ensures
        value@.kind == value.kind,
        value@.text == value.text@,
        call@.id == call.id@,
        call@.name == call.name@,
        call@.input.kind == call.input.kind,
        call@.input.text == call.input.text@,
        call.intent is None <==> call@.intent is None,
        call.intent matches Some(intent) ==> call@.intent == Some(intent@),
        call.thought_signature is None <==> call@.thought_signature is None,
        call.thought_signature matches Some(signature) ==> call@.thought_signature == Some(
            signature@,
        ),
{
}

/// Looking at an effect shows which it is and what it holds.
pub proof fn law_effects_are_seen_whole(effect: SessionEffect)
    ensures
        match effect {
            SessionEffect::AddMessage { role, text } => effect@ == (SessionEffectView::AddMessage {
                role,
                text: text@,
            }),
            SessionEffect::Save => effect@ == SessionEffectView::Save,
            SessionEffect::RemoveToolUseBlocks { message_id } => effect@ == (
            SessionEffectView::RemoveToolUseBlocks { message_id: message_id@ }),
            SessionEffect::PersistBestEffort { reason } => effect@ == (
            SessionEffectView::PersistBestEffort { reason: reason@ }),
        },
{
}

/// Looking at an agent shows its limits and every effect in its place.
pub proof fn law_agents_are_seen_whole(agent: Agent, i: int)
    ensures
        agent@.max_incomplete_continuation_attempts == agent.max_incomplete_continuation_attempts,
        agent@.max_empty_post_tool_continuation_attempts
            == agent.max_empty_post_tool_continuation_attempts,
        agent@.effects.len() == agent.effects@.len(),
        0 <= i < agent.effects@.len() ==> agent@.effects[i] == agent.effects@[i]@,
{
}

/// More to do comes behind what was there, and the limits stay.
pub proof fn law_effects_are_added_behind(
    agent: AgentView,
    effects: Seq<SessionEffectView>,
    text: Seq<char>,
)
    ensures
        agent.with(effects).effects == agent.effects + effects,
        agent.with(effects).max_incomplete_continuation_attempts
            == agent.max_incomplete_continuation_attempts,
        agent.with(effects).max_empty_post_tool_continuation_attempts
            == agent.max_empty_post_tool_continuation_attempts,
        agent::user_message(text).len() == 2,
        agent::user_message(text)[0] == (SessionEffectView::AddMessage { role: Role::User, text }),
        agent::user_message(text)[1] == SessionEffectView::Save,
{
}

} // verus!

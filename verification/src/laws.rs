//! What holds of the rules taken together.
use vstd::prelude::*;
use vstd::utf8::*;

use crate::agent::{Agent, AgentView};
use crate::continuation;
use crate::degenerate::{self, DegenerateKind};
use crate::json::{self, JsonKind, JsonView};
use crate::notice;
use crate::stop_reason;
use crate::text;
use crate::tool_call::{self, ToolCall};
use crate::wrapped_call;

verus! {

/// White space around a stop reason changes nothing: neither what it says of the turn, nor what
/// the model or the user is told.
pub proof fn law_stop_reason_ignores_padding(
    before: Seq<char>,
    reason: Seq<char>,
    after: Seq<char>,
)
    requires
        text::all_white_space(before),
        text::all_white_space(after),
    ensures
        stop_reason::continue_spec(before + reason + after) == stop_reason::continue_spec(reason),
        stop_reason::guardrail_spec(Some(before + reason + after)) == stop_reason::guardrail_spec(
            Some(reason),
        ),
        stop_reason::stranded_spec(Some(before + reason + after)) == stop_reason::stranded_spec(
            Some(reason),
        ),
        continuation::continuation_prompt_spec(before + reason + after)
            == continuation::continuation_prompt_spec(reason),
        notice::reason_label_spec(Some(before + reason + after)) == notice::reason_label_spec(
            Some(reason),
        ),
{
    text::lemma_trim_padding(before, reason, after);
}

/// Stop reasons that differ in ASCII case alone say the same of a turn.
pub proof fn law_stop_reason_ignores_case(a: Seq<char>, b: Seq<char>)
    requires
        text::lower_spec(a) == text::lower_spec(b),
    ensures
        stop_reason::continue_spec(a) == stop_reason::continue_spec(b),
        stop_reason::guardrail_spec(Some(a)) == stop_reason::guardrail_spec(Some(b)),
        stop_reason::stranded_spec(Some(a)) == stop_reason::stranded_spec(Some(b)),
{
    text::lemma_lower_trim(a);
    text::lemma_lower_trim(b);
}

/// A stop for a tool call is neither a truncation nor a guardrail stop, so one stop reason never
/// calls for both the rest of a response and a tool call that did not arrive.
pub proof fn law_stranded_stop_is_nothing_else(
    stop_reason: Option<Seq<char>>,
    attempts: u32,
    max_attempts: u32,
    stranded_attempts: u32,
    max_stranded_attempts: u32,
)
    ensures
        stop_reason::stranded_spec(stop_reason) ==> !stop_reason::guardrail_spec(stop_reason),
        stop_reason::stranded_spec(stop_reason) ==> !stop_reason::continue_spec(stop_reason->0),
        continuation::incomplete_message(stop_reason, attempts, max_attempts) is None
            || continuation::stranded_message(
            stop_reason,
            stranded_attempts,
            max_stranded_attempts,
        ) is None,
{
    reveal_strlit("tool_use");
    reveal_strlit("refusal");
    reveal_strlit("content_filter");
    reveal_strlit("safety");
    reveal_strlit("guardrail");
    reveal_strlit("policy_violation");
    assert("tool_use"@.len() == 8);
}

/// A guardrail stop is not retried as an empty response: of the two rules at most one has a
/// message for a stop reason, whatever the counts and limits.
pub proof fn law_guardrail_stop_is_not_retried_as_empty(
    model: Seq<char>,
    stop_reason: Option<Seq<char>>,
    reconsiderations: u32,
    visible_text_empty: bool,
    prompt_has_recent_tool_result: bool,
    attempts: u32,
    max_attempts: u32,
)
    ensures
        continuation::reconsideration_message(model, stop_reason, reconsiderations) is Some
            ==> continuation::empty_post_tool_message(
            visible_text_empty,
            prompt_has_recent_tool_result,
            stop_reason,
            attempts,
            max_attempts,
        ) is None,
        stop_reason::guardrail_spec(stop_reason) ==> continuation::empty_post_tool_message(
            visible_text_empty,
            prompt_has_recent_tool_result,
            stop_reason,
            attempts,
            max_attempts,
        ) is None,
{
}

/// One use of a rule that may take a turn up again.
pub enum RuleUse {
    Reconsider { model: Seq<char>, stop_reason: Option<Seq<char>> },
    EmptyPostTool {
        visible_text_empty: bool,
        prompt_has_recent_tool_result: bool,
        stop_reason: Option<Seq<char>>,
    },
    Incomplete { stop_reason: Option<Seq<char>> },
    Stranded { stop_reason: Option<Seq<char>> },
}

impl RuleUse {
    /// The message that this use sends, given the attempts so far.
    pub open spec fn message(self, agent: AgentView, attempts: u32) -> Option<Seq<char>> {
        match self {
            RuleUse::Reconsider { model, stop_reason } => continuation::reconsideration_message(
                model,
                stop_reason,
                attempts,
            ),
            RuleUse::EmptyPostTool {
                visible_text_empty,
                prompt_has_recent_tool_result,
                stop_reason,
            } => continuation::empty_post_tool_message(
                visible_text_empty,
                prompt_has_recent_tool_result,
                stop_reason,
                attempts,
                agent.max_empty_post_tool_continuation_attempts,
            ),
            RuleUse::Incomplete { stop_reason } => continuation::incomplete_message(
                stop_reason,
                attempts,
                agent.max_incomplete_continuation_attempts,
            ),
            RuleUse::Stranded { stop_reason } => continuation::stranded_message(
                stop_reason,
                attempts,
                agent.max_incomplete_continuation_attempts,
            ),
        }
    }

    /// The number of attempts at which this rule gives up.
    pub open spec fn limit(self, agent: AgentView) -> int {
        match self {
            RuleUse::Reconsider { .. } =>
                Agent::FABLE_GUARDRAIL_RECONSIDERATION_PROMPTS@.len() as int,
            RuleUse::EmptyPostTool { .. } =>
                agent.max_empty_post_tool_continuation_attempts as int,
            RuleUse::Incomplete { .. } => agent.max_incomplete_continuation_attempts as int,
            RuleUse::Stranded { .. } => agent.max_incomplete_continuation_attempts as int,
        }
    }
}

/// The messages that a sequence of uses sends, one after the other, all counted by one counter that
/// starts at `attempts`.
pub open spec fn messages_sent(agent: AgentView, uses: Seq<RuleUse>, attempts: u32) -> Seq<
    Seq<char>,
>
    decreases uses.len(),
{
    if uses.len() == 0 {
        Seq::empty()
    } else {
        let sent = messages_sent(agent, uses.drop_last(), attempts);
        match uses.last().message(agent, (attempts + sent.len()) as u32) {
            Some(message) => sent.push(message),
            None => sent,
        }
    }
}

/// However often the rules are used in a turn, they send no more messages than their limit leaves,
/// so no turn is taken up again without end.
pub proof fn law_retries_are_bounded(
    agent: AgentView,
    uses: Seq<RuleUse>,
    attempts: u32,
    limit: u32,
)
    requires
        forall|i: int| 0 <= i < uses.len() ==> (#[trigger] uses[i]).limit(agent) <= limit,
    ensures
        attempts <= limit ==> attempts + messages_sent(agent, uses, attempts).len() <= limit,
        attempts > limit ==> messages_sent(agent, uses, attempts).len() == 0,
    decreases uses.len(),
{
    if uses.len() > 0 {
        let earlier = uses.drop_last();
        assert forall|i: int| 0 <= i < earlier.len() implies (#[trigger] earlier[i]).limit(agent)
            <= limit by {
            assert(earlier[i] == uses[i]);
        }
        law_retries_are_bounded(agent, earlier, attempts, limit);
        assert(uses[uses.len() - 1].limit(agent) <= limit);
    }
}

/// A turn whose responses are refused again and again goes through the reconsideration prompts in
/// their order, each at most once.
pub proof fn law_reconsideration_goes_through_the_prompts(
    agent: AgentView,
    uses: Seq<RuleUse>,
    i: int,
)
    requires
        forall|k: int| 0 <= k < uses.len() ==> #[trigger] uses[k] is Reconsider,
        0 <= i < messages_sent(agent, uses, 0).len(),
    ensures
        i < Agent::FABLE_GUARDRAIL_RECONSIDERATION_PROMPTS@.len(),
        messages_sent(agent, uses, 0)[i]
            == Agent::FABLE_GUARDRAIL_RECONSIDERATION_PROMPTS@[i]@,
    decreases uses.len(),
{
    law_retries_are_bounded(agent, uses, 0, 3);
    if uses.len() > 0 {
        let earlier = uses.drop_last();
        assert forall|k: int| 0 <= k < earlier.len() implies #[trigger] earlier[k] is Reconsider by {
            assert(earlier[k] == uses[k]);
        }
        assert(uses[uses.len() - 1] is Reconsider);
        law_retries_are_bounded(agent, earlier, 0, 3);
        if i < messages_sent(agent, earlier, 0).len() {
            law_reconsideration_goes_through_the_prompts(agent, earlier, i);
        }
    }
}

/// No rule loses what was already asked of the session, or changes the agent's limits.
pub proof fn law_rules_only_add_effects(
    message: Option<Seq<char>>,
    before: AgentView,
    attempts_before: u32,
    after: AgentView,
    attempts_after: u32,
    r: bool,
)
    requires
        continuation::follows(message, before, attempts_before, after, attempts_after, r),
    ensures
        before.effects.is_prefix_of(after.effects),
        after.max_incomplete_continuation_attempts == before.max_incomplete_continuation_attempts,
        after.max_empty_post_tool_continuation_attempts
            == before.max_empty_post_tool_continuation_attempts,
        r <==> after.effects.len() > before.effects.len(),
        r <==> attempts_after > attempts_before,
{
}

/// The log event tells guardrail stops from other empty turns.
pub proof fn law_log_events_are_separable(a: Option<Seq<char>>, b: Option<Seq<char>>)
    ensures
        notice::log_event_spec(a) == notice::log_event_spec(b) <==> stop_reason::guardrail_spec(a)
            == stop_reason::guardrail_spec(b),
{
    reveal_strlit("PROVIDER_GUARDRAIL");
    reveal_strlit("PROVIDER_EMPTY_RESPONSE");
    assert("PROVIDER_GUARDRAIL"@.len() != "PROVIDER_EMPTY_RESPONSE"@.len());
}

/// A turn gets a notice exactly where a guardrail stopped it or nothing visible came, and the
/// notice of a guardrail stop is never that of an empty response.
pub proof fn law_notice_names_the_cause(
    stop_reason: Option<Seq<char>>,
    visible_text_empty: bool,
    had_reasoning: bool,
    other_label: Seq<char>,
)
    ensures
        notice::provider_notice_spec(stop_reason, visible_text_empty, had_reasoning) is Some <==> (
        stop_reason::guardrail_spec(stop_reason) || visible_text_empty),
        stop_reason::guardrail_spec(stop_reason) ==> notice::provider_notice_spec(
            stop_reason,
            visible_text_empty,
            had_reasoning,
        ) != Some(notice::empty_notice_spec(other_label, had_reasoning)),
        !stop_reason::guardrail_spec(stop_reason) ==> notice::provider_notice_spec(
            stop_reason,
            visible_text_empty,
            had_reasoning,
        ) != Some(notice::guardrail_notice_spec(other_label)),
{
    reveal_strlit("Provider guardrail stopped the response (stop_reason: ");
    reveal_strlit("The model ended its turn without any visible output");
    let label = notice::reason_label_spec(stop_reason);
    assert(notice::guardrail_notice_spec(label)[0] == 'P');
    assert(notice::guardrail_notice_spec(other_label)[0] == 'P');
    assert(notice::empty_notice_spec(label, had_reasoning)[0] == 'T');
    assert(notice::empty_notice_spec(other_label, had_reasoning)[0] == 'T');
}

/// There is a notice for exactly the output that is degenerate.
pub proof fn law_notice_iff_degenerate(text: Seq<char>)
    ensures
        degenerate::degenerate_notice_spec(text) is Some <==> degenerate::classify_spec(text)
            != DegenerateKind::Normal,
{
}

/// White space around a text does not change how it is classified, nor its notice.
pub proof fn law_classification_ignores_padding(
    before: Seq<char>,
    text: Seq<char>,
    after: Seq<char>,
)
    requires
        text::all_white_space(before),
        text::all_white_space(after),
    ensures
        degenerate::classify_spec(before + text + after) == degenerate::classify_spec(text),
        degenerate::degenerate_notice_spec(before + text + after)
            == degenerate::degenerate_notice_spec(text),
{
    text::lemma_trim_padding(before, text, after);
}

/// Size alone decides at both ends: from the cap on a text is oversized whatever it holds, and
/// below the minimum no repetition is held against it.
pub proof fn law_size_decides_at_both_ends(text: Seq<char>)
    ensures
        degenerate::classify_spec(text) == DegenerateKind::Oversized <==> encode_utf8(
            text::trim_spec(text),
        ).len() >= Agent::DEGENERATE_TEXT_BYTE_CAP,
        encode_utf8(text::trim_spec(text)).len() < Agent::DEGENERATE_REPEAT_MIN_BYTES
            ==> degenerate::classify_spec(text) == DegenerateKind::Normal,
{
}

/// `s` written `n` times.
pub open spec fn repeated<T>(s: Seq<T>, n: nat) -> Seq<T>
    decreases n,
{
    if n == 0 {
        Seq::empty()
    } else {
        repeated(s, (n - 1) as nat) + s
    }
}

/// The encoding of a text is that of its parts.
pub proof fn lemma_encode_concat(a: Seq<char>, b: Seq<char>)
    ensures
        encode_utf8(a + b) == encode_utf8(a) + encode_utf8(b),
    decreases a.len(),
{
    if a.len() == 0 {
        assert(a + b == b);
    } else {
        assert((a + b)[0] == a[0]);
        assert((a + b).drop_first() == a.drop_first() + b);
        lemma_encode_concat(a.drop_first(), b);
    }
}

/// A part of a repeated unit repeats the unit, started elsewhere.
proof fn lemma_part_of_run(bytes: Seq<u8>, unit: Seq<u8>, from: int, to: int) -> (turned: Seq<u8>)
    requires
        degenerate::repeats_unit(bytes, unit),
        0 <= from <= to <= bytes.len(),
    ensures
        degenerate::repeats_unit(bytes.subrange(from, to), turned),
        turned.len() == unit.len(),
{
    let period = unit.len() as int;
    let turned = Seq::new(unit.len(), |k: int| unit[(from + k) % period]);
    let part = bytes.subrange(from, to);
    assert forall|i: int| 0 <= i < part.len() implies #[trigger] part[i] == turned[i
        % turned.len() as int] by {
        vstd::arithmetic::div_mod::lemma_mod_bound(i, period);
        vstd::arithmetic::div_mod::lemma_add_mod_noop_right(from, i, period);
        assert(part[i] == bytes[from + i]);
    }
    turned
}

/// Text that repeats a unit of at most [`Agent::DEGENERATE_REPEAT_MAX_PERIOD`] bytes from end to
/// end is recognised, once it is large enough to be inspected and below the cap, wherever in the
/// unit its white space lies.
pub proof fn law_repeated_unit_is_recognised(text: Seq<char>, unit: Seq<u8>)
    requires
        degenerate::repeats_unit(encode_utf8(text), unit),
        unit.len() <= Agent::DEGENERATE_REPEAT_MAX_PERIOD,
        Agent::DEGENERATE_REPEAT_MIN_BYTES <= encode_utf8(text::trim_spec(text)).len()
            < Agent::DEGENERATE_TEXT_BYTE_CAP,
    ensures
        degenerate::classify_spec(text) == DegenerateKind::Repeated,
{
    let from = text::lemma_trim_is_part(text);
    let trimmed = text::trim_spec(text);
    let to = from + trimmed.len();
    let head = text.take(from);
    let tail = text.skip(to);
    assert(text == head + trimmed + tail);
    lemma_encode_concat(head + trimmed, tail);
    lemma_encode_concat(head, trimmed);
    let a = encode_utf8(head).len() as int;
    let b = a + encode_utf8(trimmed).len();
    assert(encode_utf8(text).subrange(a, b) == encode_utf8(trimmed));
    let turned = lemma_part_of_run(encode_utf8(text), unit, a, b);
    assert(degenerate::repeats_unit(encode_utf8(trimmed), turned));
}

proof fn lemma_repeated_repeats(unit: Seq<u8>, n: nat)
    requires
        unit.len() > 0,
    ensures
        repeated(unit, n).len() == n * unit.len(),
        degenerate::repeats_unit(repeated(unit, n), unit),
    decreases n,
{
    let all = repeated(unit, n);
    let period = unit.len() as int;
    if n > 0 {
        let earlier = repeated(unit, (n - 1) as nat);
        lemma_repeated_repeats(unit, (n - 1) as nat);
        assert(n * period == (n - 1) * period + period) by (nonlinear_arith);
        assert forall|i: int| 0 <= i < all.len() implies #[trigger] all[i] == unit[i % period] by {
            if i < earlier.len() {
                assert(all[i] == earlier[i]);
            } else {
                let k = i - earlier.len();
                assert(all[i] == unit[k]);
                vstd::arithmetic::div_mod::lemma_mod_multiples_vanish(n - 1, k, period);
                assert((n - 1) * period == period * (n - 1)) by (nonlinear_arith);
                vstd::arithmetic::div_mod::lemma_small_mod(k as nat, period as nat);
            }
        }
    } else {
        assert(0 * unit.len() == 0);
    }
}

proof fn lemma_encode_repeated(literal: Seq<char>, n: nat)
    ensures
        encode_utf8(repeated(literal, n)) == repeated(encode_utf8(literal), n),
    decreases n,
{
    if n > 0 {
        lemma_encode_repeated(literal, (n - 1) as nat);
        lemma_encode_concat(repeated(literal, (n - 1) as nat), literal);
    }
}

/// A short literal repeated many times is recognised, as long as the text is large enough to be
/// inspected and below the cap.
pub proof fn law_repeated_literal_is_recognised(literal: Seq<char>, n: nat)
    requires
        0 < encode_utf8(literal).len() <= Agent::DEGENERATE_REPEAT_MAX_PERIOD,
        Agent::DEGENERATE_REPEAT_MIN_BYTES <= encode_utf8(
            text::trim_spec(repeated(literal, n)),
        ).len() < Agent::DEGENERATE_TEXT_BYTE_CAP,
    ensures
        degenerate::classify_spec(repeated(literal, n)) == DegenerateKind::Repeated,
{
    lemma_encode_repeated(literal, n);
    lemma_repeated_repeats(encode_utf8(literal), n);
    law_repeated_unit_is_recognised(repeated(literal, n), encode_utf8(literal));
}

proof fn lemma_shift_reaches_start(bytes: Seq<u8>, period: int, i: int)
    requires
        0 < period,
        forall|j: int| 0 <= j && j + period < bytes.len() ==> #[trigger] bytes[j] == bytes[j + period],
        0 <= i < bytes.len(),
    ensures
        bytes[i] == bytes[i % period],
    decreases i,
{
    if i < period {
        vstd::arithmetic::div_mod::lemma_small_mod(i as nat, period as nat);
    } else {
        lemma_shift_reaches_start(bytes, period, i - period);
        vstd::arithmetic::div_mod::lemma_mod_add_multiples_vanish(i - period, period);
        assert(bytes[i - period] == bytes[i - period + period]);
    }
}

/// A literal run covers the whole text: it agrees with itself, to its last byte, when it is shifted
/// by some short period that fits into it eight times; and every such text is a run.
pub proof fn law_run_covers_the_whole_text(bytes: Seq<u8>)
    ensures
        degenerate::is_literal_run_spec(bytes) <==> exists|period: int|
            1 <= period <= Agent::DEGENERATE_REPEAT_MAX_PERIOD && 8 * period <= bytes.len()
                && #[trigger] agrees_when_shifted(bytes, period),
{
    if degenerate::is_literal_run_spec(bytes) {
        let unit = choose|unit: Seq<u8>| #[trigger]
            degenerate::repeats_unit(bytes, unit) && unit.len()
                <= Agent::DEGENERATE_REPEAT_MAX_PERIOD && 8 * unit.len() <= bytes.len();
        let period = unit.len() as int;
        assert forall|i: int| 0 <= i && i + period < bytes.len() implies #[trigger] bytes[i]
            == bytes[i + period] by {
            vstd::arithmetic::div_mod::lemma_mod_add_multiples_vanish(i, period);
            assert(bytes[i + period] == unit[(i + period) % period]);
        }
        assert(agrees_when_shifted(bytes, period));
    }
    if exists|period: int|
        1 <= period <= Agent::DEGENERATE_REPEAT_MAX_PERIOD && 8 * period <= bytes.len()
            && #[trigger] agrees_when_shifted(bytes, period) {
        let period = choose|period: int|
            1 <= period <= Agent::DEGENERATE_REPEAT_MAX_PERIOD && 8 * period <= bytes.len()
                && #[trigger] agrees_when_shifted(bytes, period);
        let unit = bytes.take(period);
        assert forall|i: int| 0 <= i < bytes.len() implies #[trigger] bytes[i] == unit[i
            % unit.len() as int] by {
            lemma_shift_reaches_start(bytes, period, i);
            vstd::arithmetic::div_mod::lemma_mod_bound(i, period);
        }
        assert(degenerate::repeats_unit(bytes, unit));
    }
}

/// Every byte equals the one `period` bytes further on.
pub open spec fn agrees_when_shifted(bytes: Seq<u8>, period: int) -> bool {
    forall|i: int| 0 <= i && i + period < bytes.len() ==> #[trigger] bytes[i] == bytes[i + period]
}

/// The size that a notice shows is off by no more than half of its last digit.
pub proof fn law_size_is_rounded_to_the_nearest(bytes: nat)
    ensures
        -512 <= 1024 * degenerate::kib_tenths_spec(bytes) - 10 * bytes <= 512,
{
}

/// Name characters in front add to the length of a name.
pub proof fn lemma_name_len_concat(name: Seq<char>, rest: Seq<char>)
    requires
        wrapped_call::all_name_chars(name),
    ensures
        wrapped_call::name_len(name + rest) == name.len() + wrapped_call::name_len(rest),
    decreases name.len(),
{
    if name.len() == 0 {
        assert(name + rest == rest);
    } else {
        assert(wrapped_call::is_name_char(name[0]));
        assert((name + rest).drop_first() == name.drop_first() + rest);
        assert forall|i: int| 0 <= i < name.drop_first().len() implies wrapped_call::is_name_char(
            #[trigger] name.drop_first()[i],
        ) by {
            assert(wrapped_call::is_name_char(name[i + 1]));
        }
        lemma_name_len_concat(name.drop_first(), rest);
    }
}

/// Splitting behind the bytes of a head gives that head and the rest.
pub proof fn lemma_split_concat(head: Seq<char>, tail: Seq<char>)
    ensures
        json::head_spec(head + tail, encode_utf8(head).len() as int) == head,
        json::tail_spec(head + tail, encode_utf8(head).len() as int) == tail,
{
    let end = encode_utf8(head).len() as int;
    lemma_encode_concat(head, tail);
    let bytes = encode_utf8(head + tail);
    assert(bytes.subrange(0, end) == encode_utf8(head));
    assert(bytes.subrange(end, bytes.len() as int) == encode_utf8(tail));
    encode_utf8_decode_utf8(head);
    encode_utf8_decode_utf8(tail);
}

/// A call that is written into a text is read back from it: the text `before` the marker, the name,
/// a `gap` without braces, the arguments, and the text `after` them. That text is either blank, or
/// leaves no place from which the rest reads as arguments to the end.
pub proof fn law_written_call_is_read_back(
    before: Seq<char>,
    name: Seq<char>,
    gap: Seq<char>,
    arguments: Seq<char>,
    after: Seq<char>,
)
    requires
        text::occurs_first_at(
            before + wrapped_call::marker(),
            wrapped_call::marker(),
            before.len() as int,
        ),
        name.len() > 0,
        wrapped_call::all_name_chars(name),
        gap.len() > 0 ==> !wrapped_call::is_name_char(gap[0]),
        !gap.contains('{'),
        arguments.len() > 0 && arguments[0] == '{',
        json::first_json_value(arguments + after) matches Some((kind, end)) && kind
            == JsonKind::Object && end == encode_utf8(arguments).len(),
        text::all_white_space(after) || forall|j: int|
            !wrapped_call::closes_at(gap + arguments + after, j),
    ensures
        wrapped_call::wrapped_call_spec(
            before + wrapped_call::marker() + name + gap + arguments + after,
        ) == Some(
            (
                text::trim_end_spec(before),
                name,
                JsonView { kind: JsonKind::Object, text: arguments },
                text::trim_spec(after),
            ),
        ),
{
    let marker = wrapped_call::marker();
    let rest = gap + arguments + after;
    let text = before + marker + name + gap + arguments + after;
    let at = before.len() as int;
    assert(text::occurs_first_at(text, marker, at)) by {
        assert(text.subrange(at, at + marker.len()) == marker);
        assert forall|j: int| j < at implies !text::occurs_at(text, marker, j) by {
            if text::occurs_at(text, marker, j) {
                assert((before + marker).subrange(j, j + marker.len()) == text.subrange(
                    j,
                    j + marker.len(),
                ));
                assert(text::occurs_at(before + marker, marker, j));
            }
        }
    }
    text::lemma_find(text, marker, at);
    let tail = text.skip(at + marker.len());
    assert(tail == name + rest);
    lemma_name_len_concat(name, rest);
    assert(wrapped_call::name_len(rest) == 0) by {
        assert(rest[0] == if gap.len() > 0 {
            gap[0]
        } else {
            '{'
        });
    }
    assert(tail.take(name.len() as int) == name);
    assert(tail.skip(name.len() as int) == rest);
    assert(text.take(at) == before);
    let brace = gap.len() as int;
    assert(rest.skip(brace) == arguments + after);
    lemma_split_concat(arguments, after);
    assert forall|j: int| j < brace implies #[trigger] wrapped_call::candidate_at(rest, j) is None by {
        if 0 <= j {
            assert(rest[j] == gap[j]);
            assert(gap.contains(gap[j]));
        }
    }
    if text::all_white_space(after) {
        text::lemma_trim_white_space(after);
        assert(wrapped_call::first_closing_at(rest, brace));
        wrapped_call::lemma_closing(rest, brace);
    } else {
        wrapped_call::lemma_first_candidate(rest, brace);
    }
}

/// Whatever call the text of a response holds is recovered where the response has no tool calls,
/// and none where it has: so a call is recovered at most once.
pub proof fn law_call_is_recovered_at_most_once(text: Seq<char>, tool_calls: nat)
    ensures
        tool_calls == 0 ==> tool_call::recoverable_spec(text, tool_calls)
            == wrapped_call::wrapped_call_spec(text),
        tool_calls != 0 ==> tool_call::recoverable_spec(text, tool_calls) is None,
{
    if wrapped_call::wrapped_call_spec(text) is Some && text::trim_spec(text).len() == 0 {
        let marker = wrapped_call::marker();
        reveal_strlit("to=functions.");
        let at = text::find_spec(text, marker)->0;
        assert(text::occurs_first_at(text, marker, at));
        assert(text[at] == text.subrange(at, at + marker.len())[0]);
        let started = text::trim_start_spec(text);
        let cut = text.len() - started.len();
        text::lemma_trim_start(text);
        text::lemma_trim_end(started);
        if at < cut {
            assert(text.take(cut)[at] == text[at]);
        } else {
            assert(started.skip(0)[at - cut] == text[at]);
        }
    }
}

/// Once lost calls are dropped none is left, every other call is still there, and dropping them
/// again changes nothing and asks nothing of the session.
pub proof fn law_lost_calls_are_dropped_once(
    calls: Seq<ToolCall>,
    call: ToolCall,
    message_id: Option<Seq<char>>,
)
    ensures
        tool_call::kept_calls(calls).contains(call) <==> calls.contains(call)
            && !tool_call::is_null_call(call),
        tool_call::kept_calls(tool_call::kept_calls(calls)) == tool_call::kept_calls(calls),
        tool_call::repair_effects(tool_call::kept_calls(calls), message_id).len() == 0,
    decreases calls.len(),
{
    reveal(Seq::filter);
    let kept = tool_call::kept_calls(calls);
    if calls.len() > 0 {
        let earlier = calls.drop_last();
        let last = calls.last();
        law_lost_calls_are_dropped_once(earlier, call, message_id);
        let kept_earlier = tool_call::kept_calls(earlier);
        assert(calls == earlier.push(last));
        assert(calls.contains(call) <==> earlier.contains(call) || call == last) by {
            if earlier.contains(call) {
                let i = choose|i: int| 0 <= i < earlier.len() && earlier[i] == call;
                assert(calls[i] == call);
            }
            assert(calls[calls.len() - 1] == last);
        }
        if !tool_call::is_null_call(last) {
            assert(kept == kept_earlier.push(last));
            assert(kept.drop_last() == kept_earlier);
            assert(kept.contains(call) <==> kept_earlier.contains(call) || call == last) by {
                if kept_earlier.contains(call) {
                    let i = choose|i: int|
                        0 <= i < kept_earlier.len() && kept_earlier[i] == call;
                    assert(kept[i] == call);
                }
                assert(kept[kept.len() - 1] == last);
            }
        }
    }
}

} // verus!

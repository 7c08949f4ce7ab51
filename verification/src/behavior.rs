//! What each rule does, told by its inputs and results alone.
//!
//! The relations below say when one text is the visible core of another, its lower-case form, or a
//! part of it. The laws then say, over them, what every rule decides and produces.
use vstd::prelude::*;
use vstd::utf8::*;

use crate::agent::{AgentView, Role, SessionEffectView};
use crate::continuation;
use crate::degenerate::{self, DegenerateKind};
use crate::laws;
use crate::notice;
use crate::stop_reason;
use crate::text;
use crate::tool_call;

verus! {

/// Nothing but white space.
pub open spec fn blank(s: Seq<char>) -> bool {
    forall|i: int| 0 <= i < s.len() ==> text::is_white_space(#[trigger] s[i])
}

/// The first and the last character of `s` are visible.
pub open spec fn visible_ends(s: Seq<char>) -> bool {
    s.len() > 0 ==> !text::is_white_space(s[0]) && !text::is_white_space(s[s.len() - 1])
}

/// `s` is `core` with white space around it, and `core` has none at its ends.
pub open spec fn is_core(s: Seq<char>, core: Seq<char>) -> bool {
    visible_ends(core) && exists|a: Seq<char>, b: Seq<char>|
        s == #[trigger] (a + core + b) && blank(a) && blank(b)
}

/// `s` is `core` with white space behind it, and `core` does not end in any.
pub open spec fn is_end_core(s: Seq<char>, core: Seq<char>) -> bool {
    &&& core.len() > 0 ==> !text::is_white_space(core[core.len() - 1])
    &&& exists|b: Seq<char>| s == #[trigger] (core + b) && blank(b)
}

/// `low` is `s` with each of the capitals A to Z moved to its small letter.
pub open spec fn is_lower_form(s: Seq<char>, low: Seq<char>) -> bool {
    low.len() == s.len() && forall|i: int|
        0 <= i < s.len() ==> #[trigger] low[i] as int == if 65 <= s[i] as int <= 90 {
            s[i] as int + 32
        } else {
            s[i] as int
        }
}

/// `word` is a part of `s`.
pub open spec fn holds(s: Seq<char>, word: Seq<char>) -> bool {
    exists|a: Seq<char>, b: Seq<char>| s == #[trigger] (a + word + b)
}

/// Without regard to case and the white space around it, `s` reads `low`.
pub open spec fn reads(s: Seq<char>, low: Seq<char>) -> bool {
    exists|core: Seq<char>| #[trigger] is_core(s, core) && is_lower_form(core, low)
}

/// `digits` is the number `n` in base ten.
pub open spec fn is_decimal(digits: Seq<char>, n: nat) -> bool {
    &&& digits.len() > 0
    &&& digits.len() > 1 ==> digits[0] != '0'
    &&& forall|i: int| 0 <= i < digits.len() ==> '0' <= #[trigger] digits[i] <= '9'
    &&& decimal_value(digits) == n
}

/// The number that a sequence of digits denotes in base ten.
pub open spec fn decimal_value(digits: Seq<char>) -> int
    decreases digits.len(),
{
    if digits.len() == 0 {
        0
    } else {
        10 * decimal_value(digits.drop_last()) + (digits.last() as int - '0' as int)
    }
}

// ---- text ----

/// White space is what Unicode lists as such.
pub proof fn law_white_space_is_that_of_unicode(c: char)
    ensures
        text::is_white_space(c) <==> ({
            let code = c as int;
            ||| 0x9 <= code <= 0xd
            ||| code == 0x20
            ||| code == 0x85
            ||| code == 0xa0
            ||| code == 0x1680
            ||| 0x2000 <= code <= 0x200a
            ||| code == 0x2028
            ||| code == 0x2029
            ||| code == 0x202f
            ||| code == 0x205f
            ||| code == 0x3000
        }),
{
}

/// Trimming gives the core of a text, and a text has no other.
pub proof fn law_trim_gives_the_core(s: Seq<char>, core: Seq<char>)
    ensures
        is_core(s, core) <==> core == text::trim_spec(s),
{
    if is_core(s, core) {
        let (a, b) = choose|a: Seq<char>, b: Seq<char>|
            s == #[trigger] (a + core + b) && blank(a) && blank(b);
        text::lemma_trim_padding(a, core, b);
        text::lemma_trim_fixed(core);
    }
    let t = text::trim_spec(s);
    text::lemma_trim_ends(s);
    text::lemma_trim_start(s);
    let started = text::trim_start_spec(s);
    text::lemma_trim_end(started);
    let a = s.take(s.len() - started.len());
    let b = started.skip(t.len() as int);
    assert(started == t + b);
    assert(s == a + t + b);
    assert(is_core(s, t));
}

/// Trimming the end leaves the text up to its last visible character, and nothing else.
pub proof fn law_trim_end_leaves_the_front(s: Seq<char>, core: Seq<char>)
    ensures
        is_end_core(s, core) <==> core == text::trim_end_spec(s),
{
    let t = text::trim_end_spec(s);
    text::lemma_trim_end(s);
    assert(s == t + s.skip(t.len() as int));
    assert(is_end_core(s, t));
    if is_end_core(s, core) {
        let b = choose|b: Seq<char>| s == #[trigger] (core + b) && blank(b);
        if core.len() < t.len() {
            let i = t.len() - 1;
            assert(t[i] == s[i] && s[i] == b[i - core.len()]);
        } else if t.len() < core.len() {
            let i = core.len() - 1;
            assert(s.skip(t.len() as int)[i - t.len()] == s[i] && s[i] == core[i]);
        }
        assert(core == t);
    }
}

/// Lower case moves the capitals A to Z and nothing else.
pub proof fn law_lower_moves_ascii_capitals(s: Seq<char>, low: Seq<char>)
    ensures
        is_lower_form(s, low) <==> low == text::lower_spec(s),
{
    let l = text::lower_spec(s);
    assert(is_lower_form(s, l));
    if is_lower_form(s, low) {
        assert forall|i: int| 0 <= i < s.len() implies low[i] == l[i] by {
            assert(low[i] as int == l[i] as int);
        }
        assert(low == l);
    }
}

/// A search finds what is a part of the text, at its leftmost place.
pub proof fn law_search_finds_the_leftmost_part(s: Seq<char>, word: Seq<char>)
    ensures
        text::contains_spec(s, word) <==> holds(s, word),
        text::find_spec(s, word) is Some <==> holds(s, word),
        text::find_spec(s, word) matches Some(at) ==> {
            &&& exists|a: Seq<char>, b: Seq<char>| s == #[trigger] (a + word + b) && a.len() == at
            &&& forall|a: Seq<char>, b: Seq<char>| s == #[trigger] (a + word + b) ==> a.len() >= at
        },
{
    assert forall|a: Seq<char>, b: Seq<char>| s == #[trigger] (a + word + b) implies text::occurs_at(
        s,
        word,
        a.len() as int,
    ) by {
        assert(s.subrange(a.len() as int, (a.len() + word.len()) as int) == word);
    }
    if text::contains_spec(s, word) {
        let at = choose|at: int| text::occurs_at(s, word, at);
        let first = lemma_leftmost(s, word, at);
        text::lemma_find(s, word, first);
        let (a, b) = (s.take(first), s.skip(first + word.len()));
        assert(s == a + word + b);
    } else if holds(s, word) {
        let (a, b) = choose|a: Seq<char>, b: Seq<char>| s == #[trigger] (a + word + b);
        assert(text::occurs_at(s, word, a.len() as int));
    }
}

proof fn lemma_leftmost(s: Seq<char>, word: Seq<char>, at: int) -> (first: int)
    requires
        text::occurs_at(s, word, at),
    ensures
        text::occurs_first_at(s, word, first),
    decreases at,
{
    if forall|j: int| j < at ==> !text::occurs_at(s, word, j) {
        at
    } else {
        let j = choose|j: int| j < at && text::occurs_at(s, word, j);
        lemma_leftmost(s, word, j)
    }
}

/// Numbers are written in base ten, without leading zeros.
pub proof fn law_numbers_are_decimal(n: nat)
    ensures
        is_decimal(text::decimal(n), n),
    decreases n,
{
    let digits = text::decimal(n);
    reveal_with_fuel(decimal_value, 2);
    if n >= 10 {
        law_numbers_are_decimal(n / 10);
        let front = text::decimal(n / 10);
        assert(digits.drop_last() == front);
        if front.len() == 1 {
            assert(front.drop_last().len() == 0);
            assert(decimal_value(front) == front[0] as int - '0' as int);
        }
        assert(digits[0] == front[0]);
    } else {
        assert(digits.drop_last().len() == 0);
    }
}

proof fn lemma_reads(s: Seq<char>, low: Seq<char>)
    ensures
        reads(s, low) <==> low == stop_reason::normalized_spec(s),
{
    let core = text::trim_spec(s);
    law_trim_gives_the_core(s, core);
    law_lower_moves_ascii_capitals(core, low);
    if reads(s, low) {
        let other = choose|other: Seq<char>| #[trigger] is_core(s, other) && is_lower_form(other, low);
        law_trim_gives_the_core(s, other);
    }
}

/// Every text reads in one way only.
pub proof fn law_text_reads_in_one_way(s: Seq<char>) -> (low: Seq<char>)
    ensures
        reads(s, low),
        forall|other: Seq<char>| reads(s, other) ==> other == low,
{
    let low = stop_reason::normalized_spec(s);
    lemma_reads(s, low);
    assert forall|other: Seq<char>| reads(s, other) implies other == low by {
        lemma_reads(s, other);
    }
    low
}

/// Looking at an optional text loses nothing.
pub proof fn law_optional_texts_are_kept(s: &str, t: String)
    ensures
        text::opt_text(Some(s)) == Some(s@),
        text::opt_text(None) is None,
        text::opt_string(Some(t)) == Some(t@),
        text::opt_string(None) is None,
        tool_call::opt_string_ref(Some(&t)) == Some(t@),
        tool_call::opt_string_ref(None) is None,
        tool_call::reason_or_empty(Some(s@)) == s@,
        tool_call::reason_or_empty(None).len() == 0,
{
}

// ---- stop reasons ----

/// Words of a response that was cut short.
pub open spec fn names_truncation(low: Seq<char>) -> bool {
    ||| holds(low, "incomplete"@)
    ||| holds(low, "max_output_tokens"@)
    ||| holds(low, "max_tokens"@)
    ||| holds(low, "length"@)
    ||| holds(low, "trunc"@)
    ||| holds(low, "commentary"@)
}

/// Words of a guardrail.
pub open spec fn names_guardrail(low: Seq<char>) -> bool {
    ||| low == "refusal"@
    ||| low == "content_filter"@
    ||| low == "safety"@
    ||| holds(low, "guardrail"@)
    ||| holds(low, "policy_violation"@)
}

/// The stop reason is there and reads like one of a guardrail.
pub open spec fn stopped_by_guardrail(stop_reason: Option<Seq<char>>) -> bool {
    stop_reason matches Some(reason) && exists|low: Seq<char>| #[trigger]
        reads(reason, low) && names_guardrail(low)
}

proof fn lemma_orderly_reasons_name_nothing(low: Seq<char>)
    requires
        low == "stop"@ || low == "end_turn"@ || low == "tool_use"@,
    ensures
        !names_truncation(low),
        !names_guardrail(low),
{
    reveal_strlit("stop");
    reveal_strlit("end_turn");
    reveal_strlit("tool_use");
    reveal_strlit("incomplete");
    reveal_strlit("max_output_tokens");
    reveal_strlit("max_tokens");
    reveal_strlit("length");
    reveal_strlit("trunc");
    reveal_strlit("commentary");
    reveal_strlit("refusal");
    reveal_strlit("content_filter");
    reveal_strlit("safety");
    reveal_strlit("guardrail");
    reveal_strlit("policy_violation");
    assert(low.len() <= 8);
    assert forall|a: Seq<char>, b: Seq<char>| low != #[trigger] (a + "length"@ + b) by {
        let whole = a + "length"@ + b;
        if low == whole {
            assert(whole[a.len() as int] == 'l');
            assert(whole[a.len() as int + 1] == 'e');
        }
    }
    assert forall|a: Seq<char>, b: Seq<char>| low != #[trigger] (a + "trunc"@ + b) by {
        let whole = a + "trunc"@ + b;
        if low == whole {
            assert(whole[a.len() as int] == 't');
            assert(whole[a.len() as int + 1] == 'r');
        }
    }
    if low == "refusal"@ || low == "safety"@ {
        assert(low[0] == 'r' || low[1] == 'a');
    }
}

/// A response is incomplete exactly where its stop reason holds a word of truncation. The orderly
/// stop reasons hold none.
pub proof fn law_truncation_is_named(reason: Seq<char>, low: Seq<char>)
    requires
        reads(reason, low),
    ensures
        stop_reason::continue_spec(reason) <==> names_truncation(low),
        low == "stop"@ || low == "end_turn"@ || low == "tool_use"@ || low.len() == 0
            ==> !stop_reason::continue_spec(reason),
{
    lemma_reads(reason, low);
    law_search_finds_the_leftmost_part(low, "incomplete"@);
    law_search_finds_the_leftmost_part(low, "max_output_tokens"@);
    law_search_finds_the_leftmost_part(low, "max_tokens"@);
    law_search_finds_the_leftmost_part(low, "length"@);
    law_search_finds_the_leftmost_part(low, "trunc"@);
    law_search_finds_the_leftmost_part(low, "commentary"@);
    if low == "stop"@ || low == "end_turn"@ || low == "tool_use"@ {
        lemma_orderly_reasons_name_nothing(low);
    }
    if low.len() == 0 {
        reveal_strlit("incomplete");
        reveal_strlit("max_output_tokens");
        reveal_strlit("max_tokens");
        reveal_strlit("length");
        reveal_strlit("trunc");
        reveal_strlit("commentary");
    }
}

/// A stop is a guardrail's exactly where its stop reason is one of theirs or holds a word of them.
/// The orderly stop reasons are never a guardrail's, nor is a missing one.
pub proof fn law_guardrail_is_named(reason: Seq<char>, low: Seq<char>)
    requires
        reads(reason, low),
    ensures
        stop_reason::guardrail_spec(Some(reason)) <==> names_guardrail(low),
        low == "stop"@ || low == "end_turn"@ || low == "tool_use"@ || low.len() == 0
            ==> !stop_reason::guardrail_spec(Some(reason)),
        !stop_reason::guardrail_spec(None),
        stop_reason::guardrail_spec(Some(reason)) <==> stopped_by_guardrail(Some(reason)),
{
    lemma_reads(reason, low);
    law_search_finds_the_leftmost_part(low, "guardrail"@);
    law_search_finds_the_leftmost_part(low, "policy_violation"@);
    if low == "stop"@ || low == "end_turn"@ || low == "tool_use"@ {
        lemma_orderly_reasons_name_nothing(low);
    }
    if low.len() == 0 {
        reveal_strlit("refusal");
        reveal_strlit("content_filter");
        reveal_strlit("safety");
        reveal_strlit("guardrail");
        reveal_strlit("policy_violation");
    }
    assert forall|other: Seq<char>| #[trigger] reads(reason, other) implies other == low by {
        lemma_reads(reason, other);
    }
}

proof fn lemma_guardrail(stop_reason: Option<Seq<char>>)
    ensures
        stop_reason::guardrail_spec(stop_reason) <==> stopped_by_guardrail(stop_reason),
{
    if let Some(reason) = stop_reason {
        let low = law_text_reads_in_one_way(reason);
        law_guardrail_is_named(reason, low);
    }
}

/// A stop is one for a tool call exactly where its stop reason reads `tool_use`.
pub proof fn law_tool_use_is_named(reason: Seq<char>, low: Seq<char>)
    requires
        reads(reason, low),
    ensures
        stop_reason::stranded_spec(Some(reason)) <==> low == "tool_use"@,
        !stop_reason::stranded_spec(None),
{
    lemma_reads(reason, low);
}

/// A refusal is put to the model again exactly where a guardrail stopped it, the model's name holds
/// `fable-5` in any case, and an attempt is left.
pub proof fn law_reconsideration_is_for_fable_guardrails(
    model: Seq<char>,
    low_model: Seq<char>,
    stop_reason: Option<Seq<char>>,
    attempts: u32,
    max_attempts: u32,
)
    requires
        is_lower_form(model, low_model),
    ensures
        stop_reason::reconsider_spec(model, stop_reason, attempts, max_attempts) <==> (
        stopped_by_guardrail(stop_reason) && holds(low_model, "fable-5"@) && attempts
            < max_attempts),
{
    lemma_guardrail(stop_reason);
    law_lower_moves_ascii_capitals(model, low_model);
    law_search_finds_the_leftmost_part(low_model, "fable-5"@);
}

// ---- notices ----

/// `label` shows the stop reason: its core, or `unknown` where there is none to show.
pub open spec fn labels(stop_reason: Option<Seq<char>>, label: Seq<char>) -> bool {
    match stop_reason {
        Some(reason) => if label == "unknown"@ {
            blank(reason) || is_core(reason, label)
        } else {
            label.len() > 0 && is_core(reason, label)
        },
        None => label == "unknown"@,
    }
}

proof fn lemma_label(stop_reason: Option<Seq<char>>, label: Seq<char>)
    ensures
        labels(stop_reason, label) <==> label == notice::reason_label_spec(stop_reason),
{
    reveal_strlit("unknown");
    if let Some(reason) = stop_reason {
        let core = text::trim_spec(reason);
        law_trim_gives_the_core(reason, core);
        law_trim_gives_the_core(reason, label);
        if blank(reason) {
            text::lemma_trim_white_space(reason);
        } else if core.len() == 0 {
            let (a, b) = choose|a: Seq<char>, b: Seq<char>|
                reason == #[trigger] (a + core + b) && blank(a) && blank(b);
            assert(blank(reason)) by {
                assert forall|i: int| 0 <= i < reason.len() implies text::is_white_space(
                    #[trigger] reason[i],
                ) by {
                    if i < a.len() {
                        assert(reason[i] == a[i]);
                    } else {
                        assert(reason[i] == b[i - a.len()]);
                    }
                }
            }
        }
    }
}

/// The user is told of a guardrail wherever one stopped the turn, of an empty response wherever
/// nothing visible came otherwise, and of nothing else; each time with the stop reason.
pub proof fn law_notice_tells_what_happened(
    stop_reason: Option<Seq<char>>,
    label: Seq<char>,
    visible_text_empty: bool,
    had_reasoning: bool,
)
    requires
        labels(stop_reason, label),
    ensures
        ({
            let told = notice::provider_notice_spec(
                stop_reason,
                visible_text_empty,
                had_reasoning,
            );
            &&& stopped_by_guardrail(stop_reason) ==> told == Some(
                "Provider guardrail stopped the response (stop_reason: "@ + label
                    + "). The model declined to answer this request. Rephrasing, narrowing the request, or providing more context may help."@,
            )
            &&& !stopped_by_guardrail(stop_reason) && visible_text_empty && had_reasoning ==> told
                == Some(
                "The model ended its turn without any visible output"@
                    + " after producing only internal reasoning"@ + " (stop_reason: "@ + label
                    + "). The provider returned an empty response; this is usually a transient upstream failure rather than a content filter. Retrying the request may help."@,
            )
            &&& !stopped_by_guardrail(stop_reason) && visible_text_empty && !had_reasoning ==> told
                == Some(
                "The model ended its turn without any visible output"@ + " (stop_reason: "@ + label
                    + "). The provider returned an empty response; this is usually a transient upstream failure rather than a content filter. Retrying the request may help."@,
            )
            &&& !stopped_by_guardrail(stop_reason) && !visible_text_empty ==> told is None
        }),
{
    lemma_guardrail(stop_reason);
    lemma_label(stop_reason, label);
    assert("The model ended its turn without any visible output"@ + Seq::<char>::empty()
        == "The model ended its turn without any visible output"@);
}

/// The log names a guardrail stop where a guardrail stopped the turn, and an empty response
/// otherwise.
pub proof fn law_log_event_tells_what_happened(stop_reason: Option<Seq<char>>)
    ensures
        stopped_by_guardrail(stop_reason) ==> notice::log_event_spec(stop_reason)
            == "PROVIDER_GUARDRAIL"@,
        !stopped_by_guardrail(stop_reason) ==> notice::log_event_spec(stop_reason)
            == "PROVIDER_EMPTY_RESPONSE"@,
{
    lemma_guardrail(stop_reason);
}

// ---- continuations ----

/// What happened: nothing where nothing was due; else one attempt was counted, and one message was
/// added for the user's side and saved, with everything before it and the limits as they were.
pub open spec fn sends_if(
    due: bool,
    message: Seq<char>,
    before: AgentView,
    attempts_before: u32,
    after: AgentView,
    attempts_after: u32,
    r: bool,
) -> bool {
    &&& r == due
    &&& attempts_after == attempts_before + if due {
        1int
    } else {
        0int
    }
    &&& after.max_incomplete_continuation_attempts == before.max_incomplete_continuation_attempts
    &&& after.max_empty_post_tool_continuation_attempts
        == before.max_empty_post_tool_continuation_attempts
    &&& after.effects == if due {
        before.effects.push(SessionEffectView::AddMessage { role: Role::User, text: message }).push(
            SessionEffectView::Save,
        )
    } else {
        before.effects
    }
}

proof fn lemma_follows(
    message: Option<Seq<char>>,
    before: AgentView,
    attempts_before: u32,
    after: AgentView,
    attempts_after: u32,
    r: bool,
)
    requires
        continuation::follows(message, before, attempts_before, after, attempts_after, r),
    ensures
        sends_if(
            message is Some,
            message->0,
            before,
            attempts_before,
            after,
            attempts_after,
            r,
        ),
{
    if let Some(text) = message {
        assert(after.effects == before.effects.push(
            SessionEffectView::AddMessage { role: Role::User, text },
        ).push(SessionEffectView::Save));
    }
}

/// Every response whose stop reason holds a word of truncation is continued while an attempt is
/// left, with a prompt that gives the stop reason; no other is.
pub proof fn law_incomplete_response_is_continued(
    reason: Seq<char>,
    core: Seq<char>,
    low: Seq<char>,
    before: AgentView,
    attempts_before: u32,
    after: AgentView,
    attempts_after: u32,
    r: bool,
)
    requires
        is_core(reason, core),
        is_lower_form(core, low),
        continuation::follows(
            continuation::incomplete_message(
                Some(reason),
                attempts_before,
                before.max_incomplete_continuation_attempts,
            ),
            before,
            attempts_before,
            after,
            attempts_after,
            r,
        ),
    ensures
        sends_if(
            names_truncation(low) && attempts_before < before.max_incomplete_continuation_attempts,
            "[System reminder: your previous response ended before completion (stop_reason: "@
                + core
                + "). Continue exactly where you left off, do not repeat completed content, and if the next step is a tool call, emit the tool call now.]"@,
            before,
            attempts_before,
            after,
            attempts_after,
            r,
        ),
{
    assert(reads(reason, low));
    law_truncation_is_named(reason, low);
    law_trim_gives_the_core(reason, core);
    let message = continuation::incomplete_message(
        Some(reason),
        attempts_before,
        before.max_incomplete_continuation_attempts,
    );
    lemma_follows(message, before, attempts_before, after, attempts_after, r);
}

/// The prompt for the rest of a response gives the stop reason without the white space around it.
pub proof fn law_continuation_prompt_gives_the_reason(reason: Seq<char>, core: Seq<char>)
    requires
        is_core(reason, core),
    ensures
        continuation::continuation_prompt_spec(reason)
            == "[System reminder: your previous response ended before completion (stop_reason: "@
            + core
            + "). Continue exactly where you left off, do not repeat completed content, and if the next step is a tool call, emit the tool call now.]"@,
{
    law_trim_gives_the_core(reason, core);
}

/// A stop for a tool call that did not arrive is answered by asking for the call while an attempt
/// is left; no other stop is.
pub proof fn law_stranded_tool_use_is_continued(
    reason: Seq<char>,
    low: Seq<char>,
    before: AgentView,
    attempts_before: u32,
    after: AgentView,
    attempts_after: u32,
    r: bool,
)
    requires
        reads(reason, low),
        continuation::follows(
            continuation::stranded_message(
                Some(reason),
                attempts_before,
                before.max_incomplete_continuation_attempts,
            ),
            before,
            attempts_before,
            after,
            attempts_after,
            r,
        ),
    ensures
        sends_if(
            low == "tool_use"@ && attempts_before < before.max_incomplete_continuation_attempts,
            "[System reminder: your previous response ended with stop_reason \"tool_use\" but no tool call arrived. Nothing was executed. Re-issue the tool call you intended, do not repeat completed work, and continue the task.]"@,
            before,
            attempts_before,
            after,
            attempts_after,
            r,
        ),
{
    law_tool_use_is_named(reason, low);
    let message = continuation::stranded_message(
        Some(reason),
        attempts_before,
        before.max_incomplete_continuation_attempts,
    );
    lemma_follows(message, before, attempts_before, after, attempts_after, r);
}

/// Without a stop reason neither the rest of a response nor a tool call is asked for.
pub proof fn law_missing_stop_reason_asks_for_nothing(attempts: u32, max_attempts: u32)
    ensures
        continuation::incomplete_message(None, attempts, max_attempts) is None,
        continuation::stranded_message(None, attempts, max_attempts) is None,
        !stop_reason::continue_spec(tool_call::reason_or_empty(None)),
{
    let low = law_text_reads_in_one_way(Seq::<char>::empty());
    lemma_reads(Seq::<char>::empty(), low);
    law_truncation_is_named(Seq::<char>::empty(), low);
}

/// An empty response to tool results is answered by asking for the answer while an attempt is left,
/// unless a guardrail stopped it; no other response is.
pub proof fn law_empty_post_tool_response_is_continued(
    visible_text_empty: bool,
    prompt_has_recent_tool_result: bool,
    stop_reason: Option<Seq<char>>,
    before: AgentView,
    attempts_before: u32,
    after: AgentView,
    attempts_after: u32,
    r: bool,
)
    requires
        continuation::follows(
            continuation::empty_post_tool_message(
                visible_text_empty,
                prompt_has_recent_tool_result,
                stop_reason,
                attempts_before,
                before.max_empty_post_tool_continuation_attempts,
            ),
            before,
            attempts_before,
            after,
            attempts_after,
            r,
        ),
    ensures
        sends_if(
            visible_text_empty && prompt_has_recent_tool_result && !stopped_by_guardrail(
                stop_reason,
            ) && attempts_before < before.max_empty_post_tool_continuation_attempts,
            "<system-reminder>The previous provider response was empty after tool results. Provide the final answer to the user's last request using the tool results above. Do not call more tools unless absolutely necessary.</system-reminder>"@,
            before,
            attempts_before,
            after,
            attempts_after,
            r,
        ),
{
    lemma_guardrail(stop_reason);
    let message = continuation::empty_post_tool_message(
        visible_text_empty,
        prompt_has_recent_tool_result,
        stop_reason,
        attempts_before,
        before.max_empty_post_tool_continuation_attempts,
    );
    lemma_follows(message, before, attempts_before, after, attempts_after, r);
}

/// A guardrail stop of a Fable 5 model is put to it again three times, each time in other words;
/// no other stop is.
pub proof fn law_fable_guardrail_is_reconsidered(
    model: Seq<char>,
    low_model: Seq<char>,
    stop_reason: Option<Seq<char>>,
    before: AgentView,
    attempts_before: u32,
    after: AgentView,
    attempts_after: u32,
    r: bool,
)
    requires
        is_lower_form(model, low_model),
        continuation::follows(
            continuation::reconsideration_message(model, stop_reason, attempts_before),
            before,
            attempts_before,
            after,
            attempts_after,
            r,
        ),
    ensures
        sends_if(
            stopped_by_guardrail(stop_reason) && holds(low_model, "fable-5"@) && attempts_before
                < 3,
            if attempts_before == 0 {
                "Reassess the user's request using its full context and likely intent rather than isolated keywords. Determine whether answering would enable a concrete harmful action. If no specific safety concern applies, answer normally. Preserve the refusal only when it is genuinely warranted, and briefly identify the specific concern."@
            } else if attempts_before == 1 {
                "Review the request again and distinguish legitimate coding, debugging, defensive, educational, or analytical work from instructions that facilitate harm. If only part of the request is unsafe, help with the safe portions and narrowly limit the rest instead of issuing a blanket refusal."@
            } else {
                "Perform one final, independent policy check. Prefer a safe and useful constrained response when possible. Refuse only the specific content that creates a concrete safety risk; otherwise continue with the user's actual task. Do not weaken a refusal that remains genuinely necessary."@
            },
            before,
            attempts_before,
            after,
            attempts_after,
            r,
        ),
{
    law_reconsideration_is_for_fable_guardrails(
        model,
        low_model,
        stop_reason,
        attempts_before,
        3,
    );
    let message = continuation::reconsideration_message(model, stop_reason, attempts_before);
    lemma_follows(message, before, attempts_before, after, attempts_after, r);
}

// ---- degenerate output ----

/// `bytes` agrees with itself when shifted by some period of at most 64 bytes that fits into it
/// eight times.
pub open spec fn is_periodic(bytes: Seq<u8>) -> bool {
    exists|period: int|
        1 <= period <= 64 && 8 * period <= bytes.len() && #[trigger] laws::agrees_when_shifted(
            bytes,
            period,
        )
}

/// The core of a text decides: from 262144 bytes on it is oversized; from 4096 bytes on, and below
/// that, it is a repeated literal exactly where its bytes are periodic; all else is normal, whatever
/// its size.
pub proof fn law_only_periodic_text_is_repeated(text: Seq<char>, core: Seq<char>)
    requires
        is_core(text, core),
    ensures
        ({
            let bytes = encode_utf8(core);
            let kind = degenerate::classify_spec(text);
            &&& kind == DegenerateKind::Oversized <==> bytes.len() >= 262144
            &&& kind == DegenerateKind::Repeated <==> 4096 <= bytes.len() < 262144 && is_periodic(
                bytes,
            )
            &&& kind == DegenerateKind::Normal <==> bytes.len() < 4096 || (bytes.len() < 262144
                && !is_periodic(bytes))
        }),
{
    law_trim_gives_the_core(text, core);
    laws::law_run_covers_the_whole_text(encode_utf8(core));
}

/// A text is a literal run exactly where its bytes are periodic.
pub proof fn law_literal_run_is_periodic(text: Seq<char>)
    ensures
        degenerate::is_literal_run_spec(encode_utf8(text)) <==> is_periodic(encode_utf8(text)),
{
    laws::law_run_covers_the_whole_text(encode_utf8(text));
}

/// `tenths` is the number of tenths of a KiB that is nearest to `bytes`; between two it is even.
pub open spec fn nearest_tenths(bytes: nat, tenths: nat) -> bool {
    let off = 1024 * tenths - 10 * bytes;
    -512 <= off <= 512 && (off == 512 || off == -512 ==> tenths % 2 == 0)
}

/// A size is rounded to the nearest tenth of a KiB, in one way only.
pub proof fn law_size_is_rounded_in_one_way(bytes: nat, tenths: nat)
    ensures
        nearest_tenths(bytes, tenths) <==> tenths == degenerate::kib_tenths_spec(bytes),
{
}

/// The notice for oversized text gives its size in KiB with one decimal, that for repeated text its
/// size in bytes, and normal text has none.
pub proof fn law_degenerate_notice_gives_the_size(text: Seq<char>, core: Seq<char>)
    requires
        is_core(text, core),
    ensures
        ({
            let bytes = encode_utf8(core);
            let told = degenerate::degenerate_notice_spec(text);
            &&& bytes.len() >= 262144 ==> exists|
                tenths: nat,
                whole: Seq<char>,
                part: Seq<char>,
            |
                {
                    &&& #[trigger] nearest_tenths(bytes.len(), tenths)
                    &&& #[trigger] is_decimal(whole, tenths / 10)
                    &&& #[trigger] is_decimal(part, tenths % 10)
                    &&& told == Some(
                        "The model produced a very large text block ("@ + whole + "."@ + part
                            + " KiB) with no tool call. Its turn was not continued."@,
                    )
                }
            &&& 4096 <= bytes.len() < 262144 && is_periodic(bytes) ==> exists|size: Seq<char>|
                {
                    &&& #[trigger] is_decimal(size, bytes.len())
                    &&& told == Some(
                        "The model kept repeating the same short literal instead of making progress ("@
                            + size + " bytes of repeated text). Its turn was not continued."@,
                    )
                }
            &&& bytes.len() < 4096 || (bytes.len() < 262144 && !is_periodic(bytes)) ==> told is None
        }),
{
    law_only_periodic_text_is_repeated(text, core);
    law_trim_gives_the_core(text, core);
    let bytes = encode_utf8(core).len();
    let tenths = degenerate::kib_tenths_spec(bytes);
    law_size_is_rounded_in_one_way(bytes, tenths);
    law_numbers_are_decimal(bytes);
    law_numbers_are_decimal(tenths / 10);
    law_numbers_are_decimal(tenths % 10);
    assert(nearest_tenths(bytes, tenths));
    assert(is_decimal(text::decimal(tenths / 10), tenths / 10));
    assert(is_decimal(text::decimal(tenths % 10), tenths % 10));
}

} // verus!

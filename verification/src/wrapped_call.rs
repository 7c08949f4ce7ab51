//! Tool calls that a model wrote into its text instead of issuing them.
//!
//! Such a call reads `to=functions.NAME`, then anything, then the arguments as a JSON object.
use vstd::prelude::*;
use vstd::string::*;
use vstd::utf8::*;

use crate::agent::Agent;
use crate::json::{self, read_first_json_value, split_text, Json, JsonKind, JsonView};
use crate::text::{self, chars_of, find, trim, trim_end};

verus! {

/// What stands before the name of a wrapped call.
pub open spec fn marker() -> Seq<char> {
    "to=functions."@
}

/// A character that a tool's name may hold.
pub open spec fn is_name_char(c: char) -> bool {
    'a' <= c <= 'z' || 'A' <= c <= 'Z' || '0' <= c <= '9' || c == '_'
}

/// Every character of `s` may stand in a tool's name.
pub open spec fn all_name_chars(s: Seq<char>) -> bool {
    forall|i: int| 0 <= i < s.len() ==> is_name_char(#[trigger] s[i])
}

/// The number of name characters that `s` starts with.
pub open spec fn name_len(s: Seq<char>) -> nat
    decreases s.len(),
{
    if s.len() > 0 && is_name_char(s[0]) {
        1 + name_len(s.drop_first())
    } else {
        0
    }
}

/// The arguments of a call and the trimmed text behind them, if `slice` was read as starting
/// with an object.
pub open spec fn candidate_spec(slice: Seq<char>, reading: Option<(JsonKind, usize)>) -> Option<
    (JsonView, Seq<char>),
> {
    match reading {
        Some((JsonKind::Object, end)) => Some(
            (
                JsonView {
                    kind: JsonKind::Object,
                    text: json::head_spec(slice, end as int),
                },
                text::trim_spec(json::tail_spec(slice, end as int)),
            ),
        ),
        _ => None,
    }
}

/// The candidate that starts at position `at` of `rest`: there is one where an object starts.
pub open spec fn candidate_at(rest: Seq<char>, at: int) -> Option<
    (JsonView, Seq<char>),
> {
    if 0 <= at < rest.len() && rest[at] == '{' {
        candidate_spec(rest.skip(at), json::first_json_value(rest.skip(at)))
    } else {
        None
    }
}

/// `at` is the leftmost position of a candidate in `rest`.
pub open spec fn first_candidate_at(rest: Seq<char>, at: int) -> bool {
    candidate_at(rest, at) is Some && forall|j: int|
        j < at ==> #[trigger] candidate_at(rest, j) is None
}

/// At position `at` stands a candidate with nothing but white space behind it.
pub open spec fn closes_at(rest: Seq<char>, at: int) -> bool {
    candidate_at(rest, at) matches Some((_, suffix)) && suffix.len() == 0
}

/// `at` is the leftmost position of a candidate with nothing but white space behind it.
pub open spec fn first_closing_at(rest: Seq<char>, at: int) -> bool {
    closes_at(rest, at) && forall|j: int| j < at ==> !closes_at(rest, j)
}

/// The candidate that counts: the leftmost with nothing behind it, else the leftmost.
pub open spec fn chosen_candidate(rest: Seq<char>) -> Option<(JsonView, Seq<char>)> {
    if exists|at: int| first_closing_at(rest, at) {
        candidate_at(rest, choose|at: int| first_closing_at(rest, at))
    } else if exists|at: int| first_candidate_at(rest, at) {
        candidate_at(rest, choose|at: int| first_candidate_at(rest, at))
    } else {
        None
    }
}

/// The text before the leftmost marker, the name behind it, and the text behind the name.
pub open spec fn header_spec(text: Seq<char>) -> Option<(Seq<char>, Seq<char>, Seq<char>)> {
    match text::find_spec(text, marker()) {
        None => None,
        Some(at) => {
            let after = text.skip(at + marker().len());
            let len = name_len(after) as int;
            if len == 0 {
                None
            } else {
                Some((text::trim_end_spec(text.take(at)), after.take(len), after.skip(len)))
            }
        },
    }
}

/// The wrapped call in `text`: what stands before it, the tool's name, the arguments, and what
/// stands behind it.
pub open spec fn wrapped_call_spec(text: Seq<char>) -> Option<
    (Seq<char>, Seq<char>, JsonView, Seq<char>),
> {
    match header_spec(text) {
        None => None,
        Some((prefix, name, rest)) => match chosen_candidate(rest) {
            None => None,
            Some((arguments, suffix)) => Some((prefix, name, arguments, suffix)),
        },
    }
}

/// The views of a candidate.
pub open spec fn candidate_view(candidate: Option<(Json, String)>) -> Option<
    (JsonView, Seq<char>),
> {
    match candidate {
        Some((arguments, suffix)) => Some((arguments@, suffix@)),
        None => None,
    }
}

/// The views of a wrapped call.
pub open spec fn wrapped_call_view(call: Option<(String, String, Json, String)>) -> Option<
    (Seq<char>, Seq<char>, JsonView, Seq<char>),
> {
    match call {
        Some((prefix, name, arguments, suffix)) => Some((prefix@, name@, arguments@, suffix@)),
        None => None,
    }
}

/// The arguments are a part of `rest`, and `suffix` is what stands behind them there, trimmed.
pub open spec fn cut_from_rest(rest: Seq<char>, arguments: JsonView, suffix: Seq<char>) -> bool {
    exists|gap: Seq<char>, after: Seq<char>|
        rest == #[trigger] (gap + arguments.text + after) && suffix == text::trim_spec(after)
}

/// The call stands in `text` piece by piece: something, the marker, the name, a gap, the arguments
/// and the rest, where `prefix` and `suffix` are the outer pieces trimmed.
pub open spec fn cut_from_text(
    text: Seq<char>,
    prefix: Seq<char>,
    name: Seq<char>,
    arguments: JsonView,
    suffix: Seq<char>,
) -> bool {
    exists|before: Seq<char>, gap: Seq<char>, after: Seq<char>|
        text == #[trigger] (before + marker() + name + gap + arguments.text + after) && prefix
            == text::trim_end_spec(before) && suffix == text::trim_spec(after)
}

/// How the search for the arguments stands after one more place was read.
pub enum Search {
    /// The arguments and the empty text behind them: the search is over.
    Settled(Json, String),
    /// The search goes on, with the candidate to fall back on.
    Open(Option<(Json, String)>),
}

/// Splits `text` at its leftmost marker: the text before it, the name behind it, and the text
/// behind the name.
pub fn split_header<'a>(text: &'a str) -> (r: Option<(&'a str, &'a str, &'a str)>)
    ensures
        match r {
            Some((prefix, name, rest)) => header_spec(text@) == Some((prefix@, name@, rest@)),
            None => header_spec(text@) is None,
        },
{
    let chars = chars_of(text);
    let marker_text = "to=functions.";
    proof {
        reveal_strlit("to=functions.");
    }
    let at = match find(&chars, marker_text) {
        Some(at) => at,
        None => return None,
    };
    assert(at + 13 <= chars.len());
    let from: usize = at + 13;
    let mut to: usize = from;
    let ghost after = text@.skip(from as int);
    assert(after.skip(0) == after);
    while to < chars.len() && name_char(chars[to])
        invariant
            chars@ == text@,
            from <= to <= chars.len(),
            after == text@.skip(from as int),
            name_len(after) == to - from + name_len(after.skip(to - from)),
        decreases chars.len() - to,
    {
        assert(after.skip(to - from).drop_first() == after.skip(to + 1 - from));
        to = to + 1;
    }
    if to == from {
        return None;
    }
    let prefix = trim_end(text.substring_char(0, at));
    let name = text.substring_char(from, to);
    let rest = text.substring_char(to, chars.len());
    assert(text@.subrange(0, at as int) == text@.take(at as int));
    assert(name@ == after.take(to - from));
    assert(rest@ == after.skip(to - from));
    Some((prefix, name, rest))
}

fn name_char(c: char) -> (r: bool)
    ensures
        r == is_name_char(c),
{
    ('a' <= c && c <= 'z') || ('A' <= c && c <= 'Z') || ('0' <= c && c <= '9') || c == '_'
}

/// Weighs what was read at one opening brace. `slice` is the text from that brace on, `reading`
/// what stands at its start, and `fallback` the candidate found so far.
pub fn weigh_reading(
    slice: &str,
    reading: Option<(JsonKind, usize)>,
    fallback: Option<(Json, String)>,
) -> (r: Search)
    requires
        reading matches Some((_, end)) ==> is_char_boundary(encode_utf8(slice@), end as int),
    ensures
        match candidate_spec(slice@, reading) {
            None => r == Search::Open(fallback),
            Some((arguments, suffix)) => if suffix.len() == 0 {
                r matches Search::Settled(a, s) && a@ == arguments && s@ == suffix
            } else if fallback is Some {
                r == Search::Open(fallback)
            } else {
                r matches Search::Open(c) && candidate_view(c) == Some((arguments, suffix))
            },
        },
{
    let end = match reading {
        Some((JsonKind::Object, end)) => end,
        _ => return Search::Open(fallback),
    };
    let (head, tail) = split_text(slice, end);
    let arguments = Json { kind: JsonKind::Object, text: head.to_owned() };
    let suffix = trim(tail).to_owned();
    if suffix.as_str().is_empty() {
        return Search::Settled(arguments, suffix);
    }
    match fallback {
        Some(candidate) => Search::Open(Some(candidate)),
        None => Search::Open(Some((arguments, suffix))),
    }
}

/// Searches `rest` for the arguments of a call.
fn search_arguments(rest: &str) -> (r: Option<(Json, String)>)
    ensures
        candidate_view(r) == chosen_candidate(rest@),
        r matches Some((arguments, suffix)) ==> arguments@.well_formed() && arguments@.kind
            == JsonKind::Object && cut_from_rest(rest@, arguments@, suffix@),
{
    let chars = chars_of(rest);
    let mut fallback: Option<(Json, String)> = None;
    let mut at: usize = 0;
    let ghost mut first: int = 0;
    while at < chars.len()
        invariant
            chars@ == rest@,
            at <= chars.len(),
            forall|j: int| j < at ==> !closes_at(rest@, j),
            fallback is None ==> forall|j: int| j < at ==> #[trigger] candidate_at(rest@, j) is None,
            fallback is Some ==> first_candidate_at(rest@, first) && candidate_view(fallback)
                == candidate_at(rest@, first),
            fallback matches Some((arguments, suffix)) ==> arguments@.well_formed()
                && arguments@.kind == JsonKind::Object && cut_from_rest(
                rest@,
                arguments@,
                suffix@,
            ),
        decreases chars.len() - at,
    {
        if chars[at] == '{' {
            let slice = rest.substring_char(at, chars.len());
            assert(slice@ == rest@.skip(at as int));
            let reading = read_first_json_value(slice);
            proof {
                if let Some((JsonKind::Object, end)) = reading {
                    json::lemma_split_text(slice@, end as int);
                    lemma_cut_at(rest@, at as int, end as int);
                }
            }
            let ghost before = fallback;
            match weigh_reading(slice, reading, fallback) {
                Search::Settled(arguments, suffix) => {
                    proof {
                        lemma_closing(rest@, at as int);
                    }
                    return Some((arguments, suffix));
                },
                Search::Open(candidate) => {
                    fallback = candidate;
                    proof {
                        if before is None {
                            first = at as int;
                        }
                    }
                },
            }
        }
        at = at + 1;
    }
    proof {
        if fallback is Some {
            lemma_first_candidate(rest@, first);
        } else {
            assert forall|j: int| !first_candidate_at(rest@, j) by {
                assert(candidate_at(rest@, j) is None);
            }
        }
    }
    fallback
}

impl Agent {
    /// Reads the wrapped call in `text`: the text before it, the tool's name, the arguments and
    /// the text behind it.
    pub fn parse_text_wrapped_tool_call(text: &str) -> (r: Option<(String, String, Json, String)>)
        ensures
            wrapped_call_view(r) == wrapped_call_spec(text@),
            r matches Some((prefix, name, arguments, suffix)) ==> {
                &&& name@.len() > 0 && all_name_chars(name@)
                &&& arguments@.kind == JsonKind::Object && arguments@.well_formed()
                &&& cut_from_text(text@, prefix@, name@, arguments@, suffix@)
            },
    {
        let (prefix, name, rest) = match split_header(text) {
            Some(header) => header,
            None => return None,
        };
        match search_arguments(rest) {
            Some((arguments, suffix)) => {
                proof {
                    lemma_cut_from_text(text@, arguments@, suffix@);
                }
                Some((prefix.to_owned(), name.to_owned(), arguments, suffix))
            },
            None => None,
        }
    }
}

proof fn lemma_name_is_prefix(s: Seq<char>)
    ensures
        name_len(s) <= s.len(),
        all_name_chars(s.take(name_len(s) as int)),
    decreases s.len(),
{
    if s.len() > 0 && is_name_char(s[0]) {
        let rest = s.drop_first();
        lemma_name_is_prefix(rest);
        let name = s.take(name_len(s) as int);
        assert forall|i: int| 0 <= i < name.len() implies is_name_char(
            #[trigger] name[i],
        ) by {
            if i > 0 {
                assert(rest.take(name_len(rest) as int)[i - 1] == name[i]);
            }
        }
    }
}

/// A reading of `end` bytes at position `at` cuts `rest` in three.
proof fn lemma_cut_at(rest: Seq<char>, at: int, end: int)
    requires
        0 <= at < rest.len(),
        is_char_boundary(encode_utf8(rest.skip(at)), end),
    ensures
        cut_from_rest(
            rest,
            JsonView { kind: JsonKind::Object, text: json::head_spec(rest.skip(at), end) },
            text::trim_spec(json::tail_spec(rest.skip(at), end)),
        ),
{
    let slice = rest.skip(at);
    let (head, tail) = (json::head_spec(slice, end), json::tail_spec(slice, end));
    json::lemma_split_text(slice, end);
    assert(rest == rest.take(at) + slice);
    let arguments = JsonView { kind: JsonKind::Object, text: head };
    assert(rest == rest.take(at) + arguments.text + tail);
}

/// What is cut from the text behind the name is cut from the text.
proof fn lemma_cut_from_text(text: Seq<char>, arguments: JsonView, suffix: Seq<char>)
    requires
        header_spec(text) is Some,
        cut_from_rest((header_spec(text)->0).2, arguments, suffix),
    ensures
        (header_spec(text)->0).1.len() > 0,
        all_name_chars((header_spec(text)->0).1),
        cut_from_text(text, (header_spec(text)->0).0, (header_spec(text)->0).1, arguments, suffix),
{
    let at = text::find_spec(text, marker())->0;
    assert(text::occurs_first_at(text, marker(), at));
    let tail = text.skip(at + marker().len());
    let len = name_len(tail) as int;
    lemma_name_is_prefix(tail);
    let rest = tail.skip(len);
    let (gap, after) = choose|gap: Seq<char>, after: Seq<char>|
        rest == #[trigger] (gap + arguments.text + after) && suffix == text::trim_spec(after);
    let before = text.take(at);
    assert(text == before + text.subrange(at, at + marker().len()) + tail);
    assert(tail == tail.take(len) + rest);
    assert(text == before + marker() + tail.take(len) + gap + arguments.text + after);
}

/// Where no candidate closes, the leftmost is the chosen one.
pub proof fn lemma_first_candidate(rest: Seq<char>, at: int)
    requires
        first_candidate_at(rest, at),
        forall|j: int| !closes_at(rest, j),
    ensures
        chosen_candidate(rest) == candidate_at(rest, at),
{
    let other = choose|j: int| first_candidate_at(rest, j);
    assert(first_candidate_at(rest, other));
    if other < at {
        assert(candidate_at(rest, other) is None);
    } else if at < other {
        assert(candidate_at(rest, at) is None);
    }
}

/// The leftmost closing candidate is the chosen one.
pub proof fn lemma_closing(rest: Seq<char>, at: int)
    requires
        first_closing_at(rest, at),
    ensures
        chosen_candidate(rest) == candidate_at(rest, at),
{
    let other = choose|j: int| first_closing_at(rest, j);
    assert(first_closing_at(rest, other));
    if other < at {
        assert(!closes_at(rest, other));
    } else if at < other {
        assert(!closes_at(rest, at));
    }
}

} // verus!

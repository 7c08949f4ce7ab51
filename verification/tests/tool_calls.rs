use response_recovery::agent::{Agent, SessionEffect};
use response_recovery::json::{split_text, Json, JsonKind};
use response_recovery::tool_call::{remaining_text, ToolCall};
use response_recovery::wrapped_call::{split_header, weigh_reading, Search};

/// The parts of the wrapped call in `text`.
fn parse(text: &str) -> Option<(String, String, String, String)> {
    Agent::parse_text_wrapped_tool_call(text).map(|(prefix, name, arguments, suffix)| {
        assert_eq!(arguments.kind, JsonKind::Object);
        assert!(arguments.is_object());
        (prefix, name, arguments.text, suffix)
    })
}

fn parts(prefix: &str, name: &str, arguments: &str, suffix: &str) -> Option<(String, String, String, String)> {
    Some((prefix.to_string(), name.to_string(), arguments.to_string(), suffix.to_string()))
}

fn call(name: &str, kind: JsonKind, text: &str) -> ToolCall {
    ToolCall {
        id: format!("id_{}", name),
        name: name.to_string(),
        input: Json { kind, text: text.to_string() },
        intent: None,
        thought_signature: None,
    }
}

#[test]
fn call_is_read_from_text() {
    assert_eq!(
        parse("I will look.\nto=functions.read_file {\"path\":\"a.rs\"}"),
        parts("I will look.", "read_file", "{\"path\":\"a.rs\"}", "")
    );
    assert_eq!(parse("to=functions.x{}"), parts("", "x", "{}", ""));
    assert_eq!(
        parse("  to=functions.Bash2 commentary json\n{ \"a\" : [1, {\"b\": null}] }\n "),
        parts("", "Bash2", "{ \"a\" : [1, {\"b\": null}] }", "")
    );
}

#[test]
fn text_behind_the_call_is_kept() {
    assert_eq!(
        parse("to=functions.ls {\"a\":1}  done.\n"),
        parts("", "ls", "{\"a\":1}", "done.")
    );
}

#[test]
fn call_with_nothing_behind_it_is_preferred() {
    assert_eq!(
        parse("to=functions.ls {\"a\":1} then {\"b\":2}"),
        parts("", "ls", "{\"b\":2}", "")
    );
    assert_eq!(
        parse("to=functions.ls {\"a\":1} then {\"b\":2} end"),
        parts("", "ls", "{\"a\":1}", "then {\"b\":2} end")
    );
}

#[test]
fn braces_that_open_no_object_are_skipped() {
    assert_eq!(
        parse("to=functions.ls {oops} {\"b\":2}"),
        parts("", "ls", "{\"b\":2}", "")
    );
    assert_eq!(
        parse("to=functions.ls { {\"c\":3}"),
        parts("", "ls", "{\"c\":3}", "")
    );
    assert_eq!(parse("to=functions.ls {\"a\":1"), None);
    assert_eq!(parse("to=functions.ls [1, 2]"), None);
}

#[test]
fn characters_of_any_width_are_cut_right() {
    assert_eq!(
        parse("h\u{e9} \u{1f600} to=functions.say \u{4e2d} {\"t\":\"\u{1f600}}\u{e9}\"} \u{3000}\u{e9}nd"),
        parts("h\u{e9} \u{1f600}", "say", "{\"t\":\"\u{1f600}}\u{e9}\"}", "\u{e9}nd")
    );
}

#[test]
fn text_without_marker_or_name_holds_no_call() {
    assert_eq!(parse(""), None);
    assert_eq!(parse("{\"a\":1}"), None);
    assert_eq!(parse("to=functions. {\"a\":1}"), None);
    assert_eq!(parse("to=function.ls {\"a\":1}"), None);
    // The leftmost marker counts.
    assert_eq!(parse("to=functions.! to=functions.ls {}"), None);
}

#[test]
fn name_ends_at_the_first_other_character() {
    assert_eq!(parse("to=functions.a_B9-c {}"), parts("", "a_B9", "{}", ""));
    assert_eq!(parse("to=functions.\u{e9} {}"), None);
}

#[test]
fn header_is_split_at_the_leftmost_marker() {
    assert_eq!(
        split_header("a b  to=functions.x1 to=functions.y {}"),
        Some(("a b", "x1", " to=functions.y {}"))
    );
    assert_eq!(split_header("nothing here"), None);
    assert_eq!(split_header("to=functions."), None);
}

#[test]
fn readings_are_weighed() {
    let slice = "{\"\u{e9}\":1} rest ";
    let settled = weigh_reading("{} \n", Some((JsonKind::Object, 2)), None);
    assert!(matches!(settled, Search::Settled(ref a, ref s) if a.text == "{}" && s.is_empty()));
    let first = weigh_reading(slice, Some((JsonKind::Object, 8)), None);
    assert!(matches!(first, Search::Open(Some((ref a, ref s))) if a.text == "{\"\u{e9}\":1}" && s == "rest"));
    let earlier = Json { kind: JsonKind::Object, text: "{}".to_string() };
    let later = weigh_reading(slice, Some((JsonKind::Object, 8)), Some((earlier, "x".to_string())));
    assert!(matches!(later, Search::Open(Some((ref a, ref s))) if a.text == "{}" && s == "x"));
    assert!(matches!(weigh_reading("[1]", Some((JsonKind::Array, 3)), None), Search::Open(None)));
    assert!(matches!(weigh_reading("{", None, None), Search::Open(None)));
}

#[test]
fn text_is_split_by_bytes() {
    assert_eq!(split_text("\u{e9}a", 2), ("\u{e9}", "a"));
    assert_eq!(split_text("ab", 0), ("", "ab"));
    assert_eq!(split_text("ab", 2), ("ab", ""));
}

#[test]
fn remaining_text_joins_what_is_there() {
    assert_eq!(remaining_text("a", "b"), "a\nb");
    assert_eq!(remaining_text("a", ""), "a");
    assert_eq!(remaining_text("", "b"), "b");
    assert_eq!(remaining_text("", ""), "");
}

#[test]
fn wrapped_call_is_recovered() {
    let agent = Agent::new(1, 1);
    let mut text = "Before.  to=functions.write {\"intent\":\"save\"} after".to_string();
    let mut calls: Vec<ToolCall> = Vec::new();
    let recovered = agent.recover_text_wrapped_tool_call(
        &mut text,
        &mut calls,
        |prefix: &str| format!("{}_42", prefix),
        |input: &Json| Some(format!("{} bytes", input.text.len())),
    );
    assert!(recovered);
    assert_eq!(text, "Before.\nafter");
    assert_eq!(calls.len(), 1);
    assert_eq!(calls[0].id, "fallback_text_call_call_42");
    assert_eq!(calls[0].name, "write");
    assert_eq!(calls[0].input.kind, JsonKind::Object);
    assert_eq!(calls[0].input.text, "{\"intent\":\"save\"}");
    assert_eq!(calls[0].intent.as_deref(), Some("17 bytes"));
    assert!(calls[0].thought_signature.is_none());
    // What was recovered reads as the same value.
    let value: serde_json::Value = serde_json::from_str(&calls[0].input.text).unwrap();
    assert_eq!(value["intent"], "save");
}

#[test]
fn call_is_recovered_at_most_once() {
    let agent = Agent::new(1, 1);
    let wrapped = "to=functions.a {} to=functions.b {} x";
    let mut text = wrapped.to_string();
    let mut calls = vec![call("given", JsonKind::Object, "{}")];
    assert!(!agent.recover_text_wrapped_tool_call(
        &mut text,
        &mut calls,
        |_: &str| unreachable!(),
        |_: &Json| unreachable!(),
    ));
    assert_eq!(text, wrapped);
    assert_eq!(calls.len(), 1);
}

#[test]
fn nothing_is_recovered_from_other_text() {
    let agent = Agent::new(1, 1);
    for other in ["", " \n ", "just prose {\"a\":1}", "to=functions.x no arguments"] {
        let mut text = other.to_string();
        let mut calls: Vec<ToolCall> = Vec::new();
        assert!(!agent.recover_text_wrapped_tool_call(
            &mut text,
            &mut calls,
            |_: &str| unreachable!(),
            |_: &Json| unreachable!(),
        ));
        assert_eq!(text, other);
        assert!(calls.is_empty());
    }
}

#[test]
fn lost_calls_are_dropped_in_order() {
    let mut agent = Agent::new(1, 1);
    let mut calls = vec![
        call("a", JsonKind::Null, "null"),
        call("b", JsonKind::Object, "{}"),
        call("c", JsonKind::Null, "null"),
        call("d", JsonKind::Text, "\"null\""),
    ];
    let id = "msg".to_string();
    agent.filter_truncated_tool_calls(Some("max_tokens"), &mut calls, Some(&id));
    let names: Vec<&str> = calls.iter().map(|c| c.name.as_str()).collect();
    assert_eq!(names, ["b", "d"]);
    assert!(agent.take_effects().is_empty());
}

#[test]
fn message_is_repaired_where_every_call_is_lost() {
    let mut agent = Agent::new(1, 1);
    let id = "msg".to_string();
    let mut calls = vec![call("a", JsonKind::Null, "null"), call("b", JsonKind::Null, "null")];
    assert!(calls[0].input.is_null());
    agent.filter_truncated_tool_calls(Some("length"), &mut calls, Some(&id));
    assert!(calls.is_empty());
    let effects = agent.take_effects();
    assert_eq!(effects.len(), 2);
    assert!(matches!(effects[0], SessionEffect::RemoveToolUseBlocks { ref message_id } if message_id == "msg"));
    assert!(matches!(effects[1], SessionEffect::PersistBestEffort { ref reason } if reason == "truncated tool-call repair"));
    // Once more changes nothing.
    agent.filter_truncated_tool_calls(Some("length"), &mut calls, Some(&id));
    assert!(calls.is_empty());
    assert!(agent.take_effects().is_empty());
    // Without a message there is nothing to repair.
    let mut calls = vec![call("a", JsonKind::Null, "null")];
    agent.filter_truncated_tool_calls(Some("length"), &mut calls, None);
    assert!(calls.is_empty());
    assert!(agent.take_effects().is_empty());
}

#[test]
fn complete_response_keeps_its_calls() {
    let mut agent = Agent::new(1, 1);
    let id = "msg".to_string();
    for reason in [None, Some(""), Some("stop"), Some("tool_use")] {
        let mut calls = vec![call("a", JsonKind::Null, "null")];
        agent.filter_truncated_tool_calls(reason, &mut calls, Some(&id));
        assert_eq!(calls.len(), 1);
        assert!(agent.take_effects().is_empty());
    }
}

# response_recovery

Rules by which a coding agent recovers from model responses that are incomplete, refused, empty or
degenerate, written and proved in Verus.

- `src/stop_reason.rs`: what a provider's stop reason says of a turn.
- `src/continuation.rs`: when a turn is taken up again, and what the model is told then.
- `src/degenerate.rs`: detection of repeated literals and runaway text.
- `src/wrapped_call.rs`, `src/tool_call.rs`: tool calls written into text, and calls lost to
  truncation.
- `src/notice.rs`: what the user and the log are told.
- `src/agent.rs`: the agent, and what the rules ask of its session.
- `src/json.rs`: JSON values, read by `serde_json`.
- `src/text.rs`: text as a sequence of characters.
- `src/laws.rs`: what holds of the rules taken together.

`app/` applies the rules to a live session: it performs what they ask and logs it.

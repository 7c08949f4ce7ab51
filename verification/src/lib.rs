//! Rules by which a coding agent recovers from incomplete, refused, empty or degenerate model
//! responses.
pub mod agent;
pub mod behavior;
pub mod call_behavior;
pub mod continuation;
pub mod degenerate;
pub mod json;
pub mod laws;
pub mod notice;
pub mod stop_reason;
pub mod text;
pub mod tool_call;
pub mod wrapped_call;

//! The agent, as far as the recovery rules read and change it.
use vstd::prelude::*;

verus! {

/// Who a message of the transcript comes from.
#[derive(Debug, Clone, Copy, PartialEq, Eq, Structural)]
pub enum Role {
    User,
    Assistant,
}

/// Something that a recovery rule asks of the session.
#[derive(Debug)]
pub enum SessionEffect {
    /// Append a message that consists of one plain text block, without cache control.
    AddMessage { role: Role, text: String },
    /// Save the session; a failure is the caller's to report.
    Save,
    /// Drop the tool-use blocks of a message.
    RemoveToolUseBlocks { message_id: String },
    /// Save the session, ignoring failures, for the reason given.
    PersistBestEffort { reason: String },
}

/// A [`SessionEffect`] with its texts as sequences of characters.
pub enum SessionEffectView {
    AddMessage { role: Role, text: Seq<char> },
    Save,
    RemoveToolUseBlocks { message_id: Seq<char> },
    PersistBestEffort { reason: Seq<char> },
}

impl View for SessionEffect {
    type V = SessionEffectView;

    open spec fn view(&self) -> SessionEffectView {
        match *self {
            SessionEffect::AddMessage { role, text } => SessionEffectView::AddMessage {
                role,
                text: text@,
            },
            SessionEffect::Save => SessionEffectView::Save,
            SessionEffect::RemoveToolUseBlocks { message_id } => {
                SessionEffectView::RemoveToolUseBlocks { message_id: message_id@ }
            },
            SessionEffect::PersistBestEffort { reason } => SessionEffectView::PersistBestEffort {
                reason: reason@,
            },
        }
    }
}

/// An agent: how often it may ask for a continuation, and what it has yet to do to its session.
#[derive(Debug)]
pub struct Agent {
    /// How often one turn may be continued after an incomplete response.
    pub max_incomplete_continuation_attempts: u32,
    /// How often one turn may be continued after an empty response to tool results.
    pub max_empty_post_tool_continuation_attempts: u32,
    /// What is to be done to the session, in this order.
    pub effects: Vec<SessionEffect>,
}

/// An [`Agent`] with its effects as a sequence of views.
#[verifier::ext_equal]
pub struct AgentView {
    pub max_incomplete_continuation_attempts: u32,
    pub max_empty_post_tool_continuation_attempts: u32,
    pub effects: Seq<SessionEffectView>,
}

impl View for Agent {
    type V = AgentView;

    open spec fn view(&self) -> AgentView {
        AgentView {
            max_incomplete_continuation_attempts: self.max_incomplete_continuation_attempts,
            max_empty_post_tool_continuation_attempts:
                self.max_empty_post_tool_continuation_attempts,
            effects: effects_view(self.effects@),
        }
    }
}

/// The views of a sequence of effects.
pub open spec fn effects_view(effects: Seq<SessionEffect>) -> Seq<SessionEffectView> {
    Seq::new(effects.len(), |i: int| effects[i]@)
}

/// What it takes to send `text` to the model as a user message.
pub open spec fn user_message(text: Seq<char>) -> Seq<SessionEffectView> {
    seq![SessionEffectView::AddMessage { role: Role::User, text }, SessionEffectView::Save]
}

impl AgentView {
    /// This agent with more to do.
    pub open spec fn with(self, effects: Seq<SessionEffectView>) -> AgentView {
        AgentView { effects: self.effects + effects, ..self }
    }
}

impl Agent {
    /// An agent with the given limits and nothing to do.
    pub fn new(
        max_incomplete_continuation_attempts: u32,
        max_empty_post_tool_continuation_attempts: u32,
    ) -> (r: Self)
        ensures
            r@ == (AgentView {
                max_incomplete_continuation_attempts,
                max_empty_post_tool_continuation_attempts,
                effects: Seq::empty(),
            }),
    {
        Agent {
            max_incomplete_continuation_attempts,
            max_empty_post_tool_continuation_attempts,
            effects: Vec::new(),
        }
    }

    /// Hands over what is to be done to the session.
    pub fn take_effects(&mut self) -> (r: Vec<SessionEffect>)
        ensures
            r@ == old(self).effects@,
            final(self)@ == (AgentView { effects: Seq::empty(), ..old(self)@ }),
    {
        let mut taken: Vec<SessionEffect> = Vec::new();
        std::mem::swap(&mut taken, &mut self.effects);
        taken
    }

    /// Adds one thing to do.
    pub(crate) fn push_effect(&mut self, effect: SessionEffect)
        ensures
            final(self)@ == old(self)@.with(seq![effect@]),
    {
        self.effects.push(effect);
    }

    /// Asks for `text` to be sent to the model as a user message.
    pub(crate) fn send_user_message(&mut self, text: String)
        ensures
            final(self)@ == old(self)@.with(user_message(text@)),
    {
        self.push_effect(SessionEffect::AddMessage { role: Role::User, text });
        self.push_effect(SessionEffect::Save);
    }
}

} // verus!

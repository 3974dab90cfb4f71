//! Declarative action payloads and their discriminants.

use vstd::prelude::*;

verus! {

/// The closed set of action discriminants, used by the registry to pick an
/// executor.
#[derive(Clone, Copy, Debug, PartialEq, Eq, Structural)]
pub enum ActionType {
    SendBotMessage,
    Log,
}

/// A tagged action payload: the declarative side effect a task performs.
#[derive(Debug, PartialEq)]
pub enum TaskAction {
    SendBotMessage { chat_id: i64, message: String },
    Log { message: String, level: String },
}

/// The mathematical model of a [`TaskAction`]: strings become character
/// sequences.
#[verifier::ext_equal]
pub ghost enum ActionSpec {
    SendBotMessage { chat_id: i64, message: Seq<char> },
    Log { message: Seq<char>, level: Seq<char> },
}

impl ActionSpec {
    /// The discriminant of an action model.
    pub open spec fn action_type(self) -> ActionType {
        match self {
            ActionSpec::SendBotMessage { .. } => ActionType::SendBotMessage,
            ActionSpec::Log { .. } => ActionType::Log,
        }
    }
}

impl View for TaskAction {
    type V = ActionSpec;

    open spec fn view(&self) -> ActionSpec {
        match self {
            TaskAction::SendBotMessage { chat_id, message } => ActionSpec::SendBotMessage {
                chat_id: *chat_id,
                message: message@,
            },
            TaskAction::Log { message, level } => ActionSpec::Log {
                message: message@,
                level: level@,
            },
        }
    }
}

impl TaskAction {
    /// The discriminant this payload carries.
    pub fn action_type(&self) -> (t: ActionType)
        ensures
            t == self@.action_type(),
    {
        match self {
            TaskAction::SendBotMessage { .. } => ActionType::SendBotMessage,
            TaskAction::Log { .. } => ActionType::Log,
        }
    }
}

impl Clone for TaskAction {
    /// Cloning keeps the payload's model.
    fn clone(&self) -> (r: Self)
        ensures
            r@ == self@,
    {
        match self {
            TaskAction::SendBotMessage { chat_id, message } => TaskAction::SendBotMessage {
                chat_id: *chat_id,
                message: message.clone(),
            },
            TaskAction::Log { message, level } => TaskAction::Log {
                message: message.clone(),
                level: level.clone(),
            },
        }
    }
}

} // verus!

//! The shape of a call to the completion service, shared by all strategies.

use vstd::prelude::*;

verus! {

/// Who speaks a turn of a conversation.
#[derive(Debug, Clone, Copy, PartialEq, Eq, Structural)]
pub enum Role {
    User,
    Assistant,
}

/// One turn of a conversation.
#[derive(Debug, Clone)]
pub struct Message {
    pub role: Role,
    pub content: String,
}

/// Everything the completion service is given for one call. A sampling
/// temperature is written in thousandths (`700` asks for 0.7).
#[derive(Debug, Clone)]
pub struct CompletionRequest {
    pub messages: Vec<Message>,
    pub model: String,
    pub max_tokens: u32,
    pub system: Option<String>,
    pub temperature_milli: Option<u32>,
}

/// A message with the given role and text.
pub fn message(role: Role, content: String) -> (r: Message)
    ensures
        r.role == role,
        r.content@ == content@,
{
    Message { role, content }
}

/// A request that asks one question from the user.
pub fn single_prompt(prompt: String, model: &str, max_tokens: u32) -> (r: CompletionRequest)
    ensures
        r.messages@.len() == 1,
        r.messages@[0].role == Role::User,
        r.messages@[0].content@ == prompt@,
        r.model@ == model@,
        r.max_tokens == max_tokens,
        r.system is None,
        r.temperature_milli is None,
{
    let mut messages: Vec<Message> = Vec::new();
    messages.push(Message { role: Role::User, content: prompt });
    CompletionRequest {
        messages,
        model: model.to_owned(),
        max_tokens,
        system: None,
        temperature_milli: None,
    }
}

} // verus!

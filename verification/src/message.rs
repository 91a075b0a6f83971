//! Messages of a conversation and the roles that speak them.

use vstd::prelude::*;

verus! {

/// Who a message of the conversation comes from.
#[derive(Clone, Copy, Debug, PartialEq, Eq, Structural)]
pub enum Role {
    /// What the user typed.
    User,
    /// What the model answered.
    Assistant,
    /// The record of a tool call that the model asked for.
    ToolCall,
    /// What a tool returned.
    ToolResult,
}

impl Role {
    /// The name under which the role is rendered and stored.
    pub open spec fn name(self) -> Seq<char> {
        match self {
            Role::User => "user"@,
            Role::Assistant => "assistant"@,
            Role::ToolCall => "tool_call"@,
            Role::ToolResult => "tool_result"@,
        }
    }

    /// The role that goes by `name`, if there is one.
    pub open spec fn named(name: Seq<char>) -> Option<Role> {
        if name == Role::User.name() {
            Some(Role::User)
        } else if name == Role::Assistant.name() {
            Some(Role::Assistant)
        } else if name == Role::ToolCall.name() {
            Some(Role::ToolCall)
        } else if name == Role::ToolResult.name() {
            Some(Role::ToolResult)
        } else {
            None
        }
    }

    /// The name under which the role is rendered and stored.
    pub fn as_str(self) -> (r: &'static str)
        ensures
            r@ == self.name(),
    {
        match self {
            Role::User => "user",
            Role::Assistant => "assistant",
            Role::ToolCall => "tool_call",
            Role::ToolResult => "tool_result",
        }
    }

    /// The role that goes by `name`, if there is one.
    pub fn parse(name: &str) -> (r: Option<Role>)
        ensures
            r == Role::named(name@),
    {
        if crate::text::same_text(name, "user") {
            Some(Role::User)
        } else if crate::text::same_text(name, "assistant") {
            Some(Role::Assistant)
        } else if crate::text::same_text(name, "tool_call") {
            Some(Role::ToolCall)
        } else if crate::text::same_text(name, "tool_result") {
            Some(Role::ToolResult)
        } else {
            None
        }
    }
}

/// The four role names differ, so a role is found again from its name.
pub proof fn lemma_role_name_parses(role: Role)
    ensures
        Role::named(role.name()) == Some(role),
{
    reveal_strlit("user");
    reveal_strlit("assistant");
    reveal_strlit("tool_call");
    reveal_strlit("tool_result");
    assert("user"@.len() == 4);
    assert("assistant"@.len() == 9);
    assert("tool_call"@.len() == 9);
    assert("tool_result"@.len() == 11);
    assert("assistant"@[0] == 'a');
    assert("tool_call"@[0] == 't');
}

/// One turn of the conversation.
#[derive(Debug, PartialEq, Eq)]
pub struct Message {
    pub role: Role,
    pub content: String,
}

/// A message as a mathematical value.
pub struct MessageView {
    pub role: Role,
    pub content: Seq<char>,
}

impl View for Message {
    type V = MessageView;

    open spec fn view(&self) -> MessageView {
        MessageView { role: self.role, content: self.content@ }
    }
}

impl DeepView for Message {
    type V = MessageView;

    open spec fn deep_view(&self) -> MessageView {
        self@
    }
}

impl Clone for Message {
    fn clone(&self) -> (r: Self)
        ensures
            r@ == self@,
    {
        Message { role: self.role, content: self.content.clone() }
    }
}

impl Message {
    /// A message of `role` that says `content`.
    pub fn new(role: Role, content: String) -> (r: Message)
        ensures
            r@ == (MessageView { role, content: content@ }),
    {
        Message { role, content }
    }
}

} // verus!

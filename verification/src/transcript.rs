//! The transcript: the conversation that the model is shown, in order.
//!
//! A transcript starts with the system instruction and only ever grows at
//! its end.

use vstd::prelude::*;
use vstd::string::*;

verus! {

/// Who a message is from.
#[derive(Clone, Copy, Debug, PartialEq, Eq, Structural)]
pub enum Role {
    System,
    User,
    Assistant,
}

/// One message of the conversation.
#[derive(Debug, PartialEq, Eq)]
pub struct Message {
    pub role: Role,
    pub content: String,
}

/// What a [`Message`] holds.
pub struct MessageModel {
    pub role: Role,
    pub content: Seq<char>,
}

impl View for Message {
    type V = MessageModel;

    open spec fn view(&self) -> MessageModel {
        MessageModel { role: self.role, content: self.content@ }
    }
}

impl Clone for Message {
    fn clone(&self) -> (m: Message)
        ensures
            m == *self,
    {
        Message { role: self.role, content: self.content.clone() }
    }
}

/// The name under which the model's interface knows a role.
pub open spec fn role_name(role: Role) -> Seq<char> {
    match role {
        Role::System => "system"@,
        Role::User => "user"@,
        Role::Assistant => "assistant"@,
    }
}

/// What the system instruction says before the page's address.
pub const SYSTEM_HEAD: &'static str = "You are an intelligent browser assistant. Current URL: ";

/// What the system instruction says after the page's address: the tools
/// at hand and the format in which the model is to reply.
pub const SYSTEM_TAIL: &'static str =
    "\n\nAVAILABLE TOOLS:\n- extract_prices: Extract all prices from the current page\n- search_dom(keyword): Find text matching a keyword and return context  \n- click_button(selector): Click a button or element (optional CSS selector)\n- scrape_table: Extract and return table data\n- navigate_to(url): Navigate to a different URL\n\nRESPONSE FORMAT:\nAlways use this exact format:\nThought: [your reasoning]\nAction: [tool_name] OR Action: [tool_name](argument)\nObservation: [wait for tool result]\nThought: [reasoning based on observation]\nFinal Answer: [conclusive answer]\n\nContinue this pattern until you have enough information to provide a Final Answer.";

/// The system instruction for a page at `url`.
pub open spec fn system_prompt(url: Seq<char>) -> Seq<char> {
    SYSTEM_HEAD@ + url + SYSTEM_TAIL@
}

/// The transcript that a request starts from: the system instruction, then
/// the user's request.
pub open spec fn seeded(prompt: Seq<char>, url: Seq<char>) -> Seq<MessageModel> {
    seq![
        MessageModel { role: Role::System, content: system_prompt(url) },
        MessageModel { role: Role::User, content: prompt },
    ]
}

/// A conversation starts with the system instruction.
pub open spec fn is_transcript(messages: Seq<MessageModel>) -> bool {
    messages.len() >= 1 && messages[0].role == Role::System
}

/// What the messages hold.
pub open spec fn message_views(messages: Seq<Message>) -> Seq<MessageModel> {
    messages.map_values(|m: Message| m@)
}

/// The ordered, append-only sequence of messages of one invocation.
pub struct Transcript {
    system: Message,
    rest: Vec<Message>,
}

impl View for Transcript {
    type V = Seq<MessageModel>;

    closed spec fn view(&self) -> Seq<MessageModel> {
        seq![self.system@] + message_views(self.rest@)
    }
}

impl Role {
    /// The name under which the model's interface knows the role.
    pub fn name(&self) -> (r: &'static str)
        ensures
            r@ == role_name(*self),
    {
        match self {
            Role::System => "system",
            Role::User => "user",
            Role::Assistant => "assistant",
        }
    }
}

impl Transcript {
    #[verifier::type_invariant]
    spec fn starts_with_system(self) -> bool {
        self.system.role == Role::System && self.rest@.len() < usize::MAX
    }

    /// The transcript that holds the system instruction `system` and
    /// nothing else.
    pub fn new(system: String) -> (t: Transcript)
        ensures
            t@ == seq![MessageModel { role: Role::System, content: system@ }],
    {
        let t = Transcript {
            system: Message { role: Role::System, content: system },
            rest: Vec::new(),
        };
        proof {
            assert(t@ =~= seq![MessageModel { role: Role::System, content: system@ }]);
        }
        t
    }

    /// The transcript that a request starts from: the system instruction
    /// for the page at `url`, then the user's request `prompt`.
    pub fn seed(prompt: &str, url: &str) -> (t: Transcript)
        ensures
            t@ == seeded(prompt@, url@),
    {
        let system = String::from_str(SYSTEM_HEAD).concat(url).concat(SYSTEM_TAIL);
        let mut t = Transcript::new(system);
        t.push(Role::User, String::from_str(prompt));
        proof {
            assert(t@ =~= seeded(prompt@, url@));
        }
        t
    }

    /// Appends a message. Nothing that the transcript held changes.
    pub fn push(&mut self, role: Role, content: String)
        requires
            old(self)@.len() < usize::MAX,
        ensures
            final(self)@ == old(self)@.push(MessageModel { role, content: content@ }),
    {
        proof {
            use_type_invariant(&*self);
        }
        let ghost before = self.rest@;
        let mut rest: Vec<Message> = Vec::new();
        core::mem::swap(&mut self.rest, &mut rest);
        rest.push(Message { role, content });
        proof {
            assert(message_views(rest@) =~= message_views(before).push(
                MessageModel { role, content: content@ },
            ));
            assert(seq![self.system@] + message_views(before).push(
                MessageModel { role, content: content@ },
            ) =~= (seq![self.system@] + message_views(before)).push(
                MessageModel { role, content: content@ },
            ));
        }
        self.rest = rest;
    }

    /// The number of messages, which is never zero.
    pub fn len(&self) -> (n: usize)
        ensures
            n == self@.len(),
            n >= 1,
    {
        proof {
            use_type_invariant(self);
        }
        self.rest.len() + 1
    }

    /// The message at position `i`, counted from zero. The message at
    /// position zero is the system instruction.
    pub fn get(&self, i: usize) -> (r: Option<&Message>)
        ensures
            is_transcript(self@),
            match r {
                Some(m) => i < self@.len() && m@ == self@[i as int],
                None => i >= self@.len(),
            },
    {
        proof {
            use_type_invariant(self);
        }
        if i == 0 {
            Some(&self.system)
        } else if i - 1 < self.rest.len() {
            Some(&self.rest[i - 1])
        } else {
            None
        }
    }
}

} // verus!

//! The messages that are exchanged with the model gateway.
use vstd::prelude::*;
use vstd::string::StringExecFns;

verus! {

/// One edit that the "edits" endpoint offers.
#[derive(Debug, Clone, PartialEq, Eq)]
pub struct Choice {
    /// The edited text.
    pub text: String,
    /// The index of the choice in the response.
    pub index: u32,
}

/// How many tokens a request used.
#[derive(Debug, Clone, PartialEq, Eq)]
pub struct Usage {
    /// The number of tokens used for the prompt.
    pub prompt_tokens: u32,
    /// The number of tokens used for the completion.
    pub completion_tokens: Option<u32>,
    /// The total number of tokens used.
    pub total_tokens: u32,
}

/// A response from the "edits" endpoint.
#[derive(Debug, Clone, PartialEq, Eq)]
pub struct EditResponse {
    /// The object type, in this case, "edit".
    pub object: String,
    /// The timestamp when the edit was created.
    pub created: u64,
    /// The edits that the model offers.
    pub choices: Vec<Choice>,
    /// How many tokens were used.
    pub usage: Usage,
}

/// A function call requested by the model.
#[derive(Debug, Clone, PartialEq, Eq)]
pub struct FunctionCall {
    /// The name of the function.
    pub name: String,
    /// Its arguments, as the text of a JSON value.
    pub arguments: String,
}

/// What a function call holds, as the value that contracts speak of.
pub struct FunctionCallView {
    pub name: Seq<char>,
    pub arguments: Seq<char>,
}

impl View for FunctionCall {
    type V = FunctionCallView;

    open spec fn view(&self) -> FunctionCallView {
        FunctionCallView { name: self.name@, arguments: self.arguments@ }
    }
}

/// A chat message, tagged by the role of its author.
#[derive(Debug, Clone, PartialEq, Eq)]
pub enum Message {
    /// An instruction to the model.
    System { content: String },
    /// What the user said.
    User { content: String },
    /// What the model said, or the function that it wants called.
    Assistant { content: Option<String>, function_call: Option<FunctionCall> },
    /// The result of a function call.
    Function { name: String, content: String },
}

/// What a chat message holds, as the value that contracts speak of.
pub enum MessageView {
    System { content: Seq<char> },
    User { content: Seq<char> },
    Assistant { content: Option<Seq<char>>, function_call: Option<FunctionCallView> },
    Function { name: Seq<char>, content: Seq<char> },
}

impl View for Message {
    type V = MessageView;

    open spec fn view(&self) -> MessageView {
        match self {
            Message::System { content } => MessageView::System { content: content@ },
            Message::User { content } => MessageView::User { content: content@ },
            Message::Assistant { content, function_call } => MessageView::Assistant {
                content: match content {
                    Some(text) => Some(text@),
                    None => None,
                },
                function_call: match function_call {
                    Some(call) => Some(call@),
                    None => None,
                },
            },
            Message::Function { name, content } => MessageView::Function {
                name: name@,
                content: content@,
            },
        }
    }
}

/// What a vector of messages holds.
pub open spec fn conversation_of(messages: Seq<Message>) -> Seq<MessageView> {
    Seq::new(messages.len(), |i: int| messages[i]@)
}

impl Message {
    /// A message of the system.
    pub fn system(content: &str) -> (message: Message)
        ensures
            message@ == (MessageView::System { content: content@ }),
    {
        Message::System { content: String::from_str(content) }
    }

    /// A message of the user.
    pub fn user(content: &str) -> (message: Message)
        ensures
            message@ == (MessageView::User { content: content@ }),
    {
        Message::User { content: String::from_str(content) }
    }

    /// A message of the assistant that holds text and asks for no call.
    pub fn assistant(content: &str) -> (message: Message)
        ensures
            message@ == (MessageView::Assistant {
                content: Some(content@),
                function_call: None,
            }),
    {
        Message::Assistant { content: Some(String::from_str(content)), function_call: None }
    }

    /// The text of the message, where it is a message of the assistant that
    /// holds text and asks for no call.
    pub fn try_into_assistant_content(self) -> (content: Option<String>)
        ensures
            match self@ {
                MessageView::Assistant { content: Some(text), function_call: None } => content
                    matches Some(held) && held@ == text,
                _ => content is None,
            },
    {
        match self {
            Message::Assistant { content: Some(content), function_call: None } => Some(content),
            _ => None,
        }
    }

    /// A message of the assistant that holds no text and asks for the call
    /// of `name` with `arguments`.
    pub fn assistant_calls(name: &str, arguments: &str) -> (message: Message)
        ensures
            message@ == (MessageView::Assistant {
                content: None,
                function_call: Some(FunctionCallView { name: name@, arguments: arguments@ }),
            }),
    {
        Message::Assistant {
            content: None,
            function_call: Some(
                FunctionCall {
                    name: String::from_str(name),
                    arguments: String::from_str(arguments),
                },
            ),
        }
    }
}

/// One completion that the "chat/completions" endpoint offers.
#[derive(Debug, Clone, PartialEq, Eq)]
pub struct ChatChoice {
    /// The index of the choice in the response.
    pub index: u32,
    /// The message that the model wrote.
    pub message: Message,
    /// Why the model stopped, e.g. "stop".
    pub finish_reason: String,
}

/// A response from the "chat/completions" endpoint.
#[derive(Debug, Clone, PartialEq, Eq)]
pub struct ChatCompletionResponse {
    /// The ID of the chat completion.
    pub id: String,
    /// The object type (e.g., "chat.completion").
    pub object: String,
    /// The timestamp when the chat completion was created.
    pub created: u64,
    /// The completions that the model offers.
    pub choices: Vec<ChatChoice>,
    /// How many tokens were used.
    pub usage: Usage,
}

} // verus!

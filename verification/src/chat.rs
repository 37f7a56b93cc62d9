//! Messages of a conversation with the chat service, and how a captured
//! screen is attached to the last of them.

use crate::config::{bearer, bearer_text};
use crate::error::PipelineError;
use crate::screenshot::{data_url, data_url_text};
use vstd::prelude::*;
use vstd::string::*;

verus! {

/// One message of a conversation.
#[derive(Debug, Clone, PartialEq, Eq)]
pub struct Message {
    pub role: String,
    pub content: MessageContent,
}

/// What a message says: plain text, or parts of text and pictures.
#[derive(Debug, Clone, PartialEq, Eq)]
pub enum MessageContent {
    Text(String),
    Parts(Vec<ContentPart>),
}

/// One part of a message.
#[derive(Debug, Clone, PartialEq, Eq)]
pub enum ContentPart {
    Text { text: String },
    ImageUrl { image_url: ImageUrl },
}

/// The address of a picture.
#[derive(Debug, Clone, PartialEq, Eq)]
pub struct ImageUrl {
    pub url: String,
}

/// A request to the chat service.
#[derive(Debug)]
pub struct ChatRequest {
    pub url: String,
    pub authorization: String,
    pub content_type: String,
    pub model: String,
    pub max_tokens: u32,
    pub messages: Vec<Message>,
}

/// Whether a captured screen is attached: there is one, and the last message
/// is the user's.
pub open spec fn takes_screenshot(messages: Seq<Message>, screenshot: Option<String>) -> bool {
    &&& screenshot.is_some()
    &&& messages.len() > 0
    &&& messages.last().role@ == "user"@
}

/// The text that accompanies the picture: the message's own text, or a
/// standing request where the message was made of parts already.
pub open spec fn caption_of(content: MessageContent) -> Seq<char> {
    match content {
        MessageContent::Text(text) => text@,
        MessageContent::Parts(_) => "Analyze this screenshot"@,
    }
}

/// Whether `after` is `before` with the picture attached: the role is kept,
/// and the content is the caption followed by the picture's data address.
pub open spec fn carries_screenshot(after: Message, before: Message, base64: Seq<char>) -> bool {
    &&& after.role == before.role
    &&& after.content matches MessageContent::Parts(parts)
    &&& parts@.len() == 2
    &&& parts@[0] matches ContentPart::Text { text }
    &&& text@ == caption_of(before.content)
    &&& parts@[1] matches ContentPart::ImageUrl { image_url }
    &&& image_url.url@ == data_url_text(base64)
}

/// Attaches a captured screen, given as base64 text, to the last message if
/// that is the user's. Every other message, and every message where nothing
/// is attached, stays as it is.
pub fn attach_screenshot(messages: &mut Vec<Message>, screenshot_base64: Option<String>)
    ensures
        final(messages)@.len() == old(messages)@.len(),
        forall|i: int|
            0 <= i < old(messages)@.len() - 1 ==> final(messages)@[i] == old(messages)@[i],
        takes_screenshot(old(messages)@, screenshot_base64) ==> carries_screenshot(
            final(messages)@.last(),
            old(messages)@.last(),
            screenshot_base64.unwrap()@,
        ),
        !takes_screenshot(old(messages)@, screenshot_base64) ==> final(messages)@ == old(
            messages,
        )@,
{
    match screenshot_base64 {
        None => {},
        Some(base64) => {
            let count: usize = messages.len();
            if count > 0 {
                let user = String::from_str("user");
                if messages[count - 1].role == user {
                    let last = messages.pop().unwrap();
                    let Message { role, content } = last;
                    let text = match content {
                        MessageContent::Text(text) => text,
                        MessageContent::Parts(_) => String::from_str("Analyze this screenshot"),
                    };
                    let mut parts: Vec<ContentPart> = Vec::new();
                    parts.push(ContentPart::Text { text });
                    parts.push(
                        ContentPart::ImageUrl {
                            image_url: ImageUrl { url: data_url(base64.as_str()) },
                        },
                    );
                    messages.push(Message { role, content: MessageContent::Parts(parts) });
                }
            }
        },
    }
}

/// The request for a conversation, with the captured screen attached to its
/// last message where `attach_screenshot` attaches it: the service's
/// address, the key as a bearer token, the fixed model and reply length.
pub fn chat_request(
    api_key: &str,
    messages: Vec<Message>,
    screenshot_base64: Option<String>,
) -> (request: ChatRequest)
    ensures
        request.url@ == "https://api.openai.com/v1/chat/completions"@,
        request.authorization@ == bearer_text(api_key@),
        request.content_type@ == "application/json"@,
        request.model@ == "gpt-4o"@,
        request.max_tokens == 1000,
        request.messages@.len() == messages@.len(),
        forall|i: int|
            0 <= i < messages@.len() - 1 ==> request.messages@[i] == messages@[i],
        takes_screenshot(messages@, screenshot_base64) ==> carries_screenshot(
            request.messages@.last(),
            messages@.last(),
            screenshot_base64.unwrap()@,
        ),
        !takes_screenshot(messages@, screenshot_base64) ==> request.messages@ == messages@,
{
    let mut messages = messages;
    attach_screenshot(&mut messages, screenshot_base64);
    ChatRequest {
        url: String::from_str("https://api.openai.com/v1/chat/completions"),
        authorization: bearer(api_key),
        content_type: String::from_str("application/json"),
        model: String::from_str("gpt-4o"),
        max_tokens: 1000,
        messages,
    }
}

/// The answer of a successful reply: the text of the first choice that was
/// decoded from its body. A body that could not be decoded, and one without
/// a choice, are failures.
pub fn chat_reply(choices: Option<Vec<String>>) -> (r: Result<String, PipelineError>)
    ensures
        match choices {
            Some(texts) => if texts@.len() > 0 {
                r == Ok::<String, PipelineError>(texts@[0])
            } else {
                r == Err::<String, PipelineError>(PipelineError::ParseError)
            },
            None => r == Err::<String, PipelineError>(PipelineError::ParseError),
        },
{
    match choices {
        Some(texts) => {
            if texts.len() > 0 {
                Ok(texts[0].clone())
            } else {
                Err(PipelineError::ParseError)
            }
        },
        None => Err(PipelineError::ParseError),
    }
}

} // verus!

//! Reply payloads for the interaction protocol.
//!
//! A reply is either a success string or an error string, wrapped into the
//! platform's interaction-response structure. The process boundary converts
//! these values into the HTTP client's own types before sending.

use vstd::prelude::*;

verus! {

/// How an interaction reply is delivered: immediately as a channel message,
/// or deferred to a later follow-up. The bot only ever sends immediate
/// replies.
#[derive(Clone, Copy, Debug, PartialEq, Eq, Structural)]
pub enum InteractionResponseKind {
    ChannelMessageWithSource,
    DeferredChannelMessageWithSource,
}

/// The body of an interaction reply.
#[derive(Debug)]
pub struct InteractionResponseData {
    pub content: Option<String>,
    pub tts: Option<bool>,
    pub ephemeral: bool,
}

/// A reply payload: a delivery tag plus an optional body.
#[derive(Debug)]
pub struct InteractionResponse {
    pub kind: InteractionResponseKind,
    pub data: Option<InteractionResponseData>,
}

/// An immediate, non-ephemeral, non-tts channel reply whose text is
/// `content`.
pub open spec fn is_channel_reply(r: InteractionResponse, content: Seq<char>) -> bool {
    &&& r.kind == InteractionResponseKind::ChannelMessageWithSource
    &&& r.data matches Some(d)
        && d.content matches Some(c)
        && c@ == content
        && d.tts == Some(false)
        && !d.ephemeral
}

/// Builds the standard success reply: an immediate channel message holding
/// `content`, never deferred and never ephemeral.
pub fn create_message_response(content: String) -> (r: InteractionResponse)
    ensures
        is_channel_reply(r, content@),
{
    InteractionResponse {
        kind: InteractionResponseKind::ChannelMessageWithSource,
        data: Some(InteractionResponseData { content: Some(content), tts: Some(false), ephemeral: false }),
    }
}

/// Builds the standard error reply: the message prefixed with a literal
/// `"Error: "` marker, delivered as an immediate channel message. Never
/// fails, whatever the message.
pub fn create_error_response(error_message: &str) -> (r: InteractionResponse)
    ensures
        is_channel_reply(r, "Error: "@ + error_message@),
{
    let mut content = String::from_str("Error: ");
    content.append(error_message);
    create_message_response(content)
}

} // verus!

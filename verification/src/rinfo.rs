//! The reaction-summary command.
//!
//! The command carries a message reference and optional filters. Parsing
//! the reference and rendering the reply are pure; fetching the message and
//! the per-emoji reactor lists happens at the process boundary, which hands
//! the fetched values back as plain reactions and user identifier lists.

use vstd::prelude::*;
use crate::digits::{dec_rep, u64_to_dec_string};
use crate::parse::{parse_message_identifier, parse_spec, MessageReference, ParseError};
use crate::render::{format_reaction_info, format_spec};
use crate::reply::{
    create_error_response, create_message_response, is_channel_reply, InteractionResponse,
};
use crate::summary::{build_reaction_groups, summary_models, Reaction};

verus! {

/// The arguments of the `rinfo` slash command.
pub struct RinfoCommand {
    /// Message URL or ID.
    pub message: String,
    /// Users to exclude from the results.
    pub exclude_user: Option<String>,
    /// Reactions to exclude from the results.
    pub exclude_reaction: Option<String>,
    /// Include the message author in the results.
    pub include_message_user: Option<bool>,
    /// Only show users, not grouped by reaction.
    pub user_only: Option<bool>,
}

/// The reply template: a pin emoji, the original message reference, a
/// blank line, then the rendered block inside a code fence.
pub open spec fn wrapped_content(reference: Seq<char>, body: Seq<char>) -> Seq<char> {
    "📝 <"@ + reference + ">\n\n```\n"@ + body + "\n```"@
}

/// What the process boundary brought back for the command's target
/// message: a failed fetch, an undecodable body, or the remaining
/// reactions (after exclusion filtering) paired with the identifiers of
/// the users fetched for each.
pub enum FetchOutcome {
    /// The message fetch failed; `detail` describes the failure.
    FetchFailed { detail: String },
    /// The response body could not be decoded as a message.
    DecodeFailed { detail: String },
    /// The message was fetched: its remaining reactions, and one reactor
    /// list per remaining reaction.
    Fetched { reactions: Vec<Reaction>, reactors: Vec<Vec<u64>> },
}

impl RinfoCommand {
    /// Whether the reply lists users only, not grouped by reaction.
    pub open spec fn user_only_flag(self) -> bool {
        self.user_only == Some(true)
    }

    /// Step one of the command: parse the message reference. On failure
    /// the error reply to submit is returned instead, and no fetch is to
    /// be attempted.
    pub fn parse_reference(&self) -> (r: Result<MessageReference, InteractionResponse>)
        ensures
            (match parse_spec(self.message@) {
                Ok(m) => r matches Ok(m2) && m2 == m,
                Err(e) => r matches Err(resp) && is_channel_reply(
                    resp,
                    "Error: Error parsing message identifier: "@ + e.message_spec(),
                ),
            }),
    {
        match parse_message_identifier(self.message.as_str()) {
            Ok(m) => Ok(m),
            Err(e) => Err(parse_error_reply(&e)),
        }
    }

    /// The remaining steps of the command, given what the boundary
    /// fetched: a failed fetch or decode becomes the matching error
    /// reply; a fetched message's remaining reactions and reactor lists
    /// become the rendered summary reply.
    pub fn handle(&self, outcome: FetchOutcome) -> (r: InteractionResponse)
        requires
            (outcome matches FetchOutcome::Fetched { reactions, reactors } ==> reactions@.len()
                == reactors@.len()),
        ensures
            (match outcome {
                FetchOutcome::FetchFailed { detail } => is_channel_reply(
                    r,
                    "Error: Error fetching message: "@ + detail@,
                ),
                FetchOutcome::DecodeFailed { detail } => is_channel_reply(
                    r,
                    "Error: Error parsing message: "@ + detail@,
                ),
                FetchOutcome::Fetched { reactions, reactors } => is_channel_reply(
                    r,
                    wrapped_content(
                        self.message@,
                        format_spec(
                            summary_models(reactions@, reactors.deep_view()),
                            self.user_only_flag(),
                        ),
                    ),
                ),
            }),
    {
        match outcome {
            FetchOutcome::FetchFailed { detail } => fetch_error_reply(detail.as_str()),
            FetchOutcome::DecodeFailed { detail } => decode_error_reply(detail.as_str()),
            FetchOutcome::Fetched { reactions, reactors } => self.build_reply(reactions, reactors),
        }
    }

    /// Renders the reply for a fetched message: the remaining reactions
    /// (after exclusion filtering), each paired with the identifiers of
    /// the users fetched for it, are grouped and rendered, and the block
    /// is wrapped in the reply template around the original reference.
    pub fn build_reply(&self, reactions: Vec<Reaction>, reactors: Vec<Vec<u64>>) -> (r:
        InteractionResponse)
        requires
            reactions@.len() == reactors@.len(),
        ensures
            is_channel_reply(
                r,
                wrapped_content(
                    self.message@,
                    format_spec(
                        summary_models(reactions@, reactors.deep_view()),
                        self.user_only_flag(),
                    ),
                ),
            ),
    {
        let groups = build_reaction_groups(&reactions, &reactors);
        let user_only = match self.user_only {
            Option::Some(b) => b,
            Option::None => false,
        };
        let formatted = format_reaction_info(&groups, user_only);
        let mut content = String::from_str("📝 <");
        content.append(self.message.as_str());
        content.append(">\n\n```\n");
        content.append(formatted.as_str());
        content.append("\n```");
        proof {
            assert(content@ =~= wrapped_content(self.message@, formatted@));
        }
        create_message_response(content)
    }
}

/// The reply for a reference that failed to parse.
pub fn parse_error_reply(error: &ParseError) -> (r: InteractionResponse)
    ensures
        is_channel_reply(r, "Error: Error parsing message identifier: "@ + error.message_spec()),
{
    let mut detail = String::from_str("Error parsing message identifier: ");
    let m = error.message();
    detail.append(m.as_str());
    let r = create_error_response(detail.as_str());
    proof {
        reveal_strlit("Error: ");
        reveal_strlit("Error parsing message identifier: ");
        reveal_strlit("Error: Error parsing message identifier: ");
        assert("Error: "@ + ("Error parsing message identifier: "@ + error.message_spec())
            =~= "Error: Error parsing message identifier: "@ + error.message_spec());
    }
    r
}

/// The reply when the message could not be fetched from the platform.
pub fn fetch_error_reply(detail: &str) -> (r: InteractionResponse)
    ensures
        is_channel_reply(r, "Error: Error fetching message: "@ + detail@),
{
    let mut text = String::from_str("Error fetching message: ");
    text.append(detail);
    let r = create_error_response(text.as_str());
    proof {
        reveal_strlit("Error: ");
        reveal_strlit("Error fetching message: ");
        reveal_strlit("Error: Error fetching message: ");
        assert("Error: "@ + ("Error fetching message: "@ + detail@) =~= "Error: Error fetching message: "@
            + detail@);
    }
    r
}

/// The reply when the fetched body could not be decoded as a message.
pub fn decode_error_reply(detail: &str) -> (r: InteractionResponse)
    ensures
        is_channel_reply(r, "Error: Error parsing message: "@ + detail@),
{
    let mut text = String::from_str("Error parsing message: ");
    text.append(detail);
    let r = create_error_response(text.as_str());
    proof {
        reveal_strlit("Error: ");
        reveal_strlit("Error parsing message: ");
        reveal_strlit("Error: Error parsing message: ");
        assert("Error: "@ + ("Error parsing message: "@ + detail@) =~= "Error: Error parsing message: "@
            + detail@);
    }
    r
}

/// The acknowledgment reply for the message context-menu command: a
/// minimal reply carrying the target message identifier.
pub fn handle_context_menu(target_id: u64) -> (r: InteractionResponse)
    ensures
        is_channel_reply(r, "Context Menu Command\nMessage ID: "@ + dec_rep(target_id as nat)),
{
    let mut content = String::from_str("Context Menu Command\nMessage ID: ");
    let d = u64_to_dec_string(target_id);
    content.append(d.as_str());
    create_message_response(content)
}

} // verus!

//! Gateway event dispatch decisions.
//!
//! The process-wide loop receives decoded gateway events and hands each to
//! an independent unit of work. What that work does — run a command, reply,
//! log, or nothing — is decided here, as a pure function from the event to
//! an action; the boundary performs the action.

use vstd::prelude::*;
use crate::digits::dec_rep;
use crate::reply::{is_channel_reply, InteractionResponse};
use crate::rinfo::{handle_context_menu, RinfoCommand};

verus! {

/// What was decoded out of a command interaction's payload.
pub enum Invocation {
    /// The options of the reaction-summary slash command.
    Rinfo(RinfoCommand),
    /// The target message of a message context-menu command.
    Message { target_id: u64 },
    /// A payload that fits no known command shape.
    Undecoded,
}

/// The payload attached to an interaction, as far as dispatch reads it.
pub enum InteractionPayload {
    /// A command invocation: the command's name, and what was decoded
    /// from its payload.
    ApplicationCommand { name: String, invocation: Invocation },
    /// Any other payload shape.
    Other,
}

/// The kind of an interaction.
#[derive(Clone, Copy, Debug, PartialEq, Eq, Structural)]
pub enum InteractionKind {
    ApplicationCommand,
    Other,
}

/// A decoded gateway event, as far as dispatch reads it.
pub enum GatewayEvent {
    /// A newly created message in a channel.
    MessageCreate { channel_id: u64, content: String },
    /// A newly created interaction.
    InteractionCreate {
        application_id: u64,
        interaction_id: u64,
        token: String,
        kind: InteractionKind,
        data: Option<InteractionPayload>,
    },
    /// Any other event.
    Other,
}

/// What the dispatcher does with one event.
pub enum DispatchAction {
    /// Send a plain message to a channel.
    SendChannelMessage { channel_id: u64, content: String },
    /// Run the reaction-summary command and submit the reply it decides.
    RunRinfo {
        application_id: u64,
        interaction_id: u64,
        token: String,
        command: RinfoCommand,
    },
    /// Submit an interaction response as it stands.
    SendInteractionResponse {
        application_id: u64,
        interaction_id: u64,
        token: String,
        response: InteractionResponse,
    },
    /// Log an unknown interaction data shape; no reply is sent.
    LogUnknownData,
    /// Log an unknown interaction kind; no reply is sent.
    LogUnknownKind,
    /// Nothing to do.
    Ignore,
}

/// Decides what to do with one gateway event. A message whose whole text
/// is exactly the trigger `!ping` is answered with `Pong!`. A `rinfo`
/// command interaction is run through the command handler; a
/// `Reaction Info` context-menu interaction is acknowledged with the
/// handler's reply naming the target message. Unrecognized interaction
/// kinds, names or data shapes are logged and get no reply; everything
/// else is ignored.
pub fn handle_event(event: GatewayEvent) -> (r: DispatchAction)
    ensures
        (event matches GatewayEvent::MessageCreate { channel_id, content } ==> (if content@
            == "!ping"@ {
            r matches DispatchAction::SendChannelMessage { channel_id: c, content: reply } && c
                == channel_id && reply@ == "Pong!"@
        } else {
            r == DispatchAction::Ignore
        })),
        (event matches GatewayEvent::InteractionCreate {
            application_id,
            interaction_id,
            token,
            kind,
            data,
        } ==> (if kind == InteractionKind::ApplicationCommand {
            match data {
                Option::Some(InteractionPayload::ApplicationCommand { name, invocation }) => {
                    if name@ == "rinfo"@ {
                        match invocation {
                            Invocation::Rinfo(command) => {
                                &&& r matches DispatchAction::RunRinfo {
                                    application_id: a,
                                    interaction_id: i,
                                    token: t,
                                    command: c,
                                }
                                &&& a == application_id
                                &&& i == interaction_id
                                &&& t@ == token@
                                &&& c == command
                            },
                            _ => r == DispatchAction::LogUnknownData,
                        }
                    } else if name@ == "Reaction Info"@ {
                        match invocation {
                            Invocation::Message { target_id } => {
                                &&& r matches DispatchAction::SendInteractionResponse {
                                    application_id: a,
                                    interaction_id: i,
                                    token: t,
                                    response,
                                }
                                &&& a == application_id
                                &&& i == interaction_id
                                &&& t@ == token@
                                &&& is_channel_reply(
                                    response,
                                    "Context Menu Command\nMessage ID: "@ + dec_rep(
                                        target_id as nat,
                                    ),
                                )
                            },
                            _ => r == DispatchAction::LogUnknownData,
                        }
                    } else {
                        r == DispatchAction::LogUnknownData
                    }
                },
                _ => r == DispatchAction::LogUnknownData,
            }
        } else {
            r == DispatchAction::LogUnknownKind
        })),
        (event matches GatewayEvent::Other ==> r == DispatchAction::Ignore),
{
    match event {
        GatewayEvent::MessageCreate { channel_id, content } => {
            let trigger = String::from_str("!ping");
            if content.eq(&trigger) {
                DispatchAction::SendChannelMessage {
                    channel_id,
                    content: String::from_str("Pong!"),
                }
            } else {
                DispatchAction::Ignore
            }
        },
        GatewayEvent::InteractionCreate { application_id, interaction_id, token, kind, data } => {
            match kind {
                InteractionKind::ApplicationCommand => {
                    match data {
                        Option::Some(
                            InteractionPayload::ApplicationCommand { name, invocation },
                        ) => {
                            let rinfo_name = String::from_str("rinfo");
                            let menu_name = String::from_str("Reaction Info");
                            if name.eq(&rinfo_name) {
                                match invocation {
                                    Invocation::Rinfo(command) => DispatchAction::RunRinfo {
                                        application_id,
                                        interaction_id,
                                        token,
                                        command,
                                    },
                                    _ => DispatchAction::LogUnknownData,
                                }
                            } else if name.eq(&menu_name) {
                                match invocation {
                                    Invocation::Message { target_id } => {
                                        DispatchAction::SendInteractionResponse {
                                            application_id,
                                            interaction_id,
                                            token,
                                            response: handle_context_menu(target_id),
                                        }
                                    },
                                    _ => DispatchAction::LogUnknownData,
                                }
                            } else {
                                DispatchAction::LogUnknownData
                            }
                        },
                        _ => DispatchAction::LogUnknownData,
                    }
                },
                InteractionKind::Other => DispatchAction::LogUnknownKind,
            }
        },
        GatewayEvent::Other => DispatchAction::Ignore,
    }
}

} // verus!

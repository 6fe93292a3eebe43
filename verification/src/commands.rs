//! The command schema registered at startup.
//!
//! Two commands are registered: the `rinfo` slash command with its five
//! options, and the `Reaction Info` message context-menu command with
//! none. The process boundary converts this schema into the HTTP client's
//! own command types before registering it.

use vstd::prelude::*;

verus! {

/// The kind of a registered command: a chat-input (slash) command or a
/// message context-menu command.
#[derive(Clone, Copy, Debug, PartialEq, Eq, Structural)]
pub enum CommandKind {
    ChatInput,
    Message,
}

/// The kind of one command option.
#[derive(Clone, Copy, Debug, PartialEq, Eq, Structural)]
pub enum CommandOptionKind {
    Text,
    Boolean,
}

/// One option of a registered command.
#[derive(Debug)]
pub struct CommandOption {
    pub name: String,
    pub description: String,
    pub kind: CommandOptionKind,
    pub required: bool,
}

/// One registered command.
#[derive(Debug)]
pub struct Command {
    pub name: String,
    pub description: String,
    pub kind: CommandKind,
    pub options: Vec<CommandOption>,
}

/// The five options of the `rinfo` command, in order: the message
/// reference (required), the two exclusion lists, and the two flags.
pub open spec fn rinfo_options_wf(opts: Seq<CommandOption>) -> bool {
    &&& opts.len() == 5
    &&& opts[0].name@ == "message"@ && opts[0].description@ == "Message URL or ID"@ && opts[0].kind
        == CommandOptionKind::Text && opts[0].required
    &&& opts[1].name@ == "exclude_user"@ && opts[1].description@
        == "Users to exclude from the results"@ && opts[1].kind == CommandOptionKind::Text
        && !opts[1].required
    &&& opts[2].name@ == "exclude_reaction"@ && opts[2].description@
        == "Reactions to exclude from the results"@ && opts[2].kind == CommandOptionKind::Text
        && !opts[2].required
    &&& opts[3].name@ == "include_message_user"@ && opts[3].description@
        == "Include the message author in the results"@ && opts[3].kind
        == CommandOptionKind::Boolean && !opts[3].required
    &&& opts[4].name@ == "user_only"@ && opts[4].description@
        == "Only show users, not grouped by reaction"@ && opts[4].kind
        == CommandOptionKind::Boolean && !opts[4].required
}

/// The registered schema: the `rinfo` slash command with its five
/// options, then the `Reaction Info` message context-menu command with
/// none.
pub open spec fn schema_wf(cmds: Seq<Command>) -> bool {
    &&& cmds.len() == 2
    &&& cmds[0].name@ == "rinfo"@ && cmds[0].description@
        == "Get reaction information for a message"@ && cmds[0].kind == CommandKind::ChatInput
        && rinfo_options_wf(cmds[0].options@)
    &&& cmds[1].name@ == "Reaction Info"@ && cmds[1].description@
        == "Get reaction information for a message"@ && cmds[1].kind == CommandKind::Message
        && cmds[1].options@.len() == 0
}

/// Builds the command schema registered at startup.
pub fn register_commands() -> (r: Vec<Command>)
    ensures
        schema_wf(r@),
{
    let mut options: Vec<CommandOption> = Vec::new();
    options.push(
        CommandOption {
            name: String::from_str("message"),
            description: String::from_str("Message URL or ID"),
            kind: CommandOptionKind::Text,
            required: true,
        },
    );
    options.push(
        CommandOption {
            name: String::from_str("exclude_user"),
            description: String::from_str("Users to exclude from the results"),
            kind: CommandOptionKind::Text,
            required: false,
        },
    );
    options.push(
        CommandOption {
            name: String::from_str("exclude_reaction"),
            description: String::from_str("Reactions to exclude from the results"),
            kind: CommandOptionKind::Text,
            required: false,
        },
    );
    options.push(
        CommandOption {
            name: String::from_str("include_message_user"),
            description: String::from_str("Include the message author in the results"),
            kind: CommandOptionKind::Boolean,
            required: false,
        },
    );
    options.push(
        CommandOption {
            name: String::from_str("user_only"),
            description: String::from_str("Only show users, not grouped by reaction"),
            kind: CommandOptionKind::Boolean,
            required: false,
        },
    );
    let mut r: Vec<Command> = Vec::new();
    r.push(
        Command {
            name: String::from_str("rinfo"),
            description: String::from_str("Get reaction information for a message"),
            kind: CommandKind::ChatInput,
            options,
        },
    );
    r.push(
        Command {
            name: String::from_str("Reaction Info"),
            description: String::from_str("Get reaction information for a message"),
            kind: CommandKind::Message,
            options: Vec::new(),
        },
    );
    r
}

} // verus!

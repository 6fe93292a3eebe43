use reaction_bot::commands::{register_commands, CommandKind, CommandOptionKind};
use reaction_bot::dispatch::{
    handle_event, DispatchAction, GatewayEvent, InteractionKind, InteractionPayload, Invocation,
};
use reaction_bot::reply::InteractionResponseKind;
use reaction_bot::rinfo::RinfoCommand;

fn rinfo_command(message: &str) -> RinfoCommand {
    RinfoCommand {
        message: String::from(message),
        exclude_user: None,
        exclude_reaction: Some(String::from("👎")),
        include_message_user: None,
        user_only: Some(true),
    }
}

fn interaction(name: &str, invocation: Invocation) -> GatewayEvent {
    GatewayEvent::InteractionCreate {
        application_id: 1,
        interaction_id: 2,
        token: String::from("tok"),
        kind: InteractionKind::ApplicationCommand,
        data: Some(InteractionPayload::ApplicationCommand {
            name: String::from(name),
            invocation,
        }),
    }
}

#[test]
fn ping_message_is_answered_with_pong() {
    let event = GatewayEvent::MessageCreate { channel_id: 9, content: String::from("!ping") };
    match handle_event(event) {
        DispatchAction::SendChannelMessage { channel_id, content } => {
            assert_eq!(channel_id, 9);
            assert_eq!(content, "Pong!");
        }
        _ => panic!("expected a channel message"),
    }
}

#[test]
fn other_messages_are_ignored() {
    let event = GatewayEvent::MessageCreate { channel_id: 9, content: String::from("!ping ") };
    assert!(matches!(handle_event(event), DispatchAction::Ignore));
    assert!(matches!(handle_event(GatewayEvent::Other), DispatchAction::Ignore));
}

#[test]
fn rinfo_interactions_run_the_command_handler() {
    let event = interaction("rinfo", Invocation::Rinfo(rinfo_command("https://discord.com/channels/1/2/3")));
    match handle_event(event) {
        DispatchAction::RunRinfo { application_id, interaction_id, token, command } => {
            assert_eq!(application_id, 1);
            assert_eq!(interaction_id, 2);
            assert_eq!(token, "tok");
            assert_eq!(command.message, "https://discord.com/channels/1/2/3");
            assert_eq!(command.exclude_reaction.as_deref(), Some("👎"));
            assert_eq!(command.user_only, Some(true));
        }
        _ => panic!("expected the command to be run"),
    }
}

#[test]
fn context_menu_interactions_get_the_acknowledgment() {
    let event = interaction("Reaction Info", Invocation::Message { target_id: 42 });
    match handle_event(event) {
        DispatchAction::SendInteractionResponse { application_id, interaction_id, token, response } => {
            assert_eq!(application_id, 1);
            assert_eq!(interaction_id, 2);
            assert_eq!(token, "tok");
            assert_eq!(response.kind, InteractionResponseKind::ChannelMessageWithSource);
            assert_eq!(
                response.data.unwrap().content.unwrap(),
                "Context Menu Command\nMessage ID: 42"
            );
        }
        _ => panic!("expected an interaction response"),
    }
}

#[test]
fn unknown_interaction_shapes_are_logged_without_reply() {
    // An unknown command name.
    let event = interaction("other", Invocation::Undecoded);
    assert!(matches!(handle_event(event), DispatchAction::LogUnknownData));
    // A known name whose payload did not decode.
    let event = interaction("rinfo", Invocation::Undecoded);
    assert!(matches!(handle_event(event), DispatchAction::LogUnknownData));
    let event = interaction("Reaction Info", Invocation::Undecoded);
    assert!(matches!(handle_event(event), DispatchAction::LogUnknownData));
    // No data, or a payload that is no command at all.
    let event = GatewayEvent::InteractionCreate {
        application_id: 1,
        interaction_id: 2,
        token: String::from("tok"),
        kind: InteractionKind::ApplicationCommand,
        data: Some(InteractionPayload::Other),
    };
    assert!(matches!(handle_event(event), DispatchAction::LogUnknownData));
    let event = GatewayEvent::InteractionCreate {
        application_id: 1,
        interaction_id: 2,
        token: String::from("tok"),
        kind: InteractionKind::ApplicationCommand,
        data: None,
    };
    assert!(matches!(handle_event(event), DispatchAction::LogUnknownData));
    // An interaction of another kind.
    let event = GatewayEvent::InteractionCreate {
        application_id: 1,
        interaction_id: 2,
        token: String::from("tok"),
        kind: InteractionKind::Other,
        data: None,
    };
    assert!(matches!(handle_event(event), DispatchAction::LogUnknownKind));
}

#[test]
fn schema_registers_both_commands() {
    let commands = register_commands();
    assert_eq!(commands.len(), 2);

    assert_eq!(commands[0].name, "rinfo");
    assert_eq!(commands[0].description, "Get reaction information for a message");
    assert_eq!(commands[0].kind, CommandKind::ChatInput);
    let options = &commands[0].options;
    assert_eq!(options.len(), 5);
    let names: Vec<&str> = options.iter().map(|o| o.name.as_str()).collect();
    assert_eq!(names, vec!["message", "exclude_user", "exclude_reaction", "include_message_user", "user_only"]);
    assert!(options[0].required);
    assert!(options.iter().skip(1).all(|o| !o.required));
    assert_eq!(options[0].kind, CommandOptionKind::Text);
    assert_eq!(options[3].kind, CommandOptionKind::Boolean);
    assert_eq!(options[4].kind, CommandOptionKind::Boolean);

    assert_eq!(commands[1].name, "Reaction Info");
    assert_eq!(commands[1].kind, CommandKind::Message);
    assert!(commands[1].options.is_empty());
}

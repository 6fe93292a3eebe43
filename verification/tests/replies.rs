use reaction_bot::parse::ParseError;
use reaction_bot::reply::{create_error_response, create_message_response, InteractionResponseKind};
use reaction_bot::rinfo::{
    decode_error_reply, fetch_error_reply, handle_context_menu, parse_error_reply, FetchOutcome,
    RinfoCommand,
};
use reaction_bot::summary::Reaction;

fn command(message: &str) -> RinfoCommand {
    RinfoCommand {
        message: String::from(message),
        exclude_user: None,
        exclude_reaction: None,
        include_message_user: None,
        user_only: None,
    }
}

#[test]
fn parse_reference_returns_the_pair_or_the_error_reply() {
    let ok = command("https://discord.com/channels/1/2/3").parse_reference().unwrap();
    assert_eq!(ok.channel_id, 2);
    assert_eq!(ok.message_id, 3);

    let reply = command("123456789012345678").parse_reference().unwrap_err();
    assert_eq!(
        reply.data.unwrap().content.unwrap(),
        "Error: Error parsing message identifier: When providing just a message ID, \
         you must also specify the channel ID"
    );
}

#[test]
fn handle_turns_each_fetch_outcome_into_its_reply() {
    let cmd = command("https://discord.com/channels/1/2/3");
    let reply = cmd.handle(FetchOutcome::FetchFailed { detail: String::from("timed out") });
    assert_eq!(reply.data.unwrap().content.unwrap(), "Error: Error fetching message: timed out");

    let reply = cmd.handle(FetchOutcome::DecodeFailed { detail: String::from("bad body") });
    assert_eq!(reply.data.unwrap().content.unwrap(), "Error: Error parsing message: bad body");

    let reply = cmd.handle(FetchOutcome::Fetched {
        reactions: vec![Reaction { emoji_name: String::from("👍") }],
        reactors: vec![vec![5u64]],
    });
    assert_eq!(
        reply.data.unwrap().content.unwrap(),
        "📝 <https://discord.com/channels/1/2/3>\n\n```\n👍: <@5>\n\n```"
    );
}

#[test]
fn test_create_error_response() {
    let error_message = "Test error message";
    let response = create_error_response(error_message);

    assert_eq!(response.kind, InteractionResponseKind::ChannelMessageWithSource);
    assert!(response.data.is_some());

    let data = response.data.unwrap();
    assert!(data.content.is_some());
    assert_eq!(data.content.unwrap(), format!("Error: {}", error_message));
}

#[test]
fn error_response_is_immediate_and_not_ephemeral() {
    let data = create_error_response("x").data.unwrap();
    assert_eq!(data.tts, Some(false));
    assert!(!data.ephemeral);
}

#[test]
fn message_response_carries_content_verbatim() {
    let response = create_message_response(String::from("hello there"));
    assert_eq!(response.kind, InteractionResponseKind::ChannelMessageWithSource);
    let data = response.data.unwrap();
    assert_eq!(data.content.unwrap(), "hello there");
    assert_eq!(data.tts, Some(false));
    assert!(!data.ephemeral);
}

#[test]
fn parse_error_reply_describes_the_failure() {
    let reply = parse_error_reply(&ParseError::AmbiguousIdentifier);
    assert_eq!(
        reply.data.unwrap().content.unwrap(),
        "Error: Error parsing message identifier: When providing just a message ID, \
         you must also specify the channel ID"
    );
    let reply = parse_error_reply(&ParseError::InvalidFormat);
    assert_eq!(
        reply.data.unwrap().content.unwrap(),
        "Error: Error parsing message identifier: Invalid message identifier format. \
         Please provide a valid Discord message URL"
    );
}

#[test]
fn fetch_and_decode_error_replies() {
    let reply = fetch_error_reply("connection reset");
    assert_eq!(reply.data.unwrap().content.unwrap(), "Error: Error fetching message: connection reset");
    let reply = decode_error_reply("truncated body");
    assert_eq!(reply.data.unwrap().content.unwrap(), "Error: Error parsing message: truncated body");
}

#[test]
fn context_menu_reply_names_the_target() {
    let reply = handle_context_menu(42);
    assert_eq!(reply.kind, InteractionResponseKind::ChannelMessageWithSource);
    assert_eq!(reply.data.unwrap().content.unwrap(), "Context Menu Command\nMessage ID: 42");
}

#[test]
fn build_reply_wraps_the_rendered_block() {
    let command = RinfoCommand {
        message: String::from("https://discord.com/channels/1/2/3"),
        exclude_user: None,
        exclude_reaction: None,
        include_message_user: None,
        user_only: None,
    };
    let reactions = vec![Reaction { emoji_name: String::from("👍") }];
    let reactors = vec![vec![111111111111111111u64, 222222222222222222u64]];
    let reply = command.build_reply(reactions, reactors);
    assert_eq!(
        reply.data.unwrap().content.unwrap(),
        "📝 <https://discord.com/channels/1/2/3>\n\n```\n👍: <@111111111111111111> <@222222222222222222>\n\n```"
    );
}

#[test]
fn build_reply_users_only_deduplicates() {
    let command = RinfoCommand {
        message: String::from("https://discord.com/channels/1/2/3"),
        exclude_user: None,
        exclude_reaction: None,
        include_message_user: None,
        user_only: Some(true),
    };
    let reactions = vec![
        Reaction { emoji_name: String::from("👍") },
        Reaction { emoji_name: String::from("🎉") },
    ];
    let reactors = vec![vec![1u64, 2u64], vec![2u64, 3u64]];
    let reply = command.build_reply(reactions, reactors);
    assert_eq!(
        reply.data.unwrap().content.unwrap(),
        "📝 <https://discord.com/channels/1/2/3>\n\n```\nUsers who reacted: <@1> <@2> <@3>\n```"
    );
}

#[test]
fn build_reply_with_no_reactions() {
    let command = RinfoCommand {
        message: String::from("123"),
        exclude_user: None,
        exclude_reaction: None,
        include_message_user: None,
        user_only: Some(false),
    };
    let reply = command.build_reply(Vec::new(), Vec::new());
    assert_eq!(
        reply.data.unwrap().content.unwrap(),
        "📝 <123>\n\n```\nNo reactions found.\n```"
    );
}

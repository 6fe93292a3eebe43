use reaction_bot::parse::{format_message_url, parse_message_identifier, MessageReference, ParseError};

#[test]
fn test_parse_message_identifier_valid_url() {
    let url = "https://discord.com/channels/123456789012345678/234567890123456789/345678901234567890";
    let result = parse_message_identifier(url);

    assert!(result.is_ok());
    let reference = result.unwrap();
    assert_eq!(reference.channel_id, 234567890123456789);
    assert_eq!(reference.message_id, 345678901234567890);
}

#[test]
fn test_parse_message_identifier_invalid_url() {
    let url = "https://discord.com/invalid/url";
    let result = parse_message_identifier(url);

    assert!(result.is_err());
    let error = result.unwrap_err();
    assert_eq!(error, ParseError::InvalidFormat);
    assert!(error.message().contains("Invalid message identifier format"));
}

#[test]
fn test_parse_message_identifier_numeric_id() {
    let id = "123456789012345678";
    let result = parse_message_identifier(id);

    assert!(result.is_err());
    let error = result.unwrap_err();
    assert_eq!(error, ParseError::AmbiguousIdentifier);
    assert!(error.message().contains("When providing just a message ID"));
}

#[test]
fn numeric_strings_are_ambiguous() {
    for id in ["", "0", "7", "00000", "18446744073709551615", "99999999999999999999999"] {
        assert_eq!(parse_message_identifier(id), Err(ParseError::AmbiguousIdentifier));
    }
}

#[test]
fn match_may_start_anywhere_and_earliest_wins() {
    let text = "see https://discord.com/channels/1/2/3 and https://discord.com/channels/4/5/6!";
    let reference = parse_message_identifier(text).unwrap();
    assert_eq!(reference.channel_id, 2);
    assert_eq!(reference.message_id, 3);
}

#[test]
fn trailing_text_after_match_is_accepted() {
    let reference = parse_message_identifier("https://discord.com/channels/10/20/30?query=1").unwrap();
    assert_eq!(reference.channel_id, 20);
    assert_eq!(reference.message_id, 30);
}

#[test]
fn missing_segments_are_invalid() {
    for url in [
        "https://discord.com/channels/1/2/",
        "https://discord.com/channels//2/3",
        "https://discord.com/channels/1/2",
        "https://discord.com/channel/1/2/3",
        "not a url at all",
    ] {
        assert_eq!(parse_message_identifier(url), Err(ParseError::InvalidFormat));
    }
}

#[test]
fn zero_identifiers_are_invalid() {
    assert_eq!(
        parse_message_identifier("https://discord.com/channels/1/0/3"),
        Err(ParseError::InvalidFormat)
    );
    assert_eq!(
        parse_message_identifier("https://discord.com/channels/1/2/0"),
        Err(ParseError::InvalidFormat)
    );
}

#[test]
fn oversized_identifiers_are_invalid() {
    // One past u64::MAX.
    assert_eq!(
        parse_message_identifier("https://discord.com/channels/1/18446744073709551616/3"),
        Err(ParseError::InvalidFormat)
    );
    // u64::MAX itself still fits.
    let reference =
        parse_message_identifier("https://discord.com/channels/1/18446744073709551615/3").unwrap();
    assert_eq!(reference.channel_id, u64::MAX);
    assert_eq!(reference.message_id, 3);
}

#[test]
fn format_then_parse_round_trips() {
    let reference = MessageReference { channel_id: 234567890123456789, message_id: 345678901234567890 };
    let url = format_message_url(123456789012345678, &reference);
    assert_eq!(
        url,
        "https://discord.com/channels/123456789012345678/234567890123456789/345678901234567890"
    );
    assert_eq!(parse_message_identifier(&url), Ok(reference));

    let small = MessageReference { channel_id: 2, message_id: 3 };
    let url = format_message_url(1, &small);
    assert_eq!(url, "https://discord.com/channels/1/2/3");
    assert_eq!(parse_message_identifier(&url), Ok(small));
}

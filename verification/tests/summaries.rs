use reaction_bot::render::format_reaction_info;
use reaction_bot::summary::{
    build_reaction_groups, filter_reactions, format_user_mention, get_emoji_name, Reaction,
    ReactionGroup,
};

fn reaction(name: &str) -> Reaction {
    Reaction { emoji_name: String::from(name) }
}

fn group(emoji: &str, mentions: &[&str]) -> ReactionGroup {
    ReactionGroup {
        emoji_name: String::from(emoji),
        user_mentions: mentions.iter().map(|m| String::from(*m)).collect(),
    }
}

#[test]
fn empty_mapping_renders_fixed_sentence() {
    let groups: Vec<ReactionGroup> = Vec::new();
    assert_eq!(format_reaction_info(&groups, false), "No reactions found.");
    assert_eq!(format_reaction_info(&groups, true), "No reactions found.");
}

#[test]
fn grouped_rendering_one_line_per_group() {
    let groups = vec![group("👍", &["<@1>", "<@2>"]), group("🎉", &["<@3>"])];
    assert_eq!(format_reaction_info(&groups, false), "👍: <@1> <@2>\n🎉: <@3>\n");
}

#[test]
fn users_only_deduplicates_across_groups() {
    let groups = vec![
        group("👍", &["<@1>", "<@2>"]),
        group("🎉", &["<@2>", "<@3>"]),
        group("😄", &["<@1>"]),
    ];
    assert_eq!(format_reaction_info(&groups, true), "Users who reacted: <@1> <@2> <@3>");
}

#[test]
fn users_only_single_group() {
    let groups = vec![group("👍", &["<@7>", "<@7>"])];
    assert_eq!(format_reaction_info(&groups, true), "Users who reacted: <@7>");
}

#[test]
fn filter_removes_trimmed_tokens_case_sensitively() {
    let reactions = vec![reaction("👍"), reaction("x"), reaction("X"), reaction("🎉")];
    let kept = filter_reactions(reactions, Some(" x , 🎉"));
    let names: Vec<String> = kept.iter().map(get_emoji_name).collect();
    assert_eq!(names, vec![String::from("👍"), String::from("X")]);
}

#[test]
fn empty_or_absent_exclusion_removes_nothing() {
    let reactions = vec![reaction("a"), reaction("b")];
    assert_eq!(filter_reactions(reactions, None).len(), 2);
    let reactions = vec![reaction("a"), reaction("b")];
    assert_eq!(filter_reactions(reactions, Some("")).len(), 2);
}

#[test]
fn grouping_pairs_reactions_with_their_reactors() {
    let reactions = vec![reaction("👍"), reaction("🎉")];
    let reactors = vec![vec![1u64, 2u64], vec![3u64]];
    let groups = build_reaction_groups(&reactions, &reactors);
    assert_eq!(groups.len(), 2);
    assert_eq!(groups[0].emoji_name, "👍");
    assert_eq!(groups[0].user_mentions, vec![String::from("<@1>"), String::from("<@2>")]);
    assert_eq!(groups[1].emoji_name, "🎉");
    assert_eq!(groups[1].user_mentions, vec![String::from("<@3>")]);
}

#[test]
fn grouping_replaces_repeated_emoji_like_a_map_insert() {
    let reactions = vec![reaction("👍"), reaction("👍")];
    let reactors = vec![vec![1u64], vec![2u64]];
    let groups = build_reaction_groups(&reactions, &reactors);
    assert_eq!(groups.len(), 1);
    assert_eq!(groups[0].emoji_name, "👍");
    assert_eq!(groups[0].user_mentions, vec![String::from("<@2>")]);
}

#[test]
fn comma_only_exclusion_excludes_only_empty_names() {
    let reactions = vec![reaction(""), reaction("a")];
    let kept = filter_reactions(reactions, Some(","));
    assert_eq!(kept.len(), 1);
    assert_eq!(kept[0].emoji_name, "a");
}

#[test]
fn mentions_render_in_angle_bracket_form() {
    assert_eq!(format_user_mention(0), "<@0>");
    assert_eq!(format_user_mention(111111111111111111), "<@111111111111111111>");
    assert_eq!(format_user_mention(u64::MAX), "<@18446744073709551615>");
}

//! Reaction summaries.
//!
//! The remaining reactions of a message, after exclusion filtering, are
//! grouped into a mapping from emoji name to the mentions of the users who
//! reacted with it. The mapping is kept as a vector of groups in insertion
//! order with unique keys; inserting an emoji a second time replaces its
//! group, as a map insert does.

use vstd::prelude::*;
use crate::digits::{dec_rep, u64_to_dec_string};
use crate::tokens::{contains_string, name_in_tokens, split_and_trim, split_trimmed};

verus! {

/// One reaction on a message, as far as the logic reads it: the display
/// name (or rendered identifier) of its emoji.
#[derive(Debug)]
pub struct Reaction {
    pub emoji_name: String,
}

/// The display name of the reaction's emoji.
pub fn get_emoji_name(reaction: &Reaction) -> (r: String)
    ensures
        r@ == reaction.emoji_name@,
{
    reaction.emoji_name.clone()
}

/// The view of the optional exclusion argument.
pub open spec fn exclude_view(exclude_reaction: Option<&str>) -> Option<Seq<char>> {
    match exclude_reaction {
        Option::Some(e) => Option::Some(e@),
        Option::None => Option::None,
    }
}

/// Whether `emoji_name` is excluded by the optional comma-separated
/// argument. An absent or empty argument excludes nothing; otherwise the
/// name is excluded exactly when it equals one of the trimmed tokens,
/// case-sensitively.
pub open spec fn reaction_excluded(exclude: Option<Seq<char>>, emoji_name: Seq<char>) -> bool {
    match exclude {
        Option::None => false,
        Option::Some(e) => e.len() > 0 && name_in_tokens(e, emoji_name),
    }
}

/// The reactions that remain once the excluded emoji names are removed,
/// in their original order.
pub open spec fn filtered_reactions(rs: Seq<Reaction>, exclude: Option<Seq<char>>) -> Seq<
    Reaction,
>
    decreases rs.len(),
{
    if rs.len() == 0 {
        rs
    } else {
        let rest = filtered_reactions(rs.drop_last(), exclude);
        if reaction_excluded(exclude, rs.last().emoji_name@) {
            rest
        } else {
            rest.push(rs.last())
        }
    }
}

/// An exclusion argument that excludes nothing keeps every reaction.
proof fn lemma_filtered_reactions_all(rs: Seq<Reaction>, exclude: Option<Seq<char>>)
    requires
        forall|name: Seq<char>| !reaction_excluded(exclude, name),
    ensures
        filtered_reactions(rs, exclude) == rs,
    decreases rs.len(),
{
    if rs.len() > 0 {
        lemma_filtered_reactions_all(rs.drop_last(), exclude);
        assert(filtered_reactions(rs, exclude) =~= rs);
    }
}

/// Removes every reaction whose emoji name equals one of the trimmed,
/// comma-separated exclusion tokens; an absent or empty argument removes
/// nothing.
pub fn filter_reactions(reactions: Vec<Reaction>, exclude_reaction: Option<&str>) -> (r: Vec<
    Reaction,
>)
    ensures
        r@ == filtered_reactions(reactions@, exclude_view(exclude_reaction)),
{
    let ghost exclude = exclude_view(exclude_reaction);
    let ghost orig = reactions@;
    let e = match exclude_reaction {
        Option::Some(e) => e,
        Option::None => {
            proof {
                lemma_filtered_reactions_all(orig, exclude);
            }
            return reactions;
        },
    };
    if e.unicode_len() == 0 {
        proof {
            lemma_filtered_reactions_all(orig, exclude);
        }
        return reactions;
    }
    let tokens = split_and_trim(e);
    let mut rest = reactions;
    let mut out: Vec<Reaction> = Vec::new();
    proof {
        assert(orig.take(0) =~= Seq::<Reaction>::empty());
        assert(out@ =~= filtered_reactions(orig.take(0), exclude));
    }
    while rest.len() > 0
        invariant
            rest@.len() <= orig.len(),
            rest@ == orig.skip(orig.len() - rest@.len()),
            out@ == filtered_reactions(orig.take(orig.len() - rest@.len()), exclude),
            tokens.deep_view() == split_trimmed(e@),
            e@.len() > 0,
            exclude == Option::Some(e@),
        decreases rest@.len(),
    {
        let ghost k = orig.len() - rest@.len();
        let rc = rest.remove(0);
        proof {
            assert(rc == orig[k as int]);
            assert(rest@ =~= orig.skip(k as int + 1));
        }
        let excluded = contains_string(&tokens, &rc.emoji_name);
        proof {
            assert(orig.take(k as int + 1).drop_last() =~= orig.take(k as int));
            assert(orig.take(k as int + 1).last() == orig[k as int]);
        }
        if !excluded {
            out.push(rc);
        }
    }
    proof {
        assert(orig.take(orig.len() as int) =~= orig);
    }
    out
}

/// The spec-level image of a reaction group: an emoji name and the
/// mention texts listed under it.
pub ghost struct GroupModel {
    pub emoji: Seq<char>,
    pub mentions: Seq<Seq<char>>,
}

/// A reaction group: an emoji name and the mentions of the users who
/// reacted with it.
#[derive(Debug)]
pub struct ReactionGroup {
    pub emoji_name: String,
    pub user_mentions: Vec<String>,
}

impl View for ReactionGroup {
    type V = GroupModel;

    open spec fn view(&self) -> GroupModel {
        GroupModel { emoji: self.emoji_name@, mentions: self.user_mentions.deep_view() }
    }
}

impl DeepView for ReactionGroup {
    type V = GroupModel;

    open spec fn deep_view(&self) -> GroupModel {
        self.view()
    }
}

/// The mention text for the user with identifier `user_id`.
pub open spec fn mention_rep(user_id: nat) -> Seq<char> {
    "<@"@ + dec_rep(user_id) + ">"@
}

/// The mention texts for a list of user identifiers, in order.
pub open spec fn mentions_of(user_ids: Seq<u64>) -> Seq<Seq<char>> {
    Seq::new(user_ids.len(), |i: int| mention_rep(user_ids[i] as nat))
}

/// Renders the mention of one user.
pub fn format_user_mention(user_id: u64) -> (r: String)
    ensures
        r@ == mention_rep(user_id as nat),
{
    let mut r = String::from_str("<@");
    let d = u64_to_dec_string(user_id);
    r.append(d.as_str());
    r.append(">");
    proof {
        assert(r@ =~= mention_rep(user_id as nat));
    }
    r
}

/// Renders the mentions of the users who reacted with one emoji.
pub fn build_mentions(user_ids: &Vec<u64>) -> (r: Vec<String>)
    ensures
        r.deep_view() == mentions_of(user_ids@),
{
    let mut r: Vec<String> = Vec::new();
    let mut i: usize = 0;
    proof {
        assert(r.deep_view() =~= mentions_of(user_ids@).take(0));
    }
    while i < user_ids.len()
        invariant
            0 <= i <= user_ids@.len(),
            r.deep_view() == mentions_of(user_ids@).take(i as int),
        decreases user_ids@.len() - i,
    {
        let ghost prev = r.deep_view();
        let m = format_user_mention(user_ids[i]);
        r.push(m);
        proof {
            assert(r.deep_view() =~= prev.push(mention_rep(user_ids@[i as int] as nat)));
            assert(r.deep_view() =~= mentions_of(user_ids@).take(i as int + 1));
        }
        i = i + 1;
    }
    proof {
        assert(mentions_of(user_ids@).take(user_ids@.len() as int) =~= mentions_of(user_ids@));
    }
    r
}

/// The index of the first group keyed by `emoji`, or the length if no
/// group is.
pub open spec fn model_index(ms: Seq<GroupModel>, emoji: Seq<char>) -> int
    decreases ms.len(),
{
    if ms.len() == 0 {
        0
    } else if ms[0].emoji == emoji {
        0
    } else {
        1 + model_index(ms.skip(1), emoji)
    }
}

/// The first group keyed by `emoji` carries that key, and nothing before
/// it does.
pub proof fn lemma_model_index(ms: Seq<GroupModel>, emoji: Seq<char>)
    ensures
        0 <= model_index(ms, emoji) <= ms.len(),
        model_index(ms, emoji) < ms.len() ==> ms[model_index(ms, emoji)].emoji == emoji,
        forall|j: int| 0 <= j < model_index(ms, emoji) ==> (#[trigger] ms[j]).emoji != emoji,
    decreases ms.len(),
{
    if ms.len() > 0 && ms[0].emoji != emoji {
        let tail = ms.skip(1);
        lemma_model_index(tail, emoji);
        let idx = model_index(ms, emoji);
        assert(idx == 1 + model_index(tail, emoji));
        if idx < ms.len() {
            assert(ms[idx] == tail[idx - 1]);
        }
        assert forall|j: int| 0 <= j < idx implies (#[trigger] ms[j]).emoji != emoji by {
            if j > 0 {
                assert(ms[j] == tail[j - 1]);
            }
        }
    }
}

/// A map insert on the grouping: replaces the group keyed by `m.emoji`,
/// or appends `m` if no group carries that key.
pub open spec fn upsert_model(ms: Seq<GroupModel>, m: GroupModel) -> Seq<GroupModel> {
    let k = model_index(ms, m.emoji);
    if k < ms.len() {
        ms.update(k, m)
    } else {
        ms.push(m)
    }
}

/// Inserts or replaces the group for `emoji_name`, keeping insertion
/// order and unique keys.
pub fn upsert_group(groups: &mut Vec<ReactionGroup>, emoji_name: String, user_mentions: Vec<String>)
    ensures
        final(groups).deep_view() == upsert_model(
            old(groups).deep_view(),
            (GroupModel { emoji: emoji_name@, mentions: user_mentions.deep_view() }),
        ),
{
    let ghost ms = groups.deep_view();
    let ghost m = GroupModel { emoji: emoji_name@, mentions: user_mentions.deep_view() };
    let n = groups.len();
    let mut i: usize = 0;
    while i < n
        invariant
            0 <= i <= n == groups@.len(),
            ms == old(groups).deep_view(),
            groups.deep_view() == ms,
            m == (GroupModel { emoji: emoji_name@, mentions: user_mentions.deep_view() }),
            forall|j: int| 0 <= j < i ==> (#[trigger] ms[j]).emoji != m.emoji,
        decreases n - i,
    {
        if groups[i].emoji_name.eq(&emoji_name) {
            proof {
                lemma_model_index(ms, m.emoji);
                assert(ms[i as int].emoji == m.emoji);
                assert(model_index(ms, m.emoji) == i as int);
            }
            groups.remove(i);
            groups.insert(i, ReactionGroup { emoji_name, user_mentions });
            proof {
                assert(groups.deep_view() =~= ms.update(i as int, m));
            }
            return;
        }
        proof {
            assert(ms[i as int].emoji != m.emoji);
        }
        i = i + 1;
    }
    proof {
        lemma_model_index(ms, m.emoji);
        assert(model_index(ms, m.emoji) == ms.len());
    }
    groups.push(ReactionGroup { emoji_name, user_mentions });
    proof {
        assert(groups.deep_view() =~= ms.push(m));
    }
}

/// The grouping produced by the remaining reactions: each reaction's
/// emoji mapped, in first-appearance order, to the mentions of the users
/// fetched for it; a repeated emoji name replaces the earlier entry, as a
/// map insert does.
pub open spec fn summary_models(reactions: Seq<Reaction>, reactors: Seq<Seq<u64>>) -> Seq<
    GroupModel,
>
    decreases reactions.len(),
{
    if reactions.len() == 0 || reactions.len() != reactors.len() {
        Seq::empty()
    } else {
        upsert_model(
            summary_models(reactions.drop_last(), reactors.drop_last()),
            GroupModel {
                emoji: reactions.last().emoji_name@,
                mentions: mentions_of(reactors.last()),
            },
        )
    }
}

/// Builds the emoji-to-mentions grouping for the remaining reactions,
/// pairing each reaction with the identifiers of the users fetched for
/// it.
pub fn build_reaction_groups(reactions: &Vec<Reaction>, reactors: &Vec<Vec<u64>>) -> (r: Vec<
    ReactionGroup,
>)
    requires
        reactions@.len() == reactors@.len(),
    ensures
        r.deep_view() == summary_models(reactions@, reactors.deep_view()),
{
    let mut r: Vec<ReactionGroup> = Vec::new();
    let mut k: usize = 0;
    proof {
        assert(reactions@.take(0) =~= Seq::<Reaction>::empty());
        assert(r.deep_view() =~= summary_models(
            reactions@.take(0),
            reactors.deep_view().take(0),
        ));
    }
    while k < reactions.len()
        invariant
            0 <= k <= reactions@.len(),
            reactions@.len() == reactors@.len(),
            r.deep_view() == summary_models(
                reactions@.take(k as int),
                reactors.deep_view().take(k as int),
            ),
        decreases reactions@.len() - k,
    {
        let emoji = get_emoji_name(&reactions[k]);
        let mentions = build_mentions(&reactors[k]);
        upsert_group(&mut r, emoji, mentions);
        proof {
            let ra = reactions@.take(k as int + 1);
            let rb = reactors.deep_view().take(k as int + 1);
            assert(ra.drop_last() =~= reactions@.take(k as int));
            assert(rb.drop_last() =~= reactors.deep_view().take(k as int));
            assert(ra.last() == reactions@[k as int]);
            assert(rb.last() == reactors@[k as int].deep_view());
            assert(mentions_of(reactors@[k as int]@) == mentions_of(rb.last()));
            assert(r.deep_view() == summary_models(ra, rb));
        }
        k = k + 1;
    }
    proof {
        assert(reactions@.take(reactions@.len() as int) =~= reactions@);
        assert(reactors.deep_view().take(reactions@.len() as int) =~= reactors.deep_view());
    }
    r
}

} // verus!

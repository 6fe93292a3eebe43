//! Rendering of reaction summaries.
//!
//! An empty mapping renders as a fixed sentence. In users-only mode the
//! mentions of all groups are flattened, de-duplicated keeping first
//! occurrences, and joined with spaces. Otherwise each group renders as
//! one line, `"<emoji>: <mention> <mention> ...\n"`.

use vstd::prelude::*;
use crate::summary::{GroupModel, ReactionGroup};
use crate::tokens::contains_string;

verus! {

/// All user mentions of all groups, in group order.
pub open spec fn all_mentions(ms: Seq<GroupModel>) -> Seq<Seq<char>>
    decreases ms.len(),
{
    if ms.len() == 0 {
        Seq::empty()
    } else {
        all_mentions(ms.drop_last()) + ms.last().mentions
    }
}

/// Keeps the first occurrence of each element, in order.
pub open spec fn dedup_firsts(s: Seq<Seq<char>>) -> Seq<Seq<char>>
    decreases s.len(),
{
    if s.len() == 0 {
        s
    } else {
        let rest = dedup_firsts(s.drop_last());
        if s.drop_last().contains(s.last()) {
            rest
        } else {
            rest.push(s.last())
        }
    }
}

/// De-duplication keeps exactly the elements that occur: nothing is
/// invented and nothing is lost.
pub proof fn lemma_dedup_firsts_contains(s: Seq<Seq<char>>, x: Seq<char>)
    ensures
        dedup_firsts(s).contains(x) <==> s.contains(x),
    decreases s.len(),
{
    if s.len() > 0 {
        let d = s.drop_last();
        let y = s.last();
        let rest = dedup_firsts(d);
        lemma_dedup_firsts_contains(d, x);
        assert(s.contains(x) <==> (d.contains(x) || x == y)) by {
            if s.contains(x) {
                let i = choose|i: int| 0 <= i < s.len() && s[i] == x;
                if i < s.len() - 1 {
                    assert(d[i] == x);
                    assert(d.contains(x));
                }
            }
            if d.contains(x) {
                let i = choose|i: int| 0 <= i < d.len() && d[i] == x;
                assert(s[i] == x);
            }
            if x == y {
                assert(s[s.len() - 1] == x);
            }
        }
        if d.contains(y) {
            lemma_dedup_firsts_contains(d, y);
        } else {
            assert(rest.push(y).contains(x) <==> (rest.contains(x) || x == y)) by {
                if rest.push(y).contains(x) {
                    let i = choose|i: int| 0 <= i < rest.push(y).len() && rest.push(y)[i] == x;
                    if i < rest.len() {
                        assert(rest[i] == x);
                    }
                }
                if rest.contains(x) {
                    let i = choose|i: int| 0 <= i < rest.len() && rest[i] == x;
                    assert(rest.push(y)[i] == x);
                }
                assert(rest.push(y)[rest.len() as int] == y);
            }
        }
    }
}

/// De-duplication leaves no element twice: any two distinct positions of
/// the result hold different elements.
pub proof fn lemma_dedup_firsts_distinct(s: Seq<Seq<char>>, i: int, j: int)
    requires
        0 <= i < j < dedup_firsts(s).len(),
    ensures
        dedup_firsts(s)[i] != dedup_firsts(s)[j],
    decreases s.len(),
{
    if s.len() > 0 {
        let d = s.drop_last();
        let y = s.last();
        let rest = dedup_firsts(d);
        if d.contains(y) {
            lemma_dedup_firsts_distinct(d, i, j);
        } else {
            if j < rest.len() {
                lemma_dedup_firsts_distinct(d, i, j);
                assert(dedup_firsts(s)[i] == rest[i]);
                assert(dedup_firsts(s)[j] == rest[j]);
            } else {
                assert(dedup_firsts(s)[j] == y);
                assert(dedup_firsts(s)[i] == rest[i]);
                assert(rest.contains(rest[i]));
                lemma_dedup_firsts_contains(d, rest[i]);
                assert(d.contains(rest[i]));
            }
        }
    }
}

/// The space-separated concatenation of `items`.
pub open spec fn join_spaced(items: Seq<Seq<char>>) -> Seq<char>
    decreases items.len(),
{
    if items.len() == 0 {
        Seq::empty()
    } else if items.len() == 1 {
        items[0]
    } else {
        join_spaced(items.drop_last()) + seq![' '] + items.last()
    }
}

/// The line rendered for one group.
pub open spec fn group_line(m: GroupModel) -> Seq<char> {
    m.emoji + ": "@ + join_spaced(m.mentions) + "\n"@
}

/// The grouped rendering: one line per group, in order.
pub open spec fn grouped_lines(ms: Seq<GroupModel>) -> Seq<char>
    decreases ms.len(),
{
    if ms.len() == 0 {
        Seq::empty()
    } else {
        grouped_lines(ms.drop_last()) + group_line(ms.last())
    }
}

/// What the reaction renderer returns: the fixed sentence for an empty
/// mapping; in users-only mode the de-duplicated flat mention list behind
/// a fixed prefix; otherwise one line per group.
pub open spec fn format_spec(ms: Seq<GroupModel>, user_only: bool) -> Seq<char> {
    if ms.len() == 0 {
        "No reactions found."@
    } else if user_only {
        "Users who reacted: "@ + join_spaced(dedup_firsts(all_mentions(ms)))
    } else {
        grouped_lines(ms)
    }
}

/// Joins rendered items with single spaces.
fn join_with_spaces(items: &Vec<String>) -> (r: String)
    ensures
        r@ == join_spaced(items.deep_view()),
{
    let mut r = String::new();
    let mut i: usize = 0;
    proof {
        assert(items.deep_view().take(0) =~= Seq::<Seq<char>>::empty());
    }
    while i < items.len()
        invariant
            0 <= i <= items@.len(),
            r@ == join_spaced(items.deep_view().take(i as int)),
        decreases items@.len() - i,
    {
        if i > 0 {
            r.append(" ");
        }
        r.append(items[i].as_str());
        proof {
            reveal_strlit(" ");
            let dv = items.deep_view();
            assert(dv.take(i as int + 1).drop_last() =~= dv.take(i as int));
            assert(dv.take(i as int + 1).last() == dv[i as int]);
            if i == 0 {
                assert(r@ =~= join_spaced(dv.take(1)));
            } else {
                assert(" "@ =~= seq![' ']);
                assert(r@ =~= join_spaced(dv.take(i as int)) + seq![' '] + dv[i as int]);
            }
        }
        i = i + 1;
    }
    proof {
        assert(items.deep_view().take(items@.len() as int) =~= items.deep_view());
    }
    r
}

/// Renders the grouped lines.
fn render_grouped(groups: &Vec<ReactionGroup>) -> (r: String)
    ensures
        r@ == grouped_lines(groups.deep_view()),
{
    let mut r = String::new();
    let mut i: usize = 0;
    proof {
        assert(groups.deep_view().take(0) =~= Seq::<GroupModel>::empty());
    }
    while i < groups.len()
        invariant
            0 <= i <= groups@.len(),
            r@ == grouped_lines(groups.deep_view().take(i as int)),
        decreases groups@.len() - i,
    {
        let joined = join_with_spaces(&groups[i].user_mentions);
        r.append(groups[i].emoji_name.as_str());
        r.append(": ");
        r.append(joined.as_str());
        r.append("\n");
        proof {
            let dv = groups.deep_view();
            assert(dv.take(i as int + 1).drop_last() =~= dv.take(i as int));
            assert(dv.take(i as int + 1).last() == dv[i as int]);
            assert(r@ =~= grouped_lines(dv.take(i as int)) + group_line(dv[i as int]));
        }
        i = i + 1;
    }
    proof {
        assert(groups.deep_view().take(groups@.len() as int) =~= groups.deep_view());
    }
    r
}

/// Collects the distinct user mentions across all groups, keeping first
/// occurrences in order.
fn collect_unique_mentions(groups: &Vec<ReactionGroup>) -> (r: Vec<String>)
    ensures
        r.deep_view() == dedup_firsts(all_mentions(groups.deep_view())),
{
    let mut seen: Vec<String> = Vec::new();
    let mut i: usize = 0;
    proof {
        assert(groups.deep_view().take(0) =~= Seq::<GroupModel>::empty());
        assert(seen.deep_view() =~= dedup_firsts(all_mentions(groups.deep_view().take(0))));
    }
    while i < groups.len()
        invariant
            0 <= i <= groups@.len(),
            seen.deep_view() == dedup_firsts(all_mentions(groups.deep_view().take(i as int))),
        decreases groups@.len() - i,
    {
        let ghost base = all_mentions(groups.deep_view().take(i as int));
        let ms = &groups[i].user_mentions;
        let mut j: usize = 0;
        proof {
            assert(base + ms.deep_view().take(0) =~= base);
        }
        while j < ms.len()
            invariant
                0 <= j <= ms@.len(),
                base == all_mentions(groups.deep_view().take(i as int)),
                ms == &groups[i as int].user_mentions,
                0 <= i < groups@.len(),
                seen.deep_view() == dedup_firsts(base + ms.deep_view().take(j as int)),
            decreases ms@.len() - j,
        {
            let ghost processed = base + ms.deep_view().take(j as int);
            let ghost x = ms.deep_view()[j as int];
            let dup = contains_string(&seen, &ms[j]);
            proof {
                assert(processed.push(x).drop_last() =~= processed);
                assert(processed.push(x).last() == x);
                lemma_dedup_firsts_contains(processed, x);
                assert(base + ms.deep_view().take(j as int + 1) =~= processed.push(x));
            }
            if !dup {
                let ghost prev = seen.deep_view();
                let mention = ms[j].clone();
                seen.push(mention);
                proof {
                    assert(seen.deep_view() =~= prev.push(x));
                }
            }
            j = j + 1;
        }
        proof {
            let dv = groups.deep_view();
            assert(dv.take(i as int + 1).drop_last() =~= dv.take(i as int));
            assert(dv.take(i as int + 1).last() == dv[i as int]);
            assert(ms.deep_view().take(ms@.len() as int) =~= ms.deep_view());
            assert(base + ms.deep_view() =~= all_mentions(dv.take(i as int + 1)));
        }
        i = i + 1;
    }
    proof {
        assert(groups.deep_view().take(groups@.len() as int) =~= groups.deep_view());
    }
    seen
}

/// Renders the reaction summary. An empty mapping renders as exactly
/// `"No reactions found."`. In users-only mode the result is the single
/// de-duplicated list of user mentions across all groups, prefixed
/// `"Users who reacted: "`; otherwise one `"<emoji>: <mentions>"` line is
/// rendered per group.
pub fn format_reaction_info(groups: &Vec<ReactionGroup>, user_only: bool) -> (r: String)
    ensures
        r@ == format_spec(groups.deep_view(), user_only),
        groups@.len() == 0 ==> r@ == "No reactions found."@,
{
    if groups.len() == 0 {
        return String::from_str("No reactions found.");
    }
    if user_only {
        let uniques = collect_unique_mentions(groups);
        let joined = join_with_spaces(&uniques);
        let mut r = String::from_str("Users who reacted: ");
        r.append(joined.as_str());
        r
    } else {
        render_grouped(groups)
    }
}

} // verus!

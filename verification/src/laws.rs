//! The library's laws: properties that hold of every input, stated over the
//! spec-level projections that the executable functions are proved to return.

use vstd::prelude::*;
use crate::types::{
    AliasEntryV, AuthorViewV, CommentV, IssueV, IssueViewV, PatchV, PatchViewV, ReactionV,
    RemoteV, spec_alias,
};
use crate::json::{
    insert_emoji, spec_author_views_for, spec_authors_for, spec_comment_view, spec_emojis,
    spec_issue_view, spec_patch_view, spec_reaction_groups, spec_resolve, spec_resolve_all,
    strictly_sorted,
};

verus! {

/// `x` occurs in `es`.
pub open spec fn has_char(es: Seq<char>, x: char) -> bool {
    exists|i: int| 0 <= i < es.len() && es[i] == x
}

/// Some pair of `pairs` carries the emoji `x`.
pub open spec fn has_emoji(pairs: Seq<ReactionV>, x: char) -> bool {
    exists|t: int| 0 <= t < pairs.len() && pairs[t].emoji == x
}

/// Some pair of `ps` is exactly `(a, e)`.
pub open spec fn has_pair(ps: Seq<ReactionV>, e: char, a: Seq<char>) -> bool {
    exists|t: int| 0 <= t < ps.len() && ps[t].emoji == e && ps[t].author == a
}

proof fn lemma_char_injective(a: char, b: char)
    ensures
        a != b ==> (a as u32) != (b as u32),
{
}

proof fn lemma_insert_emoji_props(es: Seq<char>, e: char)
    requires
        strictly_sorted(es),
    ensures
        strictly_sorted(insert_emoji(es, e)),
        forall|x: char| #[trigger]
            has_char(insert_emoji(es, e), x) <==> (has_char(es, x) || x == e),
    decreases es.len(),
{
    let res = insert_emoji(es, e);
    if es.len() == 0 {
        assert forall|x: char| #[trigger] has_char(res, x) implies (has_char(es, x) || x == e) by {
            let idx = choose|idx: int| 0 <= idx < res.len() && res[idx] == x;
            assert(res[0] == e);
        }
        assert forall|x: char| has_char(es, x) || x == e implies #[trigger] has_char(res, x) by {
            assert(res[0] == e);
        }
    } else if es[0] == e {
        assert(res == es);
        assert forall|x: char| has_char(es, x) || x == e implies #[trigger] has_char(res, x) by {
            if x == e {
                assert(res[0] == e);
            }
        }
    } else if (e as u32) < (es[0] as u32) {
        assert(res == seq![e] + es);
        assert forall|i: int, j: int| 0 <= i < j < res.len() implies (res[i] as u32) < (
        res[j] as u32) by {
            if i == 0 {
                assert(res[j] == es[j - 1]);
                if j - 1 > 0 {
                    assert((es[0] as u32) < (es[j - 1] as u32));
                }
            } else {
                assert(res[i] == es[i - 1] && res[j] == es[j - 1]);
            }
        }
        assert forall|x: char| #[trigger] has_char(res, x) implies (has_char(es, x) || x == e) by {
            let idx = choose|idx: int| 0 <= idx < res.len() && res[idx] == x;
            if idx > 0 {
                assert(es[idx - 1] == x);
            }
        }
        assert forall|x: char| has_char(es, x) || x == e implies #[trigger] has_char(res, x) by {
            if x == e {
                assert(res[0] == e);
            } else {
                let idx = choose|idx: int| 0 <= idx < es.len() && es[idx] == x;
                assert(res[idx + 1] == x);
            }
        }
    } else {
        lemma_char_injective(es[0], e);
        let rest = es.drop_first();
        assert(strictly_sorted(rest)) by {
            assert forall|i: int, j: int| 0 <= i < j < rest.len() implies (rest[i] as u32) < (
            rest[j] as u32) by {
                assert(rest[i] == es[i + 1] && rest[j] == es[j + 1]);
            }
        }
        lemma_insert_emoji_props(rest, e);
        let sub = insert_emoji(rest, e);
        assert(res == seq![es[0]] + sub);
        assert forall|i: int, j: int| 0 <= i < j < res.len() implies (res[i] as u32) < (
        res[j] as u32) by {
            if i == 0 {
                assert(res[j] == sub[j - 1]);
                assert(has_char(sub, sub[j - 1]));
                if sub[j - 1] == e {
                    assert((es[0] as u32) < (e as u32));
                } else {
                    assert(has_char(rest, sub[j - 1]));
                    let idx = choose|idx: int| 0 <= idx < rest.len() && rest[idx] == sub[j - 1];
                    assert(rest[idx] == es[idx + 1]);
                    assert((es[0] as u32) < (es[idx + 1] as u32));
                }
            } else {
                assert(res[i] == sub[i - 1] && res[j] == sub[j - 1]);
            }
        }
        assert forall|x: char| #[trigger] has_char(res, x) implies (has_char(es, x) || x == e) by {
            let idx = choose|idx: int| 0 <= idx < res.len() && res[idx] == x;
            if idx == 0 {
                assert(es[0] == x);
            } else {
                assert(sub[idx - 1] == x);
                assert(has_char(sub, x));
                if x != e {
                    assert(has_char(rest, x));
                    let ridx = choose|ridx: int| 0 <= ridx < rest.len() && rest[ridx] == x;
                    assert(es[ridx + 1] == x);
                }
            }
        }
        assert forall|x: char| has_char(es, x) || x == e implies #[trigger] has_char(res, x) by {
            if x == e {
                assert(has_char(sub, e));
                let sidx = choose|sidx: int| 0 <= sidx < sub.len() && sub[sidx] == e;
                assert(res[sidx + 1] == e);
            } else {
                let idx = choose|idx: int| 0 <= idx < es.len() && es[idx] == x;
                if idx == 0 {
                    assert(res[0] == x);
                } else {
                    assert(rest[idx - 1] == x);
                    assert(has_char(rest, x));
                    assert(has_char(sub, x));
                    let sidx = choose|sidx: int| 0 <= sidx < sub.len() && sub[sidx] == x;
                    assert(res[sidx + 1] == x);
                }
            }
        }
    }
}

/// The emojis of a grouping pass are strictly ordered, and are exactly the
/// emojis that occur among the pairs.
pub proof fn lemma_emojis_props(pairs: Seq<ReactionV>)
    ensures
        strictly_sorted(spec_emojis(pairs)),
        forall|x: char| #[trigger] has_char(spec_emojis(pairs), x) <==> has_emoji(pairs, x),
    decreases pairs.len(),
{
    if pairs.len() == 0 {
        assert forall|x: char| #[trigger]
            has_char(spec_emojis(pairs), x) <==> has_emoji(pairs, x) by {}
    } else {
        let pre = pairs.drop_last();
        lemma_emojis_props(pre);
        lemma_insert_emoji_props(spec_emojis(pre), pairs.last().emoji);
        assert forall|x: char| #[trigger] has_char(spec_emojis(pairs), x) implies has_emoji(
            pairs,
            x,
        ) by {
            assert(has_char(insert_emoji(spec_emojis(pre), pairs.last().emoji), x));
            if x == pairs.last().emoji {
                assert(pairs[pairs.len() - 1].emoji == x);
            } else {
                assert(has_char(spec_emojis(pre), x));
                assert(has_emoji(pre, x));
                let t = choose|t: int| 0 <= t < pre.len() && pre[t].emoji == x;
                assert(pairs[t].emoji == x);
            }
        }
        assert forall|x: char| has_emoji(pairs, x) implies #[trigger] has_char(
            spec_emojis(pairs),
            x,
        ) by {
            let t = choose|t: int| 0 <= t < pairs.len() && pairs[t].emoji == x;
            if t == pairs.len() - 1 {
                assert(has_char(insert_emoji(spec_emojis(pre), pairs.last().emoji), x));
            } else {
                assert(pre[t].emoji == x);
                assert(has_emoji(pre, x));
                assert(has_char(spec_emojis(pre), x));
                assert(has_char(insert_emoji(spec_emojis(pre), pairs.last().emoji), x));
            }
        }
    }
}

/// Every author in an emoji's list comes from a pair with that emoji.
proof fn lemma_authors_for_membership(ps: Seq<ReactionV>, e: char)
    ensures
        forall|i: int|
            0 <= i < spec_authors_for(ps, e).len() ==> has_pair(
                ps,
                e,
                #[trigger] spec_authors_for(ps, e)[i],
            ),
    decreases ps.len(),
{
    reveal_with_fuel(Seq::filter, 2);
    if ps.len() == 0 {
    } else {
        let pre = ps.drop_last();
        lemma_authors_for_membership(pre, e);
        assert(ps.drop_last() == pre);
        let cur = spec_authors_for(ps, e);
        let sub = spec_authors_for(pre, e);
        assert forall|i: int| 0 <= i < cur.len() implies has_pair(
            ps,
            e,
            #[trigger] cur[i],
        ) by {
            if ps.last().emoji == e {
                assert(cur =~= sub.push(ps.last().author));
                if i < sub.len() {
                    assert(cur[i] == sub[i]);
                    assert(has_pair(pre, e, sub[i]));
                    let t = choose|t: int|
                        0 <= t < pre.len() && pre[t].emoji == e && pre[t].author == sub[i];
                    assert(ps[t].emoji == e && ps[t].author == cur[i]);
                } else {
                    assert(cur[i] == ps.last().author);
                    assert(ps[ps.len() - 1].emoji == e && ps[ps.len() - 1].author == cur[i]);
                }
            } else {
                assert(cur =~= sub);
                assert(has_pair(pre, e, sub[i]));
                let t = choose|t: int|
                    0 <= t < pre.len() && pre[t].emoji == e && pre[t].author == sub[i];
                assert(ps[t].emoji == e && ps[t].author == cur[i]);
            }
        }
    }
}

/// When no two pairs coincide, no author repeats within one emoji's list.
proof fn lemma_authors_for_no_dup(ps: Seq<ReactionV>, e: char)
    requires
        ps.no_duplicates(),
    ensures
        spec_authors_for(ps, e).no_duplicates(),
    decreases ps.len(),
{
    reveal_with_fuel(Seq::filter, 2);
    if ps.len() == 0 {
        assert(spec_authors_for(ps, e) =~= Seq::<Seq<char>>::empty());
    } else {
        let pre = ps.drop_last();
        assert(pre.no_duplicates()) by {
            assert forall|i: int, j: int| 0 <= i < j < pre.len() implies pre[i] != pre[j] by {
                assert(ps[i] == pre[i] && ps[j] == pre[j]);
            }
        }
        lemma_authors_for_no_dup(pre, e);
        lemma_authors_for_membership(pre, e);
        let cur = spec_authors_for(ps, e);
        let sub = spec_authors_for(pre, e);
        if ps.last().emoji == e {
            assert(cur =~= sub.push(ps.last().author));
            assert forall|i: int, j: int| 0 <= i < j < cur.len() implies cur[i] != cur[j] by {
                if j == sub.len() {
                    // a repeat of the last author would mean the last pair
                    // already occurs among the earlier pairs
                    if cur[i] == ps.last().author {
                        assert(sub[i] == spec_authors_for(pre, e)[i]);
                        assert(has_pair(pre, e, sub[i]));
                        let t = choose|t: int|
                            0 <= t < pre.len() && pre[t].emoji == e && pre[t].author == sub[i];
                        assert(ps[t] == ps[ps.len() - 1]);
                    }
                } else {
                    assert(cur[i] == sub[i] && cur[j] == sub[j]);
                }
            }
        } else {
            assert(cur =~= sub);
        }
    }
}

/// Resolution keeps distinct actors distinct: the id is carried in both the
/// bare and the aliased shape.
proof fn lemma_resolve_injective(a: Seq<char>, b: Seq<char>, aliases: Seq<AliasEntryV>)
    ensures
        spec_resolve(a, aliases) == spec_resolve(b, aliases) ==> a == b,
{
}

/// Reaction grouping, for every set of `(author, emoji)` pairs: exactly one
/// group per distinct emoji of the input, groups strictly ordered by emoji,
/// each group carrying the pass's location and exactly the resolved authors
/// that used its emoji in first-seen order; and no author twice in one group
/// when no pair repeats.
#[verifier::rlimit(50)]
pub proof fn lemma_reaction_grouping(
    pairs: Seq<ReactionV>,
    location: Option<Seq<char>>,
    aliases: Seq<AliasEntryV>,
)
    ensures
        spec_reaction_groups(pairs, location, aliases).len() == spec_emojis(pairs).len(),
        forall|i: int, j: int|
            0 <= i < j < spec_reaction_groups(pairs, location, aliases).len() ==> ((
            #[trigger] spec_reaction_groups(pairs, location, aliases)[i]).emoji as u32) < ((
            #[trigger] spec_reaction_groups(pairs, location, aliases)[j]).emoji as u32),
        forall|t: int|
            0 <= t < pairs.len() ==> exists|i: int|
                0 <= i < spec_reaction_groups(pairs, location, aliases).len() && (
                #[trigger] spec_reaction_groups(pairs, location, aliases)[i]).emoji == (
                #[trigger] pairs[t]).emoji,
        forall|i: int|
            0 <= i < spec_reaction_groups(pairs, location, aliases).len() ==> exists|t: int|
                0 <= t < pairs.len() && (#[trigger] pairs[t]).emoji == (
                #[trigger] spec_reaction_groups(pairs, location, aliases)[i]).emoji,
        forall|i: int|
            0 <= i < spec_reaction_groups(pairs, location, aliases).len()
                ==> (#[trigger] spec_reaction_groups(pairs, location, aliases)[i]).authors
                == spec_author_views_for(
                pairs,
                spec_reaction_groups(pairs, location, aliases)[i].emoji,
                aliases,
            ),
        forall|i: int|
            0 <= i < spec_reaction_groups(pairs, location, aliases).len()
                ==> (#[trigger] spec_reaction_groups(pairs, location, aliases)[i]).location
                == location,
        pairs.no_duplicates() ==> forall|i: int|
            0 <= i < spec_reaction_groups(pairs, location, aliases).len() ==> (
            #[trigger] spec_reaction_groups(
                pairs,
                location,
                aliases,
            )[i]).authors.no_duplicates(),
{
    lemma_emojis_props(pairs);
    let groups = spec_reaction_groups(pairs, location, aliases);
    assert forall|t: int| 0 <= t < pairs.len() implies exists|i: int|
        0 <= i < groups.len() && (#[trigger] groups[i]).emoji == (#[trigger] pairs[t]).emoji by {
        let x = pairs[t].emoji;
        assert(has_emoji(pairs, x));
        assert(has_char(spec_emojis(pairs), x));
        let i = choose|i: int| 0 <= i < spec_emojis(pairs).len() && spec_emojis(pairs)[i] == x;
        assert(groups[i].emoji == x);
    }
    assert forall|i: int| 0 <= i < groups.len() implies exists|t: int|
        0 <= t < pairs.len() && (#[trigger] pairs[t]).emoji == (#[trigger] groups[i]).emoji by {
        let x = groups[i].emoji;
        assert(spec_emojis(pairs)[i] == x);
        assert(has_char(spec_emojis(pairs), x));
        assert(has_emoji(pairs, x));
        let t = choose|t: int| 0 <= t < pairs.len() && pairs[t].emoji == x;
        assert(pairs[t].emoji == groups[i].emoji);
    }
    if pairs.no_duplicates() {
        assert forall|i: int| 0 <= i < groups.len() implies (
        #[trigger] groups[i]).authors.no_duplicates() by {
            let e = groups[i].emoji;
            lemma_authors_for_no_dup(pairs, e);
            let names = spec_authors_for(pairs, e);
            let views = spec_resolve_all(names, aliases);
            assert(groups[i].authors == views);
            assert forall|a: int, b: int| 0 <= a < b < views.len() implies views[a] != views[b] by {
                assert(views[a] == spec_resolve(names[a], aliases));
                assert(views[b] == spec_resolve(names[b], aliases));
                lemma_resolve_injective(names[a], names[b], aliases);
                assert(names[a] != names[b]);
            }
        }
    }
}

/// Author resolution, for every actor id: the view carries an alias exactly
/// when the alias directory has one, and is otherwise the bare author form
/// with the same id.
pub proof fn lemma_author_resolution(id: Seq<char>, aliases: Seq<AliasEntryV>)
    ensures
        spec_alias(aliases, id) is Some ==> spec_resolve(id, aliases) == (AuthorViewV::Aliased {
            id: id,
            alias: spec_alias(aliases, id)->0,
        }),
        spec_alias(aliases, id) is None ==> spec_resolve(id, aliases) == (AuthorViewV::Bare {
            id: id,
        }),
{
}

/// A comment with an empty edit history still projects to a full view: the
/// projector does not require the domain's non-empty-edits invariant.
pub proof fn lemma_empty_edits(c: CommentV, located: bool, aliases: Seq<AliasEntryV>)
    requires
        c.edits.len() == 0,
    ensures
        spec_comment_view(c, located, aliases).edits.len() == 0,
        spec_comment_view(c, located, aliases).id == c.id,
        spec_comment_view(c, located, aliases).body == c.body,
{
}

/// Projection is deterministic: two projections of the same immutable patch
/// snapshot, and of the same issue snapshot, are structurally identical.
pub proof fn lemma_projection_deterministic(
    r1: PatchViewV,
    r2: PatchViewV,
    s1: IssueViewV,
    s2: IssueViewV,
    pid: Seq<char>,
    p: PatchV,
    remote: Option<RemoteV>,
    iid: Seq<char>,
    i: IssueV,
    aliases: Seq<AliasEntryV>,
)
    requires
        r1 == spec_patch_view(pid, p, remote, aliases),
        r2 == spec_patch_view(pid, p, remote, aliases),
        s1 == spec_issue_view(iid, i, aliases),
        s2 == spec_issue_view(iid, i, aliases),
    ensures
        r1 == r2,
        s1 == s2,
{
}

} // verus!

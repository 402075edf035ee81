//! The projection transforms: author resolution, reaction grouping, comment,
//! review, merge, revision, patch and issue views, and reference correlation.
//!
//! Every executable function is tied to a spec-level projection of the deep
//! views of its inputs, so projecting the same snapshot twice provably yields
//! structurally identical output.

use vstd::prelude::*;
use crate::types::{
    AliasEntryV, Aliases, AuthorView, AuthorViewV, Comment, CommentV, CommentView, CommentViewV,
    Edit, EditV, EditView, EditViewV, Issue, IssueV, IssueView, IssueViewV, Merge, MergeV,
    MergeView, MergeViewV, Patch, PatchV, PatchView, PatchViewV, Reaction, ReactionBucketV,
    ReactionGroup, ReactionGroupV, ReactionV, RefEntryV, Remote, RemoteV, Review, ReviewEntry,
    ReviewEntryV, ReviewV, ReviewView, ReviewViewV, Revision, RevisionV, RevisionView,
    RevisionViewV, spec_alias,
};

verus! {

broadcast use crate::types::group_deep_view;

// ---------------------------------------------------------------------------
// Small cloning helpers
// ---------------------------------------------------------------------------

fn clone_strings(v: &Vec<String>) -> (r: Vec<String>)
    ensures
        r.deep_view() == v.deep_view(),
{
    let mut r: Vec<String> = Vec::new();
    let mut i: usize = 0;
    while i < v.len()
        invariant
            i <= v.len(),
            r@.len() == i,
            v.deep_view().len() == v@.len(),
            r.deep_view() == v.deep_view().take(i as int),
        decreases v.len() - i,
    {
        r.push(v[i].clone());
        proof {
            assert(r.deep_view() =~= v.deep_view().take(i as int + 1));
        }
        i = i + 1;
    }
    proof {
        assert(v.deep_view().take(v.len() as int) =~= v.deep_view());
    }
    r
}

fn clone_opt_string(o: &Option<String>) -> (r: Option<String>)
    ensures
        r.deep_view() == o.deep_view(),
{
    match o {
        Some(s) => Some(s.clone()),
        None => None,
    }
}

// ---------------------------------------------------------------------------
// Author resolution
// ---------------------------------------------------------------------------

/// The author view produced from an actor id and an already-looked-up alias.
pub open spec fn spec_author(id: Seq<char>, alias: Option<Seq<char>>) -> AuthorViewV {
    match alias {
        Some(a) => AuthorViewV::Aliased { id: id, alias: a },
        None => AuthorViewV::Bare { id: id },
    }
}

/// The author view for `id` after consulting the alias directory.
pub open spec fn spec_resolve(id: Seq<char>, aliases: Seq<AliasEntryV>) -> AuthorViewV {
    spec_author(id, spec_alias(aliases, id))
}

pub open spec fn spec_resolve_all(ids: Seq<Seq<char>>, aliases: Seq<AliasEntryV>) -> Seq<
    AuthorViewV,
> {
    ids.map_values(|a: Seq<char>| spec_resolve(a, aliases))
}

/// The view of an author whose alias, if any, was already looked up: the
/// alias field is additive, a missing alias keeps the bare author form.
pub fn author(id: &String, alias: Option<String>) -> (r: AuthorView)
    ensures
        r.deep_view() == spec_author(id@, alias.deep_view()),
{
    match alias {
        Some(alias) => AuthorView::Aliased { id: id.clone(), alias },
        None => AuthorView::Bare { id: id.clone() },
    }
}

/// Resolves an actor id against the alias directory.
pub fn resolve(id: &String, aliases: &Aliases) -> (r: AuthorView)
    ensures
        r.deep_view() == spec_resolve(id@, aliases.deep_view()),
{
    let a = aliases.alias(id);
    author(id, a)
}

/// Resolves a list of actor ids, preserving order.
pub fn resolve_all(ids: &Vec<String>, aliases: &Aliases) -> (r: Vec<AuthorView>)
    ensures
        r.deep_view() == spec_resolve_all(ids.deep_view(), aliases.deep_view()),
{
    let ghost al = aliases.deep_view();
    let mut r: Vec<AuthorView> = Vec::new();
    let mut i: usize = 0;
    while i < ids.len()
        invariant
            i <= ids.len(),
            al == aliases.deep_view(),
            r.deep_view() == spec_resolve_all(ids.deep_view().take(i as int), al),
        decreases ids.len() - i,
    {
        let av = resolve(&ids[i], aliases);
        r.push(av);
        proof {
            assert(r.deep_view() =~= spec_resolve_all(ids.deep_view().take(i as int + 1), al));
        }
        i = i + 1;
    }
    proof {
        assert(ids.deep_view().take(ids.len() as int) =~= ids.deep_view());
    }
    r
}

// ---------------------------------------------------------------------------
// Reaction grouping
// ---------------------------------------------------------------------------

/// Emojis in strictly increasing code-point order.
pub open spec fn strictly_sorted(es: Seq<char>) -> bool {
    forall|i: int, j: int| 0 <= i < j < es.len() ==> (es[i] as u32) < (es[j] as u32)
}

/// Inserts `e` into `es` keeping code-point order; keeps `es` unchanged when
/// `e` is already present at its ordered position.
pub open spec fn insert_emoji(es: Seq<char>, e: char) -> Seq<char>
    decreases es.len(),
{
    if es.len() == 0 {
        seq![e]
    } else if es[0] == e {
        es
    } else if (e as u32) < (es[0] as u32) {
        seq![e] + es
    } else {
        seq![es[0]] + insert_emoji(es.drop_first(), e)
    }
}

/// The distinct emojis of `pairs`, in increasing code-point order.
pub open spec fn spec_emojis(pairs: Seq<ReactionV>) -> Seq<char>
    decreases pairs.len(),
{
    if pairs.len() == 0 {
        Seq::empty()
    } else {
        insert_emoji(spec_emojis(pairs.drop_last()), pairs.last().emoji)
    }
}

/// The authors that reacted with `e`, in first-seen order.
pub open spec fn spec_authors_for(pairs: Seq<ReactionV>, e: char) -> Seq<Seq<char>> {
    pairs.filter(|r: ReactionV| r.emoji == e).map_values(|r: ReactionV| r.author)
}

pub open spec fn spec_author_views_for(
    pairs: Seq<ReactionV>,
    e: char,
    aliases: Seq<AliasEntryV>,
) -> Seq<AuthorViewV> {
    spec_resolve_all(spec_authors_for(pairs, e), aliases)
}

/// The group that a grouping pass produces for one emoji.
pub open spec fn spec_group_at(
    pairs: Seq<ReactionV>,
    location: Option<Seq<char>>,
    aliases: Seq<AliasEntryV>,
    e: char,
) -> ReactionGroupV {
    ReactionGroupV {
        emoji: e,
        authors: spec_author_views_for(pairs, e, aliases),
        location: location,
    }
}

/// One group per distinct emoji, ordered by emoji; each group carries the
/// resolved authors that used the emoji, in first-seen order, and the
/// location of the grouping pass.
pub open spec fn spec_reaction_groups(
    pairs: Seq<ReactionV>,
    location: Option<Seq<char>>,
    aliases: Seq<AliasEntryV>,
) -> Seq<ReactionGroupV> {
    Seq::new(
        spec_emojis(pairs).len(),
        |i: int| spec_group_at(pairs, location, aliases, spec_emojis(pairs)[i]),
    )
}

proof fn lemma_char_cast_injective(a: char, b: char)
    ensures
        a != b ==> (a as u32) != (b as u32),
{
}

/// No pair with emoji `e` means no author group content for `e`.
proof fn lemma_authors_for_none(ps: Seq<ReactionV>, e: char)
    requires
        forall|t: int| 0 <= t < ps.len() ==> ps[t].emoji != e,
    ensures
        spec_authors_for(ps, e) == Seq::<Seq<char>>::empty(),
    decreases ps.len(),
{
    reveal_with_fuel(Seq::filter, 2);
    if ps.len() == 0 {
        assert(spec_authors_for(ps, e) =~= Seq::<Seq<char>>::empty());
    } else {
        lemma_authors_for_none(ps.drop_last(), e);
        assert(!(ps.last().emoji == e));
        assert(spec_authors_for(ps, e) =~= Seq::<Seq<char>>::empty());
    }
}

proof fn lemma_emojis_push(ps: Seq<ReactionV>, p: ReactionV)
    ensures
        spec_emojis(ps.push(p)) == insert_emoji(spec_emojis(ps), p.emoji),
{
    assert(ps.push(p).drop_last() =~= ps);
    assert(ps.push(p).last() == p);
}

/// How one new pair changes the per-emoji author lists.
proof fn lemma_authors_push(ps: Seq<ReactionV>, p: ReactionV, e: char)
    ensures
        spec_authors_for(ps.push(p), e) == if p.emoji == e {
            spec_authors_for(ps, e).push(p.author)
        } else {
            spec_authors_for(ps, e)
        },
{
    reveal_with_fuel(Seq::filter, 2);
    assert(ps.push(p).drop_last() =~= ps);
    assert(ps.push(p).last() == p);
    if p.emoji == e {
        assert(spec_authors_for(ps.push(p), e) =~= spec_authors_for(ps, e).push(p.author));
    } else {
        assert(spec_authors_for(ps.push(p), e) =~= spec_authors_for(ps, e));
    }
}

/// Scanning a prefix whose emojis all precede `e` postpones the insertion.
proof fn lemma_insert_emoji_skip(es: Seq<char>, e: char, i: int)
    requires
        0 <= i <= es.len(),
        forall|j: int| 0 <= j < i ==> (es[j] as u32) < (e as u32),
    ensures
        insert_emoji(es, e) == es.take(i) + insert_emoji(es.skip(i), e),
    decreases i,
{
    if i == 0 {
        assert(es.skip(0) =~= es);
        assert(es.take(0) + insert_emoji(es, e) =~= insert_emoji(es, e));
    } else {
        lemma_insert_emoji_skip(es, e, i - 1);
        assert(es.skip(i - 1).len() > 0);
        assert(es.skip(i - 1)[0] == es[i - 1]);
        assert(es.skip(i - 1).drop_first() =~= es.skip(i));
        assert(insert_emoji(es.skip(i - 1), e) == seq![es[i - 1]] + insert_emoji(es.skip(i), e));
        assert(es.take(i - 1) + (seq![es[i - 1]] + insert_emoji(es.skip(i), e)) =~= es.take(i)
            + insert_emoji(es.skip(i), e));
    }
}

/// Groups the reactions of one grouping pass: one group per distinct emoji in
/// code-point order, authors in first-seen order, each resolved against the
/// alias directory, the pass's location attached to every group.
#[verifier::rlimit(100)]
#[verifier::spinoff_prover]
pub fn reactions(pairs: &Vec<Reaction>, location: &Option<String>, aliases: &Aliases) -> (r: Vec<
    ReactionGroup,
>)
    ensures
        r.deep_view() == spec_reaction_groups(
            pairs.deep_view(),
            location.deep_view(),
            aliases.deep_view(),
        ),
{
    let ghost ps = pairs.deep_view();
    let ghost al = aliases.deep_view();
    let mut emojis: Vec<char> = Vec::new();
    let mut authorss: Vec<Vec<String>> = Vec::new();
    proof {
        assert(ps.take(0) =~= Seq::<ReactionV>::empty());
    }
    let mut k: usize = 0;
    while k < pairs.len()
        invariant
            k <= pairs.len(),
            ps == pairs.deep_view(),
            al == aliases.deep_view(),
            ps.len() == pairs.len(),
            emojis@ == spec_emojis(ps.take(k as int)),
            strictly_sorted(emojis@),
            authorss.deep_view().len() == emojis@.len(),
            authorss.len() == emojis.len(),
            forall|j: int|
                0 <= j < emojis@.len() ==> authorss.deep_view()[j] == spec_authors_for(
                    ps.take(k as int),
                    emojis@[j],
                ),
            forall|t: int| 0 <= t < k ==> emojis@.contains(ps[t].emoji),
        decreases pairs.len() - k,
    {
        let e = pairs[k].emoji;
        let a = pairs[k].author.clone();
        let ghost prefix = ps.take(k as int);
        let ghost newpre = ps.take(k as int + 1);
        let ghost p = ps[k as int];
        proof {
            assert(newpre =~= prefix.push(p));
            assert(p.emoji == e && p.author == a@);
            lemma_emojis_push(prefix, p);
        }
        let mut pos: usize = 0;
        while pos < emojis.len() && (emojis[pos] as u32) < (e as u32)
            invariant
                pos <= emojis.len(),
                forall|j: int| 0 <= j < pos ==> (emojis@[j] as u32) < (e as u32),
            decreases emojis.len() - pos,
        {
            pos = pos + 1;
        }
        proof {
            lemma_insert_emoji_skip(emojis@, e, pos as int);
        }
        let ghost olde = emojis@;
        let ghost olda = authorss.deep_view();
        if pos < emojis.len() && emojis[pos] == e {
            proof {
                assert(olde.skip(pos as int)[0] == e);
                assert(insert_emoji(olde.skip(pos as int), e) == olde.skip(pos as int));
                assert(olde.take(pos as int) + olde.skip(pos as int) =~= olde);
                assert(spec_emojis(newpre) == olde);
            }
            let mut v = authorss.remove(pos);
            v.push(a);
            proof {
                assert(v.deep_view() == olda[pos as int].push(a@));
            }
            let ghost vd = v.deep_view();
            authorss.insert(pos, v);
            proof {
                assert(authorss.deep_view() == olda.remove(pos as int).insert(pos as int, vd));
                assert(authorss.deep_view() =~= olda.update(pos as int, olda[pos as int].push(a@)));
                assert forall|j: int| 0 <= j < olde.len() implies authorss.deep_view()[j]
                    == spec_authors_for(newpre, olde[j]) by {
                    lemma_authors_push(prefix, p, olde[j]);
                    if j != pos {
                        assert(olde[j] != e);
                    }
                }
                assert forall|t: int| 0 <= t < k + 1 implies emojis@.contains(ps[t].emoji) by {
                    if t == k {
                        assert(emojis@[pos as int] == e);
                    }
                }
            }
        } else {
            proof {
                // `e` is new: everything at or after `pos` is strictly larger
                assert(pos <= olde.len());
                if pos < emojis.len() {
                    lemma_char_cast_injective(olde[pos as int], e);
                }
                assert(pos < olde.len() ==> (e as u32) < (olde[pos as int] as u32));
                assert forall|j: int| 0 <= j < olde.len() implies olde[j] != e by {
                    if pos < olde.len() && pos <= j {
                        assert((olde[pos as int] as u32) <= (olde[j] as u32));
                    }
                }
                assert(!olde.contains(e));
                assert forall|t: int| 0 <= t < prefix.len() implies !(prefix[t].emoji == e) by {
                    assert(emojis@.contains(ps[t].emoji));
                }
                lemma_authors_for_none(prefix, e);
                // the new emoji sequence is the ordered insertion
                if pos < olde.len() {
                    assert(olde.skip(pos as int)[0] == olde[pos as int]);
                    assert(insert_emoji(olde.skip(pos as int), e) == seq![e] + olde.skip(
                        pos as int,
                    ));
                } else {
                    assert(olde.skip(pos as int).len() == 0);
                    assert(insert_emoji(olde.skip(pos as int), e) == seq![e]);
                    assert(seq![e] =~= seq![e] + olde.skip(pos as int));
                }
                assert(spec_emojis(newpre) == olde.take(pos as int) + seq![e] + olde.skip(
                    pos as int,
                ));
            }
            let mut nv: Vec<String> = Vec::new();
            nv.push(a);
            proof {
                assert(nv.deep_view() =~= Seq::<Seq<char>>::empty().push(a@));
            }
            let ghost nvd = nv.deep_view();
            emojis.insert(pos, e);
            authorss.insert(pos, nv);
            proof {
                assert(emojis@ =~= olde.take(pos as int) + seq![e] + olde.skip(pos as int));
                assert(emojis@ == spec_emojis(newpre));
                assert(authorss.deep_view() == olda.insert(pos as int, nvd));
                assert(authorss.deep_view() =~= olda.take(pos as int) + seq![
                    Seq::<Seq<char>>::empty().push(a@),
                ] + olda.skip(pos as int));
                assert forall|i: int, j: int| 0 <= i < j < emojis@.len() implies (
                emojis@[i] as u32) < (emojis@[j] as u32) by {
                    if i < pos && j == pos {
                    } else if i == pos && j > pos {
                        assert(emojis@[j] == olde[j - 1]);
                        assert((olde[pos as int] as u32) <= (olde[j - 1] as u32));
                    }
                }
                assert forall|j: int| 0 <= j < emojis@.len() implies authorss.deep_view()[j]
                    == spec_authors_for(newpre, emojis@[j]) by {
                    lemma_authors_push(prefix, p, emojis@[j]);
                    if j < pos {
                        assert(emojis@[j] == olde[j]);
                        assert(olde[j] != e);
                        assert(authorss.deep_view()[j] == olda[j]);
                    } else if j == pos {
                        assert(emojis@[j] == e);
                        assert(authorss.deep_view()[j] == Seq::<Seq<char>>::empty().push(a@));
                        assert(spec_authors_for(newpre, e) == spec_authors_for(prefix, e).push(
                            a@,
                        ));
                    } else {
                        assert(emojis@[j] == olde[j - 1]);
                        assert(olde[j - 1] != e);
                        assert(authorss.deep_view()[j] == olda[j - 1]);
                    }
                }
                assert forall|t: int| 0 <= t < k + 1 implies emojis@.contains(ps[t].emoji) by {
                    if t == k {
                        assert(emojis@[pos as int] == e);
                    } else {
                        assert(olde.contains(ps[t].emoji));
                        let idx = choose|idx: int|
                            0 <= idx < olde.len() && olde[idx] == ps[t].emoji;
                        if idx < pos {
                            assert(emojis@[idx] == ps[t].emoji);
                        } else {
                            assert(emojis@[idx + 1] == ps[t].emoji);
                        }
                    }
                }
            }
        }
        k = k + 1;
    }
    proof {
        assert(ps.take(pairs.len() as int) =~= ps);
    }
    let ghost loc = location.deep_view();
    let ghost goal = spec_reaction_groups(ps, loc, al);
    let mut out: Vec<ReactionGroup> = Vec::new();
    let mut j: usize = 0;
    proof {
        assert(out.deep_view() =~= goal.take(0));
    }
    while j < emojis.len()
        invariant
            j <= emojis.len(),
            ps == pairs.deep_view(),
            al == aliases.deep_view(),
            loc == location.deep_view(),
            goal == spec_reaction_groups(ps, loc, al),
            emojis@ == spec_emojis(ps),
            authorss.deep_view().len() == emojis@.len(),
            authorss.len() == emojis.len(),
            forall|jj: int|
                0 <= jj < emojis@.len() ==> authorss.deep_view()[jj] == spec_authors_for(
                    ps,
                    emojis@[jj],
                ),
            out.deep_view() == goal.take(j as int),
        decreases emojis.len() - j,
    {
        let ghost names = authorss.deep_view()[j as int];
        let mut avs: Vec<AuthorView> = Vec::new();
        let mut t: usize = 0;
        proof {
            assert(names.take(0) =~= Seq::<Seq<char>>::empty());
            assert(avs.deep_view() =~= spec_resolve_all(names.take(0), al));
        }
        while t < authorss[j].len()
            invariant
                j < authorss.len(),
                t <= authorss[j as int]@.len(),
                al == aliases.deep_view(),
                names == authorss.deep_view()[j as int],
                names.len() == authorss[j as int]@.len(),
                avs.deep_view() == spec_resolve_all(names.take(t as int), al),
            decreases authorss[j as int]@.len() - t,
        {
            proof {
                assert(names[t as int] == authorss[j as int]@[t as int]@);
            }
            let av = resolve(&authorss[j][t], aliases);
            avs.push(av);
            proof {
                assert(avs.deep_view() =~= spec_resolve_all(names.take(t as int + 1), al));
            }
            t = t + 1;
        }
        proof {
            assert(names.take(names.len() as int) =~= names);
        }
        let g = ReactionGroup { emoji: emojis[j], authors: avs, location: clone_opt_string(
            location,
        ) };
        out.push(g);
        proof {
            assert(goal[j as int] == spec_group_at(ps, loc, al, spec_emojis(ps)[j as int]));
            assert(g.deep_view().emoji == goal[j as int].emoji);
            assert(g.deep_view().authors == spec_resolve_all(names, al));
            assert(g.deep_view().location == goal[j as int].location);
            assert(g.deep_view() == goal[j as int]);
            assert(out.deep_view() =~= goal.take(j as int + 1));
        }
        j = j + 1;
    }
    proof {
        assert(goal.take(goal.len() as int) =~= goal);
    }
    out
}

// ---------------------------------------------------------------------------
// Edits and comments
// ---------------------------------------------------------------------------

/// The view of one edit: the author resolved, everything else carried over.
pub open spec fn spec_edit_view(e: EditV, aliases: Seq<AliasEntryV>) -> EditViewV {
    EditViewV {
        author: spec_resolve(e.author, aliases),
        body: e.body,
        timestamp: e.timestamp,
        embeds: e.embeds,
    }
}

pub open spec fn spec_edit_views(es: Seq<EditV>, aliases: Seq<AliasEntryV>) -> Seq<EditViewV> {
    es.map_values(|e: EditV| spec_edit_view(e, aliases))
}

/// Projects one edit of a comment.
pub fn edit(e: &Edit, aliases: &Aliases) -> (r: EditView)
    ensures
        r.deep_view() == spec_edit_view(e.deep_view(), aliases.deep_view()),
{
    EditView {
        author: resolve(&e.author, aliases),
        body: e.body.clone(),
        timestamp: e.timestamp,
        embeds: clone_strings(&e.embeds),
    }
}

fn edit_views(es: &Vec<Edit>, aliases: &Aliases) -> (r: Vec<EditView>)
    ensures
        r.deep_view() == spec_edit_views(es.deep_view(), aliases.deep_view()),
{
    let ghost al = aliases.deep_view();
    let mut r: Vec<EditView> = Vec::new();
    let mut i: usize = 0;
    while i < es.len()
        invariant
            i <= es.len(),
            al == aliases.deep_view(),
            r.deep_view() == spec_edit_views(es.deep_view().take(i as int), al),
        decreases es.len() - i,
    {
        let ev = edit(&es[i], aliases);
        r.push(ev);
        proof {
            assert(r.deep_view() =~= spec_edit_views(es.deep_view().take(i as int + 1), al));
        }
        i = i + 1;
    }
    proof {
        assert(es.deep_view().take(es.len() as int) =~= es.deep_view());
    }
    r
}

/// The view of one comment. For a code-located comment (`located`), both the
/// view and its reaction groups carry the comment's location; a plain comment
/// carries none.
pub open spec fn spec_comment_view(c: CommentV, located: bool, aliases: Seq<AliasEntryV>) -> CommentViewV {
    CommentViewV {
        id: c.id,
        author: spec_resolve(c.author, aliases),
        body: c.body,
        edits: spec_edit_views(c.edits, aliases),
        embeds: c.embeds,
        reactions: spec_reaction_groups(
            c.reactions,
            if located {
                c.location
            } else {
                None
            },
            aliases,
        ),
        timestamp: c.timestamp,
        reply_to: c.reply_to,
        resolved: c.resolved,
        location: if located {
            c.location
        } else {
            None
        },
    }
}

pub open spec fn spec_comment_views(
    cs: Seq<CommentV>,
    located: bool,
    aliases: Seq<AliasEntryV>,
) -> Seq<CommentViewV> {
    cs.map_values(|c: CommentV| spec_comment_view(c, located, aliases))
}

fn comment_view(c: &Comment, located: bool, aliases: &Aliases) -> (r: CommentView)
    ensures
        r.deep_view() == spec_comment_view(c.deep_view(), located, aliases.deep_view()),
{
    let loc = if located {
        clone_opt_string(&c.location)
    } else {
        None
    };
    let groups = reactions(&c.reactions, &loc, aliases);
    CommentView {
        id: c.id.clone(),
        author: resolve(&c.author, aliases),
        body: c.body.clone(),
        edits: edit_views(&c.edits, aliases),
        embeds: clone_strings(&c.embeds),
        reactions: groups,
        timestamp: c.timestamp,
        reply_to: clone_opt_string(&c.reply_to),
        resolved: c.resolved,
        location: loc,
    }
}

/// Projects a plain issue comment: no location, reactions grouped by emoji alone.
pub fn issue_comment(c: &Comment, aliases: &Aliases) -> (r: CommentView)
    ensures
        r.deep_view() == spec_comment_view(c.deep_view(), false, aliases.deep_view()),
{
    comment_view(c, false, aliases)
}

/// Projects a code-located patch comment.
pub fn patch_comment(c: &Comment, aliases: &Aliases) -> (r: CommentView)
    ensures
        r.deep_view() == spec_comment_view(c.deep_view(), true, aliases.deep_view()),
{
    comment_view(c, true, aliases)
}

/// Projects a code-located review comment.
pub fn review_comment(c: &Comment, aliases: &Aliases) -> (r: CommentView)
    ensures
        r.deep_view() == spec_comment_view(c.deep_view(), true, aliases.deep_view()),
{
    comment_view(c, true, aliases)
}

fn comment_views(cs: &Vec<Comment>, located: bool, aliases: &Aliases) -> (r: Vec<CommentView>)
    ensures
        r.deep_view() == spec_comment_views(cs.deep_view(), located, aliases.deep_view()),
{
    let ghost al = aliases.deep_view();
    let mut r: Vec<CommentView> = Vec::new();
    let mut i: usize = 0;
    while i < cs.len()
        invariant
            i <= cs.len(),
            al == aliases.deep_view(),
            r.deep_view() == spec_comment_views(cs.deep_view().take(i as int), located, al),
        decreases cs.len() - i,
    {
        let cv = comment_view(&cs[i], located, aliases);
        r.push(cv);
        proof {
            assert(r.deep_view() =~= spec_comment_views(
                cs.deep_view().take(i as int + 1),
                located,
                al,
            ));
        }
        i = i + 1;
    }
    proof {
        assert(cs.deep_view().take(cs.len() as int) =~= cs.deep_view());
    }
    r
}

// ---------------------------------------------------------------------------
// Reviews and merges
// ---------------------------------------------------------------------------

/// The view of one review: author resolved, comments projected as located
/// comments, verdict, summary and timestamp carried through unchanged.
pub open spec fn spec_review_view(r: ReviewV, aliases: Seq<AliasEntryV>) -> ReviewViewV {
    ReviewViewV {
        id: r.id,
        author: spec_resolve(r.author, aliases),
        verdict: r.verdict,
        summary: r.summary,
        comments: spec_comment_views(r.comments, true, aliases),
        timestamp: r.timestamp,
    }
}

/// Projects one review.
pub fn review(r: &Review, aliases: &Aliases) -> (rv: ReviewView)
    ensures
        rv.deep_view() == spec_review_view(r.deep_view(), aliases.deep_view()),
{
    ReviewView {
        id: r.id.clone(),
        author: resolve(&r.author, aliases),
        verdict: r.verdict,
        summary: clone_opt_string(&r.summary),
        comments: comment_views(&r.comments, true, aliases),
        timestamp: r.timestamp,
    }
}

/// The reviews that target revision `rid`, in their stored order.
pub open spec fn spec_reviews_of(
    reviews: Seq<ReviewEntryV>,
    rid: Seq<char>,
    aliases: Seq<AliasEntryV>,
) -> Seq<ReviewViewV> {
    reviews.filter(|en: ReviewEntryV| en.revision == rid).map_values(
        |en: ReviewEntryV| spec_review_view(en.review, aliases),
    )
}

/// How one more review entry changes the reviews of revision `rid`.
proof fn lemma_reviews_of_push(
    rs: Seq<ReviewEntryV>,
    x: ReviewEntryV,
    rid: Seq<char>,
    al: Seq<AliasEntryV>,
)
    ensures
        spec_reviews_of(rs.push(x), rid, al) == if x.revision == rid {
            spec_reviews_of(rs, rid, al).push(spec_review_view(x.review, al))
        } else {
            spec_reviews_of(rs, rid, al)
        },
{
    reveal_with_fuel(Seq::filter, 2);
    assert(rs.push(x).drop_last() =~= rs);
    assert(rs.push(x).last() == x);
    if x.revision == rid {
        assert(spec_reviews_of(rs.push(x), rid, al) =~= spec_reviews_of(rs, rid, al).push(
            spec_review_view(x.review, al),
        ));
    } else {
        assert(spec_reviews_of(rs.push(x), rid, al) =~= spec_reviews_of(rs, rid, al));
    }
}

/// Projects every review that targets the revision `rid`.
pub fn reviews_of(reviews: &Vec<ReviewEntry>, rid: &String, aliases: &Aliases) -> (r: Vec<
    ReviewView,
>)
    ensures
        r.deep_view() == spec_reviews_of(reviews.deep_view(), rid@, aliases.deep_view()),
{
    let ghost al = aliases.deep_view();
    let ghost rs = reviews.deep_view();
    let mut r: Vec<ReviewView> = Vec::new();
    let mut i: usize = 0;
    proof {
        reveal_with_fuel(Seq::filter, 1);
        assert(rs.take(0) =~= Seq::<ReviewEntryV>::empty());
        assert(r.deep_view() =~= spec_reviews_of(rs.take(0), rid@, al));
    }
    while i < reviews.len()
        invariant
            i <= reviews.len(),
            al == aliases.deep_view(),
            rs == reviews.deep_view(),
            rs.len() == reviews.len(),
            r.deep_view() == spec_reviews_of(rs.take(i as int), rid@, al),
        decreases reviews.len() - i,
    {
        proof {
            assert(rs.take(i as int + 1) =~= rs.take(i as int).push(rs[i as int]));
            lemma_reviews_of_push(rs.take(i as int), rs[i as int], rid@, al);
        }
        if reviews[i].revision == *rid {
            let rv = review(&reviews[i].review, aliases);
            r.push(rv);
        }
        i = i + 1;
    }
    proof {
        assert(rs.take(reviews.len() as int) =~= rs);
    }
    r
}

/// The view of one merge: the author view built from the raw node id, commit,
/// timestamp and merged revision carried through.
pub open spec fn spec_merge_view(m: MergeV, aliases: Seq<AliasEntryV>) -> MergeViewV {
    MergeViewV {
        author: spec_resolve(m.author, aliases),
        commit: m.commit,
        timestamp: m.timestamp,
        revision: m.revision,
    }
}

pub open spec fn spec_merge_views(ms: Seq<MergeV>, aliases: Seq<AliasEntryV>) -> Seq<MergeViewV> {
    ms.map_values(|m: MergeV| spec_merge_view(m, aliases))
}

/// Projects one merge.
pub fn merge(m: &Merge, aliases: &Aliases) -> (r: MergeView)
    ensures
        r.deep_view() == spec_merge_view(m.deep_view(), aliases.deep_view()),
{
    MergeView {
        author: resolve(&m.author, aliases),
        commit: m.commit.clone(),
        timestamp: m.timestamp,
        revision: m.revision.clone(),
    }
}

fn merge_views(ms: &Vec<Merge>, aliases: &Aliases) -> (r: Vec<MergeView>)
    ensures
        r.deep_view() == spec_merge_views(ms.deep_view(), aliases.deep_view()),
{
    let ghost al = aliases.deep_view();
    let mut r: Vec<MergeView> = Vec::new();
    let mut i: usize = 0;
    while i < ms.len()
        invariant
            i <= ms.len(),
            al == aliases.deep_view(),
            r.deep_view() == spec_merge_views(ms.deep_view().take(i as int), al),
        decreases ms.len() - i,
    {
        let mv = merge(&ms[i], aliases);
        r.push(mv);
        proof {
            assert(r.deep_view() =~= spec_merge_views(ms.deep_view().take(i as int + 1), al));
        }
        i = i + 1;
    }
    proof {
        assert(ms.deep_view().take(ms.len() as int) =~= ms.deep_view());
    }
    r
}

// ---------------------------------------------------------------------------
// Reference correlation
// ---------------------------------------------------------------------------

/// The names of `refs` whose target equals `head`, in map iteration order.
pub open spec fn spec_matching_refs(refs: Seq<RefEntryV>, head: Seq<char>) -> Seq<Seq<char>> {
    refs.filter(|en: RefEntryV| en.target == head).map_values(|en: RefEntryV| en.name)
}

/// Reference correlation fails soft: an unavailable remote yields no names.
pub open spec fn spec_refs(remote: Option<RemoteV>, head: Seq<char>) -> Seq<Seq<char>> {
    match remote {
        None => Seq::empty(),
        Some(rm) => spec_matching_refs(rm.refs, head),
    }
}

/// How one more reference entry changes the matching names.
proof fn lemma_matching_refs_push(rs: Seq<RefEntryV>, x: RefEntryV, head: Seq<char>)
    ensures
        spec_matching_refs(rs.push(x), head) == if x.target == head {
            spec_matching_refs(rs, head).push(x.name)
        } else {
            spec_matching_refs(rs, head)
        },
{
    reveal_with_fuel(Seq::filter, 2);
    assert(rs.push(x).drop_last() =~= rs);
    assert(rs.push(x).last() == x);
    if x.target == head {
        assert(spec_matching_refs(rs.push(x), head) =~= spec_matching_refs(rs, head).push(x.name));
    } else {
        assert(spec_matching_refs(rs.push(x), head) =~= spec_matching_refs(rs, head));
    }
}

/// The symbolic references of the author's remote that point at `head`.
/// A failed remote lookup (`None`) degrades to the empty sequence.
pub fn get_refs(remote: &Option<Remote>, head: &String) -> (r: Vec<String>)
    ensures
        r.deep_view() == spec_refs(remote.deep_view(), head@),
{
    let mut r: Vec<String> = Vec::new();
    match remote {
        None => r,
        Some(rm) => {
            let ghost rs = rm.refs.deep_view();
            let mut i: usize = 0;
            proof {
                reveal_with_fuel(Seq::filter, 1);
                assert(rs.take(0) =~= Seq::<RefEntryV>::empty());
                assert(r.deep_view() =~= spec_matching_refs(rs.take(0), head@));
            }
            while i < rm.refs.len()
                invariant
                    i <= rm.refs.len(),
                    rs == rm.refs.deep_view(),
                    rs.len() == rm.refs.len(),
                    r.deep_view() == spec_matching_refs(rs.take(i as int), head@),
                decreases rm.refs.len() - i,
            {
                proof {
                    assert(rs.take(i as int + 1) =~= rs.take(i as int).push(rs[i as int]));
                    lemma_matching_refs_push(rs.take(i as int), rs[i as int], head@);
                }
                if rm.refs[i].target == *head {
                    r.push(rm.refs[i].name.clone());
                }
                i = i + 1;
            }
            proof {
                assert(rs.take(rm.refs.len() as int) =~= rs);
            }
            r
        },
    }
}

// ---------------------------------------------------------------------------
// Revisions, patches, issues
// ---------------------------------------------------------------------------

/// Revision reactions: each location bucket grouped by emoji, the groups of
/// all buckets flattened back into one sequence. Reactions with the same
/// emoji at different locations stay in separate groups.
pub open spec fn spec_revision_groups(
    buckets: Seq<ReactionBucketV>,
    aliases: Seq<AliasEntryV>,
) -> Seq<ReactionGroupV> {
    buckets.map_values(
        |b: ReactionBucketV| spec_reaction_groups(b.reactions, b.location, aliases),
    ).flatten()
}

/// How one more bucket extends the flattened revision reaction groups.
proof fn lemma_revision_groups_push(bs: Seq<ReactionBucketV>, x: ReactionBucketV, al: Seq<AliasEntryV>)
    ensures
        spec_revision_groups(bs.push(x), al) == spec_revision_groups(bs, al)
            + spec_reaction_groups(x.reactions, x.location, al),
{
    let ghost m0 = bs.map_values(|b: ReactionBucketV| spec_reaction_groups(b.reactions, b.location, al));
    assert(spec_revision_groups(bs.push(x), al) == spec_revision_groups(bs, al)
        + spec_reaction_groups(x.reactions, x.location, al)) by {
        assert(bs.push(x).map_values(
            |b: ReactionBucketV| spec_reaction_groups(b.reactions, b.location, al),
        ) =~= bs.map_values(
            |b: ReactionBucketV| spec_reaction_groups(b.reactions, b.location, al),
        ).push(spec_reaction_groups(x.reactions, x.location, al)));
        bs.map_values(
            |b: ReactionBucketV| spec_reaction_groups(b.reactions, b.location, al),
        ).lemma_flatten_push(spec_reaction_groups(x.reactions, x.location, al));
    }
}

/// The view of one revision of a patch, including the reviews that target it
/// and the remote references that point at its head.
pub open spec fn spec_revision_view(
    rev: RevisionV,
    reviews: Seq<ReviewEntryV>,
    remote: Option<RemoteV>,
    aliases: Seq<AliasEntryV>,
) -> RevisionViewV {
    RevisionViewV {
        id: rev.id,
        author: spec_resolve(rev.author, aliases),
        description: rev.description,
        edits: spec_edit_views(rev.edits, aliases),
        reactions: spec_revision_groups(rev.reactions, aliases),
        base: rev.base,
        oid: rev.head,
        refs: spec_refs(remote, rev.head),
        discussions: spec_comment_views(rev.discussion, true, aliases),
        timestamp: rev.timestamp,
        reviews: spec_reviews_of(reviews, rev.id, aliases),
    }
}

/// Projects one revision; `reviews` are the owning patch's reviews and
/// `remote` is the patch author's remote (or `None` when its lookup failed).
pub fn revision(
    rev: &Revision,
    reviews: &Vec<ReviewEntry>,
    remote: &Option<Remote>,
    aliases: &Aliases,
) -> (r: RevisionView)
    ensures
        r.deep_view() == spec_revision_view(
            rev.deep_view(),
            reviews.deep_view(),
            remote.deep_view(),
            aliases.deep_view(),
        ),
{
    let ghost al = aliases.deep_view();
    let ghost bs = rev.reactions.deep_view();
    let mut groups: Vec<ReactionGroup> = Vec::new();
    let mut i: usize = 0;
    proof {
        assert(bs.take(0) =~= Seq::<ReactionBucketV>::empty());
        assert(groups.deep_view() =~= spec_revision_groups(bs.take(0), al));
    }
    while i < rev.reactions.len()
        invariant
            i <= rev.reactions.len(),
            al == aliases.deep_view(),
            bs == rev.reactions.deep_view(),
            bs.len() == rev.reactions.len(),
            groups.deep_view() == spec_revision_groups(bs.take(i as int), al),
        decreases rev.reactions.len() - i,
    {
        let b = &rev.reactions[i];
        let mut part = reactions(&b.reactions, &b.location, aliases);
        let ghost partv = part.deep_view();
        let ghost before = groups.deep_view();
        groups.append(&mut part);
        proof {
            assert(groups.deep_view() =~= before + partv);
            assert(bs.take(i as int + 1) =~= bs.take(i as int).push(bs[i as int]));
            lemma_revision_groups_push(bs.take(i as int), bs[i as int], al);
            assert(partv == spec_reaction_groups(bs[i as int].reactions, bs[i as int].location, al));
        }
        i = i + 1;
    }
    proof {
        assert(bs.take(rev.reactions.len() as int) =~= bs);
    }
    RevisionView {
        id: rev.id.clone(),
        author: resolve(&rev.author, aliases),
        description: rev.description.clone(),
        edits: edit_views(&rev.edits, aliases),
        reactions: groups,
        base: rev.base.clone(),
        oid: rev.head.clone(),
        refs: get_refs(remote, &rev.head),
        discussions: comment_views(&rev.discussion, true, aliases),
        timestamp: rev.timestamp,
        reviews: reviews_of(reviews, &rev.id, aliases),
    }
}

/// The views of a patch's revisions, in order.
pub open spec fn spec_revision_views(
    revs: Seq<RevisionV>,
    reviews: Seq<ReviewEntryV>,
    remote: Option<RemoteV>,
    aliases: Seq<AliasEntryV>,
) -> Seq<RevisionViewV> {
    revs.map_values(|rv: RevisionV| spec_revision_view(rv, reviews, remote, aliases))
}

/// The assembled view of a patch under a given id.
pub open spec fn spec_patch_view(
    id: Seq<char>,
    p: PatchV,
    remote: Option<RemoteV>,
    aliases: Seq<AliasEntryV>,
) -> PatchViewV {
    PatchViewV {
        id: id,
        author: spec_resolve(p.author, aliases),
        title: p.title,
        state: p.state,
        target: p.target,
        labels: p.labels,
        merges: spec_merge_views(p.merges, aliases),
        assignees: spec_resolve_all(p.assignees, aliases),
        revisions: spec_revision_views(p.revisions, p.reviews, remote, aliases),
    }
}

/// Projects a whole patch: author, labels, merges, assignees and every
/// revision with its reviews and matching remote references.
pub fn patch(id: &String, p: &Patch, remote: &Option<Remote>, aliases: &Aliases) -> (r: PatchView)
    ensures
        r.deep_view() == spec_patch_view(
            id@,
            p.deep_view(),
            remote.deep_view(),
            aliases.deep_view(),
        ),
{
    let ghost al = aliases.deep_view();
    let ghost pv = p.deep_view();
    let ghost rm = remote.deep_view();
    let mut revs: Vec<RevisionView> = Vec::new();
    let mut i: usize = 0;
    proof {
        assert(revs.deep_view() =~= spec_revision_views(pv.revisions.take(0), pv.reviews, rm, al));
    }
    while i < p.revisions.len()
        invariant
            i <= p.revisions.len(),
            al == aliases.deep_view(),
            pv == p.deep_view(),
            rm == remote.deep_view(),
            pv.revisions.len() == p.revisions.len(),
            revs.deep_view() == spec_revision_views(
                pv.revisions.take(i as int),
                pv.reviews,
                rm,
                al,
            ),
        decreases p.revisions.len() - i,
    {
        let rv = revision(&p.revisions[i], &p.reviews, remote, aliases);
        revs.push(rv);
        proof {
            assert(pv.revisions.take(i as int + 1) =~= pv.revisions.take(i as int).push(
                pv.revisions[i as int],
            ));
            assert(revs.deep_view() =~= spec_revision_views(
                pv.revisions.take(i as int + 1),
                pv.reviews,
                rm,
                al,
            ));
        }
        i = i + 1;
    }
    proof {
        assert(pv.revisions.take(p.revisions.len() as int) =~= pv.revisions);
    }
    PatchView {
        id: id.clone(),
        author: resolve(&p.author, aliases),
        title: p.title.clone(),
        state: p.state.clone(),
        target: p.target.clone(),
        labels: clone_strings(&p.labels),
        merges: merge_views(&p.merges, aliases),
        assignees: resolve_all(&p.assignees, aliases),
        revisions: revs,
    }
}

/// The assembled view of an issue under a given id.
pub open spec fn spec_issue_view(id: Seq<char>, i: IssueV, aliases: Seq<AliasEntryV>) -> IssueViewV {
    IssueViewV {
        id: id,
        author: spec_resolve(i.author, aliases),
        title: i.title,
        state: i.state,
        assignees: spec_resolve_all(i.assignees, aliases),
        discussion: spec_comment_views(i.comments, false, aliases),
        labels: i.labels,
    }
}

/// Projects a whole issue: author, assignees, the discussion in original
/// order, and labels.
pub fn issue(id: &String, i: &Issue, aliases: &Aliases) -> (r: IssueView)
    ensures
        r.deep_view() == spec_issue_view(id@, i.deep_view(), aliases.deep_view()),
{
    IssueView {
        id: id.clone(),
        author: resolve(&i.author, aliases),
        title: i.title.clone(),
        state: i.state.clone(),
        assignees: resolve_all(&i.assignees, aliases),
        discussion: comment_views(&i.comments, false, aliases),
        labels: clone_strings(&i.labels),
    }
}

} // verus!

//! Tests of the projection transforms: author resolution, reaction grouping,
//! comment/review/merge views, reference correlation.

use radicle_views::json::{
    author, edit, get_refs, issue, issue_comment, merge, patch, patch_comment, reactions, resolve,
    review, review_comment, reviews_of, revision,
};
use radicle_views::types::{
    AliasEntry, Aliases, AuthorView, Comment, Edit, Issue, Merge, Patch, Reaction, ReactionBucket,
    RefEntry, Remote, Review, ReviewEntry, Revision, Verdict,
};

fn aliases() -> Aliases {
    Aliases {
        entries: vec![
            AliasEntry { nid: "alice-nid".to_string(), alias: "alice".to_string() },
            AliasEntry { nid: "bob-nid".to_string(), alias: "bob".to_string() },
        ],
    }
}

fn no_aliases() -> Aliases {
    Aliases { entries: vec![] }
}

fn comment(id: &str, author: &str, body: &str, location: Option<&str>) -> Comment {
    Comment {
        id: id.to_string(),
        author: author.to_string(),
        body: body.to_string(),
        edits: vec![Edit {
            author: author.to_string(),
            body: body.to_string(),
            timestamp: 5,
            embeds: vec![],
        }],
        embeds: vec![],
        reactions: vec![],
        timestamp: 5,
        reply_to: None,
        resolved: false,
        location: location.map(|l| l.to_string()),
    }
}

#[test]
fn author_with_alias() {
    let v = resolve(&"alice-nid".to_string(), &aliases());
    match v {
        AuthorView::Aliased { id, alias } => {
            assert_eq!(id, "alice-nid");
            assert_eq!(alias, "alice");
        },
        AuthorView::Bare { .. } => panic!("expected the aliased form"),
    }
}

#[test]
fn author_without_alias_stays_bare() {
    let v = resolve(&"carol-nid".to_string(), &aliases());
    match v {
        AuthorView::Bare { id } => assert_eq!(id, "carol-nid"),
        AuthorView::Aliased { .. } => panic!("expected the bare form"),
    }
}

#[test]
fn author_uses_supplied_alias() {
    let v = author(&"x".to_string(), Some("display".to_string()));
    assert!(matches!(v, AuthorView::Aliased { .. }));
    let v = author(&"x".to_string(), None);
    assert!(matches!(v, AuthorView::Bare { .. }));
}

#[test]
fn alias_lookup_first_match() {
    let store = Aliases {
        entries: vec![
            AliasEntry { nid: "n".to_string(), alias: "first".to_string() },
            AliasEntry { nid: "n".to_string(), alias: "second".to_string() },
        ],
    };
    assert_eq!(store.alias(&"n".to_string()), Some("first".to_string()));
    assert_eq!(store.alias(&"other".to_string()), None);
}

#[test]
fn reactions_one_group_per_emoji() {
    let pairs = vec![
        Reaction { author: "bob-nid".to_string(), emoji: 'b' },
        Reaction { author: "alice-nid".to_string(), emoji: 'a' },
        Reaction { author: "alice-nid".to_string(), emoji: 'b' },
    ];
    let groups = reactions(&pairs, &None, &no_aliases());
    assert_eq!(groups.len(), 2);
    // ordered by emoji code point
    assert_eq!(groups[0].emoji, 'a');
    assert_eq!(groups[1].emoji, 'b');
    // authors in first-seen order
    assert_eq!(groups[0].authors.len(), 1);
    assert_eq!(groups[1].authors.len(), 2);
    match &groups[1].authors[0] {
        AuthorView::Bare { id } => assert_eq!(id, "bob-nid"),
        _ => panic!("expected bare author"),
    }
    match &groups[1].authors[1] {
        AuthorView::Bare { id } => assert_eq!(id, "alice-nid"),
        _ => panic!("expected bare author"),
    }
    assert!(groups[0].location.is_none());
    assert!(groups[1].location.is_none());
}

#[test]
fn reactions_location_attached_to_every_group() {
    let pairs = vec![
        Reaction { author: "a".to_string(), emoji: 'x' },
        Reaction { author: "b".to_string(), emoji: 'y' },
    ];
    let loc = Some("src/main.rs:3".to_string());
    let groups = reactions(&pairs, &loc, &no_aliases());
    assert_eq!(groups.len(), 2);
    assert_eq!(groups[0].location.as_deref(), Some("src/main.rs:3"));
    assert_eq!(groups[1].location.as_deref(), Some("src/main.rs:3"));
}

#[test]
fn reactions_resolve_authors() {
    let pairs = vec![Reaction { author: "alice-nid".to_string(), emoji: 'z' }];
    let groups = reactions(&pairs, &None, &aliases());
    assert_eq!(groups.len(), 1);
    match &groups[0].authors[0] {
        AuthorView::Aliased { id, alias } => {
            assert_eq!(id, "alice-nid");
            assert_eq!(alias, "alice");
        },
        _ => panic!("expected aliased author"),
    }
}

#[test]
fn reactions_empty_input() {
    let groups = reactions(&vec![], &None, &no_aliases());
    assert_eq!(groups.len(), 0);
}

#[test]
fn comment_with_empty_edits_still_projects() {
    let mut c = comment("c1", "alice-nid", "hello", None);
    c.edits = vec![];
    let v = issue_comment(&c, &aliases());
    assert_eq!(v.id, "c1");
    assert_eq!(v.body, "hello");
    assert_eq!(v.edits.len(), 0);
}

#[test]
fn issue_comment_carries_no_location() {
    let c = comment("c1", "alice-nid", "hello", Some("ignored"));
    let v = issue_comment(&c, &aliases());
    assert!(v.location.is_none());
    assert_eq!(v.timestamp, 5);
    assert_eq!(v.resolved, false);
    assert!(v.reply_to.is_none());
}

#[test]
fn patch_comment_carries_its_location() {
    let mut c = comment("c2", "bob-nid", "inline note", Some("diff:src/lib.rs:10"));
    c.reactions = vec![Reaction { author: "alice-nid".to_string(), emoji: 'k' }];
    let v = patch_comment(&c, &aliases());
    assert_eq!(v.location.as_deref(), Some("diff:src/lib.rs:10"));
    // the comment's reactions are grouped under the comment's location
    assert_eq!(v.reactions.len(), 1);
    assert_eq!(v.reactions[0].location.as_deref(), Some("diff:src/lib.rs:10"));
    let w = review_comment(&c, &aliases());
    assert_eq!(w.location.as_deref(), Some("diff:src/lib.rs:10"));
}

#[test]
fn edit_fields_carry_over() {
    let e = Edit {
        author: "bob-nid".to_string(),
        body: "first".to_string(),
        timestamp: 77,
        embeds: vec!["embed-1".to_string()],
    };
    let v = edit(&e, &aliases());
    assert_eq!(v.body, "first");
    assert_eq!(v.timestamp, 77);
    assert_eq!(v.embeds, vec!["embed-1".to_string()]);
    assert!(matches!(v.author, AuthorView::Aliased { .. }));
}

#[test]
fn review_fields_carry_over() {
    let r = Review {
        id: "r1".to_string(),
        author: "alice-nid".to_string(),
        verdict: Some(Verdict::Accept),
        summary: Some("fine".to_string()),
        comments: vec![comment("rc1", "bob-nid", "nit", Some("loc"))],
        timestamp: 9,
    };
    let v = review(&r, &aliases());
    assert_eq!(v.id, "r1");
    assert_eq!(v.verdict, Some(Verdict::Accept));
    assert_eq!(v.summary.as_deref(), Some("fine"));
    assert_eq!(v.comments.len(), 1);
    assert_eq!(v.comments[0].location.as_deref(), Some("loc"));
    assert_eq!(v.timestamp, 9);
}

#[test]
fn merge_builds_author_from_raw_id() {
    let m = Merge {
        author: "bob-nid".to_string(),
        commit: "deadbeef".to_string(),
        timestamp: 42,
        revision: "rev-1".to_string(),
    };
    let v = merge(&m, &aliases());
    assert_eq!(v.commit, "deadbeef");
    assert_eq!(v.timestamp, 42);
    assert_eq!(v.revision, "rev-1");
    match v.author {
        AuthorView::Aliased { id, alias } => {
            assert_eq!(id, "bob-nid");
            assert_eq!(alias, "bob");
        },
        _ => panic!("expected aliased author"),
    }
}

#[test]
fn refs_match_target_commit() {
    let remote = Some(Remote {
        refs: vec![
            RefEntry { name: "refs/heads/main".to_string(), target: "C1".to_string() },
            RefEntry { name: "refs/tags/v1".to_string(), target: "C2".to_string() },
        ],
    });
    let r = get_refs(&remote, &"C1".to_string());
    assert_eq!(r, vec!["refs/heads/main".to_string()]);
    let r = get_refs(&remote, &"C3".to_string());
    assert!(r.is_empty());
}

#[test]
fn refs_lookup_failure_degrades_to_empty() {
    let r = get_refs(&None, &"C1".to_string());
    assert!(r.is_empty());
}

#[test]
fn reviews_of_filters_by_revision() {
    let entries = vec![
        ReviewEntry {
            revision: "rev-1".to_string(),
            review: Review {
                id: "ra".to_string(),
                author: "a".to_string(),
                verdict: None,
                summary: None,
                comments: vec![],
                timestamp: 1,
            },
        },
        ReviewEntry {
            revision: "rev-2".to_string(),
            review: Review {
                id: "rb".to_string(),
                author: "b".to_string(),
                verdict: Some(Verdict::Reject),
                summary: None,
                comments: vec![],
                timestamp: 2,
            },
        },
        ReviewEntry {
            revision: "rev-1".to_string(),
            review: Review {
                id: "rc".to_string(),
                author: "c".to_string(),
                verdict: None,
                summary: None,
                comments: vec![],
                timestamp: 3,
            },
        },
    ];
    let vs = reviews_of(&entries, &"rev-1".to_string(), &no_aliases());
    assert_eq!(vs.len(), 2);
    assert_eq!(vs[0].id, "ra");
    assert_eq!(vs[1].id, "rc");
}

fn sample_revision() -> Revision {
    Revision {
        id: "rev-1".to_string(),
        author: "alice-nid".to_string(),
        description: "initial".to_string(),
        edits: vec![],
        reactions: vec![
            ReactionBucket {
                location: None,
                reactions: vec![Reaction { author: "bob-nid".to_string(), emoji: 'm' }],
            },
            ReactionBucket {
                location: Some("file:1".to_string()),
                reactions: vec![Reaction { author: "bob-nid".to_string(), emoji: 'm' }],
            },
        ],
        base: "B0".to_string(),
        head: "C1".to_string(),
        discussion: vec![comment("d1", "bob-nid", "why?", Some("file:2"))],
        timestamp: 100,
    }
}

fn sample_patch() -> Patch {
    Patch {
        author: "alice-nid".to_string(),
        title: "Add parser".to_string(),
        state: "open".to_string(),
        target: "delegates".to_string(),
        labels: vec!["feature".to_string()],
        assignees: vec!["bob-nid".to_string()],
        merges: vec![],
        revisions: vec![sample_revision()],
        reviews: vec![ReviewEntry {
            revision: "rev-1".to_string(),
            review: Review {
                id: "r9".to_string(),
                author: "bob-nid".to_string(),
                verdict: Some(Verdict::Accept),
                summary: None,
                comments: vec![],
                timestamp: 4,
            },
        }],
        timestamp: 100,
    }
}

#[test]
fn revision_buckets_stay_separate_groups() {
    let rev = sample_revision();
    let v = revision(&rev, &vec![], &None, &no_aliases());
    // same emoji at two locations: two separate groups, bucket order kept
    assert_eq!(v.reactions.len(), 2);
    assert_eq!(v.reactions[0].emoji, 'm');
    assert!(v.reactions[0].location.is_none());
    assert_eq!(v.reactions[1].emoji, 'm');
    assert_eq!(v.reactions[1].location.as_deref(), Some("file:1"));
    assert_eq!(v.oid, "C1");
    assert_eq!(v.base, "B0");
    assert_eq!(v.discussions.len(), 1);
}

#[test]
fn patch_assembles_revisions_reviews_and_refs() {
    let p = sample_patch();
    let remote = Some(Remote {
        refs: vec![RefEntry { name: "refs/heads/main".to_string(), target: "C1".to_string() }],
    });
    let v = patch(&"patch-1".to_string(), &p, &remote, &aliases());
    assert_eq!(v.id, "patch-1");
    assert_eq!(v.title, "Add parser");
    assert_eq!(v.state, "open");
    assert_eq!(v.target, "delegates");
    assert_eq!(v.labels, vec!["feature".to_string()]);
    assert_eq!(v.assignees.len(), 1);
    assert_eq!(v.revisions.len(), 1);
    let rv = &v.revisions[0];
    assert_eq!(rv.refs, vec!["refs/heads/main".to_string()]);
    assert_eq!(rv.reviews.len(), 1);
    assert_eq!(rv.reviews[0].id, "r9");
    assert_eq!(rv.timestamp, 100);
}

#[test]
fn issue_assembles_discussion_in_order() {
    let i = Issue {
        author: "alice-nid".to_string(),
        title: "Crash on open".to_string(),
        state: "open".to_string(),
        assignees: vec!["bob-nid".to_string()],
        labels: vec!["bug".to_string()],
        comments: vec![
            comment("c1", "alice-nid", "it crashes", None),
            comment("c2", "bob-nid", "repro?", None),
        ],
    };
    let v = issue(&"issue-1".to_string(), &i, &aliases());
    assert_eq!(v.id, "issue-1");
    assert_eq!(v.title, "Crash on open");
    assert_eq!(v.discussion.len(), 2);
    assert_eq!(v.discussion[0].id, "c1");
    assert_eq!(v.discussion[1].id, "c2");
    assert_eq!(v.labels, vec!["bug".to_string()]);
}

#[test]
fn projection_is_deterministic() {
    let p = sample_patch();
    let remote = Some(Remote {
        refs: vec![RefEntry { name: "refs/heads/main".to_string(), target: "C1".to_string() }],
    });
    let a = patch(&"patch-1".to_string(), &p, &remote, &aliases());
    let b = patch(&"patch-1".to_string(), &p, &remote, &aliases());
    assert_eq!(a.id, b.id);
    assert_eq!(a.title, b.title);
    assert_eq!(a.state, b.state);
    assert_eq!(a.labels, b.labels);
    assert_eq!(a.revisions.len(), b.revisions.len());
    assert_eq!(a.revisions[0].refs, b.revisions[0].refs);
    assert_eq!(a.revisions[0].oid, b.revisions[0].oid);
    assert_eq!(a.revisions[0].reviews.len(), b.revisions[0].reviews.len());
    assert_eq!(a.revisions[0].reactions.len(), b.revisions[0].reactions.len());
    assert_eq!(a.revisions[0].reactions[0].emoji, b.revisions[0].reactions[0].emoji);
}

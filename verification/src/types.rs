//! Plain-value snapshots of the collaborative-object domain model, and the
//! view types that the projection layer produces from them.
//!
//! Every entity here is an immutable snapshot taken at projection time:
//! identifiers (node ids, commit ids, object ids) are carried as strings,
//! timestamps as seconds, reaction emojis as characters. Each type has a
//! deep view into a ghost mirror, over which all contracts are stated.

use vstd::prelude::*;

verus! {

// ---------------------------------------------------------------------------
// Deep views of vectors
// ---------------------------------------------------------------------------

/// The element-wise deep view of a sequence.
pub open spec fn deep_of<T: DeepView>(s: Seq<T>) -> Seq<T::V> {
    Seq::new(s.len(), |i: int| s[i].deep_view())
}

pub broadcast proof fn lemma_vec_deep_view<T: DeepView>(v: Vec<T>)
    ensures
        #[trigger] v.deep_view() == deep_of(v@),
{
    assert(v.deep_view() =~= deep_of(v@));
}

pub broadcast proof fn lemma_deep_of_push<T: DeepView>(s: Seq<T>, x: T)
    ensures
        #[trigger] deep_of(s.push(x)) == deep_of(s).push(x.deep_view()),
{
    assert(deep_of(s.push(x)) =~= deep_of(s).push(x.deep_view()));
}

pub broadcast proof fn lemma_deep_of_take<T: DeepView>(s: Seq<T>, n: int)
    requires
        0 <= n <= s.len(),
    ensures
        #[trigger] deep_of(s.take(n)) == deep_of(s).take(n),
{
    assert(deep_of(s.take(n)) =~= deep_of(s).take(n));
}

pub broadcast proof fn lemma_deep_of_insert<T: DeepView>(s: Seq<T>, i: int, x: T)
    requires
        0 <= i <= s.len(),
    ensures
        #[trigger] deep_of(s.insert(i, x)) == deep_of(s).insert(i, x.deep_view()),
{
    assert(deep_of(s.insert(i, x)) =~= deep_of(s).insert(i, x.deep_view()));
}

pub broadcast proof fn lemma_deep_of_remove<T: DeepView>(s: Seq<T>, i: int)
    requires
        0 <= i < s.len(),
    ensures
        #[trigger] deep_of(s.remove(i)) == deep_of(s).remove(i),
{
    assert(deep_of(s.remove(i)) =~= deep_of(s).remove(i));
}

pub broadcast group group_deep_view {
    lemma_vec_deep_view,
    lemma_deep_of_push,
    lemma_deep_of_take,
    lemma_deep_of_insert,
    lemma_deep_of_remove,
}

// ---------------------------------------------------------------------------
// Domain snapshots
// ---------------------------------------------------------------------------

/// A single reaction: one author applied one emoji.
pub struct Reaction {
    pub author: String,
    pub emoji: char,
}

pub struct ReactionV {
    pub author: Seq<char>,
    pub emoji: char,
}

impl DeepView for Reaction {
    type V = ReactionV;

    open spec fn deep_view(&self) -> ReactionV {
        ReactionV { author: self.author.deep_view(), emoji: self.emoji }
    }
}

/// Reactions on a revision come bucketed by the code location they anchor to
/// (`location == None` for reactions on the revision itself).
pub struct ReactionBucket {
    pub location: Option<String>,
    pub reactions: Vec<Reaction>,
}

pub struct ReactionBucketV {
    pub location: Option<Seq<char>>,
    pub reactions: Seq<ReactionV>,
}

impl DeepView for ReactionBucket {
    type V = ReactionBucketV;

    open spec fn deep_view(&self) -> ReactionBucketV {
        ReactionBucketV {
            location: self.location.deep_view(),
            reactions: self.reactions.deep_view(),
        }
    }
}

/// One entry of a comment's edit history; the creation itself is the first edit.
pub struct Edit {
    pub author: String,
    pub body: String,
    pub timestamp: u64,
    pub embeds: Vec<String>,
}

pub struct EditV {
    pub author: Seq<char>,
    pub body: Seq<char>,
    pub timestamp: u64,
    pub embeds: Seq<Seq<char>>,
}

impl DeepView for Edit {
    type V = EditV;

    open spec fn deep_view(&self) -> EditV {
        EditV {
            author: self.author.deep_view(),
            body: self.body.deep_view(),
            timestamp: self.timestamp,
            embeds: self.embeds.deep_view(),
        }
    }
}

/// A threaded comment. `location` is present only for code-review-style
/// comments (patch or review discussions); plain issue comments carry `None`.
pub struct Comment {
    pub id: String,
    pub author: String,
    pub body: String,
    pub edits: Vec<Edit>,
    pub embeds: Vec<String>,
    pub reactions: Vec<Reaction>,
    pub timestamp: u64,
    pub reply_to: Option<String>,
    pub resolved: bool,
    pub location: Option<String>,
}

pub struct CommentV {
    pub id: Seq<char>,
    pub author: Seq<char>,
    pub body: Seq<char>,
    pub edits: Seq<EditV>,
    pub embeds: Seq<Seq<char>>,
    pub reactions: Seq<ReactionV>,
    pub timestamp: u64,
    pub reply_to: Option<Seq<char>>,
    pub resolved: bool,
    pub location: Option<Seq<char>>,
}

impl DeepView for Comment {
    type V = CommentV;

    open spec fn deep_view(&self) -> CommentV {
        CommentV {
            id: self.id.deep_view(),
            author: self.author.deep_view(),
            body: self.body.deep_view(),
            edits: self.edits.deep_view(),
            embeds: self.embeds.deep_view(),
            reactions: self.reactions.deep_view(),
            timestamp: self.timestamp,
            reply_to: self.reply_to.deep_view(),
            resolved: self.resolved,
            location: self.location.deep_view(),
        }
    }
}

/// The outcome of a review.
#[derive(Clone, Copy, PartialEq, Eq, Structural, Debug)]
pub enum Verdict {
    Accept,
    Reject,
}

impl DeepView for Verdict {
    type V = Verdict;

    open spec fn deep_view(&self) -> Verdict {
        *self
    }
}

/// A review of one revision of a patch.
pub struct Review {
    pub id: String,
    pub author: String,
    pub verdict: Option<Verdict>,
    pub summary: Option<String>,
    pub comments: Vec<Comment>,
    pub timestamp: u64,
}

pub struct ReviewV {
    pub id: Seq<char>,
    pub author: Seq<char>,
    pub verdict: Option<Verdict>,
    pub summary: Option<Seq<char>>,
    pub comments: Seq<CommentV>,
    pub timestamp: u64,
}

impl DeepView for Review {
    type V = ReviewV;

    open spec fn deep_view(&self) -> ReviewV {
        ReviewV {
            id: self.id.deep_view(),
            author: self.author.deep_view(),
            verdict: self.verdict,
            summary: self.summary.deep_view(),
            comments: self.comments.deep_view(),
            timestamp: self.timestamp,
        }
    }
}

/// A review together with the revision it targets; patches keep their reviews
/// keyed by revision id.
pub struct ReviewEntry {
    pub revision: String,
    pub review: Review,
}

pub struct ReviewEntryV {
    pub revision: Seq<char>,
    pub review: ReviewV,
}

impl DeepView for ReviewEntry {
    type V = ReviewEntryV;

    open spec fn deep_view(&self) -> ReviewEntryV {
        ReviewEntryV { revision: self.revision.deep_view(), review: self.review.deep_view() }
    }
}

/// A merge of a patch revision into the target branch.
pub struct Merge {
    pub author: String,
    pub commit: String,
    pub timestamp: u64,
    pub revision: String,
}

pub struct MergeV {
    pub author: Seq<char>,
    pub commit: Seq<char>,
    pub timestamp: u64,
    pub revision: Seq<char>,
}

impl DeepView for Merge {
    type V = MergeV;

    open spec fn deep_view(&self) -> MergeV {
        MergeV {
            author: self.author.deep_view(),
            commit: self.commit.deep_view(),
            timestamp: self.timestamp,
            revision: self.revision.deep_view(),
        }
    }
}

/// A versioned snapshot of a patch's proposed change set.
pub struct Revision {
    pub id: String,
    pub author: String,
    pub description: String,
    pub edits: Vec<Edit>,
    pub reactions: Vec<ReactionBucket>,
    pub base: String,
    pub head: String,
    pub discussion: Vec<Comment>,
    pub timestamp: u64,
}

pub struct RevisionV {
    pub id: Seq<char>,
    pub author: Seq<char>,
    pub description: Seq<char>,
    pub edits: Seq<EditV>,
    pub reactions: Seq<ReactionBucketV>,
    pub base: Seq<char>,
    pub head: Seq<char>,
    pub discussion: Seq<CommentV>,
    pub timestamp: u64,
}

impl DeepView for Revision {
    type V = RevisionV;

    open spec fn deep_view(&self) -> RevisionV {
        RevisionV {
            id: self.id.deep_view(),
            author: self.author.deep_view(),
            description: self.description.deep_view(),
            edits: self.edits.deep_view(),
            reactions: self.reactions.deep_view(),
            base: self.base.deep_view(),
            head: self.head.deep_view(),
            discussion: self.discussion.deep_view(),
            timestamp: self.timestamp,
        }
    }
}

/// A patch: proposed changes with their revisions, merges and reviews.
pub struct Patch {
    pub author: String,
    pub title: String,
    pub state: String,
    pub target: String,
    pub labels: Vec<String>,
    pub assignees: Vec<String>,
    pub merges: Vec<Merge>,
    pub revisions: Vec<Revision>,
    pub reviews: Vec<ReviewEntry>,
    pub timestamp: u64,
}

pub struct PatchV {
    pub author: Seq<char>,
    pub title: Seq<char>,
    pub state: Seq<char>,
    pub target: Seq<char>,
    pub labels: Seq<Seq<char>>,
    pub assignees: Seq<Seq<char>>,
    pub merges: Seq<MergeV>,
    pub revisions: Seq<RevisionV>,
    pub reviews: Seq<ReviewEntryV>,
    pub timestamp: u64,
}

impl DeepView for Patch {
    type V = PatchV;

    open spec fn deep_view(&self) -> PatchV {
        PatchV {
            author: self.author.deep_view(),
            title: self.title.deep_view(),
            state: self.state.deep_view(),
            target: self.target.deep_view(),
            labels: self.labels.deep_view(),
            assignees: self.assignees.deep_view(),
            merges: self.merges.deep_view(),
            revisions: self.revisions.deep_view(),
            reviews: self.reviews.deep_view(),
            timestamp: self.timestamp,
        }
    }
}

/// An issue: a discussion thread with assignees and labels.
pub struct Issue {
    pub author: String,
    pub title: String,
    pub state: String,
    pub assignees: Vec<String>,
    pub labels: Vec<String>,
    pub comments: Vec<Comment>,
}

pub struct IssueV {
    pub author: Seq<char>,
    pub title: Seq<char>,
    pub state: Seq<char>,
    pub assignees: Seq<Seq<char>>,
    pub labels: Seq<Seq<char>>,
    pub comments: Seq<CommentV>,
}

impl DeepView for Issue {
    type V = IssueV;

    open spec fn deep_view(&self) -> IssueV {
        IssueV {
            author: self.author.deep_view(),
            title: self.title.deep_view(),
            state: self.state.deep_view(),
            assignees: self.assignees.deep_view(),
            labels: self.labels.deep_view(),
            comments: self.comments.deep_view(),
        }
    }
}

// ---------------------------------------------------------------------------
// Remote references
// ---------------------------------------------------------------------------

/// One remote-tracked reference: a symbolic name and the commit it points at.
pub struct RefEntry {
    pub name: String,
    pub target: String,
}

pub struct RefEntryV {
    pub name: Seq<char>,
    pub target: Seq<char>,
}

impl DeepView for RefEntry {
    type V = RefEntryV;

    open spec fn deep_view(&self) -> RefEntryV {
        RefEntryV { name: self.name.deep_view(), target: self.target.deep_view() }
    }
}

/// An author's remote in a repository: its reference map, in iteration order.
pub struct Remote {
    pub refs: Vec<RefEntry>,
}

pub struct RemoteV {
    pub refs: Seq<RefEntryV>,
}

impl DeepView for Remote {
    type V = RemoteV;

    open spec fn deep_view(&self) -> RemoteV {
        RemoteV { refs: self.refs.deep_view() }
    }
}

// ---------------------------------------------------------------------------
// View types: what the projection produces
// ---------------------------------------------------------------------------

/// A resolved author. When the alias directory knows the actor the view
/// carries the display name; otherwise it stays the bare author form, so the
/// two shapes remain distinguishable to the caller.
pub enum AuthorView {
    Bare { id: String },
    Aliased { id: String, alias: String },
}

pub enum AuthorViewV {
    Bare { id: Seq<char> },
    Aliased { id: Seq<char>, alias: Seq<char> },
}

impl DeepView for AuthorView {
    type V = AuthorViewV;

    open spec fn deep_view(&self) -> AuthorViewV {
        match self {
            AuthorView::Bare { id } => AuthorViewV::Bare { id: id.deep_view() },
            AuthorView::Aliased { id, alias } => AuthorViewV::Aliased {
                id: id.deep_view(),
                alias: alias.deep_view(),
            },
        }
    }
}

/// One group of reactions: every resolved author that applied `emoji` at
/// `location`, in first-seen order.
pub struct ReactionGroup {
    pub emoji: char,
    pub authors: Vec<AuthorView>,
    pub location: Option<String>,
}

pub struct ReactionGroupV {
    pub emoji: char,
    pub authors: Seq<AuthorViewV>,
    pub location: Option<Seq<char>>,
}

impl DeepView for ReactionGroup {
    type V = ReactionGroupV;

    open spec fn deep_view(&self) -> ReactionGroupV {
        ReactionGroupV {
            emoji: self.emoji,
            authors: self.authors.deep_view(),
            location: self.location.deep_view(),
        }
    }
}

/// The view of one edit of a comment.
pub struct EditView {
    pub author: AuthorView,
    pub body: String,
    pub timestamp: u64,
    pub embeds: Vec<String>,
}

pub struct EditViewV {
    pub author: AuthorViewV,
    pub body: Seq<char>,
    pub timestamp: u64,
    pub embeds: Seq<Seq<char>>,
}

impl DeepView for EditView {
    type V = EditViewV;

    open spec fn deep_view(&self) -> EditViewV {
        EditViewV {
            author: self.author.deep_view(),
            body: self.body.deep_view(),
            timestamp: self.timestamp,
            embeds: self.embeds.deep_view(),
        }
    }
}

/// The view of one comment. `location` is `None` for plain issue comments.
pub struct CommentView {
    pub id: String,
    pub author: AuthorView,
    pub body: String,
    pub edits: Vec<EditView>,
    pub embeds: Vec<String>,
    pub reactions: Vec<ReactionGroup>,
    pub timestamp: u64,
    pub reply_to: Option<String>,
    pub resolved: bool,
    pub location: Option<String>,
}

pub struct CommentViewV {
    pub id: Seq<char>,
    pub author: AuthorViewV,
    pub body: Seq<char>,
    pub edits: Seq<EditViewV>,
    pub embeds: Seq<Seq<char>>,
    pub reactions: Seq<ReactionGroupV>,
    pub timestamp: u64,
    pub reply_to: Option<Seq<char>>,
    pub resolved: bool,
    pub location: Option<Seq<char>>,
}

impl DeepView for CommentView {
    type V = CommentViewV;

    open spec fn deep_view(&self) -> CommentViewV {
        CommentViewV {
            id: self.id.deep_view(),
            author: self.author.deep_view(),
            body: self.body.deep_view(),
            edits: self.edits.deep_view(),
            embeds: self.embeds.deep_view(),
            reactions: self.reactions.deep_view(),
            timestamp: self.timestamp,
            reply_to: self.reply_to.deep_view(),
            resolved: self.resolved,
            location: self.location.deep_view(),
        }
    }
}

/// The view of one review.
pub struct ReviewView {
    pub id: String,
    pub author: AuthorView,
    pub verdict: Option<Verdict>,
    pub summary: Option<String>,
    pub comments: Vec<CommentView>,
    pub timestamp: u64,
}

pub struct ReviewViewV {
    pub id: Seq<char>,
    pub author: AuthorViewV,
    pub verdict: Option<Verdict>,
    pub summary: Option<Seq<char>>,
    pub comments: Seq<CommentViewV>,
    pub timestamp: u64,
}

impl DeepView for ReviewView {
    type V = ReviewViewV;

    open spec fn deep_view(&self) -> ReviewViewV {
        ReviewViewV {
            id: self.id.deep_view(),
            author: self.author.deep_view(),
            verdict: self.verdict,
            summary: self.summary.deep_view(),
            comments: self.comments.deep_view(),
            timestamp: self.timestamp,
        }
    }
}

/// The view of one merge.
pub struct MergeView {
    pub author: AuthorView,
    pub commit: String,
    pub timestamp: u64,
    pub revision: String,
}

pub struct MergeViewV {
    pub author: AuthorViewV,
    pub commit: Seq<char>,
    pub timestamp: u64,
    pub revision: Seq<char>,
}

impl DeepView for MergeView {
    type V = MergeViewV;

    open spec fn deep_view(&self) -> MergeViewV {
        MergeViewV {
            author: self.author.deep_view(),
            commit: self.commit.deep_view(),
            timestamp: self.timestamp,
            revision: self.revision.deep_view(),
        }
    }
}

/// The view of one revision of a patch. `oid` is the revision's head commit;
/// `refs` are the author's remote references that point at it.
pub struct RevisionView {
    pub id: String,
    pub author: AuthorView,
    pub description: String,
    pub edits: Vec<EditView>,
    pub reactions: Vec<ReactionGroup>,
    pub base: String,
    pub oid: String,
    pub refs: Vec<String>,
    pub discussions: Vec<CommentView>,
    pub timestamp: u64,
    pub reviews: Vec<ReviewView>,
}

pub struct RevisionViewV {
    pub id: Seq<char>,
    pub author: AuthorViewV,
    pub description: Seq<char>,
    pub edits: Seq<EditViewV>,
    pub reactions: Seq<ReactionGroupV>,
    pub base: Seq<char>,
    pub oid: Seq<char>,
    pub refs: Seq<Seq<char>>,
    pub discussions: Seq<CommentViewV>,
    pub timestamp: u64,
    pub reviews: Seq<ReviewViewV>,
}

impl DeepView for RevisionView {
    type V = RevisionViewV;

    open spec fn deep_view(&self) -> RevisionViewV {
        RevisionViewV {
            id: self.id.deep_view(),
            author: self.author.deep_view(),
            description: self.description.deep_view(),
            edits: self.edits.deep_view(),
            reactions: self.reactions.deep_view(),
            base: self.base.deep_view(),
            oid: self.oid.deep_view(),
            refs: self.refs.deep_view(),
            discussions: self.discussions.deep_view(),
            timestamp: self.timestamp,
            reviews: self.reviews.deep_view(),
        }
    }
}

/// The assembled view of one patch.
pub struct PatchView {
    pub id: String,
    pub author: AuthorView,
    pub title: String,
    pub state: String,
    pub target: String,
    pub labels: Vec<String>,
    pub merges: Vec<MergeView>,
    pub assignees: Vec<AuthorView>,
    pub revisions: Vec<RevisionView>,
}

pub struct PatchViewV {
    pub id: Seq<char>,
    pub author: AuthorViewV,
    pub title: Seq<char>,
    pub state: Seq<char>,
    pub target: Seq<char>,
    pub labels: Seq<Seq<char>>,
    pub merges: Seq<MergeViewV>,
    pub assignees: Seq<AuthorViewV>,
    pub revisions: Seq<RevisionViewV>,
}

impl DeepView for PatchView {
    type V = PatchViewV;

    open spec fn deep_view(&self) -> PatchViewV {
        PatchViewV {
            id: self.id.deep_view(),
            author: self.author.deep_view(),
            title: self.title.deep_view(),
            state: self.state.deep_view(),
            target: self.target.deep_view(),
            labels: self.labels.deep_view(),
            merges: self.merges.deep_view(),
            assignees: self.assignees.deep_view(),
            revisions: self.revisions.deep_view(),
        }
    }
}

/// The assembled view of one issue.
pub struct IssueView {
    pub id: String,
    pub author: AuthorView,
    pub title: String,
    pub state: String,
    pub assignees: Vec<AuthorView>,
    pub discussion: Vec<CommentView>,
    pub labels: Vec<String>,
}

pub struct IssueViewV {
    pub id: Seq<char>,
    pub author: AuthorViewV,
    pub title: Seq<char>,
    pub state: Seq<char>,
    pub assignees: Seq<AuthorViewV>,
    pub discussion: Seq<CommentViewV>,
    pub labels: Seq<Seq<char>>,
}

impl DeepView for IssueView {
    type V = IssueViewV;

    open spec fn deep_view(&self) -> IssueViewV {
        IssueViewV {
            id: self.id.deep_view(),
            author: self.author.deep_view(),
            title: self.title.deep_view(),
            state: self.state.deep_view(),
            assignees: self.assignees.deep_view(),
            discussion: self.discussion.deep_view(),
            labels: self.labels.deep_view(),
        }
    }
}

// ---------------------------------------------------------------------------
// Alias store
// ---------------------------------------------------------------------------

/// One alias-directory entry: a node id and its display name.
pub struct AliasEntry {
    pub nid: String,
    pub alias: String,
}

pub struct AliasEntryV {
    pub nid: Seq<char>,
    pub alias: Seq<char>,
}

impl DeepView for AliasEntry {
    type V = AliasEntryV;

    open spec fn deep_view(&self) -> AliasEntryV {
        AliasEntryV { nid: self.nid.deep_view(), alias: self.alias.deep_view() }
    }
}

/// First match of `nid` in `entries`, if any.
pub open spec fn spec_alias(entries: Seq<AliasEntryV>, nid: Seq<char>) -> Option<Seq<char>>
    decreases entries.len(),
{
    if entries.len() == 0 {
        None
    } else if entries[0].nid == nid {
        Some(entries[0].alias)
    } else {
        spec_alias(entries.drop_first(), nid)
    }
}

/// A snapshot of the alias directory: display names keyed by node id.
/// Resolution returns the first entry whose node id matches.
pub struct Aliases {
    pub entries: Vec<AliasEntry>,
}

impl DeepView for Aliases {
    type V = Seq<AliasEntryV>;

    open spec fn deep_view(&self) -> Seq<AliasEntryV> {
        self.entries.deep_view()
    }
}

impl Aliases {
    /// The display name recorded for `nid`, or `None` when the directory
    /// holds no entry for it.
    pub fn alias(&self, nid: &String) -> (r: Option<String>)
        ensures
            r.deep_view() == spec_alias(self.deep_view(), nid@),
    {
        let ghost all = self.deep_view();
        proof {
            assert(all.skip(0) =~= all);
        }
        let mut i: usize = 0;
        while i < self.entries.len()
            invariant
                i <= self.entries.len(),
                all == self.deep_view(),
                all.len() == self.entries.len(),
                spec_alias(all, nid@) == spec_alias(all.skip(i as int), nid@),
            decreases self.entries.len() - i,
        {
            proof {
                assert(all.skip(i as int)[0] == self.entries[i as int].deep_view());
            }
            if self.entries[i].nid == *nid {
                proof {
                    assert(spec_alias(all.skip(i as int), nid@) == Some(
                        all.skip(i as int)[0].alias,
                    ));
                }
                return Some(self.entries[i].alias.clone());
            }
            proof {
                assert(all.skip(i as int).drop_first() =~= all.skip(i as int + 1));
                assert(spec_alias(all.skip(i as int), nid@) == spec_alias(
                    all.skip(i as int).drop_first(),
                    nid@,
                ));
            }
            i = i + 1;
        }
        proof {
            assert(all.skip(i as int).len() == 0);
        }
        None
    }
}

// ---------------------------------------------------------------------------
// Errors
// ---------------------------------------------------------------------------

/// A fatal condition surfaced to the caller. `PatchNotFound` is the
/// distinguished not-found condition; `WithHint` carries an actionable
/// remediation hint beside the raw message.
pub enum Error {
    PatchNotFound,
    WithHint { err: String, hint: String },
}

pub enum ErrorV {
    PatchNotFound,
    WithHint { err: Seq<char>, hint: Seq<char> },
}

impl DeepView for Error {
    type V = ErrorV;

    open spec fn deep_view(&self) -> ErrorV {
        match self {
            Error::PatchNotFound => ErrorV::PatchNotFound,
            Error::WithHint { err, hint } => ErrorV::WithHint {
                err: err.deep_view(),
                hint: hint.deep_view(),
            },
        }
    }
}

impl Error {
    /// The human-readable message of this failure.
    pub fn message(&self) -> (r: String)
        ensures
            self is PatchNotFound ==> r@ == "patch not found"@,
            self is WithHint ==> r@ == self->err@,
    {
        match self {
            Error::PatchNotFound => String::from_str("patch not found"),
            Error::WithHint { err, hint: _ } => err.clone(),
        }
    }
}

/// The failure reported when no local profile exists at `path`: the raw
/// message names the path, and the hint says how to set a profile up.
pub fn profile_not_found(path: &String) -> (r: Error)
    ensures
        r is WithHint,
        r->err@ == "Radicle profile not found in '"@ + path@ + "'."@,
        r->hint@ == "To setup your radicle profile, run `rad auth`."@,
{
    let msg = String::from_str("Radicle profile not found in '").concat(path.as_str()).concat(
        "'.",
    );
    Error::WithHint { err: msg, hint: String::from_str("To setup your radicle profile, run `rad auth`.") }
}

} // verus!

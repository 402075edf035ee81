//! The listing assembler and single-entity lookups: project information,
//! sorted patch listings that drop entities whose acquisition failed, and the
//! distinguished not-found condition for single-patch lookups.

use vstd::prelude::*;
use vstd::multiset::Multiset;
use crate::types::{
    AliasEntryV, Aliases, AuthorView, AuthorViewV, Error, Patch, PatchV, PatchView,
    PatchViewV, Remote, RemoteV,
};
use crate::json::{spec_patch_view, spec_resolve_all, patch as patch_view, resolve_all};

verus! {

broadcast use crate::types::group_deep_view;

// ---------------------------------------------------------------------------
// Project information
// ---------------------------------------------------------------------------

/// The project payload of a repository's identity document.
pub struct Project {
    pub name: String,
    pub description: String,
    pub default_branch: String,
}

pub struct ProjectV {
    pub name: Seq<char>,
    pub description: Seq<char>,
    pub default_branch: Seq<char>,
}

impl DeepView for Project {
    type V = ProjectV;

    open spec fn deep_view(&self) -> ProjectV {
        ProjectV {
            name: self.name.deep_view(),
            description: self.description.deep_view(),
            default_branch: self.default_branch.deep_view(),
        }
    }
}

/// Whether a repository is publicly visible.
#[derive(Clone, Copy, PartialEq, Eq, Structural, Debug)]
pub enum Visibility {
    Public,
    Private,
}

impl DeepView for Visibility {
    type V = Visibility;

    open spec fn deep_view(&self) -> Visibility {
        *self
    }
}

/// Issue totals of a repository.
#[derive(Clone, Copy, PartialEq, Eq, Structural, Debug)]
pub struct IssueCounts {
    pub open: u64,
    pub closed: u64,
}

impl DeepView for IssueCounts {
    type V = IssueCounts;

    open spec fn deep_view(&self) -> IssueCounts {
        *self
    }
}

/// Patch totals of a repository.
#[derive(Clone, Copy, PartialEq, Eq, Structural, Debug)]
pub struct PatchCounts {
    pub open: u64,
    pub draft: u64,
    pub archived: u64,
    pub merged: u64,
}

impl DeepView for PatchCounts {
    type V = PatchCounts;

    open spec fn deep_view(&self) -> PatchCounts {
        *self
    }
}

/// What a repository's identity document says about it. `payload` is `None`
/// when the document carries no readable project payload.
pub struct RepoSummary {
    pub rid: String,
    pub visibility: Visibility,
    pub threshold: u64,
    pub delegates: Vec<String>,
    pub payload: Option<Project>,
}

pub struct RepoSummaryV {
    pub rid: Seq<char>,
    pub visibility: Visibility,
    pub threshold: u64,
    pub delegates: Seq<Seq<char>>,
    pub payload: Option<ProjectV>,
}

impl DeepView for RepoSummary {
    type V = RepoSummaryV;

    open spec fn deep_view(&self) -> RepoSummaryV {
        RepoSummaryV {
            rid: self.rid.deep_view(),
            visibility: self.visibility,
            threshold: self.threshold,
            delegates: self.delegates.deep_view(),
            payload: self.payload.deep_view(),
        }
    }
}

/// What was acquired for one repository beyond its summary: head commit,
/// aggregate counts, seeding information.
pub struct ProjectLoad {
    pub head: String,
    pub issues: IssueCounts,
    pub patches: PatchCounts,
    pub seeding: u64,
    pub is_seeding: bool,
}

pub struct ProjectLoadV {
    pub head: Seq<char>,
    pub issues: IssueCounts,
    pub patches: PatchCounts,
    pub seeding: u64,
    pub is_seeding: bool,
}

impl DeepView for ProjectLoad {
    type V = ProjectLoadV;

    open spec fn deep_view(&self) -> ProjectLoadV {
        ProjectLoadV {
            head: self.head.deep_view(),
            issues: self.issues,
            patches: self.patches,
            seeding: self.seeding,
            is_seeding: self.is_seeding,
        }
    }
}

/// One repository in a listing: its summary, and what could be loaded for it
/// (`None` when any acquisition step failed).
pub struct ProjectEntry {
    pub summary: RepoSummary,
    pub load: Option<ProjectLoad>,
}

pub struct ProjectEntryV {
    pub summary: RepoSummaryV,
    pub load: Option<ProjectLoadV>,
}

impl DeepView for ProjectEntry {
    type V = ProjectEntryV;

    open spec fn deep_view(&self) -> ProjectEntryV {
        ProjectEntryV { summary: self.summary.deep_view(), load: self.load.deep_view() }
    }
}

/// The assembled information of one project.
pub struct Info {
    pub payload: Project,
    pub delegates: Vec<AuthorView>,
    pub threshold: u64,
    pub visibility: Visibility,
    pub head: String,
    pub patches: PatchCounts,
    pub issues: IssueCounts,
    pub id: String,
    pub seeding: u64,
}

pub struct InfoV {
    pub payload: ProjectV,
    pub delegates: Seq<AuthorViewV>,
    pub threshold: u64,
    pub visibility: Visibility,
    pub head: Seq<char>,
    pub patches: PatchCounts,
    pub issues: IssueCounts,
    pub id: Seq<char>,
    pub seeding: u64,
}

impl DeepView for Info {
    type V = InfoV;

    open spec fn deep_view(&self) -> InfoV {
        InfoV {
            payload: self.payload.deep_view(),
            delegates: self.delegates.deep_view(),
            threshold: self.threshold,
            visibility: self.visibility,
            head: self.head.deep_view(),
            patches: self.patches,
            issues: self.issues,
            id: self.id.deep_view(),
            seeding: self.seeding,
        }
    }
}

/// The project information assembled from a summary and its load, with every
/// delegate resolved against the alias directory.
pub open spec fn spec_info(
    summary: RepoSummaryV,
    payload: ProjectV,
    load: ProjectLoadV,
    aliases: Seq<AliasEntryV>,
) -> InfoV {
    InfoV {
        payload: payload,
        delegates: spec_resolve_all(summary.delegates, aliases),
        threshold: summary.threshold,
        visibility: summary.visibility,
        head: load.head,
        patches: load.patches,
        issues: load.issues,
        id: summary.rid,
        seeding: load.seeding,
    }
}

/// Assembles the information of one project: delegates resolved, everything
/// else carried over from the summary and the load.
pub fn project(summary: RepoSummary, payload: Project, load: ProjectLoad, aliases: &Aliases) -> (r:
    Info)
    ensures
        r.deep_view() == spec_info(
            summary.deep_view(),
            payload.deep_view(),
            load.deep_view(),
            aliases.deep_view(),
        ),
{
    let delegates = resolve_all(&summary.delegates, aliases);
    Info {
        payload: payload,
        delegates: delegates,
        threshold: summary.threshold,
        visibility: summary.visibility,
        head: load.head,
        patches: load.patches,
        issues: load.issues,
        id: summary.rid,
        seeding: load.seeding,
    }
}

// ---------------------------------------------------------------------------
// Patch listings
// ---------------------------------------------------------------------------

/// One patch of a listing, as acquired: its id, its snapshot, and its
/// author's remote (or `None` when that lookup failed).
pub struct PatchEntry {
    pub id: String,
    pub patch: Patch,
    pub remote: Option<Remote>,
}

pub struct PatchEntryV {
    pub id: Seq<char>,
    pub patch: PatchV,
    pub remote: Option<RemoteV>,
}

impl DeepView for PatchEntry {
    type V = PatchEntryV;

    open spec fn deep_view(&self) -> PatchEntryV {
        PatchEntryV {
            id: self.id.deep_view(),
            patch: self.patch.deep_view(),
            remote: self.remote.deep_view(),
        }
    }
}

/// The entries whose acquisition succeeded, in order.
pub open spec fn spec_loaded(s: Seq<Option<PatchEntryV>>) -> Seq<PatchEntryV>
    decreases s.len(),
{
    if s.len() == 0 {
        Seq::empty()
    } else {
        match s.last() {
            Some(x) => spec_loaded(s.drop_last()).push(x),
            None => spec_loaded(s.drop_last()),
        }
    }
}

/// Inserts `x` into a run sorted by descending timestamp, after every entry
/// whose timestamp is at least as large, so that sorting stays stable.
pub open spec fn spec_insert_desc(s: Seq<PatchEntryV>, x: PatchEntryV) -> Seq<PatchEntryV>
    decreases s.len(),
{
    if s.len() == 0 {
        seq![x]
    } else if s[0].patch.timestamp >= x.patch.timestamp {
        seq![s[0]] + spec_insert_desc(s.drop_first(), x)
    } else {
        seq![x] + s
    }
}

/// Stable sort by descending patch timestamp.
pub open spec fn spec_sort_desc(s: Seq<PatchEntryV>) -> Seq<PatchEntryV>
    decreases s.len(),
{
    if s.len() == 0 {
        Seq::empty()
    } else {
        spec_insert_desc(spec_sort_desc(s.drop_last()), s.last())
    }
}

/// The projection of a run of patch entries, in order.
pub open spec fn spec_patch_views(s: Seq<PatchEntryV>, aliases: Seq<AliasEntryV>) -> Seq<
    PatchViewV,
> {
    s.map_values(|en: PatchEntryV| spec_patch_view(en.id, en.patch, en.remote, aliases))
}

/// What a patch listing returns: the entries that loaded, sorted by
/// descending timestamp, each projected to its view.
pub open spec fn spec_patches(s: Seq<Option<PatchEntryV>>, aliases: Seq<AliasEntryV>) -> Seq<
    PatchViewV,
> {
    spec_patch_views(spec_sort_desc(spec_loaded(s)), aliases)
}

proof fn lemma_insert_desc_skip(s: Seq<PatchEntryV>, x: PatchEntryV, i: int)
    requires
        0 <= i <= s.len(),
        forall|j: int| 0 <= j < i ==> s[j].patch.timestamp >= x.patch.timestamp,
    ensures
        spec_insert_desc(s, x) == s.take(i) + spec_insert_desc(s.skip(i), x),
    decreases i,
{
    if i == 0 {
        assert(s.skip(0) =~= s);
        assert(s.take(0) + spec_insert_desc(s, x) =~= spec_insert_desc(s, x));
    } else {
        lemma_insert_desc_skip(s, x, i - 1);
        assert(s.skip(i - 1).len() > 0);
        assert(s.skip(i - 1)[0] == s[i - 1]);
        assert(s.skip(i - 1).drop_first() =~= s.skip(i));
        assert(spec_insert_desc(s.skip(i - 1), x) == seq![s[i - 1]] + spec_insert_desc(
            s.skip(i),
            x,
        ));
        assert(s.take(i - 1) + (seq![s[i - 1]] + spec_insert_desc(s.skip(i), x)) =~= s.take(i)
            + spec_insert_desc(s.skip(i), x));
    }
}

/// Sorts the loaded entries by descending timestamp, stably.
fn sort_patches(entries: Vec<PatchEntry>) -> (r: Vec<PatchEntry>)
    ensures
        r.deep_view() == spec_sort_desc(entries.deep_view()),
{
    let ghost orig = entries.deep_view();
    let mut rest = entries;
    let mut out: Vec<PatchEntry> = Vec::new();
    let ghost k: int = 0;
    proof {
        assert(orig.take(0) =~= Seq::<PatchEntryV>::empty());
        assert(rest.deep_view() =~= orig.skip(0));
    }
    while rest.len() > 0
        invariant
            0 <= k <= orig.len(),
            rest.deep_view() == orig.skip(k),
            rest.len() == orig.len() - k,
            out.deep_view() == spec_sort_desc(orig.take(k)),
        decreases rest.len(),
    {
        let x = rest.remove(0);
        proof {
            assert(x.deep_view() == orig.skip(k)[0]);
            assert(orig.skip(k)[0] == orig[k]);
            assert(rest.deep_view() =~= orig.skip(k + 1));
            assert(orig.take(k + 1) =~= orig.take(k).push(orig[k]));
        }
        let ghost sorted = out.deep_view();
        let ghost xv = x.deep_view();
        let mut pos: usize = 0;
        while pos < out.len() && out[pos].patch.timestamp >= x.patch.timestamp
            invariant
                pos <= out.len(),
                forall|j: int| 0 <= j < pos ==> out.deep_view()[j].patch.timestamp >= xv.patch.timestamp,
                xv == x.deep_view(),
            decreases out.len() - pos,
        {
            pos = pos + 1;
        }
        proof {
            lemma_insert_desc_skip(sorted, xv, pos as int);
            if pos < out.len() {
                assert(sorted.skip(pos as int)[0] == sorted[pos as int]);
                assert(sorted[pos as int].patch.timestamp < xv.patch.timestamp);
                assert(spec_insert_desc(sorted.skip(pos as int), xv) == seq![xv] + sorted.skip(
                    pos as int,
                ));
            } else {
                assert(sorted.skip(pos as int).len() == 0);
                assert(spec_insert_desc(sorted.skip(pos as int), xv) == seq![xv]);
            }
        }
        out.insert(pos, x);
        proof {
            assert(out.deep_view() == sorted.insert(pos as int, xv));
            assert(sorted.insert(pos as int, xv) =~= sorted.take(pos as int) + seq![xv]
                + sorted.skip(pos as int));
            if pos < sorted.len() {
                assert(sorted.take(pos as int) + (seq![xv] + sorted.skip(pos as int)) =~= sorted.take(
                    pos as int,
                ) + seq![xv] + sorted.skip(pos as int));
            } else {
                assert(sorted.take(pos as int) =~= sorted);
                assert(sorted.take(pos as int) + (seq![xv]) =~= sorted.take(pos as int) + seq![xv]
                    + sorted.skip(pos as int));
            }
            assert(out.deep_view() == spec_insert_desc(sorted, xv));
            assert(orig.take(k + 1).drop_last() =~= orig.take(k));
            assert(orig.take(k + 1).last() == orig[k]);
            assert(out.deep_view() == spec_sort_desc(orig.take(k + 1)));
        }
        proof {
            k = k + 1;
        }
    }
    proof {
        assert(orig.skip(k).len() == 0);
        assert(k == orig.len());
        assert(orig.take(k) =~= orig);
    }
    out
}

/// Entries sorted by descending timestamp.
pub open spec fn sorted_desc(s: Seq<PatchEntryV>) -> bool {
    forall|i: int, j: int|
        0 <= i < j < s.len() ==> s[i].patch.timestamp >= s[j].patch.timestamp
}

proof fn lemma_insert_desc_props(s: Seq<PatchEntryV>, x: PatchEntryV)
    requires
        sorted_desc(s),
    ensures
        sorted_desc(spec_insert_desc(s, x)),
        spec_insert_desc(s, x).to_multiset() == s.to_multiset().insert(x),
        spec_insert_desc(s, x).len() == s.len() + 1,
    decreases s.len(),
{
    broadcast use vstd::seq_lib::group_to_multiset_ensures;

    if s.len() == 0 {
        assert(seq![x] =~= Seq::<PatchEntryV>::empty().push(x));
        assert(Seq::<PatchEntryV>::empty().to_multiset() =~= Multiset::<PatchEntryV>::empty());
        assert(seq![x].to_multiset() == s.to_multiset().insert(x));
    } else if s[0].patch.timestamp >= x.patch.timestamp {
        assert(s.drop_first() =~= s.skip(1));
        lemma_insert_desc_props(s.drop_first(), x);
        let rec = spec_insert_desc(s.drop_first(), x);
        let whole = seq![s[0]] + rec;
        assert forall|i: int, j: int| 0 <= i < j < whole.len() implies whole[i].patch.timestamp
            >= whole[j].patch.timestamp by {
            if i == 0 && j >= 1 {
                // every element of the recursive insertion is either from
                // `s.drop_first()` or is `x`, both at most `s[0]`
                assert(rec.to_multiset().contains(whole[j]));
                assert(rec.to_multiset() == s.drop_first().to_multiset().insert(x));
                if whole[j] != x {
                    assert(s.drop_first().to_multiset().contains(whole[j]));
                    let idx = choose|idx: int|
                        0 <= idx < s.drop_first().len() && s.drop_first()[idx] == whole[j];
                    assert(s[idx + 1] == whole[j]);
                }
            }
        }
        assert(whole =~= seq![s[0]] + rec);
        assert(whole.to_multiset() == s.to_multiset().insert(x)) by {
            assert(whole.drop_first() =~= rec);
            assert(whole[0] == s[0]);
            assert(whole =~= rec.insert(0, s[0]));
            assert(whole.to_multiset() == rec.to_multiset().insert(s[0]));
            assert(s =~= s.drop_first().insert(0, s[0]));
            assert(s.to_multiset() == s.drop_first().to_multiset().insert(s[0]));
        }
    } else {
        let whole = seq![x] + s;
        assert forall|i: int, j: int| 0 <= i < j < whole.len() implies whole[i].patch.timestamp
            >= whole[j].patch.timestamp by {
            if i == 0 && j >= 1 {
                assert(whole[j] == s[j - 1]);
                if j - 1 > 0 {
                    assert(s[0].patch.timestamp >= s[j - 1].patch.timestamp);
                }
            }
        }
        assert(whole =~= s.insert(0, x));
        assert(whole.to_multiset() == s.to_multiset().insert(x));
    }
}

/// The sorted listing is exactly a reordering of its input: same multiset of
/// entries, timestamps descending.
pub proof fn lemma_sort_desc_props(s: Seq<PatchEntryV>)
    ensures
        sorted_desc(spec_sort_desc(s)),
        spec_sort_desc(s).to_multiset() == s.to_multiset(),
        spec_sort_desc(s).len() == s.len(),
    decreases s.len(),
{
    broadcast use vstd::seq_lib::group_to_multiset_ensures;

    if s.len() == 0 {
    } else {
        lemma_sort_desc_props(s.drop_last());
        lemma_insert_desc_props(spec_sort_desc(s.drop_last()), s.last());
        assert(s =~= s.drop_last().push(s.last()));
        assert(s.drop_last().push(s.last()).to_multiset() == s.drop_last().to_multiset().insert(
            s.last(),
        ));
    }
}

fn patch_entry_views(entries: Vec<PatchEntry>, aliases: &Aliases) -> (r: Vec<PatchView>)
    ensures
        r.deep_view() == spec_patch_views(entries.deep_view(), aliases.deep_view()),
{
    let ghost al = aliases.deep_view();
    let ghost s = entries.deep_view();
    let mut r: Vec<PatchView> = Vec::new();
    let mut i: usize = 0;
    proof {
        assert(r.deep_view() =~= spec_patch_views(s.take(0), al));
    }
    while i < entries.len()
        invariant
            i <= entries.len(),
            al == aliases.deep_view(),
            s == entries.deep_view(),
            s.len() == entries.len(),
            r.deep_view() == spec_patch_views(s.take(i as int), al),
        decreases entries.len() - i,
    {
        let en = &entries[i];
        let pv = patch_view(&en.id, &en.patch, &en.remote, aliases);
        r.push(pv);
        proof {
            assert(s.take(i as int + 1) =~= s.take(i as int).push(s[i as int]));
            assert(r.deep_view() =~= spec_patch_views(s.take(i as int + 1), al));
        }
        i = i + 1;
    }
    proof {
        assert(s.take(entries.len() as int) =~= s);
    }
    r
}

/// The patch listing: entries whose acquisition failed are dropped silently,
/// the rest are sorted by descending timestamp and projected in that order.
pub fn patches(entries: Vec<Option<PatchEntry>>, aliases: &Aliases) -> (r: Vec<PatchView>)
    ensures
        r.deep_view() == spec_patches(entries.deep_view(), aliases.deep_view()),
{
    let ghost s = entries.deep_view();
    let mut rest = entries;
    let mut loaded: Vec<PatchEntry> = Vec::new();
    let ghost k: int = 0;
    proof {
        assert(s.take(0) =~= Seq::<Option<PatchEntryV>>::empty());
        assert(rest.deep_view() =~= s.skip(0));
    }
    while rest.len() > 0
        invariant
            0 <= k <= s.len(),
            rest.deep_view() == s.skip(k),
            rest.len() == s.len() - k,
            loaded.deep_view() == spec_loaded(s.take(k)),
        decreases rest.len(),
    {
        let x = rest.remove(0);
        proof {
            assert(x.deep_view() == s.skip(k)[0]);
            assert(s.skip(k)[0] == s[k]);
            assert(rest.deep_view() =~= s.skip(k + 1));
            assert(s.take(k + 1) =~= s.take(k).push(s[k]));
            assert(s.take(k + 1).drop_last() =~= s.take(k));
        }
        match x {
            Some(en) => {
                loaded.push(en);
            },
            None => {
            },
        }
        proof {
            k = k + 1;
        }
    }
    proof {
        assert(s.skip(k).len() == 0);
        assert(k == s.len());
        assert(s.take(k) =~= s);
    }
    let sorted = sort_patches(loaded);
    patch_entry_views(sorted, aliases)
}

// ---------------------------------------------------------------------------
// Project listings
// ---------------------------------------------------------------------------

/// Lexicographic code-point order on strings: `a` at or before `b`.
pub open spec fn spec_str_le(a: Seq<char>, b: Seq<char>) -> bool
    decreases a.len(),
{
    if a.len() == 0 {
        true
    } else if b.len() == 0 {
        false
    } else if (a[0] as u32) < (b[0] as u32) {
        true
    } else if (b[0] as u32) < (a[0] as u32) {
        false
    } else {
        spec_str_le(a.drop_first(), b.drop_first())
    }
}

/// Compares two strings in lexicographic code-point order.
fn str_le(a: &String, b: &String) -> (r: bool)
    ensures
        r == spec_str_le(a@, b@),
{
    let alen = a.as_str().unicode_len();
    let blen = b.as_str().unicode_len();
    let mut i: usize = 0;
    proof {
        assert(a@.skip(0) =~= a@);
        assert(b@.skip(0) =~= b@);
    }
    while i < alen && i < blen
        invariant
            i <= alen,
            i <= blen,
            alen == a@.len(),
            blen == b@.len(),
            spec_str_le(a@, b@) == spec_str_le(a@.skip(i as int), b@.skip(i as int)),
        decreases alen - i,
    {
        let ca = a.as_str().get_char(i);
        let cb = b.as_str().get_char(i);
        proof {
            assert(a@.skip(i as int)[0] == ca);
            assert(b@.skip(i as int)[0] == cb);
        }
        if (ca as u32) < (cb as u32) {
            return true;
        }
        if (cb as u32) < (ca as u32) {
            return false;
        }
        proof {
            assert(a@.skip(i as int).drop_first() =~= a@.skip(i as int + 1));
            assert(b@.skip(i as int).drop_first() =~= b@.skip(i as int + 1));
        }
        i = i + 1;
    }
    if i >= alen {
        proof {
            assert(a@.skip(i as int).len() == 0);
        }
        true
    } else {
        proof {
            assert(a@.skip(i as int).len() > 0);
            assert(b@.skip(i as int).len() == 0);
        }
        false
    }
}

/// The publicly visible entries, in order.
pub open spec fn spec_public(s: Seq<ProjectEntryV>) -> Seq<ProjectEntryV>
    decreases s.len(),
{
    if s.len() == 0 {
        Seq::empty()
    } else if s.last().summary.visibility is Public {
        spec_public(s.drop_last()).push(s.last())
    } else {
        spec_public(s.drop_last())
    }
}

/// Inserts `x` into a run sorted by ascending repository id, after every
/// entry whose id is at or before `x`'s, so that sorting stays stable.
pub open spec fn spec_insert_rid(s: Seq<ProjectEntryV>, x: ProjectEntryV) -> Seq<ProjectEntryV>
    decreases s.len(),
{
    if s.len() == 0 {
        seq![x]
    } else if spec_str_le(s[0].summary.rid, x.summary.rid) {
        seq![s[0]] + spec_insert_rid(s.drop_first(), x)
    } else {
        seq![x] + s
    }
}

/// Stable sort by ascending repository id.
pub open spec fn spec_sort_rid(s: Seq<ProjectEntryV>) -> Seq<ProjectEntryV>
    decreases s.len(),
{
    if s.len() == 0 {
        Seq::empty()
    } else {
        spec_insert_rid(spec_sort_rid(s.drop_last()), s.last())
    }
}

/// What one listed repository contributes: its information when everything
/// was acquired and it is seeded, nothing otherwise.
pub open spec fn spec_project_entry(en: ProjectEntryV, aliases: Seq<AliasEntryV>) -> Option<
    InfoV,
> {
    match (en.summary.payload, en.load) {
        (Some(payload), Some(load)) => if load.is_seeding {
            Some(spec_info(en.summary, payload, load, aliases))
        } else {
            None
        },
        _ => None,
    }
}

/// The information of the listed repositories that qualify, in order.
pub open spec fn spec_infos(s: Seq<ProjectEntryV>, aliases: Seq<AliasEntryV>) -> Seq<InfoV>
    decreases s.len(),
{
    if s.len() == 0 {
        Seq::empty()
    } else {
        match spec_project_entry(s.last(), aliases) {
            Some(info) => spec_infos(s.drop_last(), aliases).push(info),
            None => spec_infos(s.drop_last(), aliases),
        }
    }
}

/// What a project listing returns: the public repositories sorted by
/// ascending id, each that loaded fully and is seeded assembled to its
/// information; the others are dropped silently.
pub open spec fn spec_projects(s: Seq<ProjectEntryV>, aliases: Seq<AliasEntryV>) -> Seq<InfoV> {
    spec_infos(spec_sort_rid(spec_public(s)), aliases)
}

proof fn lemma_insert_rid_skip(s: Seq<ProjectEntryV>, x: ProjectEntryV, i: int)
    requires
        0 <= i <= s.len(),
        forall|j: int| 0 <= j < i ==> spec_str_le(#[trigger] s[j].summary.rid, x.summary.rid),
    ensures
        spec_insert_rid(s, x) == s.take(i) + spec_insert_rid(s.skip(i), x),
    decreases i,
{
    if i == 0 {
        assert(s.skip(0) =~= s);
        assert(s.take(0) + spec_insert_rid(s, x) =~= spec_insert_rid(s, x));
    } else {
        lemma_insert_rid_skip(s, x, i - 1);
        assert(s.skip(i - 1).len() > 0);
        assert(s.skip(i - 1)[0] == s[i - 1]);
        assert(s.skip(i - 1).drop_first() =~= s.skip(i));
        assert(spec_insert_rid(s.skip(i - 1), x) == seq![s[i - 1]] + spec_insert_rid(
            s.skip(i),
            x,
        ));
        assert(s.take(i - 1) + (seq![s[i - 1]] + spec_insert_rid(s.skip(i), x)) =~= s.take(i)
            + spec_insert_rid(s.skip(i), x));
    }
}

/// Sorts the entries by ascending repository id, stably.
fn sort_projects(entries: Vec<ProjectEntry>) -> (r: Vec<ProjectEntry>)
    ensures
        r.deep_view() == spec_sort_rid(entries.deep_view()),
{
    let ghost orig = entries.deep_view();
    let mut rest = entries;
    let mut out: Vec<ProjectEntry> = Vec::new();
    let ghost k: int = 0;
    proof {
        assert(orig.take(0) =~= Seq::<ProjectEntryV>::empty());
        assert(rest.deep_view() =~= orig.skip(0));
    }
    while rest.len() > 0
        invariant
            0 <= k <= orig.len(),
            rest.deep_view() == orig.skip(k),
            rest.len() == orig.len() - k,
            out.deep_view() == spec_sort_rid(orig.take(k)),
        decreases rest.len(),
    {
        let x = rest.remove(0);
        proof {
            assert(x.deep_view() == orig.skip(k)[0]);
            assert(orig.skip(k)[0] == orig[k]);
            assert(rest.deep_view() =~= orig.skip(k + 1));
        }
        let ghost sorted = out.deep_view();
        let ghost xv = x.deep_view();
        let mut pos: usize = 0;
        while pos < out.len() && str_le(&out[pos].summary.rid, &x.summary.rid)
            invariant
                pos <= out.len(),
                forall|j: int|
                    0 <= j < pos ==> spec_str_le(
                        #[trigger] out.deep_view()[j].summary.rid,
                        xv.summary.rid,
                    ),
                xv == x.deep_view(),
            decreases out.len() - pos,
        {
            pos = pos + 1;
        }
        proof {
            lemma_insert_rid_skip(sorted, xv, pos as int);
            if pos < out.len() {
                assert(sorted.skip(pos as int)[0] == sorted[pos as int]);
                assert(!spec_str_le(sorted[pos as int].summary.rid, xv.summary.rid));
                assert(spec_insert_rid(sorted.skip(pos as int), xv) == seq![xv] + sorted.skip(
                    pos as int,
                ));
            } else {
                assert(sorted.skip(pos as int).len() == 0);
                assert(spec_insert_rid(sorted.skip(pos as int), xv) == seq![xv]);
            }
        }
        out.insert(pos, x);
        proof {
            assert(out.deep_view() == sorted.insert(pos as int, xv));
            assert(sorted.insert(pos as int, xv) =~= sorted.take(pos as int) + seq![xv]
                + sorted.skip(pos as int));
            if pos < sorted.len() {
                assert(sorted.take(pos as int) + (seq![xv] + sorted.skip(pos as int))
                    =~= sorted.take(pos as int) + seq![xv] + sorted.skip(pos as int));
            } else {
                assert(sorted.take(pos as int) =~= sorted);
                assert(sorted.take(pos as int) + (seq![xv]) =~= sorted.take(pos as int) + seq![xv]
                    + sorted.skip(pos as int));
            }
            assert(out.deep_view() == spec_insert_rid(sorted, xv));
            assert(orig.take(k + 1) =~= orig.take(k).push(orig[k]));
            assert(orig.take(k + 1).drop_last() =~= orig.take(k));
            assert(orig.take(k + 1).last() == orig[k]);
            assert(out.deep_view() == spec_sort_rid(orig.take(k + 1)));
        }
        proof {
            k = k + 1;
        }
    }
    proof {
        assert(orig.skip(k).len() == 0);
        assert(k == orig.len());
        assert(orig.take(k) =~= orig);
    }
    out
}

/// Two strings always compare in one direction or the other.
proof fn lemma_str_le_total(a: Seq<char>, b: Seq<char>)
    ensures
        spec_str_le(a, b) || spec_str_le(b, a),
    decreases a.len(),
{
    if a.len() == 0 {
    } else if b.len() == 0 {
    } else if (a[0] as u32) < (b[0] as u32) {
    } else if (b[0] as u32) < (a[0] as u32) {
    } else {
        lemma_str_le_total(a.drop_first(), b.drop_first());
    }
}

proof fn lemma_str_le_trans(a: Seq<char>, b: Seq<char>, c: Seq<char>)
    requires
        spec_str_le(a, b),
        spec_str_le(b, c),
    ensures
        spec_str_le(a, c),
    decreases a.len(),
{
    if a.len() == 0 {
    } else {
        assert(b.len() > 0);
        assert(c.len() > 0);
        if (a[0] as u32) < (c[0] as u32) {
        } else {
            // the head comparisons force the heads to coincide
            assert(!((b[0] as u32) < (a[0] as u32)));
            assert(!((c[0] as u32) < (b[0] as u32)));
            assert(!((c[0] as u32) < (a[0] as u32)));
            assert((a[0] as u32) == (b[0] as u32));
            assert((b[0] as u32) == (c[0] as u32));
            lemma_str_le_trans(a.drop_first(), b.drop_first(), c.drop_first());
        }
    }
}

/// Entries sorted by ascending repository id.
pub open spec fn sorted_asc(s: Seq<ProjectEntryV>) -> bool {
    forall|i: int, j: int|
        0 <= i < j < s.len() ==> spec_str_le(
            (#[trigger] s[i]).summary.rid,
            (#[trigger] s[j]).summary.rid,
        )
}

proof fn lemma_insert_rid_props(s: Seq<ProjectEntryV>, x: ProjectEntryV)
    requires
        sorted_asc(s),
    ensures
        sorted_asc(spec_insert_rid(s, x)),
        spec_insert_rid(s, x).to_multiset() == s.to_multiset().insert(x),
        spec_insert_rid(s, x).len() == s.len() + 1,
    decreases s.len(),
{
    broadcast use vstd::seq_lib::group_to_multiset_ensures;

    if s.len() == 0 {
        assert(seq![x] =~= Seq::<ProjectEntryV>::empty().push(x));
        assert(Seq::<ProjectEntryV>::empty().to_multiset() =~= Multiset::<ProjectEntryV>::empty());
        assert(seq![x].to_multiset() == s.to_multiset().insert(x));
    } else if spec_str_le(s[0].summary.rid, x.summary.rid) {
        assert(s.drop_first() =~= s.skip(1));
        assert(sorted_asc(s.drop_first())) by {
            assert forall|i: int, j: int| 0 <= i < j < s.drop_first().len() implies spec_str_le(
                (#[trigger] s.drop_first()[i]).summary.rid,
                (#[trigger] s.drop_first()[j]).summary.rid,
            ) by {
                assert(s.drop_first()[i] == s[i + 1] && s.drop_first()[j] == s[j + 1]);
            }
        }
        lemma_insert_rid_props(s.drop_first(), x);
        let rec = spec_insert_rid(s.drop_first(), x);
        let whole = seq![s[0]] + rec;
        assert forall|i: int, j: int| 0 <= i < j < whole.len() implies spec_str_le(
            (#[trigger] whole[i]).summary.rid,
            (#[trigger] whole[j]).summary.rid,
        ) by {
            if i == 0 && j >= 1 {
                assert(rec.to_multiset().contains(whole[j]));
                assert(rec.to_multiset() == s.drop_first().to_multiset().insert(x));
                if whole[j] == x {
                    assert(spec_str_le(s[0].summary.rid, x.summary.rid));
                } else {
                    assert(s.drop_first().to_multiset().contains(whole[j]));
                    let idx = choose|idx: int|
                        0 <= idx < s.drop_first().len() && s.drop_first()[idx] == whole[j];
                    assert(s[idx + 1] == whole[j]);
                    assert(spec_str_le(s[0].summary.rid, s[idx + 1].summary.rid));
                }
            }
        }
        assert(whole.to_multiset() == s.to_multiset().insert(x)) by {
            assert(whole.drop_first() =~= rec);
            assert(whole[0] == s[0]);
            assert(whole =~= rec.insert(0, s[0]));
            assert(whole.to_multiset() == rec.to_multiset().insert(s[0]));
            assert(s =~= s.drop_first().insert(0, s[0]));
            assert(s.to_multiset() == s.drop_first().to_multiset().insert(s[0]));
        }
    } else {
        lemma_str_le_total(s[0].summary.rid, x.summary.rid);
        assert(spec_str_le(x.summary.rid, s[0].summary.rid));
        let whole = seq![x] + s;
        assert forall|i: int, j: int| 0 <= i < j < whole.len() implies spec_str_le(
            (#[trigger] whole[i]).summary.rid,
            (#[trigger] whole[j]).summary.rid,
        ) by {
            if i == 0 && j >= 1 {
                assert(whole[j] == s[j - 1]);
                if j - 1 > 0 {
                    assert(spec_str_le(s[0].summary.rid, s[j - 1].summary.rid));
                    lemma_str_le_trans(x.summary.rid, s[0].summary.rid, s[j - 1].summary.rid);
                }
            } else {
                assert(whole[i] == s[i - 1] && whole[j] == s[j - 1]);
            }
        }
        assert(whole =~= s.insert(0, x));
        assert(whole.to_multiset() == s.to_multiset().insert(x));
    }
}

/// The sorted project listing is exactly a reordering of its input: same
/// multiset of entries, repository ids ascending.
pub proof fn lemma_sort_rid_props(s: Seq<ProjectEntryV>)
    ensures
        sorted_asc(spec_sort_rid(s)),
        spec_sort_rid(s).to_multiset() == s.to_multiset(),
        spec_sort_rid(s).len() == s.len(),
    decreases s.len(),
{
    broadcast use vstd::seq_lib::group_to_multiset_ensures;

    if s.len() == 0 {
    } else {
        lemma_sort_rid_props(s.drop_last());
        lemma_insert_rid_props(spec_sort_rid(s.drop_last()), s.last());
        assert(s =~= s.drop_last().push(s.last()));
        assert(s.drop_last().push(s.last()).to_multiset() == s.drop_last().to_multiset().insert(
            s.last(),
        ));
    }
}

/// The project listing: only public repositories, sorted by ascending id;
/// a repository whose acquisition failed or that is not seeded is dropped
/// silently rather than aborting the listing.
pub fn projects(entries: Vec<ProjectEntry>, aliases: &Aliases) -> (r: Vec<Info>)
    ensures
        r.deep_view() == spec_projects(entries.deep_view(), aliases.deep_view()),
{
    let ghost al = aliases.deep_view();
    let ghost s = entries.deep_view();
    let mut rest = entries;
    let mut public: Vec<ProjectEntry> = Vec::new();
    let ghost k: int = 0;
    proof {
        assert(s.take(0) =~= Seq::<ProjectEntryV>::empty());
        assert(rest.deep_view() =~= s.skip(0));
    }
    while rest.len() > 0
        invariant
            0 <= k <= s.len(),
            rest.deep_view() == s.skip(k),
            rest.len() == s.len() - k,
            public.deep_view() == spec_public(s.take(k)),
        decreases rest.len(),
    {
        let x = rest.remove(0);
        proof {
            assert(x.deep_view() == s.skip(k)[0]);
            assert(s.skip(k)[0] == s[k]);
            assert(rest.deep_view() =~= s.skip(k + 1));
            assert(s.take(k + 1) =~= s.take(k).push(s[k]));
            assert(s.take(k + 1).drop_last() =~= s.take(k));
            assert(s.take(k + 1).last() == s[k]);
        }
        match x.summary.visibility {
            Visibility::Public => {
                public.push(x);
            },
            Visibility::Private => {
            },
        }
        proof {
            k = k + 1;
        }
    }
    proof {
        assert(s.skip(k).len() == 0);
        assert(k == s.len());
        assert(s.take(k) =~= s);
    }
    let sorted = sort_projects(public);
    let ghost q = sorted.deep_view();
    let mut srest = sorted;
    let mut out: Vec<Info> = Vec::new();
    let ghost t: int = 0;
    proof {
        assert(q.take(0) =~= Seq::<ProjectEntryV>::empty());
        assert(srest.deep_view() =~= q.skip(0));
    }
    while srest.len() > 0
        invariant
            0 <= t <= q.len(),
            al == aliases.deep_view(),
            srest.deep_view() == q.skip(t),
            srest.len() == q.len() - t,
            out.deep_view() == spec_infos(q.take(t), al),
        decreases srest.len(),
    {
        let x = srest.remove(0);
        proof {
            assert(x.deep_view() == q.skip(t)[0]);
            assert(q.skip(t)[0] == q[t]);
            assert(srest.deep_view() =~= q.skip(t + 1));
            assert(q.take(t + 1) =~= q.take(t).push(q[t]));
            assert(q.take(t + 1).drop_last() =~= q.take(t));
            assert(q.take(t + 1).last() == q[t]);
        }
        let ghost xv = x.deep_view();
        let ProjectEntry { summary, load } = x;
        let RepoSummary { rid, visibility, threshold, delegates, payload } = summary;
        match (payload, load) {
            (Some(pl), Some(ld)) => {
                if ld.is_seeding {
                    let rebuilt = RepoSummary {
                        rid,
                        visibility,
                        threshold,
                        delegates,
                        payload: None,
                    };
                    let info = project(rebuilt, pl, ld, aliases);
                    out.push(info);
                    proof {
                        assert(spec_project_entry(xv, al) == Some(info.deep_view()));
                    }
                } else {
                    proof {
                        assert(spec_project_entry(xv, al) is None);
                    }
                }
            },
            _ => {
                proof {
                    assert(spec_project_entry(xv, al) is None);
                }
            },
        }
        proof {
            t = t + 1;
        }
    }
    proof {
        assert(q.skip(t).len() == 0);
        assert(t == q.len());
        assert(q.take(t) =~= q);
    }
    out
}

/// A single-patch lookup: a found patch is projected; an id that resolved to
/// nothing raises the distinguished not-found condition, never a generic one.
pub fn patch(found: Option<PatchEntry>, aliases: &Aliases) -> (r: Result<PatchView, Error>)
    ensures
        found is Some ==> r is Ok && r->Ok_0.deep_view() == spec_patch_view(
            found->0.deep_view().id,
            found->0.deep_view().patch,
            found->0.deep_view().remote,
            aliases.deep_view(),
        ),
        found is None ==> r is Err && r->Err_0 is PatchNotFound,
{
    match found {
        Some(en) => Ok(patch_view(&en.id, &en.patch, &en.remote, aliases)),
        None => Err(Error::PatchNotFound),
    }
}

} // verus!

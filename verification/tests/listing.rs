//! Tests of the listing assembler: sorting, silent dropping of failed
//! entities, the distinguished not-found condition, and project information.

use radicle_views::listing::{
    patch, patches, project, projects, Info, IssueCounts, PatchCounts, PatchEntry, Project,
    ProjectEntry, ProjectLoad, RepoSummary, Visibility,
};
use radicle_views::types::{AliasEntry, Aliases, AuthorView, Error, Patch};

fn no_aliases() -> Aliases {
    Aliases { entries: vec![] }
}

fn bare_patch(title: &str, timestamp: u64) -> Patch {
    Patch {
        author: "alice-nid".to_string(),
        title: title.to_string(),
        state: "open".to_string(),
        target: "delegates".to_string(),
        labels: vec![],
        assignees: vec![],
        merges: vec![],
        revisions: vec![],
        reviews: vec![],
        timestamp,
    }
}

fn entry(id: &str, title: &str, timestamp: u64) -> PatchEntry {
    PatchEntry { id: id.to_string(), patch: bare_patch(title, timestamp), remote: None }
}

#[test]
fn patches_sorted_by_timestamp_descending() {
    let entries = vec![
        Some(entry("p1", "first", 10)),
        Some(entry("p2", "second", 30)),
        Some(entry("p3", "third", 20)),
    ];
    let views = patches(entries, &no_aliases());
    assert_eq!(views.len(), 3);
    assert_eq!(views[0].id, "p2");
    assert_eq!(views[1].id, "p3");
    assert_eq!(views[2].id, "p1");
}

#[test]
fn patches_drop_failed_entities_silently() {
    let entries = vec![
        Some(entry("p1", "first", 10)),
        None,
        Some(entry("p3", "third", 30)),
    ];
    let views = patches(entries, &no_aliases());
    assert_eq!(views.len(), 2);
    assert_eq!(views[0].id, "p3");
    assert_eq!(views[1].id, "p1");
}

#[test]
fn patches_empty_listing() {
    let views = patches(vec![], &no_aliases());
    assert!(views.is_empty());
}

#[test]
fn patch_not_found_is_distinguished() {
    let r = patch(None, &no_aliases());
    match r {
        Err(Error::PatchNotFound) => {},
        _ => panic!("expected the not-found condition"),
    }
    let msg = match patch(None, &no_aliases()) {
        Err(e) => e.message(),
        Ok(_) => panic!("expected an error"),
    };
    assert_eq!(msg, "patch not found");
}

#[test]
fn patch_found_is_projected() {
    let r = patch(Some(entry("p1", "first", 10)), &no_aliases());
    match r {
        Ok(v) => {
            assert_eq!(v.id, "p1");
            assert_eq!(v.title, "first");
        },
        Err(_) => panic!("expected a projected patch"),
    }
}

fn payload(name: &str) -> Project {
    Project {
        name: name.to_string(),
        description: "d".to_string(),
        default_branch: "main".to_string(),
    }
}

fn summary(rid: &str, visibility: Visibility) -> RepoSummary {
    RepoSummary {
        rid: rid.to_string(),
        visibility,
        threshold: 1,
        delegates: vec!["alice-nid".to_string()],
        payload: Some(payload(rid)),
    }
}

fn load(head: &str, seeding: bool) -> ProjectLoad {
    ProjectLoad {
        head: head.to_string(),
        issues: IssueCounts { open: 2, closed: 1 },
        patches: PatchCounts { open: 1, draft: 0, archived: 0, merged: 3 },
        seeding: 7,
        is_seeding: seeding,
    }
}

#[test]
fn projects_filters_private_sorts_by_rid() {
    let entries = vec![
        ProjectEntry { summary: summary("rid-b", Visibility::Public), load: Some(load("H", true)) },
        ProjectEntry {
            summary: summary("rid-c", Visibility::Private),
            load: Some(load("H", true)),
        },
        ProjectEntry { summary: summary("rid-a", Visibility::Public), load: Some(load("H", true)) },
    ];
    let infos = projects(entries, &no_aliases());
    assert_eq!(infos.len(), 2);
    assert_eq!(infos[0].id, "rid-a");
    assert_eq!(infos[1].id, "rid-b");
}

#[test]
fn projects_drop_unseeded_and_failed_loads() {
    let entries = vec![
        ProjectEntry { summary: summary("rid-a", Visibility::Public), load: Some(load("H", false)) },
        ProjectEntry { summary: summary("rid-b", Visibility::Public), load: None },
        ProjectEntry { summary: summary("rid-c", Visibility::Public), load: Some(load("H", true)) },
    ];
    let infos = projects(entries, &no_aliases());
    assert_eq!(infos.len(), 1);
    assert_eq!(infos[0].id, "rid-c");
}

#[test]
fn project_info_resolves_delegates() {
    let store = Aliases {
        entries: vec![AliasEntry { nid: "alice-nid".to_string(), alias: "alice".to_string() }],
    };
    let info: Info = project(summary("rid-a", Visibility::Public), payload("p"), load("H9", true), &store);
    assert_eq!(info.id, "rid-a");
    assert_eq!(info.head, "H9");
    assert_eq!(info.threshold, 1);
    assert_eq!(info.seeding, 7);
    assert_eq!(info.issues, IssueCounts { open: 2, closed: 1 });
    assert_eq!(info.patches, PatchCounts { open: 1, draft: 0, archived: 0, merged: 3 });
    assert_eq!(info.payload.name, "p");
    assert_eq!(info.delegates.len(), 1);
    match &info.delegates[0] {
        AuthorView::Aliased { id, alias } => {
            assert_eq!(id, "alice-nid");
            assert_eq!(alias, "alice");
        },
        _ => panic!("expected aliased delegate"),
    }
}

#[test]
fn profile_hint_error() {
    let e = radicle_views::types::profile_not_found(&"/home/user/.radicle".to_string());
    match e {
        Error::WithHint { err, hint } => {
            assert_eq!(err, "Radicle profile not found in '/home/user/.radicle'.");
            assert_eq!(hint, "To setup your radicle profile, run `rad auth`.");
        },
        _ => panic!("expected a hinted error"),
    }
}

#[test]
fn patches_equal_timestamps_keep_order() {
    let entries = vec![
        Some(entry("p1", "first", 20)),
        Some(entry("p2", "second", 20)),
        Some(entry("p3", "third", 20)),
    ];
    let views = patches(entries, &no_aliases());
    assert_eq!(views.len(), 3);
    assert_eq!(views[0].id, "p1");
    assert_eq!(views[1].id, "p2");
    assert_eq!(views[2].id, "p3");
}

#[test]
fn projects_sort_is_lexicographic() {
    let entries = vec![
        ProjectEntry { summary: summary("b", Visibility::Public), load: Some(load("H", true)) },
        ProjectEntry { summary: summary("ab", Visibility::Public), load: Some(load("H", true)) },
        ProjectEntry { summary: summary("aa", Visibility::Public), load: Some(load("H", true)) },
    ];
    let infos = projects(entries, &no_aliases());
    assert_eq!(infos.len(), 3);
    assert_eq!(infos[0].id, "aa");
    assert_eq!(infos[1].id, "ab");
    assert_eq!(infos[2].id, "b");
}

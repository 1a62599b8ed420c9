use herdr::git_refresh::{
    deduplicate_git_refresh_items, refresh_workspace_git_statuses_with_cache,
    workspace_git_refresh_items, PathBytes, WorkspaceGitRefreshItem, WorkspaceGitRefreshTarget,
    WorkspaceLocation,
};

fn path(text: &str) -> PathBytes {
    text.as_bytes().to_vec()
}

fn item(workspace_id: &str, cwd: &str, key: &str) -> WorkspaceGitRefreshItem {
    WorkspaceGitRefreshItem {
        workspace_id: workspace_id.into(),
        resolved_identity_cwd: path(cwd),
        cache_key: path(key),
    }
}

fn target(workspace_id: &str, cwd: &str) -> WorkspaceGitRefreshTarget {
    WorkspaceGitRefreshTarget {
        workspace_id: workspace_id.into(),
        resolved_identity_cwd: path(cwd),
    }
}

#[test]
fn git_refresh_deduplicates_workspaces_with_same_cache_key() {
    let repo = "/repo";
    let nested = "/repo/nested";
    let other = "/repo/other";
    let cache: Vec<(PathBytes, u32)> = Vec::new();

    let output = refresh_workspace_git_statuses_with_cache(
        vec![item("one", nested, repo), item("two", other, repo)],
        &cache,
        |cwd: &PathBytes, cached: Option<&u32>| {
            assert_eq!(*cwd, path("/repo"));
            assert_eq!(cached, None);
            ("clean".to_string(), Some(1))
        },
    );

    assert_eq!(output.cache_updates.len(), 1);
    assert_eq!(output.cache_updates[0].0, path(repo));
    assert_eq!(output.results.len(), 2);
    assert_eq!(output.results[0].workspace_id, "one");
    assert_eq!(output.results[0].resolved_identity_cwd, path(nested));
    assert_eq!(output.results[1].workspace_id, "two");
    assert_eq!(output.results[1].resolved_identity_cwd, path(other));
    assert_eq!(output.results[1].snapshot, "clean");
}

#[test]
fn git_refresh_items_use_cwd_cache_key_for_non_git_cwd() {
    let cwd = "/tmp/herdr-non-git-cwd";
    let items = workspace_git_refresh_items(&vec![WorkspaceLocation {
        workspace_id: "test".into(),
        cwd: Some(path(cwd)),
        git_key: None,
    }]);

    assert_eq!(items.len(), 1);
    assert_eq!(items[0].cache_key, path(cwd));
}

#[test]
fn workspaces_without_a_place_are_left_out() {
    let items = workspace_git_refresh_items(&vec![
        WorkspaceLocation {
            workspace_id: "nowhere".into(),
            cwd: None,
            git_key: Some(path("/repo")),
        },
        WorkspaceLocation {
            workspace_id: "somewhere".into(),
            cwd: Some(path("/repo/src")),
            git_key: Some(path("/repo")),
        },
    ]);
    assert_eq!(items, vec![item("somewhere", "/repo/src", "/repo")]);
}

#[test]
fn jobs_come_in_the_order_of_their_first_workspaces() {
    let cache = vec![(path("/b"), 7u32), (path("/b"), 8), (path("/c"), 9)];
    let jobs = deduplicate_git_refresh_items(
        vec![
            item("one", "/a/x", "/a"),
            item("two", "/b/x", "/b"),
            item("three", "/a/y", "/a"),
        ],
        &cache,
    );
    assert_eq!(jobs.len(), 2);
    assert_eq!(jobs[0].cache_key, path("/a"));
    assert_eq!(jobs[0].status_cwd, path("/a"));
    assert_eq!(jobs[0].cached, None);
    assert_eq!(
        jobs[0].targets,
        vec![target("one", "/a/x"), target("three", "/a/y")]
    );
    assert_eq!(jobs[1].cache_key, path("/b"));
    assert_eq!(jobs[1].cached, Some(&7));
    assert_eq!(jobs[1].targets, vec![target("two", "/b/x")]);
}

#[test]
fn every_workspace_is_told_what_its_own_repository_found() {
    let cache = vec![(path("/b"), 7u32)];
    let output = refresh_workspace_git_statuses_with_cache(
        vec![
            item("one", "/a/x", "/a"),
            item("two", "/b/x", "/b"),
            item("three", "/a/y", "/a"),
        ],
        &cache,
        |cwd: &PathBytes, cached: Option<&u32>| match cached {
            Some(known) => (cwd.len() as u32 + known, None),
            None => (0, Some(1)),
        },
    );
    let told: Vec<(&str, u32)> = output
        .results
        .iter()
        .map(|status| (status.workspace_id.as_str(), status.snapshot))
        .collect();
    assert_eq!(told, vec![("one", 0), ("three", 0), ("two", 9)]);
    assert_eq!(output.cache_updates, vec![(path("/a"), 1)]);
}

#[test]
fn refresh_of_nothing_finds_nothing() {
    let cache: Vec<(PathBytes, u32)> = Vec::new();
    let output = refresh_workspace_git_statuses_with_cache(
        Vec::new(),
        &cache,
        |_: &PathBytes, _: Option<&u32>| (0u8, None),
    );
    assert!(output.results.is_empty());
    assert!(output.cache_updates.is_empty());
}

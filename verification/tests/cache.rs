use glab_tui::utils::cache::{add_recent_repo, cache_file_name, get_recent_repos, push_recent_repo, ProjectCache};

fn strings(v: &[&str]) -> Vec<String> {
    v.iter().map(|s| s.to_string()).collect()
}

#[test]
fn cache_file_names() {
    assert_eq!(cache_file_name("group/sub\\repo"), "group_sub_repo.json");
    assert_eq!(cache_file_name(""), ".json");
    let c = ProjectCache::default();
    assert!(c.issues.is_empty() && c.mrs.is_empty() && c.pipelines.is_empty());
}

#[test]
fn recent_repo_moves_to_front() {
    let repos = push_recent_repo(strings(&["a", "b", "c"]), "b");
    assert_eq!(repos, strings(&["b", "a", "c"]));
    let again = push_recent_repo(repos.clone(), "b");
    assert_eq!(again, repos);
    let fresh = push_recent_repo(strings(&["a"]), "z");
    assert_eq!(fresh, strings(&["z", "a"]));
}

#[test]
fn recent_repos_keep_at_most_twenty() {
    let many: Vec<String> = (0..25).map(|i| format!("r{}", i)).collect();
    let repos = push_recent_repo(many, "new");
    assert_eq!(repos.len(), 20);
    assert_eq!(repos[0], "new");
    assert_eq!(repos[19], "r18");
}

#[test]
fn recent_repos_file_text() {
    assert_eq!(get_recent_repos(Some("[\"a\",\"b\"]")), strings(&["a", "b"]));
    assert!(get_recent_repos(Some("not json")).is_empty());
    assert!(get_recent_repos(None).is_empty());
    assert_eq!(add_recent_repo(Some("[\"a\",\"b\"]"), "b"), Some("[\"b\",\"a\"]".to_string()));
    assert_eq!(add_recent_repo(None, "x"), Some("[\"x\"]".to_string()));
}

#[test]
fn recent_repos_read_back_what_was_written() {
    let written = add_recent_repo(Some("[\"a\",\"q\\\"uote\",\"b\"]"), "b").unwrap();
    let read = get_recent_repos(Some(&written));
    assert_eq!(read, strings(&["b", "a", "q\"uote"]));
    assert_eq!(read[0], "b");
}

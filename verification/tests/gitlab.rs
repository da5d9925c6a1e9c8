use glab_tui::gitlab::client::{encode_project_path, gitlab_host, project_context, project_path_from_remote, remote_host, token_from_output, GitlabClient};
use glab_tui::gitlab::mr::merge_requests_url;
use glab_tui::gitlab::pipelines::{further_job_pages, job_trace_endpoint, merge_job_pages, pipeline_jobs_endpoint, pipelines_endpoint, Job};

fn job(id: u64) -> Job {
    Job { id, status: "success".to_string(), stage: "test".to_string(), name: format!("job{}", id) }
}

fn page(first: u64, n: u64) -> Vec<Job> {
    (first..first + n).map(job).collect()
}

#[test]
fn project_paths_from_remotes() {
    assert_eq!(project_path_from_remote("git@gitlab.com:group/repo.git\n"), "group/repo");
    assert_eq!(project_path_from_remote("https://gitlab.com/group/sub/repo.git"), "sub/repo");
    assert_eq!(project_path_from_remote("https://gitlab.com/group/repo"), "group/repo");
    assert_eq!(project_path_from_remote("http:repo"), "unknown/unknown");
    assert_eq!(project_path_from_remote("git@host"), "unknown/unknown");
    assert_eq!(project_path_from_remote("ssh://x/y"), "unknown/unknown");
    assert_eq!(project_path_from_remote("git@h:a/b.git.git"), "a/b");
    assert_eq!(project_context(None), "unknown/unknown");
    assert_eq!(project_context(Some("git@h:a/b.git")), "a/b");
}

#[test]
fn hosts_from_remotes() {
    assert_eq!(remote_host("git@gitlab.example.org:group/repo.git"), Some("gitlab.example.org".to_string()));
    assert_eq!(remote_host("https://gitlab.example.org/group/repo.git"), Some("gitlab.example.org".to_string()));
    assert_eq!(remote_host("https:"), None);
    assert_eq!(remote_host("file:///x"), None);
    assert_eq!(gitlab_host(Some("https://host.io/a/b")), "host.io");
    assert_eq!(gitlab_host(Some("nothing")), "gitlab.com");
    assert_eq!(gitlab_host(None), "gitlab.com");
}

#[test]
fn tokens_from_output() {
    assert_eq!(token_from_output("  glpat-123 \n"), Some("glpat-123".to_string()));
    assert_eq!(token_from_output(" \n"), None);
}

#[test]
fn api_urls() {
    let client = GitlabClient::new("gitlab.com".to_string(), "t".to_string());
    assert_eq!(encode_project_path("a/b/c"), "a%2Fb%2Fc");
    assert_eq!(merge_requests_url(&client, "g/r"), "https://gitlab.com/api/v4/projects/g%2Fr/merge_requests?state=opened");
    assert_eq!(pipelines_endpoint("g/r"), "/projects/g%2Fr/pipelines?per_page=20");
    assert_eq!(pipeline_jobs_endpoint("g/r", 42, 3), "/projects/g%2Fr/pipelines/42/jobs?per_page=100&page=3");
    assert_eq!(job_trace_endpoint("g/r", 7), "/projects/g%2Fr/jobs/7/trace");
}

#[test]
fn job_pages_are_merged_and_reversed() {
    assert!(further_job_pages(99).is_empty());
    assert_eq!(further_job_pages(100), vec![2, 3, 4, 5, 6, 7, 8, 9, 10]);

    let short = merge_job_pages(page(0, 3), vec![Some(page(100, 5))]);
    assert_eq!(short.iter().map(|j| j.id).collect::<Vec<_>>(), vec![2, 1, 0]);

    let merged = merge_job_pages(page(0, 100), vec![Some(page(100, 100)), Some(page(200, 2)), Some(page(300, 4))]);
    assert_eq!(merged.len(), 202);
    assert_eq!(merged[0].id, 201);
    assert_eq!(merged[201].id, 0);

    let failed = merge_job_pages(page(0, 100), vec![None, Some(page(200, 2))]);
    assert_eq!(failed.len(), 100);
    let empty = merge_job_pages(page(0, 100), vec![Some(vec![]), Some(page(200, 2))]);
    assert_eq!(empty.len(), 100);
}

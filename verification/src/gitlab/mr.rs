use vstd::prelude::*;
use crate::gitlab::client::{GitlabClient, encode_project_path, encode_project_path_spec};

verus! {

/// The user who opened an issue or a merge request.
#[derive(Debug, Clone)]
pub struct Author {
    pub username: String,
}

/// An open merge request of a project.
#[derive(Debug, Clone)]
pub struct MergeRequest {
    pub iid: u64,
    pub title: String,
    pub state: String,
    pub labels: Vec<String>,
    pub updated_at: String,
    pub author: Author,
}


/// The API URL that lists the open merge requests of a project on `host`.
pub open spec fn merge_requests_url_spec(host: Seq<char>, project_path: Seq<char>) -> Seq<char> {
    "https://"@ + host + "/api/v4/projects/"@ + encode_project_path_spec(project_path)
        + "/merge_requests?state=opened"@
}

/// The API URL that lists the open merge requests of a project.
pub fn merge_requests_url(client: &GitlabClient, project_path: &str) -> (res: String)
    ensures
        res@ == merge_requests_url_spec(client.host@, project_path@),
{
    let encoded_path = encode_project_path(project_path);
    let mut url = String::from_str("https://");
    url.append(client.host.as_str());
    url.append("/api/v4/projects/");
    url.append(encoded_path.as_str());
    url.append("/merge_requests?state=opened");
    url
}

} // verus!

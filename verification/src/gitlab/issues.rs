use vstd::prelude::*;
use crate::gitlab::mr::Author;
use crate::gitlab::client::{encode_project_path, encode_project_path_spec};

verus! {

/// An issue of a project as the issue list shows it.
#[derive(Debug, Clone)]
pub struct Issue {
    pub iid: u64,
    pub title: String,
    pub state: String,
    pub labels: Vec<String>,
    pub updated_at: String,
    pub author: Author,
}


/// The API endpoint that lists the open issues of a project.
pub open spec fn issues_endpoint_spec(project_path: Seq<char>) -> Seq<char> {
    "/projects/"@ + encode_project_path_spec(project_path) + "/issues?state=opened"@
}

/// The API endpoint that lists the open issues of a project.
pub fn issues_endpoint(project_path: &str) -> (res: String)
    ensures
        res@ == issues_endpoint_spec(project_path@),
{
    let encoded_path = encode_project_path(project_path);
    let mut endpoint = String::from_str("/projects/");
    endpoint.append(encoded_path.as_str());
    endpoint.append("/issues?state=opened");
    endpoint
}

} // verus!

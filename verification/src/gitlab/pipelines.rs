use vstd::prelude::*;
use crate::gitlab::client::{encode_project_path, encode_project_path_spec};
use crate::utils::format::{decimal, decimal_string};

verus! {

/// A CI pipeline run of a project; `ref_name` is the git ref it ran on.
#[derive(Debug, Clone)]
pub struct Pipeline {
    pub id: u64,
    pub status: String,
    pub ref_name: String,
    pub updated_at: String,
}

/// A job of a pipeline.
#[derive(Debug, Clone)]
pub struct Job {
    pub id: u64,
    pub status: String,
    pub stage: String,
    pub name: String,
}


/// Jobs are listed in pages of this many.
pub const JOBS_PER_PAGE: usize = 100;

/// The last page of jobs that is ever fetched.
pub const LAST_JOB_PAGE: u64 = 10;

/// The API endpoint that lists the latest pipelines of a project.
pub open spec fn pipelines_endpoint_spec(project_path: Seq<char>) -> Seq<char> {
    "/projects/"@ + encode_project_path_spec(project_path) + "/pipelines?per_page=20"@
}

/// The API endpoint that lists one page of the jobs of a pipeline.
pub open spec fn pipeline_jobs_endpoint_spec(project_path: Seq<char>, pipeline_id: u64, page: u64) -> Seq<char> {
    "/projects/"@ + encode_project_path_spec(project_path) + "/pipelines/"@ + decimal(pipeline_id as nat)
        + "/jobs?per_page=100&page="@ + decimal(page as nat)
}

/// The API endpoint that gives the log of a job.
pub open spec fn job_trace_endpoint_spec(project_path: Seq<char>, job_id: u64) -> Seq<char> {
    "/projects/"@ + encode_project_path_spec(project_path) + "/jobs/"@ + decimal(job_id as nat) + "/trace"@
}

/// The API endpoint that lists the latest pipelines of a project.
pub fn pipelines_endpoint(project_path: &str) -> (res: String)
    ensures
        res@ == pipelines_endpoint_spec(project_path@),
{
    let encoded_path = encode_project_path(project_path);
    let mut endpoint = String::from_str("/projects/");
    endpoint.append(encoded_path.as_str());
    endpoint.append("/pipelines?per_page=20");
    endpoint
}

/// The API endpoint that lists page `page` of the jobs of a pipeline.
pub fn pipeline_jobs_endpoint(project_path: &str, pipeline_id: u64, page: u64) -> (res: String)
    ensures
        res@ == pipeline_jobs_endpoint_spec(project_path@, pipeline_id, page),
{
    let encoded_path = encode_project_path(project_path);
    let mut endpoint = String::from_str("/projects/");
    endpoint.append(encoded_path.as_str());
    endpoint.append("/pipelines/");
    endpoint.append(decimal_string(pipeline_id).as_str());
    endpoint.append("/jobs?per_page=100&page=");
    endpoint.append(decimal_string(page).as_str());
    endpoint
}

/// The API endpoint that gives the log of a job.
pub fn job_trace_endpoint(project_path: &str, job_id: u64) -> (res: String)
    ensures
        res@ == job_trace_endpoint_spec(project_path@, job_id),
{
    let encoded_path = encode_project_path(project_path);
    let mut endpoint = String::from_str("/projects/");
    endpoint.append(encoded_path.as_str());
    endpoint.append("/jobs/");
    endpoint.append(decimal_string(job_id).as_str());
    endpoint.append("/trace");
    endpoint
}

/// The further pages of jobs to fetch once the first page is in: pages 2 to 10 when the
/// first page was full, none otherwise.
pub fn further_job_pages(first_page_len: usize) -> (res: Vec<u64>)
    ensures
        first_page_len != JOBS_PER_PAGE ==> res@.len() == 0,
        first_page_len == JOBS_PER_PAGE ==> res@ == Seq::new(9, |k: int| (k + 2) as u64),
{
    let mut pages: Vec<u64> = Vec::new();
    if first_page_len == JOBS_PER_PAGE {
        let mut page: u64 = 2;
        while page <= LAST_JOB_PAGE
            invariant
                2 <= page <= LAST_JOB_PAGE + 1,
                pages@ == Seq::new((page - 2) as nat, |k: int| (k + 2) as u64),
            decreases LAST_JOB_PAGE + 1 - page,
        {
            pages.push(page);
            page = page + 1;
            assert(pages@ =~= Seq::new((page - 2) as nat, |k: int| (k + 2) as u64));
        }
    }
    pages
}

/// The jobs of the further pages, taken in page order: a page that failed (`None`) or
/// came back empty ends the list, and a page with fewer than a full page of jobs is the
/// last one taken.
pub open spec fn further_jobs(pages: Seq<Option<Vec<Job>>>) -> Seq<Job>
    decreases pages.len(),
{
    if pages.len() == 0 {
        Seq::empty()
    } else {
        match pages[0] {
            None => Seq::empty(),
            Some(jobs) => if jobs@.len() == 0 {
                Seq::empty()
            } else if jobs@.len() < JOBS_PER_PAGE {
                jobs@
            } else {
                jobs@ + further_jobs(pages.drop_first())
            },
        }
    }
}

/// All jobs of a pipeline, newest last as the API lists them, given its first page and
/// the further pages (which are consulted only when the first page was full).
pub open spec fn pipeline_jobs_in_api_order(first_page: Seq<Job>, later_pages: Seq<Option<Vec<Job>>>) -> Seq<Job> {
    if first_page.len() == JOBS_PER_PAGE {
        first_page + further_jobs(later_pages)
    } else {
        first_page
    }
}

/// Collects the jobs of a pipeline from its pages and puts them in reverse order, as
/// the job list shows them.
pub fn merge_job_pages(first_page: Vec<Job>, later_pages: Vec<Option<Vec<Job>>>) -> (res: Vec<Job>)
    ensures
        res@ == pipeline_jobs_in_api_order(first_page@, later_pages@).reverse(),
{
    let ghost first = first_page@;
    let mut all_jobs = first_page;
    if all_jobs.len() == JOBS_PER_PAGE {
        let mut pages = later_pages;
        let ghost original = pages@;
        while pages.len() > 0
            invariant_except_break
                first + further_jobs(original) == all_jobs@ + further_jobs(pages@),
            ensures
                first + further_jobs(original) == all_jobs@,
            decreases pages@.len(),
        {
            let ghost before = pages@;
            let page = pages.remove(0);
            assert(pages@ =~= before.drop_first());
            match page {
                Some(mut jobs) => {
                    if jobs.len() == 0 {
                        assert(all_jobs@ + further_jobs(before) =~= all_jobs@);
                        break;
                    }
                    let jobs_len = jobs.len();
                    let ghost taken = jobs@;
                    all_jobs.append(&mut jobs);
                    if jobs_len < JOBS_PER_PAGE {
                        break;
                    }
                    assert(all_jobs@ + further_jobs(pages@) =~= (all_jobs@.subrange(0, all_jobs@.len() - taken.len()) + further_jobs(before)));
                },
                None => {
                    assert(all_jobs@ + further_jobs(before) =~= all_jobs@);
                    break;
                },
            }
        }
    }
    let ghost collected = all_jobs@;
    assert(collected == pipeline_jobs_in_api_order(first, later_pages@));
    let mut reversed: Vec<Job> = Vec::new();
    while all_jobs.len() > 0
        invariant
            collected.len() == all_jobs@.len() + reversed@.len(),
            all_jobs@ == collected.subrange(0, all_jobs@.len() as int),
            reversed@ == collected.subrange(all_jobs@.len() as int, collected.len() as int).reverse(),
        decreases all_jobs@.len(),
    {
        let job = all_jobs.pop().unwrap();
        reversed.push(job);
        assert(all_jobs@ =~= collected.subrange(0, all_jobs@.len() as int));
        assert(reversed@ =~= collected.subrange(all_jobs@.len() as int, collected.len() as int).reverse());
    }
    assert(collected.subrange(0, collected.len() as int) =~= collected);
    reversed
}

} // verus!

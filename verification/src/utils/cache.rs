use vstd::prelude::*;
use crate::gitlab::issues::Issue;
use crate::gitlab::mr::MergeRequest;
use crate::gitlab::pipelines::Pipeline;
use crate::utils::text::{chars_of, push_char};

verus! {

/// The lists of a project that are kept between runs.
pub struct ProjectCache {
    pub issues: Vec<Issue>,
    pub mrs: Vec<MergeRequest>,
    pub pipelines: Vec<Pipeline>,
}

impl Default for ProjectCache {
    fn default() -> (res: ProjectCache)
        ensures
            res.issues@.len() == 0,
            res.mrs@.len() == 0,
            res.pipelines@.len() == 0,
    {
        ProjectCache { issues: Vec::new(), mrs: Vec::new(), pipelines: Vec::new() }
    }
}

/// The most repositories that the list of recent repositories keeps.
pub const MAX_RECENT_REPOS: usize = 20;

/// A project context with every `/` and `\` replaced by `_`, so that it can name a file.
pub open spec fn safe_file_stem(project_context: Seq<char>) -> Seq<char> {
    project_context.map_values(|c: char| if c == '/' || c == '\\' { '_' } else { c })
}

/// A cache file stem holds no path separator, so the cache file stays in the cache
/// directory.
pub proof fn lemma_safe_file_stem_has_no_separator(project_context: Seq<char>)
    ensures
        forall|i: int| 0 <= i < safe_file_stem(project_context).len() ==> safe_file_stem(project_context)[i] != '/'
            && safe_file_stem(project_context)[i] != '\\',
{
}

/// The name of the file that caches a project's lists.
pub fn cache_file_name(project_context: &str) -> (res: String)
    ensures
        res@ == safe_file_stem(project_context@) + ".json"@,
{
    let v = chars_of(project_context);
    let mut name = String::new();
    let mut i: usize = 0;
    while i < v.len()
        invariant
            i <= v@.len(),
            name@ == safe_file_stem(v@.take(i as int)),
        decreases v@.len() - i,
    {
        let c = v[i];
        push_char(&mut name, if c == '/' || c == '\\' { '_' } else { c });
        i = i + 1;
        assert(name@ =~= safe_file_stem(v@.take(i as int)));
    }
    assert(v@.take(v@.len() as int) =~= v@);
    name.append(".json");
    name
}

/// The texts of a list of strings.
pub open spec fn string_views(v: Seq<String>) -> Seq<Seq<char>> {
    v.map_values(|s: String| s@)
}

/// The first position at or after `i` where `s` holds `x`, or the length of `s`.
pub open spec fn index_from(s: Seq<Seq<char>>, x: Seq<char>, i: int) -> int
    decreases s.len() - i,
{
    if i < 0 || i >= s.len() {
        s.len() as int
    } else if s[i] == x {
        i
    } else {
        index_from(s, x, i + 1)
    }
}

pub proof fn lemma_index_from(s: Seq<Seq<char>>, x: Seq<char>, i: int)
    requires
        0 <= i <= s.len(),
    ensures
        i <= index_from(s, x, i) <= s.len(),
        index_from(s, x, i) < s.len() ==> s[index_from(s, x, i)] == x,
        forall|j: int| i <= j < index_from(s, x, i) ==> s[j] != x,
    decreases s.len() - i,
{
    if i < s.len() && s[i] != x {
        lemma_index_from(s, x, i + 1);
    }
}

/// `s` without its first occurrence of `x`, if there is one.
pub open spec fn without_first(s: Seq<Seq<char>>, x: Seq<char>) -> Seq<Seq<char>> {
    let k = index_from(s, x, 0);
    if k < s.len() {
        s.remove(k)
    } else {
        s
    }
}

/// The list of recent repositories after `repo` was opened: `repo` first, then the
/// earlier list without it, cut to `MAX_RECENT_REPOS` entries.
pub open spec fn recent_repos_after(repos: Seq<Seq<char>>, repo: Seq<char>) -> Seq<Seq<char>> {
    let l = seq![repo] + without_first(repos, repo);
    if l.len() > MAX_RECENT_REPOS {
        l.take(MAX_RECENT_REPOS as int)
    } else {
        l
    }
}

/// Puts `repo_path` at the front of the list of recent repositories.
pub fn push_recent_repo(repos: Vec<String>, repo_path: &str) -> (res: Vec<String>)
    ensures
        string_views(res@) == recent_repos_after(string_views(repos@), repo_path@),
{
    let ghost views = string_views(repos@);
    let mut repos = repos;
    let repo_path = String::from_str(repo_path);
    let mut pos: usize = 0;
    while pos < repos.len() && !(repos[pos] == repo_path)
        invariant
            pos <= repos@.len(),
            views == string_views(repos@),
            index_from(views, repo_path@, pos as int) == index_from(views, repo_path@, 0),
        decreases repos@.len() - pos,
    {
        pos = pos + 1;
    }
    proof {
        lemma_index_from(views, repo_path@, 0);
    }
    if pos < repos.len() {
        repos.remove(pos);
        assert(string_views(repos@) =~= views.remove(pos as int));
    }
    let ghost rest = string_views(repos@);
    assert(rest == without_first(views, repo_path@));
    repos.insert(0, repo_path);
    assert(string_views(repos@) =~= seq![repo_path@] + rest);
    repos.truncate(MAX_RECENT_REPOS);
    assert(string_views(repos@) =~= recent_repos_after(views, repo_path@));
    repos
}

/// What serde_json reads as a JSON array of strings from `text`, if it reads one.
pub uninterp spec fn json_string_list(text: Seq<char>) -> Option<Seq<Seq<char>>>;

/// The JSON text that serde_json writes for a list of strings.
pub uninterp spec fn json_text_of_strings(items: Seq<Seq<char>>) -> Seq<char>;

/// Calls `serde_json::from_str::<Vec<String>>`. The contract names what it reads: the
/// same text always gives the same list, or always fails.
#[verifier::external_body]
fn decode_string_list(text: &str) -> (res: Option<Vec<String>>)
    ensures
        match res {
            Some(v) => json_string_list(text@) == Some(string_views(v@)),
            None => json_string_list(text@) is None,
        },
{
    serde_json::from_str::<Vec<String>>(text).ok()
}

/// Calls `serde_json::to_string` on a list of strings. The contract names the text it
/// writes and claims that it succeeds: serde_json documents as its only failures a
/// `Serialize` impl that decides to fail or a map with non-string keys, and a list of
/// strings is serialized element by element with `serialize_str`, which only writes into
/// the `Vec<u8>` buffer that `to_string` uses and maps nothing but write errors, which
/// such a buffer never gives. It also claims that `serde_json::from_str` reads the list
/// back from that text: each string is written as a JSON string literal with its quotes,
/// backslashes and control characters escaped, and the reader undoes exactly those
/// escapes.
#[verifier::external_body]
fn encode_string_list(items: &Vec<String>) -> (res: Option<String>)
    ensures
        res is Some,
        res matches Some(t) ==> t@ == json_text_of_strings(string_views(items@)),
        res matches Some(t) ==> json_string_list(t@) == Some(string_views(items@)),
{
    serde_json::to_string(items).ok()
}

/// The list of recent repositories held in the text of its file: empty when the file
/// could not be read (`None`) or does not hold a JSON array of strings.
pub fn get_recent_repos(file_text: Option<&str>) -> (res: Vec<String>)
    ensures
        match file_text {
            Some(text) => match json_string_list(text@) {
                Some(l) => string_views(res@) == l,
                None => res@.len() == 0,
            },
            None => res@.len() == 0,
        },
{
    match file_text {
        Some(text) => match decode_string_list(text) {
            Some(repos) => repos,
            None => Vec::new(),
        },
        None => Vec::new(),
    }
}

/// The list of recent repositories that a file with the given text holds: the JSON
/// array of strings it holds, or no repositories when it could not be read (`None`) or
/// does not hold one.
pub open spec fn stored_recent_repos(file_text: Option<&str>) -> Seq<Seq<char>> {
    match file_text {
        Some(text) => match json_string_list(text@) {
            Some(l) => l,
            None => Seq::empty(),
        },
        None => Seq::empty(),
    }
}

/// The new text of the recent-repositories file once `repo_path` was opened, given the
/// file's current text: the JSON text of the stored list with `repo_path` put in front.
/// Reading the new text back gives that list.
pub fn add_recent_repo(file_text: Option<&str>, repo_path: &str) -> (res: Option<String>)
    ensures
        res matches Some(t) && t@ == json_text_of_strings(
            recent_repos_after(stored_recent_repos(file_text), repo_path@),
        ),
        res matches Some(t) ==> json_string_list(t@) == Some(
            recent_repos_after(stored_recent_repos(file_text), repo_path@),
        ),
{
    let repos = get_recent_repos(file_text);
    let repos = push_recent_repo(repos, repo_path);
    encode_string_list(&repos)
}

/// The repository just opened heads the list of recent repositories.
pub proof fn lemma_recent_repo_first(repos: Seq<Seq<char>>, repo: Seq<char>)
    ensures
        recent_repos_after(repos, repo).len() >= 1,
        recent_repos_after(repos, repo)[0] == repo,
        recent_repos_after(repos, repo).len() <= MAX_RECENT_REPOS,
{
}


/// Opening the same repository twice in a row gives the same list as opening it once.
pub proof fn lemma_recent_repos_idempotent(repos: Seq<Seq<char>>, repo: Seq<char>)
    ensures
        recent_repos_after(recent_repos_after(repos, repo), repo) == recent_repos_after(repos, repo),
{
    let a = recent_repos_after(repos, repo);
    assert(index_from(a, repo, 0) == 0);
    assert(seq![repo] + a.remove(0) =~= a);
}

/// A list in which no repository occurs twice stays so when a repository is opened.
pub proof fn lemma_recent_repos_no_duplicates(repos: Seq<Seq<char>>, repo: Seq<char>)
    requires
        repos.no_duplicates(),
    ensures
        recent_repos_after(repos, repo).no_duplicates(),
{
    lemma_index_from(repos, repo, 0);
    let k = index_from(repos, repo, 0);
    let rest = without_first(repos, repo);
    assert forall|i: int, j: int| 0 <= i < rest.len() && 0 <= j < rest.len() && i != j implies rest[i] != rest[j] by {
        if k < repos.len() {
            let oi = if i < k { i } else { i + 1 };
            let oj = if j < k { j } else { j + 1 };
            assert(rest[i] == repos[oi] && rest[j] == repos[oj]);
        }
    }
    assert forall|i: int| 0 <= i < rest.len() implies rest[i] != repo by {
        if k < repos.len() {
            let oi = if i < k { i } else { i + 1 };
            assert(rest[i] == repos[oi]);
            assert(repos[k] == repo);
        }
    }
    let l = seq![repo] + rest;
    assert forall|i: int, j: int| 0 <= i < l.len() && 0 <= j < l.len() && i != j implies l[i] != l[j] by {
        if i > 0 && j > 0 {
            assert(l[i] == rest[i - 1] && l[j] == rest[j - 1]);
        } else if i == 0 {
            assert(l[j] == rest[j - 1]);
        } else {
            assert(l[i] == rest[i - 1]);
        }
    }
    let res = recent_repos_after(repos, repo);
    assert forall|i: int, j: int| 0 <= i < res.len() && 0 <= j < res.len() && i != j implies res[i] != res[j] by {
        assert(res[i] == l[i] && res[j] == l[j]);
    }
}

/// Every other repository keeps its place relative to the rest: the list after the new
/// head is a prefix of the earlier list without that repository.
pub proof fn lemma_recent_repos_keep_order(repos: Seq<Seq<char>>, repo: Seq<char>)
    ensures
        recent_repos_after(repos, repo).drop_first() =~= without_first(repos, repo).take(
            recent_repos_after(repos, repo).len() - 1,
        ),
{
}

} // verus!

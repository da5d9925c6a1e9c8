use vstd::prelude::*;
use crate::utils::text::{
    chars_of, ends_with, push_char, find_char, find_char_from, has_at, lemma_find_char_from, lemma_find_char_is, starts_with,
    string_from_chars, trim, trim_chars,
};

verus! {

/// The host and access token with which the API of a GitLab instance is reached.
#[derive(Debug, Clone)]
pub struct GitlabClient {
    pub host: String,
    pub token: String,
}

impl GitlabClient {
    /// A client for `host` that authenticates with `token`.
    pub fn new(host: String, token: String) -> (res: GitlabClient)
        ensures
            res.host@ == host@,
            res.token@ == token@,
    {
        GitlabClient { host, token }
    }
}

/// The `k`-th piece (counting from zero) of `s[start..]` split at every `c`, as std's
/// `split(c).nth(k)` gives it.
pub open spec fn split_nth_from(s: Seq<char>, c: char, start: int, k: nat) -> Option<Seq<char>>
    decreases k,
{
    let e = find_char_from(s, c, start);
    if k == 0 {
        Some(s.subrange(start, e))
    } else if e >= s.len() {
        None
    } else {
        split_nth_from(s, c, e + 1, (k - 1) as nat)
    }
}

/// The `k`-th piece of `s` split at every `c`.
pub open spec fn split_nth(s: Seq<char>, c: char, k: nat) -> Option<Seq<char>> {
    split_nth_from(s, c, 0, k)
}

/// The last position before `j` where `s` holds `c`, or -1.
pub open spec fn rfind_char_before(s: Seq<char>, c: char, j: int) -> int
    decreases j,
{
    if j <= 0 || j > s.len() {
        -1
    } else if s[j - 1] == c {
        j - 1
    } else {
        rfind_char_before(s, c, j - 1)
    }
}

/// `s` without any number of trailing `.git`, as std's `trim_end_matches(".git")` gives it.
pub open spec fn strip_git_suffixes(s: Seq<char>) -> Seq<char>
    decreases s.len(),
{
    if s.len() >= 4 && ends_with(s, ".git"@) {
        strip_git_suffixes(s.take(s.len() - 4))
    } else {
        s
    }
}

/// The project path that a remote URL names, or `unknown/unknown`: for `git@host:path`
/// the text between the first and the second colon; for an `http` URL its last two
/// `/`-separated pieces; in both cases without trailing `.git`.
pub open spec fn project_path_spec(url_text: Seq<char>) -> Seq<char> {
    let url = trim(url_text);
    if starts_with(url, "git@"@) {
        match split_nth(url, ':', 1) {
            Some(p) => strip_git_suffixes(p),
            None => "unknown/unknown"@,
        }
    } else if starts_with(url, "http"@) {
        let last = rfind_char_before(url, '/', url.len() as int);
        if last < 0 {
            "unknown/unknown"@
        } else {
            strip_git_suffixes(url.subrange(rfind_char_before(url, '/', last) + 1, url.len() as int))
        }
    } else {
        "unknown/unknown"@
    }
}

/// The host that a remote URL names, if it names one: for `git@host:path` the text
/// after the first `@` of the part before the first colon, up to the next `@`; for an
/// `http` URL its third `/`-separated piece.
pub open spec fn remote_host_spec(url_text: Seq<char>) -> Option<Seq<char>> {
    let url = trim(url_text);
    if starts_with(url, "git@"@) {
        match split_nth(url, ':', 0) {
            Some(host_part) => split_nth(host_part, '@', 1),
            None => None,
        }
    } else if starts_with(url, "http"@) {
        split_nth(url, '/', 2)
    } else {
        None
    }
}

/// The `k`-th piece of `v[start..end]` split at `c`, as its bounds in `v`.
fn split_nth_bounds(v: &Vec<char>, c: char, start: usize, k: usize) -> (res: Option<(usize, usize)>)
    requires
        start <= v@.len(),
    ensures
        match res {
            Some((a, b)) => a <= b <= v@.len() && split_nth_from(v@, c, start as int, k as nat)
                == Some(v@.subrange(a as int, b as int)),
            None => split_nth_from(v@, c, start as int, k as nat) is None,
        },
    decreases k,
{
    let e = find_char(v, c, start);
    proof {
        lemma_find_char_from(v@, c, start as int);
    }
    if k == 0 {
        Some((start, e))
    } else if e >= v.len() {
        None
    } else {
        split_nth_bounds(v, c, e + 1, k - 1)
    }
}

/// The last position before `j` where `c` occurs in `v`.
fn rfind_char(v: &Vec<char>, c: char, j: usize) -> (res: Option<usize>)
    requires
        j <= v@.len(),
    ensures
        match res {
            Some(p) => p < j && p as int == rfind_char_before(v@, c, j as int),
            None => rfind_char_before(v@, c, j as int) == -1,
        },
{
    let mut k = j;
    while k > 0 && v[k - 1] != c
        invariant
            k <= j <= v@.len(),
            rfind_char_before(v@, c, k as int) == rfind_char_before(v@, c, j as int),
        decreases k,
    {
        k = k - 1;
    }
    if k == 0 {
        None
    } else {
        Some(k - 1)
    }
}

/// The end of `v[a..b]` once all trailing `.git` are dropped.
fn strip_git_end(v: &Vec<char>, a: usize, b: usize) -> (res: usize)
    requires
        a <= b <= v@.len(),
    ensures
        a <= res <= b,
        v@.subrange(a as int, res as int) == strip_git_suffixes(v@.subrange(a as int, b as int)),
{
    proof {
        reveal_strlit(".git");
    }
    let mut e = b;
    while e - a >= 4 && has_at(v, e - 4, ".git")
        invariant
            a <= e <= b <= v@.len(),
            strip_git_suffixes(v@.subrange(a as int, e as int)) == strip_git_suffixes(v@.subrange(a as int, b as int)),
        decreases e,
    {
        let ghost t = v@.subrange(a as int, e as int);
        proof {
            reveal_strlit(".git");
        }
        assert(v@.subrange(e - 4, v@.len() as int).subrange(0, 4) =~= t.subrange(t.len() - 4, t.len() as int));
        assert(t.take(t.len() - 4) =~= v@.subrange(a as int, e - 4));
        assert(ends_with(t, ".git"@));
        assert(strip_git_suffixes(t) == strip_git_suffixes(t.take(t.len() - 4)));
        e = e - 4;
    }
    proof {
        let t = v@.subrange(a as int, e as int);
        if t.len() >= 4 {
            assert(v@.subrange(e - 4, v@.len() as int).subrange(0, 4) =~= t.subrange(t.len() - 4, t.len() as int));
        }
    }
    e
}

/// The project path (`namespace/repo`) named by the output of `git remote get-url`.
pub fn project_path_from_remote(url_text: &str) -> (res: String)
    ensures
        res@ == project_path_spec(url_text@),
{
    let raw = chars_of(url_text);
    let url = trim_chars(&raw);
    let n = url.len();
    proof {
        reveal_strlit("git@");
        reveal_strlit("http");
        assert(url@.subrange(0, n as int) =~= url@);
    }
    if has_at(&url, 0, "git@") {
        match split_nth_bounds(&url, ':', 0, 1) {
            Some((a, b)) => {
                let e = strip_git_end(&url, a, b);
                string_from_chars(&url, a, e)
            },
            None => String::from_str("unknown/unknown"),
        }
    } else if has_at(&url, 0, "http") {
        match rfind_char(&url, '/', n) {
            None => String::from_str("unknown/unknown"),
            Some(last) => {
                let a = match rfind_char(&url, '/', last) {
                    Some(p) => p + 1,
                    None => 0,
                };
                let e = strip_git_end(&url, a, n);
                string_from_chars(&url, a, e)
            },
        }
    } else {
        String::from_str("unknown/unknown")
    }
}

/// The host named by the output of `git remote get-url`, if it names one.
pub fn remote_host(url_text: &str) -> (res: Option<String>)
    ensures
        match res {
            Some(h) => remote_host_spec(url_text@) == Some(h@),
            None => remote_host_spec(url_text@) is None,
        },
{
    let raw = chars_of(url_text);
    let url = trim_chars(&raw);
    let n = url.len();
    proof {
        reveal_strlit("git@");
        reveal_strlit("http");
        assert(url@.subrange(0, n as int) =~= url@);
    }
    if has_at(&url, 0, "git@") {
        match split_nth_bounds(&url, ':', 0, 0) {
            Some((a, b)) => {
                let host_part = crate::utils::text::copy_chars(&url, a, b);
                match split_nth_bounds(&host_part, '@', 0, 1) {
                    Some((c, d)) => Some(string_from_chars(&host_part, c, d)),
                    None => None,
                }
            },
            None => None,
        }
    } else if has_at(&url, 0, "http") {
        match split_nth_bounds(&url, '/', 0, 2) {
            Some((a, b)) => Some(string_from_chars(&url, a, b)),
            None => None,
        }
    } else {
        None
    }
}

/// The GitLab host for a repository: the host its remote URL names, else `gitlab.com`.
/// `remote_output` is the output of `git remote get-url origin`, or `None` when that
/// command did not succeed.
pub fn gitlab_host(remote_output: Option<&str>) -> (res: String)
    ensures
        match remote_output {
            Some(text) => match remote_host_spec(text@) {
                Some(h) => res@ == h,
                None => res@ == "gitlab.com"@,
            },
            None => res@ == "gitlab.com"@,
        },
{
    match remote_output {
        Some(text) => match remote_host(text) {
            Some(h) => h,
            None => String::from_str("gitlab.com"),
        },
        None => String::from_str("gitlab.com"),
    }
}

/// The project context for a repository: the path its remote URL names, or
/// `unknown/unknown` when `git remote get-url origin` did not succeed (`None`).
pub fn project_context(remote_output: Option<&str>) -> (res: String)
    ensures
        match remote_output {
            Some(text) => res@ == project_path_spec(text@),
            None => res@ == "unknown/unknown"@,
        },
{
    match remote_output {
        Some(text) => project_path_from_remote(text),
        None => String::from_str("unknown/unknown"),
    }
}

/// The access token in the output of `glab config get token`: the trimmed text, when it
/// is not empty.
pub fn token_from_output(output: &str) -> (res: Option<String>)
    ensures
        trim(output@).len() == 0 ==> res is None,
        trim(output@).len() > 0 ==> (res matches Some(t) && t@ == trim(output@)),
{
    let raw = chars_of(output);
    let t = trim_chars(&raw);
    if t.len() == 0 {
        None
    } else {
        Some(string_from_chars(&t, 0, t.len()))
    }
}


/// Whether `c` does not occur in `s`.
pub open spec fn lacks_char(s: Seq<char>, c: char) -> bool {
    forall|j: int| 0 <= j < s.len() ==> s[j] != c
}

/// For a remote `git@<host>:<path>` (possibly followed by `:` and more), where neither
/// the host nor the path holds a colon, the project path is the whole path, without a
/// trailing `.git` if it has one.
pub proof fn lemma_ssh_remote_project_path(url_text: Seq<char>, host: Seq<char>, path: Seq<char>, more: Seq<char>)
    requires
        trim(url_text) == "git@"@ + host + seq![':'] + path + more,
        lacks_char(host, ':'),
        lacks_char(path, ':'),
        more.len() == 0 || more[0] == ':',
    ensures
        !ends_with(path, ".git"@) ==> project_path_spec(url_text) == path,
        ends_with(path, ".git"@) && !ends_with(path.take(path.len() - 4), ".git"@)
            ==> project_path_spec(url_text) == path.take(path.len() - 4),
{
    reveal_strlit("git@");
    reveal_strlit(".git");
    let t = trim(url_text);
    let a: int = 4 + host.len() as int;
    assert(t.subrange(0, 4) =~= "git@"@);
    assert(starts_with(t, "git@"@));
    assert forall|j: int| 0 <= j < a implies t[j] != ':' by {
        if j < 4 {
            assert(t[j] == "git@"@[j]);
        } else {
            assert(t[j] == host[j - 4]);
        }
    }
    assert(t[a] == ':');
    lemma_find_char_is(t, ':', 0, a);
    let b: int = a + 1 + path.len() as int;
    assert forall|j: int| a + 1 <= j < b implies t[j] != ':' by {
        assert(t[j] == path[j - a - 1]);
    }
    if more.len() > 0 {
        assert(t[b] == ':');
    }
    lemma_find_char_is(t, ':', a + 1, b);
    assert(split_nth_from(t, ':', a + 1, 0) == Some(t.subrange(a + 1, b)));
    assert(split_nth(t, ':', 1) == split_nth_from(t, ':', a + 1, 0));
    assert(t.subrange(a + 1, b) =~= path);
    if !ends_with(path, ".git"@) {
        assert(strip_git_suffixes(path) == path);
    } else if !ends_with(path.take(path.len() - 4), ".git"@) {
        let r = path.take(path.len() - 4);
        assert(strip_git_suffixes(path) == strip_git_suffixes(r));
        assert(strip_git_suffixes(r) == r);
    }
}

/// For a remote `git@<host>:<path>`, where the host holds neither a colon nor an `@`,
/// the host is the text between `git@` and the first colon.
pub proof fn lemma_ssh_remote_host(url_text: Seq<char>, host: Seq<char>, rest: Seq<char>)
    requires
        trim(url_text) == "git@"@ + host + seq![':'] + rest,
        lacks_char(host, ':'),
        lacks_char(host, '@'),
    ensures
        remote_host_spec(url_text) == Some(host),
{
    reveal_strlit("git@");
    let t = trim(url_text);
    let a: int = 4 + host.len() as int;
    assert(t.subrange(0, 4) =~= "git@"@);
    assert(starts_with(t, "git@"@));
    assert forall|j: int| 0 <= j < a implies t[j] != ':' by {
        if j < 4 {
            assert(t[j] == "git@"@[j]);
        } else {
            assert(t[j] == host[j - 4]);
        }
    }
    assert(t[a] == ':');
    lemma_find_char_is(t, ':', 0, a);
    let hp = t.subrange(0, a);
    assert(split_nth(t, ':', 0) == Some(hp));
    assert(hp[3] == '@');
    assert forall|j: int| 0 <= j < 3 implies hp[j] != '@' by {
        assert(hp[j] == "git@"@[j]);
    }
    lemma_find_char_is(hp, '@', 0, 3);
    assert forall|j: int| 4 <= j < a implies hp[j] != '@' by {
        assert(hp[j] == host[j - 4]);
    }
    lemma_find_char_is(hp, '@', 4, a);
    assert(split_nth_from(hp, '@', 4, 0) == Some(hp.subrange(4, a)));
    assert(hp.subrange(4, a) =~= host);
}

/// The text that one character of a project path turns into in an API URL.
pub open spec fn encoded_char(c: char) -> Seq<char> {
    if c == '/' {
        seq!['%', '2', 'F']
    } else {
        seq![c]
    }
}

/// A project path with every `/` written as `%2F`, as the API expects it in a URL.
pub open spec fn encode_project_path_spec(s: Seq<char>) -> Seq<char>
    decreases s.len(),
{
    if s.len() == 0 {
        Seq::empty()
    } else {
        encode_project_path_spec(s.drop_last()) + encoded_char(s.last())
    }
}

/// No `/` is left in an encoded project path.
pub proof fn lemma_encoded_path_has_no_slash(s: Seq<char>)
    ensures
        forall|i: int| 0 <= i < encode_project_path_spec(s).len() ==> encode_project_path_spec(s)[i] != '/',
    decreases s.len(),
{
    if s.len() > 0 {
        lemma_encoded_path_has_no_slash(s.drop_last());
        let a = encode_project_path_spec(s.drop_last());
        let b = encoded_char(s.last());
        assert forall|i: int| 0 <= i < (a + b).len() implies (a + b)[i] != '/' by {
            if i >= a.len() {
                assert((a + b)[i] == b[i - a.len()]);
            }
        }
    }
}

/// Encoding works character by character: the encoding of two texts one after the
/// other is their encodings one after the other, `/` becomes `%2F`, and every other
/// character stays as it is.
pub proof fn lemma_encode_project_path_pieces(a: Seq<char>, b: Seq<char>, c: char)
    ensures
        encode_project_path_spec(a + b) == encode_project_path_spec(a) + encode_project_path_spec(b),
        encode_project_path_spec(seq!['/']) == seq!['%', '2', 'F'],
        c != '/' ==> encode_project_path_spec(seq![c]) == seq![c],
    decreases b.len(),
{
    assert(seq!['/'].drop_last() =~= Seq::<char>::empty());
    assert(seq![c].drop_last() =~= Seq::<char>::empty());
    assert(seq!['/'].last() == '/');
    assert(seq![c].last() == c);
    assert(encode_project_path_spec(Seq::<char>::empty()) == Seq::<char>::empty());
    assert(encode_project_path_spec(seq!['/']) == encode_project_path_spec(seq!['/'].drop_last()) + encoded_char('/'));
    assert(encode_project_path_spec(seq![c]) == encode_project_path_spec(seq![c].drop_last()) + encoded_char(c));
    assert(Seq::<char>::empty() + seq!['%', '2', 'F'] =~= seq!['%', '2', 'F']);
    assert(Seq::<char>::empty() + seq![c] =~= seq![c]);
    if b.len() == 0 {
        assert(a + b =~= a);
        assert(encode_project_path_spec(a) + encode_project_path_spec(b) =~= encode_project_path_spec(a));
    } else {
        lemma_encode_project_path_pieces(a, b.drop_last(), c);
        assert((a + b).drop_last() =~= a + b.drop_last());
        assert((a + b).last() == b.last());
        assert(encode_project_path_spec(a) + encode_project_path_spec(b) =~= encode_project_path_spec(a)
            + encode_project_path_spec(b.drop_last()) + encoded_char(b.last()));
    }
}

/// Writes every `/` of a project path as `%2F`.
pub fn encode_project_path(project_path: &str) -> (res: String)
    ensures
        res@ == encode_project_path_spec(project_path@),
{
    let v = chars_of(project_path);
    let mut out = String::new();
    let mut i: usize = 0;
    assert(v@.take(0) =~= Seq::<char>::empty());
    while i < v.len()
        invariant
            i <= v@.len(),
            out@ == encode_project_path_spec(v@.take(i as int)),
        decreases v@.len() - i,
    {
        assert(v@.take(i + 1).drop_last() =~= v@.take(i as int));
        if v[i] == '/' {
            push_char(&mut out, '%');
            push_char(&mut out, '2');
            push_char(&mut out, 'F');
        } else {
            push_char(&mut out, v[i]);
        }
        assert(out@ =~= encode_project_path_spec(v@.take(i + 1)));
        i = i + 1;
    }
    assert(v@.take(v@.len() as int) =~= v@);
    out
}

} // verus!

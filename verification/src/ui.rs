use vstd::prelude::*;
use crate::app::Tab;
use crate::gitlab::issues::Issue;
use crate::gitlab::mr::MergeRequest;
use crate::gitlab::pipelines::Pipeline;
use crate::utils::format::{decimal, decimal_string};
use crate::utils::text::{
    chars_of, contains_chars, contains_text, is_subsequence, lemma_occurrence_is_subsequence, lowercase, occurs_at, subsequence_chars, to_lowercase,
};

verus! {

/// The text of the title bar: the project, and the search query while one is typed
/// (with a cursor) or applied.
pub open spec fn title_bar_spec(project_context: Seq<char>, query: Seq<char>, typing: bool) -> Seq<char> {
    if typing {
        " \u{1f98a} GitLab TUI | "@ + project_context + " | Search: "@ + query + "_ "@
    } else if query.len() > 0 {
        " \u{1f98a} GitLab TUI | "@ + project_context + " | Search: "@ + query + " "@
    } else {
        " \u{1f98a} GitLab TUI | "@ + project_context + " "@
    }
}

/// The text of the title bar.
pub fn title_bar_text(project_context: &str, search_query: &str, is_typing_search: bool) -> (res: String)
    ensures
        res@ == title_bar_spec(project_context@, search_query@, is_typing_search),
{
    let mut title = String::from_str(" \u{1f98a} GitLab TUI | ");
    title.append(project_context);
    if is_typing_search {
        title.append(" | Search: ");
        title.append(search_query);
        title.append("_ ");
    } else if search_query.unicode_len() > 0 {
        title.append(" | Search: ");
        title.append(search_query);
        title.append(" ");
    } else {
        title.append(" ");
    }
    title
}

/// The key help shown at the bottom for a tab.
pub open spec fn help_spec(tab: Tab) -> Seq<char> {
    match tab {
        Tab::Issues => "  h/l: Tabs \u{2022} j/k: Navigate \u{2022} /: Search \u{2022} Enter: View \u{2022} q: Quit  "@,
        Tab::MergeRequests => "  h/l: Tabs \u{2022} j/k: Navigate \u{2022} /: Search \u{2022} a: Approve \u{2022} m: Merge \u{2022} q: Quit  "@,
        _ => "  h/l: Tabs \u{2022} j/k: Navigate \u{2022} /: Search \u{2022} q: Quit  "@,
    }
}

/// The key help shown at the bottom for a tab.
pub fn help_text(tab: Tab) -> (res: &'static str)
    ensures
        res@ == help_spec(tab),
{
    match tab {
        Tab::Issues => "  h/l: Tabs \u{2022} j/k: Navigate \u{2022} /: Search \u{2022} Enter: View \u{2022} q: Quit  ",
        Tab::MergeRequests => "  h/l: Tabs \u{2022} j/k: Navigate \u{2022} /: Search \u{2022} a: Approve \u{2022} m: Merge \u{2022} q: Quit  ",
        _ => "  h/l: Tabs \u{2022} j/k: Navigate \u{2022} /: Search \u{2022} q: Quit  ",
    }
}

/// Whether a row whose searchable text is `text` is shown for the search query `query`:
/// always for an empty query, else when the lowercase query occurs in the lowercase text.
pub open spec fn matches_search_spec(text: Seq<char>, query: Seq<char>) -> bool {
    lowercase(query).len() == 0 || contains_text(lowercase(text), lowercase(query))
}

/// Whether a row whose searchable text is `text` is shown for the search query `query`.
pub fn matches_search(text: &str, query: &str) -> (res: bool)
    ensures
        res == matches_search_spec(text@, query@),
{
    let q = to_lowercase(query);
    if q.as_str().unicode_len() == 0 {
        return true;
    }
    let t = to_lowercase(text);
    contains_chars(&chars_of(t.as_str()), &chars_of(q.as_str()))
}

/// Whether a merge request whose title is `text` is shown for the search query `query`:
/// the merge-request tab searches fuzzily, so always for an empty query, else when the
/// characters of the lowercase query appear in order (not necessarily next to each
/// other) in the lowercase title.
pub open spec fn matches_fuzzy_spec(text: Seq<char>, query: Seq<char>) -> bool {
    lowercase(query).len() == 0 || is_subsequence(lowercase(query), lowercase(text))
}

/// Whether a merge request whose title is `text` is shown for the search query `query`.
pub fn matches_fuzzy(text: &str, query: &str) -> (res: bool)
    ensures
        res == matches_fuzzy_spec(text@, query@),
{
    let q = to_lowercase(query);
    if q.as_str().unicode_len() == 0 {
        return true;
    }
    let t = to_lowercase(text);
    subsequence_chars(&chars_of(q.as_str()), &chars_of(t.as_str()))
}

/// The positions, in order, of the texts among `texts[from..]` that match `query`
/// fuzzily.
pub open spec fn fuzzy_rows_from(texts: Seq<Seq<char>>, query: Seq<char>, from: int) -> Seq<usize>
    decreases texts.len() - from,
{
    if from < 0 || from >= texts.len() {
        Seq::empty()
    } else if matches_fuzzy_spec(texts[from], query) {
        seq![from as usize] + fuzzy_rows_from(texts, query, from + 1)
    } else {
        fuzzy_rows_from(texts, query, from + 1)
    }
}

/// The positions, in order, of the texts that match `query` fuzzily.
pub open spec fn fuzzy_rows(texts: Seq<Seq<char>>, query: Seq<char>) -> Seq<usize> {
    fuzzy_rows_from(texts, query, 0)
}

/// Fuzzy search shows every row that plain search shows: a query that occurs in a text
/// as one run also occurs in it in order.
pub proof fn lemma_search_match_is_fuzzy_match(text: Seq<char>, query: Seq<char>)
    requires
        matches_search_spec(text, query),
    ensures
        matches_fuzzy_spec(text, query),
{
    if lowercase(query).len() > 0 {
        let i = choose|i: int| occurs_at(lowercase(text), lowercase(query), i);
        lemma_occurrence_is_subsequence(lowercase(text), lowercase(query), i);
    }
}

proof fn lemma_fuzzy_rows_split(texts: Seq<Seq<char>>, query: Seq<char>, i: int)
    requires
        0 <= i < texts.len(),
    ensures
        fuzzy_rows_from(texts, query, i) == (if matches_fuzzy_spec(texts[i], query) {
            seq![i as usize]
        } else {
            Seq::empty()
        }) + fuzzy_rows_from(texts, query, i + 1),
{
    if !matches_fuzzy_spec(texts[i], query) {
        assert(Seq::<usize>::empty() + fuzzy_rows_from(texts, query, i + 1) =~= fuzzy_rows_from(texts, query, i + 1));
    }
}

/// The positions, in order, of the texts among `texts[from..]` that match `query`.
pub open spec fn matching_rows_from(texts: Seq<Seq<char>>, query: Seq<char>, from: int) -> Seq<usize>
    decreases texts.len() - from,
{
    if from < 0 || from >= texts.len() {
        Seq::empty()
    } else if matches_search_spec(texts[from], query) {
        seq![from as usize] + matching_rows_from(texts, query, from + 1)
    } else {
        matching_rows_from(texts, query, from + 1)
    }
}

/// The positions, in order, of the texts that match `query`.
pub open spec fn matching_rows(texts: Seq<Seq<char>>, query: Seq<char>) -> Seq<usize> {
    matching_rows_from(texts, query, 0)
}

/// The searchable texts of issues: their titles.
pub open spec fn issue_titles(items: Seq<Issue>) -> Seq<Seq<char>> {
    items.map_values(|i: Issue| i.title@)
}

/// The searchable texts of merge requests: their titles.
pub open spec fn mr_titles(items: Seq<MergeRequest>) -> Seq<Seq<char>> {
    items.map_values(|m: MergeRequest| m.title@)
}

/// The searchable texts of pipelines: their refs.
pub open spec fn pipeline_refs(items: Seq<Pipeline>) -> Seq<Seq<char>> {
    items.map_values(|p: Pipeline| p.ref_name@)
}

proof fn lemma_matching_rows_split(texts: Seq<Seq<char>>, query: Seq<char>, i: int)
    requires
        0 <= i < texts.len(),
    ensures
        matching_rows_from(texts, query, i) == (if matches_search_spec(texts[i], query) {
            seq![i as usize]
        } else {
            Seq::empty()
        }) + matching_rows_from(texts, query, i + 1),
{
    if !matches_search_spec(texts[i], query) {
        assert(Seq::<usize>::empty() + matching_rows_from(texts, query, i + 1) =~= matching_rows_from(texts, query, i + 1));
    }
}

/// The issues shown for a search query, as positions in `items`.
pub fn filter_issues(items: &Vec<Issue>, query: &str) -> (res: Vec<usize>)
    ensures
        res@ == matching_rows(issue_titles(items@), query@),
{
    let ghost texts = issue_titles(items@);
    let mut rows: Vec<usize> = Vec::new();
    let mut i: usize = 0;
    while i < items.len()
        invariant
            i <= items@.len(),
            texts == issue_titles(items@),
            rows@ + matching_rows_from(texts, query@, i as int) == matching_rows(texts, query@),
        decreases items@.len() - i,
    {
        proof {
            lemma_matching_rows_split(texts, query@, i as int);
        }
        if matches_search(items[i].title.as_str(), query) {
            rows.push(i);
        }
        assert(rows@ + matching_rows_from(texts, query@, i + 1) =~= matching_rows(texts, query@));
        i = i + 1;
    }
    assert(rows@ + matching_rows_from(texts, query@, i as int) =~= rows@);
    rows
}

/// The merge requests shown for a search query, as positions in `items`: those whose
/// title matches the query fuzzily.
pub fn filter_mrs(items: &Vec<MergeRequest>, query: &str) -> (res: Vec<usize>)
    ensures
        res@ == fuzzy_rows(mr_titles(items@), query@),
{
    let ghost texts = mr_titles(items@);
    let mut rows: Vec<usize> = Vec::new();
    let mut i: usize = 0;
    while i < items.len()
        invariant
            i <= items@.len(),
            texts == mr_titles(items@),
            rows@ + fuzzy_rows_from(texts, query@, i as int) == fuzzy_rows(texts, query@),
        decreases items@.len() - i,
    {
        proof {
            lemma_fuzzy_rows_split(texts, query@, i as int);
        }
        if matches_fuzzy(items[i].title.as_str(), query) {
            rows.push(i);
        }
        assert(rows@ + fuzzy_rows_from(texts, query@, i + 1) =~= fuzzy_rows(texts, query@));
        i = i + 1;
    }
    assert(rows@ + fuzzy_rows_from(texts, query@, i as int) =~= rows@);
    rows
}

/// The pipelines shown for a search query, as positions in `items`.
pub fn filter_pipelines(items: &Vec<Pipeline>, query: &str) -> (res: Vec<usize>)
    ensures
        res@ == matching_rows(pipeline_refs(items@), query@),
{
    let ghost texts = pipeline_refs(items@);
    let mut rows: Vec<usize> = Vec::new();
    let mut i: usize = 0;
    while i < items.len()
        invariant
            i <= items@.len(),
            texts == pipeline_refs(items@),
            rows@ + matching_rows_from(texts, query@, i as int) == matching_rows(texts, query@),
        decreases items@.len() - i,
    {
        proof {
            lemma_matching_rows_split(texts, query@, i as int);
        }
        if matches_search(items[i].ref_name.as_str(), query) {
            rows.push(i);
        }
        assert(rows@ + matching_rows_from(texts, query@, i + 1) =~= matching_rows(texts, query@));
        i = i + 1;
    }
    assert(rows@ + matching_rows_from(texts, query@, i as int) =~= rows@);
    rows
}

proof fn lemma_matching_rows_from_members(texts: Seq<Seq<char>>, query: Seq<char>, from: int)
    requires
        0 <= from <= texts.len(),
        texts.len() <= usize::MAX,
    ensures
        forall|k: int| 0 <= k < texts.len() ==> (#[trigger] matching_rows_from(texts, query, from).contains(k as usize)
            <==> (from <= k && matches_search_spec(texts[k], query))),
        forall|a: int| 0 <= a < matching_rows_from(texts, query, from).len() ==> from <= #[trigger] matching_rows_from(texts, query, from)[a] < texts.len(),
        forall|a: int, b: int| 0 <= a < b < matching_rows_from(texts, query, from).len() ==> matching_rows_from(texts, query, from)[a] < matching_rows_from(texts, query, from)[b],
    decreases texts.len() - from,
{
    if from < texts.len() {
        lemma_matching_rows_from_members(texts, query, from + 1);
        let rest = matching_rows_from(texts, query, from + 1);
        let rows = matching_rows_from(texts, query, from);
        if matches_search_spec(texts[from], query) {
            assert(rows == seq![from as usize] + rest);
            assert forall|k: int| 0 <= k < texts.len() implies (#[trigger] rows.contains(k as usize) <==> (from <= k && matches_search_spec(texts[k], query))) by {
                if rows.contains(k as usize) {
                    let a = choose|a: int| 0 <= a < rows.len() && rows[a] == k as usize;
                    if a > 0 {
                        assert(rest[a - 1] == k as usize);
                        assert(rest.contains(k as usize));
                    }
                }
                if from <= k && matches_search_spec(texts[k], query) {
                    if k == from {
                        assert(rows[0] == k as usize);
                    } else {
                        assert(rest.contains(k as usize));
                        let a = choose|a: int| 0 <= a < rest.len() && rest[a] == k as usize;
                        assert(rows[a + 1] == k as usize);
                    }
                }
            }
            assert forall|a: int| 0 <= a < rows.len() implies from <= #[trigger] rows[a] < texts.len() by {
                if a > 0 {
                    assert(rows[a] == rest[a - 1]);
                }
            }
            assert forall|a: int, b: int| 0 <= a < b < rows.len() implies rows[a] < rows[b] by {
                assert(rows[b] == rest[b - 1]);
                if a > 0 {
                    assert(rows[a] == rest[a - 1]);
                }
            }
        } else {
            assert forall|k: int| 0 <= k < texts.len() implies (#[trigger] rows.contains(k as usize) <==> (from <= k && matches_search_spec(texts[k], query))) by {
                if k == from {
                    assert(!rest.contains(k as usize));
                }
            }
        }
    }
}

proof fn lemma_fuzzy_rows_from_members(texts: Seq<Seq<char>>, query: Seq<char>, from: int)
    requires
        0 <= from <= texts.len(),
        texts.len() <= usize::MAX,
    ensures
        forall|k: int| 0 <= k < texts.len() ==> (#[trigger] fuzzy_rows_from(texts, query, from).contains(k as usize)
            <==> (from <= k && matches_fuzzy_spec(texts[k], query))),
        forall|a: int| 0 <= a < fuzzy_rows_from(texts, query, from).len() ==> from <= #[trigger] fuzzy_rows_from(texts, query, from)[a] < texts.len(),
        forall|a: int, b: int| 0 <= a < b < fuzzy_rows_from(texts, query, from).len() ==> fuzzy_rows_from(texts, query, from)[a] < fuzzy_rows_from(texts, query, from)[b],
    decreases texts.len() - from,
{
    if from < texts.len() {
        lemma_fuzzy_rows_from_members(texts, query, from + 1);
        let rest = fuzzy_rows_from(texts, query, from + 1);
        let rows = fuzzy_rows_from(texts, query, from);
        if matches_fuzzy_spec(texts[from], query) {
            assert(rows == seq![from as usize] + rest);
            assert forall|k: int| 0 <= k < texts.len() implies (#[trigger] rows.contains(k as usize) <==> (from <= k && matches_fuzzy_spec(texts[k], query))) by {
                if rows.contains(k as usize) {
                    let a = choose|a: int| 0 <= a < rows.len() && rows[a] == k as usize;
                    if a > 0 {
                        assert(rest[a - 1] == k as usize);
                        assert(rest.contains(k as usize));
                    }
                }
                if from <= k && matches_fuzzy_spec(texts[k], query) {
                    if k == from {
                        assert(rows[0] == k as usize);
                    } else {
                        assert(rest.contains(k as usize));
                        let a = choose|a: int| 0 <= a < rest.len() && rest[a] == k as usize;
                        assert(rows[a + 1] == k as usize);
                    }
                }
            }
            assert forall|a: int| 0 <= a < rows.len() implies from <= #[trigger] rows[a] < texts.len() by {
                if a > 0 {
                    assert(rows[a] == rest[a - 1]);
                }
            }
            assert forall|a: int, b: int| 0 <= a < b < rows.len() implies rows[a] < rows[b] by {
                assert(rows[b] == rest[b - 1]);
                if a > 0 {
                    assert(rows[a] == rest[a - 1]);
                }
            }
        } else {
            assert forall|k: int| 0 <= k < texts.len() implies (#[trigger] rows.contains(k as usize) <==> (from <= k && matches_fuzzy_spec(texts[k], query))) by {
                if k == from {
                    assert(!rest.contains(k as usize));
                }
            }
        }
    }
}

/// The issue rows for a search query: an issue is shown exactly when the query is empty
/// or the lowercase query occurs in its lowercase title, and rows keep the order of the
/// issues.
pub proof fn lemma_issue_search_rows(items: Seq<Issue>, query: Seq<char>)
    requires
        items.len() <= usize::MAX,
    ensures
        forall|k: int| 0 <= k < items.len() ==> (#[trigger] matching_rows(issue_titles(items), query).contains(k as usize)
            <==> (lowercase(query).len() == 0 || contains_text(lowercase(items[k].title@), lowercase(query)))),
        forall|a: int| 0 <= a < matching_rows(issue_titles(items), query).len() ==> #[trigger] matching_rows(issue_titles(items), query)[a] < items.len(),
        forall|a: int, b: int| 0 <= a < b < matching_rows(issue_titles(items), query).len() ==> matching_rows(issue_titles(items), query)[a] < matching_rows(issue_titles(items), query)[b],
{
    lemma_matching_rows_from_members(issue_titles(items), query, 0);
}

/// The merge-request rows for a search query: a merge request is shown exactly when the
/// query is empty or the characters of the lowercase query appear in order in its
/// lowercase title, and rows keep the order of the merge requests.
pub proof fn lemma_mr_search_rows(items: Seq<MergeRequest>, query: Seq<char>)
    requires
        items.len() <= usize::MAX,
    ensures
        forall|k: int| 0 <= k < items.len() ==> (#[trigger] fuzzy_rows(mr_titles(items), query).contains(k as usize)
            <==> (lowercase(query).len() == 0 || is_subsequence(lowercase(query), lowercase(items[k].title@)))),
        forall|a: int| 0 <= a < fuzzy_rows(mr_titles(items), query).len() ==> #[trigger] fuzzy_rows(mr_titles(items), query)[a] < items.len(),
        forall|a: int, b: int| 0 <= a < b < fuzzy_rows(mr_titles(items), query).len() ==> fuzzy_rows(mr_titles(items), query)[a] < fuzzy_rows(mr_titles(items), query)[b],
{
    lemma_fuzzy_rows_from_members(mr_titles(items), query, 0);
}

/// The pipeline rows for a search query: a pipeline is shown exactly when the query is
/// empty or the lowercase query occurs in its lowercase ref, and rows keep the order of
/// the pipelines.
pub proof fn lemma_pipeline_search_rows(items: Seq<Pipeline>, query: Seq<char>)
    requires
        items.len() <= usize::MAX,
    ensures
        forall|k: int| 0 <= k < items.len() ==> (#[trigger] matching_rows(pipeline_refs(items), query).contains(k as usize)
            <==> (lowercase(query).len() == 0 || contains_text(lowercase(items[k].ref_name@), lowercase(query)))),
        forall|a: int| 0 <= a < matching_rows(pipeline_refs(items), query).len() ==> #[trigger] matching_rows(pipeline_refs(items), query)[a] < items.len(),
        forall|a: int, b: int| 0 <= a < b < matching_rows(pipeline_refs(items), query).len() ==> matching_rows(pipeline_refs(items), query)[a] < matching_rows(pipeline_refs(items), query)[b],
{
    lemma_matching_rows_from_members(pipeline_refs(items), query, 0);
}

/// The colour class of a state or status cell.
#[derive(Debug, Clone, Copy, PartialEq, Eq, Structural)]
pub enum Tone {
    Good,
    Bad,
    Active,
    Muted,
}

/// The tone of an issue or merge request state: good when opened, bad otherwise.
pub open spec fn state_tone_spec(state: Seq<char>) -> Tone {
    if state == "opened"@ { Tone::Good } else { Tone::Bad }
}

/// The tone of a pipeline status: good on success, bad on failure, active while
/// running, muted otherwise.
pub open spec fn pipeline_tone_spec(status: Seq<char>) -> Tone {
    if status == "success"@ {
        Tone::Good
    } else if status == "failed"@ {
        Tone::Bad
    } else if status == "running"@ {
        Tone::Active
    } else {
        Tone::Muted
    }
}

fn text_equals(a: &str, b: &str) -> (res: bool)
    ensures
        res == (a@ == b@),
{
    let x = String::from_str(a);
    let y = String::from_str(b);
    x == y
}

/// The tone of an issue or merge request state.
pub fn state_tone(state: &str) -> (res: Tone)
    ensures
        res == state_tone_spec(state@),
{
    if text_equals(state, "opened") { Tone::Good } else { Tone::Bad }
}

/// The tone of a pipeline status.
pub fn pipeline_tone(status: &str) -> (res: Tone)
    ensures
        res == pipeline_tone_spec(status@),
{
    if text_equals(status, "success") {
        Tone::Good
    } else if text_equals(status, "failed") {
        Tone::Bad
    } else if text_equals(status, "running") {
        Tone::Active
    } else {
        Tone::Muted
    }
}

/// The identifier cell of a row: the number after a sign (`#` for issues and pipelines,
/// `!` for merge requests).
pub fn id_label(sign: char, id: u64) -> (res: String)
    ensures
        res@ == seq![sign] + decimal(id as nat),
{
    let mut label = String::new();
    crate::utils::text::push_char(&mut label, sign);
    label.append(decimal_string(id).as_str());
    label
}

/// The labels joined by `, `.
pub open spec fn join_labels(labels: Seq<Seq<char>>) -> Seq<char>
    decreases labels.len(),
{
    if labels.len() == 0 {
        Seq::empty()
    } else if labels.len() == 1 {
        labels[0]
    } else {
        join_labels(labels.drop_last()) + ", "@ + labels.last()
    }
}

/// The text of the labels in a details pane: `None` when there are none, else the
/// labels joined by `, `.
pub open spec fn labels_text_spec(labels: Seq<Seq<char>>) -> Seq<char> {
    if labels.len() == 0 { "None"@ } else { join_labels(labels) }
}

/// The text of the labels in a details pane.
pub fn labels_text(labels: &Vec<String>) -> (res: String)
    ensures
        res@ == labels_text_spec(labels@.map_values(|l: String| l@)),
{
    let ghost views = labels@.map_values(|l: String| l@);
    if labels.len() == 0 {
        return String::from_str("None");
    }
    let mut out = String::new();
    let mut i: usize = 0;
    assert(views.take(0) =~= Seq::<Seq<char>>::empty());
    while i < labels.len()
        invariant
            i <= labels@.len(),
            views == labels@.map_values(|l: String| l@),
            out@ == join_labels(views.take(i as int)),
        decreases labels@.len() - i,
    {
        assert(views.take(i + 1).drop_last() =~= views.take(i as int));
        if i > 0 {
            out.append(", ");
        } else {
            assert(views.take(1) =~= seq![views[0]]);
        }
        out.append(labels[i].as_str());
        i = i + 1;
    }
    assert(views.take(labels@.len() as int) =~= views);
    out
}

/// The details pane of an issue or merge request, given the text for its update time.
pub open spec fn details_spec(
    title: Seq<char>,
    username: Seq<char>,
    state: Seq<char>,
    updated: Seq<char>,
    labels: Seq<Seq<char>>,
) -> Seq<char> {
    "Title: "@ + title + "\n\nAuthor: @"@ + username + "\nState: "@ + state + "\nUpdated: "@ + updated
        + "\n\nLabels: "@ + labels_text_spec(labels)
}

/// The details pane of an issue or merge request, given the text for its update time.
pub fn details_text(title: &str, username: &str, state: &str, updated: &str, labels: &Vec<String>) -> (res: String)
    ensures
        res@ == details_spec(title@, username@, state@, updated@, labels@.map_values(|l: String| l@)),
{
    let mut d = String::from_str("Title: ");
    d.append(title);
    d.append("\n\nAuthor: @");
    d.append(username);
    d.append("\nState: ");
    d.append(state);
    d.append("\nUpdated: ");
    d.append(updated);
    d.append("\n\nLabels: ");
    d.append(labels_text(labels).as_str());
    d
}

/// The details pane of a pipeline, given the text for its update time.
pub open spec fn pipeline_details_spec(id: u64, ref_name: Seq<char>, status: Seq<char>, updated: Seq<char>) -> Seq<char> {
    "Pipeline ID: "@ + decimal(id as nat) + "\n\nRef: "@ + ref_name + "\nStatus: "@ + status + "\nUpdated: "@ + updated
}

/// The details pane of a pipeline, given the text for its update time.
pub fn pipeline_details_text(id: u64, ref_name: &str, status: &str, updated: &str) -> (res: String)
    ensures
        res@ == pipeline_details_spec(id, ref_name@, status@, updated@),
{
    let mut d = String::from_str("Pipeline ID: ");
    d.append(decimal_string(id).as_str());
    d.append("\n\nRef: ");
    d.append(ref_name);
    d.append("\nStatus: ");
    d.append(status);
    d.append("\nUpdated: ");
    d.append(updated);
    d
}

} // verus!

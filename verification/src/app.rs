use vstd::prelude::*;
use std::collections::HashMap;
use std::collections::HashSet;
use crate::gitlab::client::GitlabClient;
use crate::gitlab::issues::Issue;
use crate::gitlab::mr::MergeRequest;
use crate::gitlab::pipelines::{Job, Pipeline};
use crate::table::{StatefulTable, selection_after_next, selection_after_previous};
use crate::utils::text::{pop_char, push_char};

verus! {

/// The views of the client, in the order in which they are cycled.
#[derive(Debug, Clone, Copy, PartialEq, Eq, Hash, Structural)]
pub enum Tab {
    Issues,
    MergeRequests,
    Pipelines,
    Runners,
    Releases,
}

/// Position of a tab in the cycle `Tab::ALL`.
pub open spec fn tab_index(t: Tab) -> int {
    match t {
        Tab::Issues => 0,
        Tab::MergeRequests => 1,
        Tab::Pipelines => 2,
        Tab::Runners => 3,
        Tab::Releases => 4,
    }
}

/// The tab at a position of the cycle (positions are taken modulo the cycle length).
pub open spec fn tab_at(i: int) -> Tab {
    let k = i % 5;
    if k == 0 {
        Tab::Issues
    } else if k == 1 {
        Tab::MergeRequests
    } else if k == 2 {
        Tab::Pipelines
    } else if k == 3 {
        Tab::Runners
    } else {
        Tab::Releases
    }
}

/// The label shown for a tab.
pub open spec fn tab_title(t: Tab) -> Seq<char> {
    match t {
        Tab::Issues => "Issues"@,
        Tab::MergeRequests => "MRs"@,
        Tab::Pipelines => "Pipelines"@,
        Tab::Runners => "Runners"@,
        Tab::Releases => "Releases"@,
    }
}

impl Tab {
    /// Every tab, in the order in which they are cycled.
    pub const ALL: [Tab; 5] = [Tab::Issues, Tab::MergeRequests, Tab::Pipelines, Tab::Runners, Tab::Releases];

    /// The label shown for the tab.
    pub fn title(&self) -> (res: &'static str)
        ensures
            res@ == tab_title(*self),
    {
        match self {
            Tab::Issues => "Issues",
            Tab::MergeRequests => "MRs",
            Tab::Pipelines => "Pipelines",
            Tab::Runners => "Runners",
            Tab::Releases => "Releases",
        }
    }
}

impl Default for Tab {
    fn default() -> (res: Tab)
        ensures
            res == Tab::Issues,
    {
        Tab::Issues
    }
}


/// The whole state of the client.
pub struct App {
    pub active_tab: Tab,
    pub running: bool,
    pub project_context: String,
    pub gitlab_client: Option<GitlabClient>,
    pub issues: StatefulTable<Issue>,
    pub mrs: StatefulTable<MergeRequest>,
    pub pipelines: StatefulTable<Pipeline>,
    pub search_query: String,
    pub is_typing_search: bool,
    pub selected_pipeline_jobs: Option<Vec<Job>>,
    pub selected_job_index: Option<usize>,
    pub job_trace: Option<String>,
    pub error_message: Option<String>,
    pub pipeline_jobs: HashMap<u64, Vec<Job>>,
    pub fetching_pipelines: HashSet<u64>,
    pub loading_tabs: HashSet<Tab>,
}

/// A key press, as far as the client tells keys apart.
#[derive(Debug, Clone, Copy, PartialEq, Eq, Structural)]
pub enum KeyInput {
    Enter,
    Esc,
    Backspace,
    Tab,
    BackTab,
    Left,
    Right,
    Up,
    Down,
    Char(char),
    Other,
}

/// The tab after `t` in the cycle, wrapping from the last to the first.
pub open spec fn tab_after(t: Tab) -> Tab {
    tab_at(tab_index(t) + 1)
}

/// The tab before `t` in the cycle, wrapping from the first to the last.
pub open spec fn tab_before(t: Tab) -> Tab {
    tab_at(tab_index(t) + 4)
}

pub open spec fn is_char_key(key: KeyInput, c: char) -> bool {
    key matches KeyInput::Char(k) && k == c
}

/// Keys that close the error popup or end the typing of a search query.
pub open spec fn is_confirm_key(key: KeyInput) -> bool {
    key is Enter || key is Esc
}

pub open spec fn is_quit_key(key: KeyInput) -> bool {
    is_char_key(key, 'q') || key is Esc
}

pub open spec fn is_search_key(key: KeyInput) -> bool {
    is_char_key(key, '/')
}

pub open spec fn is_next_tab_key(key: KeyInput) -> bool {
    key is Tab || key is Right || is_char_key(key, 'l')
}

pub open spec fn is_previous_tab_key(key: KeyInput) -> bool {
    key is BackTab || key is Left || is_char_key(key, 'h')
}

pub open spec fn is_down_key(key: KeyInput) -> bool {
    key is Down || is_char_key(key, 'j')
}

pub open spec fn is_up_key(key: KeyInput) -> bool {
    key is Up || is_char_key(key, 'k')
}

impl App {
    /// Every field of `self` but the search query, as it stands after `key` was pressed.
    pub open spec fn after_key(self, key: KeyInput) -> App {
        if self.error_message is Some {
            if is_confirm_key(key) { App { error_message: None, ..self } } else { self }
        } else if self.is_typing_search {
            if is_confirm_key(key) { App { is_typing_search: false, ..self } } else { self }
        } else if is_quit_key(key) {
            App { running: false, ..self }
        } else if is_search_key(key) {
            App { is_typing_search: true, ..self }
        } else if is_next_tab_key(key) {
            App { active_tab: tab_after(self.active_tab), ..self }
        } else if is_previous_tab_key(key) {
            App { active_tab: tab_before(self.active_tab), ..self }
        } else if is_down_key(key) || is_up_key(key) {
            let down = is_down_key(key);
            match self.active_tab {
                Tab::Issues => {
                    let len = self.issues.items.len() as usize;
                    let sel = if down { selection_after_next(self.issues.selected, len) }
                        else { selection_after_previous(self.issues.selected, len) };
                    App { issues: StatefulTable { selected: sel, ..self.issues }, ..self }
                },
                Tab::MergeRequests => {
                    let len = self.mrs.items.len() as usize;
                    let sel = if down { selection_after_next(self.mrs.selected, len) }
                        else { selection_after_previous(self.mrs.selected, len) };
                    App { mrs: StatefulTable { selected: sel, ..self.mrs }, ..self }
                },
                Tab::Pipelines => {
                    let len = self.pipelines.items.len() as usize;
                    let sel = if down { selection_after_next(self.pipelines.selected, len) }
                        else { selection_after_previous(self.pipelines.selected, len) };
                    App { pipelines: StatefulTable { selected: sel, ..self.pipelines }, ..self }
                },
                _ => self,
            }
        } else {
            self
        }
    }

    /// The search query after `key` was pressed: while a query is typed (and no error is
    /// shown) a character key appends its character and Backspace drops the last one.
    pub open spec fn query_after_key(self, key: KeyInput) -> Seq<char> {
        if self.error_message is None && self.is_typing_search {
            match key {
                KeyInput::Char(c) => self.search_query@.push(c),
                KeyInput::Backspace => if self.search_query@.len() == 0 {
                    self.search_query@
                } else {
                    self.search_query@.drop_last()
                },
                _ => self.search_query@,
            }
        } else {
            self.search_query@
        }
    }

    /// A client on the issues tab with empty lists and no project loaded yet.
    pub fn new() -> (res: Self)
        ensures
            res.active_tab == Tab::Issues,
            res.running,
            res.project_context@ == "group/repository"@,
            res.gitlab_client is None,
            res.issues.items@.len() == 0 && res.issues.selected is None,
            res.mrs.items@.len() == 0 && res.mrs.selected is None,
            res.pipelines.items@.len() == 0 && res.pipelines.selected is None,
            res.search_query@.len() == 0,
            !res.is_typing_search,
            res.selected_pipeline_jobs is None,
            res.selected_job_index is None,
            res.job_trace is None,
            res.error_message is None,
            res.pipeline_jobs@ == Map::<u64, Vec<Job>>::empty(),
            res.fetching_pipelines@ == Set::<u64>::empty(),
            res.loading_tabs@ == Set::<Tab>::empty(),
    {
        App {
            active_tab: Tab::default(),
            running: true,
            project_context: String::from_str("group/repository"),
            gitlab_client: None,
            issues: StatefulTable::with_items(Vec::new()),
            mrs: StatefulTable::with_items(Vec::new()),
            pipelines: StatefulTable::with_items(Vec::new()),
            search_query: String::new(),
            is_typing_search: false,
            selected_pipeline_jobs: None,
            selected_job_index: None,
            job_trace: None,
            error_message: None,
            pipeline_jobs: HashMap::new(),
            fetching_pipelines: HashSet::new(),
            loading_tabs: HashSet::new(),
        }
    }

    /// Called on every timer tick; the state does not change.
    pub fn tick(&mut self)
        ensures
            *final(self) == *old(self),
    {
    }

    /// Stops the main loop.
    pub fn quit(&mut self)
        ensures
            *final(self) == (App { running: false, ..*old(self) }),
    {
        self.running = false;
    }

    /// Position of the active tab in `Tab::ALL`.
    fn active_index(&self) -> (res: usize)
        ensures
            res == tab_index(self.active_tab),
    {
        let mut i: usize = 0;
        while i < 5
            invariant
                i <= 5,
                forall|j: int| 0 <= j < i ==> Tab::ALL[j] != self.active_tab,
            decreases 5 - i,
        {
            if Tab::ALL[i] == self.active_tab {
                return i;
            }
            i = i + 1;
        }
        0
    }

    /// Makes the next tab of the cycle active.
    pub fn next_tab(&mut self)
        ensures
            *final(self) == (App { active_tab: tab_after(old(self).active_tab), ..*old(self) }),
    {
        let current_index = self.active_index();
        let next_index = (current_index + 1) % 5;
        self.active_tab = Tab::ALL[next_index];
    }

    /// Makes the previous tab of the cycle active.
    pub fn previous_tab(&mut self)
        ensures
            *final(self) == (App { active_tab: tab_before(old(self).active_tab), ..*old(self) }),
    {
        let current_index = self.active_index();
        let prev_index = if current_index == 0 { 4 } else { current_index - 1 };
        self.active_tab = Tab::ALL[prev_index];
    }

    /// Applies one key press: while an error is shown, Enter or Esc dismisses it and other
    /// keys are ignored; while a search query is typed, Enter or Esc ends typing, Backspace
    /// deletes and characters are appended; otherwise keys quit, start a search, switch
    /// tabs or move the cursor of the active table.
    pub fn handle_key(&mut self, key: KeyInput)
        ensures
            final(self).search_query@ == old(self).query_after_key(key),
            *final(self) == (App { search_query: final(self).search_query, ..old(self).after_key(key) }),
    {
        if self.error_message.is_some() {
            if key == KeyInput::Enter || key == KeyInput::Esc {
                self.error_message = None;
            }
            return;
        }
        if self.is_typing_search {
            match key {
                KeyInput::Enter | KeyInput::Esc => self.is_typing_search = false,
                KeyInput::Backspace => {
                    pop_char(&mut self.search_query);
                },
                KeyInput::Char(c) => push_char(&mut self.search_query, c),
                _ => {},
            }
            return;
        }
        match key {
            KeyInput::Char('q') | KeyInput::Esc => self.quit(),
            KeyInput::Char('/') => self.is_typing_search = true,
            KeyInput::Tab | KeyInput::Right | KeyInput::Char('l') => self.next_tab(),
            KeyInput::BackTab | KeyInput::Left | KeyInput::Char('h') => self.previous_tab(),
            KeyInput::Down | KeyInput::Char('j') => match self.active_tab {
                Tab::Issues => {
                    let len = self.issues.items.len();
                    self.issues.next(len);
                },
                Tab::MergeRequests => {
                    let len = self.mrs.items.len();
                    self.mrs.next(len);
                },
                Tab::Pipelines => {
                    let len = self.pipelines.items.len();
                    self.pipelines.next(len);
                },
                _ => {},
            },
            KeyInput::Up | KeyInput::Char('k') => match self.active_tab {
                Tab::Issues => {
                    let len = self.issues.items.len();
                    self.issues.previous(len);
                },
                Tab::MergeRequests => {
                    let len = self.mrs.items.len();
                    self.mrs.previous(len);
                },
                Tab::Pipelines => {
                    let len = self.pipelines.items.len();
                    self.pipelines.previous(len);
                },
                _ => {},
            },
            _ => {},
        }
    }
}

impl App {
    /// Takes in the outcome of the first load of a project: the client is kept, each
    /// list that was fetched (`Some`) replaces the current one, and a failed issue fetch
    /// is reported as an error; failed merge-request or pipeline fetches leave their
    /// lists as they were.
    pub fn finish_initial_load(
        &mut self,
        client: GitlabClient,
        issues: Option<Vec<Issue>>,
        mrs: Option<Vec<MergeRequest>>,
        pipelines: Option<Vec<Pipeline>>,
    )
        ensures
            final(self).gitlab_client == Some(client),
            final(self).issues.items == (match issues {
                Some(v) => v,
                None => old(self).issues.items,
            }),
            final(self).issues.selected == old(self).issues.selected,
            issues is Some ==> final(self).error_message == old(self).error_message,
            issues is None ==> (final(self).error_message matches Some(m) && m@ == "Failed to fetch issues"@),
            final(self).mrs.items == (match mrs {
                Some(v) => v,
                None => old(self).mrs.items,
            }),
            final(self).mrs.selected == old(self).mrs.selected,
            final(self).pipelines.items == (match pipelines {
                Some(v) => v,
                None => old(self).pipelines.items,
            }),
            final(self).pipelines.selected == old(self).pipelines.selected,
            *final(self) == (App {
                gitlab_client: final(self).gitlab_client,
                issues: final(self).issues,
                mrs: final(self).mrs,
                pipelines: final(self).pipelines,
                error_message: final(self).error_message,
                ..*old(self)
            }),
    {
        match issues {
            Some(v) => self.issues.items = v,
            None => self.error_message = Some(String::from_str("Failed to fetch issues")),
        }
        match mrs {
            Some(v) => self.mrs.items = v,
            None => {},
        }
        match pipelines {
            Some(v) => self.pipelines.items = v,
            None => {},
        }
        self.gitlab_client = Some(client);
    }

    /// Records that no client could be set up for the project.
    pub fn report_client_failure(&mut self)
        ensures
            final(self).error_message matches Some(m) && m@ == "Failed to initialize GitLab client"@,
            *final(self) == (App { error_message: final(self).error_message, ..*old(self) }),
    {
        self.error_message = Some(String::from_str("Failed to initialize GitLab client"));
    }
}

impl Default for App {
    fn default() -> (res: Self)
        ensures
            res.active_tab == Tab::Issues,
            res.running,
            res.project_context@ == "group/repository"@,
            res.gitlab_client is None,
            res.issues.items@.len() == 0 && res.issues.selected is None,
            res.mrs.items@.len() == 0 && res.mrs.selected is None,
            res.pipelines.items@.len() == 0 && res.pipelines.selected is None,
            res.search_query@.len() == 0,
            !res.is_typing_search,
            res.selected_pipeline_jobs is None,
            res.selected_job_index is None,
            res.job_trace is None,
            res.error_message is None,
            res.pipeline_jobs@ == Map::<u64, Vec<Job>>::empty(),
            res.fetching_pipelines@ == Set::<u64>::empty(),
            res.loading_tabs@ == Set::<Tab>::empty(),
    {
        App::new()
    }
}

/// While an error is shown, no key but Enter or Esc changes anything.
pub proof fn lemma_error_popup_blocks_keys(app: App, key: KeyInput)
    requires
        app.error_message is Some,
        !is_confirm_key(key),
    ensures
        app.after_key(key) == app,
        app.query_after_key(key) == app.search_query@,
{
}

/// While a search query is typed, keys only edit the query or end the typing: the
/// client does not quit, switch tabs or move a cursor.
pub proof fn lemma_typing_keys_only_edit_query(app: App, key: KeyInput)
    requires
        app.error_message is None,
        app.is_typing_search,
    ensures
        app.after_key(key) == (App { is_typing_search: !is_confirm_key(key), ..app }),
{
}

/// The arrow keys and the vi keys do the same: Up as `k`, Down as `j`, Right as `l`,
/// Left as `h`.
pub proof fn lemma_arrow_keys_match_vi_keys(app: App)
    ensures
        app.after_key(KeyInput::Up) == app.after_key(KeyInput::Char('k')),
        app.after_key(KeyInput::Down) == app.after_key(KeyInput::Char('j')),
        app.after_key(KeyInput::Right) == app.after_key(KeyInput::Char('l')),
        app.after_key(KeyInput::Left) == app.after_key(KeyInput::Char('h')),
{
}

/// On the issues tab, Up selects the row above the selected one and Down the row below
/// it, wrapping between the first and the last row.
pub proof fn lemma_cursor_keys_on_issues(app: App, i: usize)
    requires
        app.error_message is None,
        !app.is_typing_search,
        app.active_tab == Tab::Issues,
        app.issues.selected == Some(i),
        i < app.issues.items.len(),
    ensures
        app.after_key(KeyInput::Up).issues.selected == Some(
            if i > 0 { (i - 1) as usize } else { (app.issues.items.len() - 1) as usize },
        ),
        app.after_key(KeyInput::Down).issues.selected == Some(
            if i + 1 < app.issues.items.len() { (i + 1) as usize } else { 0usize },
        ),
        app.after_key(KeyInput::Up).issues.items == app.issues.items,
        app.after_key(KeyInput::Down).issues.items == app.issues.items,
{
}

/// On the merge-request tab, Up selects the row above the selected one and Down the row
/// below it, wrapping between the first and the last row.
pub proof fn lemma_cursor_keys_on_merge_requests(app: App, i: usize)
    requires
        app.error_message is None,
        !app.is_typing_search,
        app.active_tab == Tab::MergeRequests,
        app.mrs.selected == Some(i),
        i < app.mrs.items.len(),
    ensures
        app.after_key(KeyInput::Up).mrs.selected == Some(
            if i > 0 { (i - 1) as usize } else { (app.mrs.items.len() - 1) as usize },
        ),
        app.after_key(KeyInput::Down).mrs.selected == Some(
            if i + 1 < app.mrs.items.len() { (i + 1) as usize } else { 0usize },
        ),
        app.after_key(KeyInput::Up).mrs.items == app.mrs.items,
        app.after_key(KeyInput::Down).mrs.items == app.mrs.items,
{
}

/// On the pipelines tab, Up selects the row above the selected one and Down the row
/// below it, wrapping between the first and the last row.
pub proof fn lemma_cursor_keys_on_pipelines(app: App, i: usize)
    requires
        app.error_message is None,
        !app.is_typing_search,
        app.active_tab == Tab::Pipelines,
        app.pipelines.selected == Some(i),
        i < app.pipelines.items.len(),
    ensures
        app.after_key(KeyInput::Up).pipelines.selected == Some(
            if i > 0 { (i - 1) as usize } else { (app.pipelines.items.len() - 1) as usize },
        ),
        app.after_key(KeyInput::Down).pipelines.selected == Some(
            if i + 1 < app.pipelines.items.len() { (i + 1) as usize } else { 0usize },
        ),
        app.after_key(KeyInput::Up).pipelines.items == app.pipelines.items,
        app.after_key(KeyInput::Down).pipelines.items == app.pipelines.items,
{
}

/// Switching to the next tab and then to the previous one returns to the starting tab,
/// and so does the reverse order.
pub proof fn lemma_tab_switches_undo_each_other(t: Tab)
    ensures
        tab_before(tab_after(t)) == t,
        tab_after(tab_before(t)) == t,
{
}

/// Five switches to the next tab visit every tab once and return to the starting tab.
pub proof fn lemma_next_tab_cycles_through_all(t: Tab)
    ensures
        tab_after(tab_after(tab_after(tab_after(tab_after(t))))) == t,
        forall|u: Tab| #[trigger] tab_index(u) >= 0 ==> {
            let k = (tab_index(u) - tab_index(t) + 5) % 5;
            0 <= k < 5 && tab_at(tab_index(t) + k) == u
        },
{
}

} // verus!

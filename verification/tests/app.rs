use glab_tui::app::{App, KeyInput, Tab};
use glab_tui::gitlab::client::GitlabClient;
use glab_tui::gitlab::pipelines::Pipeline;
use glab_tui::table::StatefulTable;

fn pipeline(id: u64) -> Pipeline {
    Pipeline { id, status: "success".to_string(), ref_name: "main".to_string(), updated_at: String::new() }
}

#[test]
fn tab_titles() {
    assert_eq!(Tab::Issues.title(), "Issues");
    assert_eq!(Tab::MergeRequests.title(), "MRs");
    assert_eq!(Tab::Pipelines.title(), "Pipelines");
    assert_eq!(Tab::Runners.title(), "Runners");
    assert_eq!(Tab::Releases.title(), "Releases");
    assert_eq!(Tab::ALL.len(), 5);
}

#[test]
fn new_app_starts_on_issues() {
    let app = App::new();
    assert_eq!(app.active_tab, Tab::Issues);
    assert!(app.running);
    assert_eq!(app.project_context, "group/repository");
    assert!(app.error_message.is_none());
    assert!(app.issues.items.is_empty());
    assert!(app.loading_tabs.is_empty());
    assert_eq!(Tab::default(), Tab::Issues);
}

#[test]
fn next_tab_cycles_through_all_tabs() {
    let mut app = App::new();
    let mut seen = Vec::new();
    for _ in 0..5 {
        seen.push(app.active_tab);
        app.next_tab();
    }
    assert_eq!(seen, Tab::ALL.to_vec());
    assert_eq!(app.active_tab, Tab::Issues);
}

#[test]
fn previous_tab_undoes_next_tab() {
    let mut app = App::new();
    app.previous_tab();
    assert_eq!(app.active_tab, Tab::Releases);
    app.next_tab();
    assert_eq!(app.active_tab, Tab::Issues);
    app.next_tab();
    app.next_tab();
    app.previous_tab();
    assert_eq!(app.active_tab, Tab::MergeRequests);
}

#[test]
fn quit_and_tick() {
    let mut app = App::new();
    app.tick();
    assert!(app.running);
    app.quit();
    assert!(!app.running);
}

#[test]
fn keys_edit_search_query() {
    let mut app = App::new();
    app.handle_key(KeyInput::Char('/'));
    assert!(app.is_typing_search);
    app.handle_key(KeyInput::Char('a'));
    app.handle_key(KeyInput::Char('q'));
    app.handle_key(KeyInput::Char('é'));
    assert_eq!(app.search_query, "aqé");
    assert!(app.running);
    app.handle_key(KeyInput::Backspace);
    assert_eq!(app.search_query, "aq");
    app.handle_key(KeyInput::Enter);
    assert!(!app.is_typing_search);
    assert_eq!(app.search_query, "aq");
    app.handle_key(KeyInput::Char('q'));
    assert!(!app.running);
}

#[test]
fn error_popup_swallows_keys_until_dismissed() {
    let mut app = App::new();
    app.error_message = Some("boom".to_string());
    app.handle_key(KeyInput::Char('q'));
    app.handle_key(KeyInput::Tab);
    assert!(app.running);
    assert_eq!(app.active_tab, Tab::Issues);
    app.handle_key(KeyInput::Esc);
    assert!(app.error_message.is_none());
    assert!(app.running);
    app.handle_key(KeyInput::Esc);
    assert!(!app.running);
}

#[test]
fn navigation_keys_move_the_active_table() {
    let mut app = App::new();
    app.handle_key(KeyInput::Char('l'));
    app.handle_key(KeyInput::Right);
    assert_eq!(app.active_tab, Tab::Pipelines);
    app.pipelines = StatefulTable::with_items(vec![pipeline(1), pipeline(2), pipeline(3)]);
    app.handle_key(KeyInput::Down);
    assert_eq!(app.pipelines.selected(), Some(0));
    app.handle_key(KeyInput::Char('k'));
    assert_eq!(app.pipelines.selected(), Some(2));
    app.handle_key(KeyInput::Char('j'));
    assert_eq!(app.pipelines.selected(), Some(0));
    app.handle_key(KeyInput::Char('h'));
    app.handle_key(KeyInput::Down);
    assert_eq!(app.mrs.selected(), None);
    assert_eq!(app.pipelines.selected(), Some(0));
    app.handle_key(KeyInput::BackTab);
    app.handle_key(KeyInput::Left);
    assert_eq!(app.active_tab, Tab::Releases);
    app.handle_key(KeyInput::Other);
    assert_eq!(app.active_tab, Tab::Releases);
}

#[test]
fn table_selection_wraps() {
    let mut t: StatefulTable<u8> = StatefulTable::with_items(vec![1, 2]);
    t.previous(2);
    assert_eq!(t.selected(), Some(0));
    t.previous(2);
    assert_eq!(t.selected(), Some(1));
    t.next(2);
    assert_eq!(t.selected(), Some(0));
    t.next(2);
    t.previous(2);
    assert_eq!(t.selected(), Some(0));
    t.next(0);
    assert_eq!(t.selected(), Some(0));
}

#[test]
fn initial_load_outcomes() {
    let mut app = App::new();
    app.finish_initial_load(GitlabClient::new("h".to_string(), "t".to_string()), None, Some(vec![]), Some(vec![pipeline(9)]));
    assert_eq!(app.error_message.as_deref(), Some("Failed to fetch issues"));
    assert_eq!(app.pipelines.items.len(), 1);
    assert_eq!(app.gitlab_client.as_ref().map(|c| c.host.clone()), Some("h".to_string()));
    let mut other = App::new();
    other.report_client_failure();
    assert_eq!(other.error_message.as_deref(), Some("Failed to initialize GitLab client"));
}

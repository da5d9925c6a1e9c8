use glab_tui::app::Tab;
use glab_tui::gitlab::issues::Issue;
use glab_tui::gitlab::mr::{Author, MergeRequest};
use glab_tui::ui::{details_text, filter_issues, filter_mrs, filter_pipelines, matches_fuzzy, help_text, id_label, labels_text, matches_search, pipeline_details_text, pipeline_tone, state_tone, title_bar_text, Tone};

fn issue(title: &str) -> Issue {
    Issue {
        iid: 1,
        title: title.to_string(),
        state: "opened".to_string(),
        labels: vec![],
        updated_at: String::new(),
        author: Author { username: "u".to_string() },
    }
}

#[test]
fn title_bar() {
    assert_eq!(title_bar_text("g/r", "", false), " \u{1f98a} GitLab TUI | g/r ");
    assert_eq!(title_bar_text("g/r", "fix", false), " \u{1f98a} GitLab TUI | g/r | Search: fix ");
    assert_eq!(title_bar_text("g/r", "fi", true), " \u{1f98a} GitLab TUI | g/r | Search: fi_ ");
}

#[test]
fn help_texts() {
    assert!(help_text(Tab::Issues).contains("Enter: View"));
    assert!(help_text(Tab::MergeRequests).contains("m: Merge"));
    assert_eq!(help_text(Tab::Runners), help_text(Tab::Releases));
}

#[test]
fn search_is_case_insensitive() {
    assert!(matches_search("Fix Login BUG", "bug"));
    assert!(matches_search("anything", ""));
    assert!(!matches_search("feature", "bug"));
    let rows = filter_issues(&vec![issue("Crash on start"), issue("Docs"), issue("crash again")], "CRASH");
    assert_eq!(rows, vec![0, 2]);
}

#[test]
fn tones_and_labels() {
    assert_eq!(state_tone("opened"), Tone::Good);
    assert_eq!(state_tone("closed"), Tone::Bad);
    assert_eq!(pipeline_tone("success"), Tone::Good);
    assert_eq!(pipeline_tone("failed"), Tone::Bad);
    assert_eq!(pipeline_tone("running"), Tone::Active);
    assert_eq!(pipeline_tone("pending"), Tone::Muted);
    assert_eq!(id_label('#', 42), "#42");
    assert_eq!(labels_text(&vec![]), "None");
    assert_eq!(labels_text(&vec!["a".to_string(), "b".to_string()]), "a, b");
}

#[test]
fn details_panes() {
    assert_eq!(
        details_text("T", "me", "opened", "1 day ago", &vec!["x".to_string()]),
        "Title: T\n\nAuthor: @me\nState: opened\nUpdated: 1 day ago\n\nLabels: x"
    );
    assert_eq!(pipeline_details_text(5, "main", "failed", "just now"), "Pipeline ID: 5\n\nRef: main\nStatus: failed\nUpdated: just now");
}

fn mr(title: &str) -> MergeRequest {
    MergeRequest {
        iid: 1,
        title: title.to_string(),
        state: "opened".to_string(),
        labels: vec![],
        updated_at: String::new(),
        author: Author { username: "u".to_string() },
    }
}

#[test]
fn merge_request_search_is_fuzzy() {
    assert!(matches_fuzzy("abc", "ac"));
    assert!(matches_fuzzy("Add Login Page", "ALP"));
    assert!(!matches_fuzzy("abc", "ca"));
    assert!(matches_fuzzy("x", ""));
    let rows = filter_mrs(&vec![mr("abc"), mr("bca"), mr("xaxc")], "AC");
    assert_eq!(rows, vec![0, 2]);
    assert_eq!(filter_issues(&vec![issue("abc")], "ac"), Vec::<usize>::new());
    let p = glab_tui::gitlab::pipelines::Pipeline {
        id: 1,
        status: "success".to_string(),
        ref_name: "abc".to_string(),
        updated_at: String::new(),
    };
    assert_eq!(filter_pipelines(&vec![p], "ac"), Vec::<usize>::new());
}

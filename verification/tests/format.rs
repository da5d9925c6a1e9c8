use glab_tui::utils::format::{decimal_string, elapsed_phrase, format_ref, time_ago, truncate};
use glab_tui::utils::markdown::{render_markdown, SpanStyle};

#[test]
fn test_format_ref() {
    assert_eq!(format_ref("refs/merge-requests/123/merge"), "MR !123");
    assert_eq!(format_ref("refs/merge-requests/456/head"), "MR !456");
    assert_eq!(format_ref("refs/heads/feature/login"), "feature/login");
    assert_eq!(format_ref("refs/tags/v1.2.3"), "v1.2.3");
    assert_eq!(format_ref("main"), "main");
}

#[test]
fn test_render_markdown() {
    let md = "# Header1\n## Header2\n- Bullet `code` item\nNormal line with **bold** text";
    let lines = render_markdown(md);
    assert_eq!(lines.len(), 4);
}

#[test]
fn format_ref_edge_cases() {
    assert_eq!(format_ref("refs/merge-requests/7"), "MR !7");
    assert_eq!(format_ref("refs/merge-requests//merge"), "MR !");
    assert_eq!(format_ref("refs/heads/"), "");
    assert_eq!(format_ref(""), "");
    assert_eq!(format_ref("refs/other/x"), "refs/other/x");
}

#[test]
fn truncate_cuts_by_characters() {
    assert_eq!(truncate("hello", 5), "hello");
    assert_eq!(truncate("hello", 3), "hel...");
    assert_eq!(truncate("héllo wörld", 4), "héll...");
    assert_eq!(truncate("", 0), "");
    assert_eq!(truncate("ab", 0), "...");
}

#[test]
fn decimal_numerals() {
    assert_eq!(decimal_string(0), "0");
    assert_eq!(decimal_string(7), "7");
    assert_eq!(decimal_string(1234567890), "1234567890");
    assert_eq!(decimal_string(u64::MAX), "18446744073709551615");
}

#[test]
fn elapsed_phrases() {
    assert_eq!(elapsed_phrase(-5), "just now");
    assert_eq!(elapsed_phrase(0), "just now");
    assert_eq!(elapsed_phrase(59), "just now");
    assert_eq!(elapsed_phrase(60), "1 min ago");
    assert_eq!(elapsed_phrase(150), "2 mins ago");
    assert_eq!(elapsed_phrase(3600), "1 hr ago");
    assert_eq!(elapsed_phrase(7300), "2 hrs ago");
    assert_eq!(elapsed_phrase(86400), "1 day ago");
    assert_eq!(elapsed_phrase(86400 * 3 + 5), "3 days ago");
}

#[test]
fn time_ago_passes_unreadable_text_through() {
    assert_eq!(time_ago("not a date"), "not a date");
    assert_eq!(time_ago(""), "");
}

#[test]
fn time_ago_reads_rfc3339_times() {
    assert_eq!(time_ago("2000-01-01T00:00:00Z"), format!("{} days ago", {
        let s = time_ago("2000-01-01T00:00:00Z");
        s.trim_end_matches(" days ago").to_string()
    }));
    assert!(time_ago("2000-01-01T00:00:00.000Z").ends_with(" days ago"));
    assert_eq!(time_ago("2999-01-01T00:00:00Z"), "just now");
}

#[test]
fn markdown_styles_each_kind_of_line() {
    let md = "# Title\n## Sub\n### Third\n- item `x`\n* star\n> quote **b**\nplain\r\n  indented  \n";
    let lines = render_markdown(md);
    assert_eq!(lines.len(), 8);
    assert_eq!(lines[0].spans.len(), 1);
    assert_eq!(lines[0].spans[0].text, "# Title");
    assert_eq!(lines[0].spans[0].style, SpanStyle::Heading1);
    assert_eq!(lines[1].spans[0].style, SpanStyle::Heading2);
    assert_eq!(lines[2].spans[0].text, "### Third");
    assert_eq!(lines[2].spans[0].style, SpanStyle::Heading3);
    assert_eq!(lines[3].spans[0].text, "  \u{2022} ");
    assert_eq!(lines[3].spans[1].text, "item ");
    assert_eq!(lines[3].spans[1].style, SpanStyle::Plain);
    assert_eq!(lines[3].spans[2].text, "x");
    assert_eq!(lines[3].spans[2].style, SpanStyle::Code);
    assert_eq!(lines[4].spans[0].style, SpanStyle::BulletMarker);
    assert_eq!(lines[4].spans[1].text, "star");
    assert_eq!(lines[5].spans[0].text, "  \u{258c} ");
    assert_eq!(lines[5].spans[0].style, SpanStyle::QuoteMarker);
    assert_eq!(lines[5].spans[2].text, "b");
    assert_eq!(lines[5].spans[2].style, SpanStyle::Bold);
    assert_eq!(lines[6].spans.len(), 1);
    assert_eq!(lines[6].spans[0].text, "plain");
    assert_eq!(lines[7].spans[0].text, "  indented  ");
}

#[test]
fn markdown_inline_edge_cases() {
    let lines = render_markdown("a `unclosed\n**open bold\n``\n****\nx**");
    assert_eq!(lines.len(), 5);
    assert_eq!(lines[0].spans.len(), 2);
    assert_eq!(lines[0].spans[1].text, "unclosed");
    assert_eq!(lines[0].spans[1].style, SpanStyle::Code);
    assert_eq!(lines[1].spans.len(), 1);
    assert_eq!(lines[1].spans[0].text, "open bold");
    assert_eq!(lines[1].spans[0].style, SpanStyle::Bold);
    assert_eq!(lines[2].spans.len(), 1);
    assert_eq!(lines[2].spans[0].text, "");
    assert_eq!(lines[3].spans.len(), 1);
    assert_eq!(lines[3].spans[0].text, "");
    assert_eq!(lines[3].spans[0].style, SpanStyle::Bold);
    assert_eq!(lines[4].spans.len(), 2);
    assert_eq!(lines[4].spans[0].text, "x");
    assert_eq!(lines[4].spans[1].text, "");
    assert_eq!(render_markdown("").len(), 0);
    assert_eq!(render_markdown("\n").len(), 1);
    assert_eq!(render_markdown("a\r").len(), 1);
}

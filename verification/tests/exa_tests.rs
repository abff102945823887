use otask::exa::{format_results, results_formattable, SearchHit};

fn hit(title: Option<&str>, url: Option<&str>, date: Option<&str>, highlights: Option<Vec<Option<&str>>>) -> SearchHit {
    SearchHit {
        title: title.map(|s| s.to_string()),
        url: url.map(|s| s.to_string()),
        published_date: date.map(|s| s.to_string()),
        highlights: highlights.map(|hs| hs.into_iter().map(|h| h.map(|s| s.to_string())).collect()),
    }
}

#[test]
fn no_results() {
    assert_eq!(format_results(&None, "rust"), "[web search: rust]\n\nNo results found.\n");
    assert_eq!(format_results(&Some(Vec::new()), "rust"), "[web search: rust]\n\n");
}

#[test]
fn results_are_listed_with_dates_and_highlights() {
    let hits = Some(vec![
        hit(Some("Tokio"), Some("https://tokio.rs"), Some("2024-01-02T00:00:00Z"), Some(vec![Some(" fast "), None, Some("  "), Some("x")])),
        hit(None, None, None, None),
    ]);
    assert!(results_formattable(&hits));
    assert_eq!(
        format_results(&hits, "async"),
        "[web search: async]\n\n1. **Tokio** \u{b7} 2024-01-02\n   https://tokio.rs\n   > fast\n\n2. **Untitled**\n   \n\n"
    );
}

#[test]
fn short_dates_are_kept_whole() {
    let hits = Some(vec![hit(Some("T"), Some("u"), Some("2024"), None)]);
    assert_eq!(format_results(&hits, "q"), "[web search: q]\n\n1. **T** \u{b7} 2024\n   u\n\n");
}

#[test]
fn a_date_cut_inside_a_character_is_refused() {
    let hits = Some(vec![hit(Some("T"), Some("u"), Some("2024-01-0\u{e9}"), None)]);
    assert!(!results_formattable(&hits));
    let ok = Some(vec![hit(Some("T"), Some("u"), Some("2024-01-\u{e9}x"), None)]);
    assert!(results_formattable(&ok));
    assert_eq!(format_results(&ok, "q"), "[web search: q]\n\n1. **T** \u{b7} 2024-01-\u{e9}\n   u\n\n");
}

use alexandria_nexus::domain::AuthorRole;
use alexandria_nexus::render::components::{
    pages_prefix, render_authors, render_institution, render_journal, render_people,
    render_publisher, render_school, render_series,
};
use alexandria_nexus::render::context::AuthorName;


#[test]
fn test_pages_prefix_range() {
    // Single-hyphen ranges (e.g. "57--72", "100-120" in corpus)
    assert_eq!(pages_prefix("1-25"), "pp.");
    assert_eq!(pages_prefix("57-72"), "pp.");
    assert_eq!(pages_prefix("129-144"), "pp.");
    // Double-hyphen ranges (most common form in corpus: "1--14", "3--18")
    assert_eq!(pages_prefix("1--14"), "pp.");
    assert_eq!(pages_prefix("3--18"), "pp.");
    assert_eq!(pages_prefix("57--72"), "pp.");
    // Roman numeral ranges
    assert_eq!(pages_prefix("v-x"), "pp.");
    // Already-normalized en-dash
    assert_eq!(pages_prefix("1\u{2013}25"), "pp.");
}

#[test]
fn test_pages_prefix_single_numeric() {
    // Plain page numbers seen in incollection entries (e.g. 289, 221, 1)
    assert_eq!(pages_prefix("1"), "p.");
    assert_eq!(pages_prefix("42"), "p.");
    assert_eq!(pages_prefix("289"), "p.");
}

#[test]
fn test_pages_prefix_single_roman() {
    // Roman numeral intro pages seen in incollection entries (ix, vii, xi)
    assert_eq!(pages_prefix("ix"), "p.");
    assert_eq!(pages_prefix("vii"), "p.");
    assert_eq!(pages_prefix("xi"), "p.");
    assert_eq!(pages_prefix("v"), "p.");
}

// =========================================================================
// render_journal
// =========================================================================

#[test]
fn test_render_journal_with_key() {
    let html = render_journal(Some("Dialectica"), Some("dialectica"));
    assert!(html.contains("data-journal-key=\"dialectica\""));
    assert!(html.contains("<em data-journal-key=\"dialectica\">Dialectica</em>"));
}

#[test]
fn test_render_journal_without_key() {
    let html = render_journal(Some("Dialectica"), None);
    assert!(!html.contains("data-journal-key"));
    assert!(html.contains("<em>Dialectica</em>"));
}

#[test]
fn test_render_journal_key_escaped() {
    let html = render_journal(Some("J&J"), Some("j\"key"));
    assert!(html.contains("data-journal-key=\"j&quot;key\""));
    assert!(html.contains("J&amp;J"));
}

#[test]
fn test_render_journal_empty_name() {
    assert!(render_journal(Some(""), Some("key")).is_empty());
    assert!(render_journal(None, Some("key")).is_empty());
}

// =========================================================================
// render_publisher
// =========================================================================

#[test]
fn test_render_publisher_with_key_and_address() {
    let html = render_publisher(Some("Oxford"), Some("OUP"), Some("oup"));
    assert!(html.contains("data-publisher-key=\"oup\""));
    assert!(html.contains(
        "Oxford: <span data-field=\"publisher\" data-publisher-key=\"oup\">OUP</span>"
    ));
}

#[test]
fn test_render_publisher_with_key_no_address() {
    let html = render_publisher(None, Some("OUP"), Some("oup"));
    assert!(html.contains("data-publisher-key=\"oup\""));
    assert!(
        html.contains("<span data-field=\"publisher\" data-publisher-key=\"oup\">OUP</span>")
    );
}

#[test]
fn test_render_publisher_without_key() {
    let html = render_publisher(Some("Oxford"), Some("OUP"), None);
    assert!(!html.contains("data-publisher-key"));
    assert!(html.contains("Oxford: <span data-field=\"publisher\">OUP</span>"));
}

#[test]
fn test_render_publisher_key_escaped() {
    let html = render_publisher(None, Some("P&P"), Some("p\"k"));
    assert!(html.contains("data-publisher-key=\"p&quot;k\""));
    assert!(html.contains("P&amp;P"));
}

// =========================================================================
// render_series
// =========================================================================

#[test]
fn test_render_series_with_key() {
    let html = render_series(Some("Cambridge Studies"), Some("cambridge_studies"), None);
    assert!(html.contains("data-series-key=\"cambridge_studies\""));
    assert!(html.contains(
        "data-field=\"series\" data-series-key=\"cambridge_studies\">Cambridge Studies</span>"
    ));
}

#[test]
fn test_render_series_without_key() {
    let html = render_series(Some("Cambridge Studies"), None, None);
    assert!(!html.contains("data-series-key"));
    assert!(html.contains("<span data-field=\"series\">Cambridge Studies</span>"));
}

#[test]
fn test_render_series_key_escaped() {
    let html = render_series(Some("S&S"), Some("s<k"), None);
    assert!(html.contains("data-series-key=\"s&lt;k\""));
    assert!(html.contains("S&amp;S"));
}

#[test]
fn test_render_series_empty_name() {
    assert!(render_series(Some(""), Some("key"), None).is_empty());
    assert!(render_series(None, Some("key"), None).is_empty());
}

#[test]
fn test_render_series_with_number() {
    let html = render_series(
        Some("Contemporary Debates in Philosophy"),
        Some("cdp"),
        Some("10"),
    );
    assert!(
        html.contains("Contemporary Debates in Philosophy</span> n.\u{00a0}<span data-field=\"number\">10</span>"),
        "series name followed by number: {html}"
    );
}

#[test]
fn test_render_series_number_without_name() {
    let html = render_series(None, None, Some("10"));
    assert!(html.is_empty(), "no series name means no output");
}

#[test]
fn test_render_series_empty_number() {
    let html = render_series(Some("Oxford Handbooks"), Some("oh"), Some(""));
    assert!(
        !html.contains("n.\u{00a0}"),
        "empty number is not rendered: {html}"
    );
    assert!(html.contains("Oxford Handbooks"), "name still rendered");
}

// =========================================================================
// render_school
// =========================================================================

#[test]
fn test_render_school_with_key() {
    let html = render_school(Some("MIT"), Some("mit"));
    assert!(html.contains("data-school-key=\"mit\""));
    assert!(html.contains("data-field=\"school\" data-school-key=\"mit\">MIT</span>"));
}

#[test]
fn test_render_school_without_key() {
    let html = render_school(Some("MIT"), None);
    assert!(!html.contains("data-school-key"));
    assert!(html.contains("<span data-field=\"school\">MIT</span>"));
}

#[test]
fn test_render_school_key_escaped() {
    let html = render_school(Some("U&T"), Some("u\"t"));
    assert!(html.contains("data-school-key=\"u&quot;t\""));
    assert!(html.contains("U&amp;T"));
}

#[test]
fn test_render_school_empty_name() {
    assert!(render_school(Some(""), Some("key")).is_empty());
    assert!(render_school(None, Some("key")).is_empty());
}

// =========================================================================
// render_institution
// =========================================================================

#[test]
fn test_render_institution_with_key() {
    let html = render_institution(Some("CERN"), Some("cern"));
    assert!(html.contains("data-institution-key=\"cern\""));
    assert!(
        html.contains("data-field=\"institution\" data-institution-key=\"cern\">CERN</span>")
    );
}

#[test]
fn test_render_institution_without_key() {
    let html = render_institution(Some("CERN"), None);
    assert!(!html.contains("data-institution-key"));
    assert!(html.contains("<span data-field=\"institution\">CERN</span>"));
}

#[test]
fn test_render_institution_key_escaped() {
    let html = render_institution(Some("I&I"), Some("i<k"));
    assert!(html.contains("data-institution-key=\"i&lt;k\""));
    assert!(html.contains("I&amp;I"));
}

#[test]
fn test_render_institution_empty_name() {
    assert!(render_institution(Some(""), Some("key")).is_empty());
    assert!(render_institution(None, Some("key")).is_empty());
}

// =========================================================================
// pages_prefix
// =========================================================================

#[test]
fn test_pages_prefix_article_only_values() {
    // These patterns appear exclusively in article entries (prefix not applied there),
    // but the function should still return "p." since none contain a dash.
    // Electronic article IDs (e.g. e12560, e0173496)
    assert_eq!(pages_prefix("e12560"), "p.");
    assert_eq!(pages_prefix("e0173496"), "p.");
    // Supplement pages (S640, S87)
    assert_eq!(pages_prefix("S640"), "p.");
    assert_eq!(pages_prefix("S87"), "p.");
    // Variant page labels (59b)
    assert_eq!(pages_prefix("59b"), "p.");
    // Discontinuous pages stored as comma list (no dash → p.)
    assert_eq!(pages_prefix("248, 260"), "p.");
    assert_eq!(pages_prefix("39a, 39b"), "p.");
    // Dirty data seen in incollection (Mar 16, ad loc.)
    assert_eq!(pages_prefix("Mar 16"), "p.");
    assert_eq!(pages_prefix("ad loc."), "p.");
}

fn jane_smith() -> AuthorName {
    AuthorName {
        author_key: "smith-j".to_string(),
        family: Some("Smith".to_string()),
        given: Some("Jane".to_string()),
        mononym: None,
        variant_unicode: None,
    }
}

#[test]
fn render_authors_writes_no_author_keys() {
    let html = render_authors(&[jane_smith()], AuthorRole::Author, false);
    assert!(html.contains("data-field=\"author\""));
    assert!(html.contains("class=\"smallcaps\">Smith</span>"));
    assert!(html.contains("data-field=\"given\">Jane</span>"));
    assert!(!html.contains("data-author-key"));
}

#[test]
fn render_people_keyed_writes_author_keys() {
    let html = render_people(&[jane_smith()], AuthorRole::Author, false, true);
    assert!(html.contains("data-author-key=\"smith-j\""));
    assert!(html.contains("data-field=\"given\">Jane</span>"));
}

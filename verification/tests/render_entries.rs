use alexandria_nexus::domain::{BibItem, EntryType};
use alexandria_nexus::render::context::{AuthorName, RenderContext};
use alexandria_nexus::render::entries::{render_bibitem, render_bibliography};


/// Helper: create a minimal article BibItem for testing.
fn make_article(bibkey: &str, title: &str, year: Option<i16>) -> BibItem {
    make_bibitem(EntryType::Article, bibkey, title, year)
}

/// Helper: create a minimal BibItem for testing.
fn make_bibitem(
    entry_type: EntryType,
    bibkey: &str,
    title: &str,
    year: Option<i16>,
) -> BibItem {
    BibItem {
        id: 1,
        bibkey: bibkey.to_string(),
        entry_type,
        date_year: year,
        date_year_2_hyphen: None,
        date_year_2_slash: None,
        date_month: None,
        date_day: None,
        date_is_no_date: year.is_none(),
        pubstate: None,
        title_latex: title.to_string(),
        title_unicode: title.to_string(),
        title_simplified: title.to_string(),
        booktitle_latex: None,
        booktitle_unicode: None,
        booktitle_simplified: None,
        journal_id: None,
        publisher_id: None,
        address: None,
        volume: None,
        number: None,
        pages: None,
        eid: None,
        series_id: None,
        edition: None,
        institution_id: None,
        school_id: None,
        type_field: None,
        doi: None,
        url: None,
        eprint: None,
        urn: None,
        crossref_id: None,
        issuetitle_latex: None,
        issuetitle_unicode: None,
        note_latex: None,
        note_unicode: None,
        extra_note_latex: None,
        extra_note_unicode: None,
        langid: None,
        is_translation: false,
        epoch: None,
        options: None,
        shorthand: None,
        person_id: None,
        has_fulltext: false,
        fulltext_path: None,
    }
}

/// Helper: create an AuthorName with family + given.
fn make_author(given: &str, family: &str) -> AuthorName {
    AuthorName {
        author_key: String::new(),
        family: Some(family.to_string()),
        given: Some(given.to_string()),
        mononym: None,
        variant_unicode: None,
    }
}

/// Helper: create an AuthorName with a mononym.
#[allow(dead_code)]
fn make_mononym(name: &str) -> AuthorName {
    AuthorName {
        author_key: String::new(),
        family: None,
        given: None,
        mononym: Some(name.to_string()),
        variant_unicode: None,
    }
}

// =========================================================================
// Test: book edited (no author)
// =========================================================================

#[test]
fn test_render_book_edited() {
    let mut item = make_bibitem(
        EntryType::Book,
        "wellman-frey:2003",
        "A Companion to Applied Ethics",
        Some(2003),
    );
    item.address = Some("Oxford".to_string());

    let ctx = RenderContext {
        editors: vec![
            make_author("R. G.", "Wellman"),
            make_author("Christopher Heath", "Frey"),
        ],
        publisher_name: Some("Blackwell".to_string()),
        ..Default::default()
    };

    let html = render_bibitem(&item, &ctx);

    assert!(
        html.contains("data-field=\"editor\""),
        "editor field present"
    );
    assert!(html.contains(", eds."), "plural editors suffix");
    assert!(!html.contains("data-field=\"author\""), "no author field");
}

// =========================================================================
// Test: incollection
// =========================================================================

#[test]
fn test_render_incollection() {
    let mut item = make_bibitem(
        EntryType::Incollection,
        "doe:2020ch",
        "A Chapter Title",
        Some(2020),
    );
    item.booktitle_unicode = Some("The Big Book".to_string());
    item.pages = Some("100-120".to_string());
    item.address = Some("New York".to_string());

    let ctx = RenderContext {
        authors: vec![make_author("John", "Doe")],
        editors: vec![make_author("Jane", "Editor")],
        publisher_name: Some("Academic Press".to_string()),
        ..Default::default()
    };

    let html = render_bibitem(&item, &ctx);

    assert!(html.contains("data-type=\"incollection\""), "entry type");
    assert!(
        html.contains("\u{201c}A Chapter Title\u{201d}"),
        "quoted title"
    );
    assert!(
        html.contains("In <span data-field=\"booktitle\"><em>The Big Book</em></span>"),
        "booktitle"
    );
    assert!(html.contains("edited by Jane Editor"), "editor inline");
    assert!(html.contains("pp. "), "pages prefix");
    assert!(html.contains("100\u{2013}120"), "pages with en-dash");
}

// =========================================================================
// Test: thesis
// =========================================================================

#[test]
fn test_render_thesis() {
    let item = make_bibitem(
        EntryType::Phdthesis,
        "student:2023",
        "My Dissertation",
        Some(2023),
    );

    let ctx = RenderContext {
        authors: vec![make_author("Alice", "Student")],
        school_name: Some("University of Somewhere".to_string()),
        ..Default::default()
    };

    let html = render_bibitem(&item, &ctx);

    assert!(html.contains("data-type=\"phdthesis\""), "entry type");
    assert!(
        html.contains("\u{201c}My Dissertation\u{201d}"),
        "quoted title"
    );
    assert!(html.contains("PhD thesis"), "thesis type");
    assert!(html.contains("University of Somewhere"), "school name");
}

// =========================================================================
// Test: unpublished
// =========================================================================

#[test]
fn test_render_unpublished() {
    let mut item = make_bibitem(
        EntryType::Unpublished,
        "draft:2024",
        "Work in Progress",
        Some(2024),
    );
    item.note_unicode = Some("Manuscript in preparation".to_string());

    let ctx = RenderContext {
        authors: vec![make_author("Bob", "Writer")],
        ..Default::default()
    };

    let html = render_bibitem(&item, &ctx);

    assert!(html.contains("data-type=\"unpublished\""), "entry type");
    assert!(
        html.contains("\u{201c}Work in Progress\u{201d}"),
        "quoted title"
    );
    assert!(html.contains("Manuscript in preparation"), "note present");
}

// =========================================================================
// Test: mononym author
// =========================================================================


// =========================================================================
// Test: no date
// =========================================================================

#[test]
fn test_render_no_date() {
    let item = make_article("anon:nd", "Unknown Work", None);

    let ctx = RenderContext {
        authors: vec![make_author("Anon", "Author")],
        ..Default::default()
    };

    let html = render_bibitem(&item, &ctx);

    assert!(
        html.contains("data-field=\"date\">n.d.</span>"),
        "n.d. for no date"
    );
}

// =========================================================================
// Test: 11+ authors (truncation)
// =========================================================================

#[test]
fn test_render_11_authors() {
    let item = make_article("many:2024", "Collaborative Work", Some(2024));

    let authors: Vec<AuthorName> = (1..=12)
        .map(|i| make_author(&format!("Author{i}"), &format!("Family{i}")))
        .collect();

    let ctx = RenderContext {
        authors,
        ..Default::default()
    };

    let html = render_bibitem(&item, &ctx);

    assert!(html.contains("et al."), "et al. for 11+ authors");
    // Should contain first 7 authors
    assert!(html.contains("Family1"), "first author present");
    assert!(html.contains("Family7"), "seventh author present");
    // Should NOT contain 8th+ authors
    assert!(!html.contains("Family8"), "eighth author omitted");
    assert!(!html.contains("Family12"), "twelfth author omitted");
}

// =========================================================================
// Test: DOI link rendering
// =========================================================================

#[test]
fn test_render_doi_link() {
    let mut item = make_article("test:doi", "Test", Some(2024));
    item.doi = Some("10.1234/test".to_string());

    let ctx = RenderContext {
        authors: vec![make_author("Test", "Author")],
        ..Default::default()
    };

    let html = render_bibitem(&item, &ctx);

    assert!(
        html.contains("doi:<a href=\"https://doi.org/10.1234/test\">10.1234/test</a>"),
        "DOI rendered as link"
    );
}

// =========================================================================
// Test: URL fallback (no DOI)
// =========================================================================

#[test]
fn test_render_url_fallback() {
    let mut item = make_article("test:url", "Test", Some(2024));
    item.url = Some("https://example.com/paper".to_string());

    let ctx = RenderContext {
        authors: vec![make_author("Test", "Author")],
        ..Default::default()
    };

    let html = render_bibitem(&item, &ctx);

    assert!(
        html.contains("<a href=\"https://example.com/paper\">https://example.com/paper</a>"),
        "URL rendered as link"
    );
    assert!(!html.contains("doi:"), "no DOI prefix");
}

// =========================================================================
// Test: consecutive author suppression (em-dash)
// =========================================================================

#[test]
fn test_consecutive_author_suppression() {
    let item1 = make_article("smith:2020", "First Paper", Some(2020));
    let item2 = make_article("smith:2021", "Second Paper", Some(2021));

    let ctx1 = RenderContext {
        authors: vec![make_author("Jane", "Smith")],
        ..Default::default()
    };
    let ctx2 = RenderContext {
        authors: vec![make_author("Jane", "Smith")],
        ..Default::default()
    };

    let html = render_bibliography(&[(item1, ctx1), (item2, ctx2)]);

    let lines: Vec<&str> = html.lines().collect();
    assert_eq!(lines.len(), 2, "two entries");
    // First entry should have the full author
    assert!(lines[0].contains("Smith"), "first has author");
    // Second entry should have em-dash
    assert!(lines[1].contains("\u{2014}"), "second has em-dash");
}

// =========================================================================
// Test: HTML escaping
// =========================================================================

#[test]
fn test_html_escaping() {
    let item = make_article(
        "escape:test",
        "Title with <b>HTML</b> & \"quotes\"",
        Some(2024),
    );

    let ctx = RenderContext {
        authors: vec![make_author("A&B", "O'Test")],
        ..Default::default()
    };

    let html = render_bibitem(&item, &ctx);

    // Check that HTML entities are escaped
    assert!(
        html.contains("&lt;b&gt;HTML&lt;/b&gt;"),
        "HTML tags escaped in title"
    );
    assert!(html.contains("&amp;"), "ampersand escaped");
    assert!(
        html.contains("&quot;quotes&quot;"),
        "quotes escaped in title"
    );
    assert!(html.contains("A&amp;B"), "ampersand in author escaped");
}

// =========================================================================
// Own cases
// =========================================================================

use alexandria_nexus::domain::{Author, AuthorRole, BibitemAuthorsRow};
use alexandria_nexus::keymap::StrMap;
use alexandria_nexus::render::entries::{extract_role_authors, render_date};

#[test]
fn article_exact_rendering() {
    let mut item = make_article("smith:2024", "Some Title", Some(2024));
    item.volume = Some("78".to_string());
    item.number = Some("1".to_string());
    item.pages = Some("1-25".to_string());
    let mut a = make_author("Jane", "Smith");
    a.author_key = "smith_j".to_string();
    let ctx = RenderContext {
        authors: vec![a],
        journal_name: Some("Dialectica".to_string()),
        ..Default::default()
    };
    assert_eq!(
        render_bibitem(&item, &ctx),
        "<div class=\"csl-entry\" data-type=\"article\" data-bibkey=\"smith:2024\">\
<span data-field=\"author\"><span data-field=\"family\" class=\"smallcaps\">Smith</span>, \
<span data-field=\"given\">Jane</span></span>. <span data-field=\"date\">2024</span>. \
<span data-field=\"title\">\u{201c}Some Title\u{201d}</span>. \
<span data-field=\"journal\"><em>Dialectica</em></span> <span data-field=\"volume\">78</span>\
(<span data-field=\"number\">1</span>): <span data-field=\"pages\">1\u{2013}25</span>.</div>"
    );
}

#[test]
fn article_eid_without_pages() {
    let mut item = make_article("e:1", "T", Some(2000));
    item.eid = Some("e123".to_string());
    let html = render_bibitem(&item, &RenderContext::default());
    assert!(html.contains("</span>. <span data-field=\"eid\">e123</span>.</div>"));
}

#[test]
fn thesis_type_field_and_master() {
    let mut item = make_bibitem(EntryType::Mastersthesis, "m:1", "M", Some(1999));
    let html = render_bibitem(&item, &RenderContext::default());
    assert!(html.contains("Master\u{2019}s thesis."));
    item.type_field = Some("Habilitation".to_string());
    let html = render_bibitem(&item, &RenderContext::default());
    assert!(html.contains("\u{201d}</span>. Habilitation.</div>"));
}

#[test]
fn generic_with_institution_and_note() {
    let mut item = make_bibitem(EntryType::Misc, "g:1", "Report", None);
    item.note_unicode = Some("Draft".to_string());
    let ctx = RenderContext { institution_name: Some("CSLI".to_string()), ..Default::default() };
    let html = render_bibitem(&item, &ctx);
    assert!(html.ends_with("<span data-field=\"date\">n.d.</span>. <span data-field=\"title\"><em>Report</em></span>. Draft. CSLI.</div>"));
}

#[test]
fn chapter_volume_and_eid() {
    let mut item = make_bibitem(EntryType::Inproceedings, "c:1", "C", Some(2001));
    item.volume = Some("3".to_string());
    item.eid = Some("x7".to_string());
    let ctx = RenderContext {
        editors: vec![make_author("Ann", "Lee"), make_author("", "Kim"), make_author("Bo", "Park")],
        ..Default::default()
    };
    let html = render_bibitem(&item, &ctx);
    assert!(html.contains("\u{201d}</span>. volume <span data-field=\"volume\">3</span>, edited by Ann Lee, Kim and Bo Park, <span data-field=\"eid\">x7</span>.</div>"));
}

#[test]
fn date_spans() {
    let item = make_article("d:1", "T", Some(-350));
    assert_eq!(render_date(&item), "<span data-field=\"date\">-350</span>");
    let item = make_article("d:2", "T", None);
    assert_eq!(render_date(&item), "<span data-field=\"date\">n.d.</span>");
}

#[test]
fn role_authors_by_position() {
    let a = Author {
        id: 1,
        author_key: "k1".to_string(),
        family_name_latex: None,
        family_name_unicode: Some("Smith".to_string()),
        famous_name_latex: None,
        famous_name_unicode: None,
        famous: false,
        given_name_latex: None,
        given_name_unicode: Some("J".to_string()),
        mononym_latex: None,
        mononym_unicode: None,
        name_variants_latex: None,
        name_variants_unicode: None,
        shorthand_latex: None,
        shorthand_unicode: None,
    };
    let mut map = StrMap::new();
    map.insert("k1", a);
    let r1 = BibitemAuthorsRow {
        bibkey: "b".to_string(),
        author_key: "k1".to_string(),
        role: "author".to_string(),
        position: 2,
        name_variant_latex: None,
        name_variant_unicode: Some("Smyth".to_string()),
    };
    let r2 = BibitemAuthorsRow { author_key: "nobody".to_string(), position: 1, ..r1.clone() };
    let rows = vec![&r1, &r2];
    let names = extract_role_authors(Some(&rows), AuthorRole::Author, &map);
    assert_eq!(names.len(), 1);
    assert_eq!(names[0].family, Some("Smith".to_string()));
    assert_eq!(names[0].variant_unicode, Some("Smyth".to_string()));
    assert!(extract_role_authors(Some(&rows), AuthorRole::Editor, &map).is_empty());
    assert!(extract_role_authors(None, AuthorRole::Author, &map).is_empty());
}

#[test]
fn test_render_article() {
    let mut item = make_article("smith:2024", "Some Title", Some(2024));
    item.volume = Some("78".to_string());
    item.number = Some("1".to_string());
    item.pages = Some("1-25".to_string());
    item.doi = Some("10.48106/dial.v78.i1.01".to_string());

    let ctx = RenderContext {
        authors: vec![make_author("Jane", "Smith")],
        journal_name: Some("Dialectica".to_string()),
        ..Default::default()
    };

    let html = render_bibitem(&item, &ctx);

    assert!(html.contains("data-field=\"author\""), "should have author field");
    assert!(html.contains("class=\"smallcaps\">Smith</span>"), "family name in smallcaps");
    assert!(html.contains("data-field=\"given\">Jane</span>"), "given name present");
    assert!(html.contains("data-field=\"date\">2024</span>"), "year present");
    assert!(html.contains("\u{201c}Some Title\u{201d}"), "title in quotes");
    assert!(html.contains("<em>Dialectica</em>"), "journal in italics");
    assert!(html.contains("data-field=\"volume\">78</span>"), "volume");
    assert!(html.contains("data-field=\"number\">1</span>"), "number");
    assert!(html.contains("data-field=\"pages\">1\u{2013}25</span>"), "pages with en-dash");
    assert!(html.contains("doi:<a href=\"https://doi.org/10.48106/dial.v78.i1.01\">"), "DOI link");
    assert!(html.contains("data-type=\"article\""), "entry type");
    assert!(html.contains("data-bibkey=\"smith:2024\""), "bibkey");
}

#[test]
fn test_render_book() {
    let mut item = make_bibitem(EntryType::Book, "kant:1781", "Critique of Pure Reason", Some(1781));
    item.address = Some("Riga".to_string());

    let ctx = RenderContext {
        authors: vec![make_author("Immanuel", "Kant")],
        publisher_name: Some("Johann Friedrich Hartknoch".to_string()),
        ..Default::default()
    };

    let html = render_bibitem(&item, &ctx);

    assert!(html.contains("data-type=\"book\""), "entry type book");
    assert!(html.contains("class=\"smallcaps\">Kant</span>"), "author family");
    assert!(html.contains("<em>Critique of Pure Reason</em>"), "title in italics");
    assert!(html.contains("Riga: "), "address present");
    assert!(html.contains("data-field=\"publisher\">Johann Friedrich Hartknoch</span>"), "publisher");
}

#[test]
fn test_render_mononym() {
    let item = make_article("aristotle:meta", "Metaphysics", Some(-350));

    let ctx = RenderContext { authors: vec![make_mononym("Aristotle")], ..Default::default() };

    let html = render_bibitem(&item, &ctx);

    assert!(html.contains("data-field=\"author-name\">Aristotle</span>"), "mononym rendered");
    assert!(!html.contains("class=\"smallcaps\""), "no smallcaps for mononym");
}

#[test]
fn suppressed_author_in_an_entry_has_no_keys() {
    let item = make_article("a:1", "T", Some(2000));
    let mut a = make_author("Jane", "Smith");
    a.author_key = "smith_j".to_string();
    let ctx = RenderContext { authors: vec![a], suppress_author: true, ..Default::default() };
    let html = render_bibitem(&item, &ctx);
    assert!(html.contains("<span data-field=\"author\">\u{2014}</span>"));
    assert!(!html.contains("data-author-key"));
}

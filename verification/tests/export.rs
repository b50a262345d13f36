use alexandria_nexus::domain::{Author, AuthorRole, BibitemAuthorsRow, BibitemKeywordsRow, Keyword};
use alexandria_nexus::export::{
    format_keywords_at_level, format_role_ids, format_role_names, opt_i16, opt_i64, opt_str,
    present_keys, ExportFormat,
};
use alexandria_nexus::keymap::StrMap;

fn make_author(key: &str, family: &str, given: &str) -> Author {
    Author {
        id: 1,
        author_key: key.to_string(),
        family_name_latex: None,
        family_name_unicode: Some(family.to_string()),
        famous_name_latex: None,
        famous_name_unicode: None,
        famous: false,
        given_name_latex: None,
        given_name_unicode: Some(given.to_string()),
        mononym_latex: None,
        mononym_unicode: None,
        name_variants_latex: None,
        name_variants_unicode: None,
        shorthand_latex: None,
        shorthand_unicode: None,
    }
}

fn make_row(
    bibkey: &str,
    author_key: &str,
    role: &str,
    position: i16,
    name_variant_latex: Option<&str>,
) -> BibitemAuthorsRow {
    BibitemAuthorsRow {
        bibkey: bibkey.to_string(),
        author_key: author_key.to_string(),
        role: role.to_string(),
        position,
        name_variant_latex: name_variant_latex.map(str::to_string),
        name_variant_unicode: None,
    }
}

#[test]
fn uses_name_variant_latex_when_present() {
    let author = make_author("key1", "Smith", "John");
    let row = make_row("bib1", "key1", "author", 1, Some("Schmidt, Hans"));
    let rows = vec![&row];
    let mut map = StrMap::new();
    map.insert("key1", author);
    assert_eq!(format_role_names(Some(&rows), AuthorRole::Author, &map), "Schmidt, Hans");
}

#[test]
fn falls_back_to_canonical_when_no_variant() {
    let author = make_author("key1", "Smith", "John");
    let row = make_row("bib1", "key1", "author", 1, None);
    let rows = vec![&row];
    let mut map = StrMap::new();
    map.insert("key1", author);
    assert_eq!(format_role_names(Some(&rows), AuthorRole::Author, &map), "Smith, John");
}

#[test]
fn mixed_variant_and_canonical() {
    let a1 = make_author("key1", "Smith", "John");
    let a2 = make_author("key2", "Müller", "Hans");
    let row1 = make_row("bib1", "key1", "author", 1, Some("Schmidt, Johann"));
    let row2 = make_row("bib1", "key2", "author", 2, None);
    let rows = vec![&row1, &row2];
    let mut map = StrMap::new();
    map.insert("key1", a1);
    map.insert("key2", a2);
    assert_eq!(
        format_role_names(Some(&rows), AuthorRole::Author, &map),
        "Schmidt, Johann and Müller, Hans"
    );
}

#[test]
fn mononym_used_when_no_variant() {
    let mut author = make_author("key1", "", "");
    author.mononym_unicode = Some("Aristotle".to_string());
    let row = make_row("bib1", "key1", "author", 1, None);
    let rows = vec![&row];
    let mut map = StrMap::new();
    map.insert("key1", author);
    assert_eq!(format_role_names(Some(&rows), AuthorRole::Author, &map), "Aristotle");
}

#[test]
fn filters_by_role() {
    let author = make_author("key1", "Smith", "John");
    let row = make_row("bib1", "key1", "editor", 1, Some("Smith, J."));
    let rows = vec![&row];
    let mut map = StrMap::new();
    map.insert("key1", author);
    assert_eq!(format_role_names(Some(&rows), AuthorRole::Author, &map), "");
    assert_eq!(format_role_names(Some(&rows), AuthorRole::Editor, &map), "Smith, J.");
}

#[test]
fn empty_when_no_rows() {
    let map: StrMap<Author> = StrMap::new();
    assert_eq!(format_role_names(None, AuthorRole::Author, &map), "");
}

// ---------------------------------------------------------------------------
// Own cases
// ---------------------------------------------------------------------------

#[test]
fn role_ids_sorted_by_position_stably() {
    let r1 = make_row("b", "k3", "author", 3, None);
    let r2 = make_row("b", "k1", "author", 1, None);
    let r3 = make_row("b", "e1", "editor", 0, None);
    let r4 = make_row("b", "k2", "author", 1, None);
    let rows = vec![&r1, &r2, &r3, &r4];
    assert_eq!(format_role_ids(Some(&rows), AuthorRole::Author), "k1;k2;k3");
    assert_eq!(format_role_ids(Some(&rows), AuthorRole::Editor), "e1");
    assert_eq!(format_role_ids(Some(&rows), AuthorRole::Guesteditor), "");
    assert_eq!(format_role_ids(None, AuthorRole::Author), "");
}

#[test]
fn names_skip_unknown_authors_and_order_by_position() {
    let a = make_author("k1", "Smith", "");
    let r1 = make_row("b", "k9", "author", 0, None);
    let r2 = make_row("b", "k1", "author", 5, None);
    let r3 = make_row("b", "k7", "author", 2, Some("Doe, J."));
    let rows = vec![&r2, &r1, &r3];
    let mut map = StrMap::new();
    map.insert("k1", a);
    assert_eq!(format_role_names(Some(&rows), AuthorRole::Author, &map), "Doe, J. and Smith");
}

#[test]
fn keywords_at_level() {
    let r1 = BibitemKeywordsRow { bibkey: "b".to_string(), keyword_key: "k1".to_string(), keyword_level: 1 };
    let r2 = BibitemKeywordsRow { bibkey: "b".to_string(), keyword_key: "k2".to_string(), keyword_level: 2 };
    let r3 = BibitemKeywordsRow { bibkey: "b".to_string(), keyword_key: "k3".to_string(), keyword_level: 1 };
    let r4 = BibitemKeywordsRow { bibkey: "b".to_string(), keyword_key: "zz".to_string(), keyword_level: 1 };
    let rows = vec![&r1, &r2, &r3, &r4];
    let mut map = StrMap::new();
    map.insert("k1", Keyword { id: 1, name: "Ethics".to_string(), level: 1 });
    map.insert("k2", Keyword { id: 2, name: "Metaethics".to_string(), level: 2 });
    map.insert("k3", Keyword { id: 3, name: "Logic".to_string(), level: 1 });
    assert_eq!(format_keywords_at_level(Some(&rows), 1, &map), "Ethics;Logic");
    assert_eq!(format_keywords_at_level(Some(&rows), 2, &map), "Metaethics");
    assert_eq!(format_keywords_at_level(None, 2, &map), "");
}

#[test]
fn optional_values_as_text() {
    assert_eq!(opt_str(&Some("x".to_string())), "x");
    assert_eq!(opt_str(&None), "");
    assert_eq!(opt_i64(Some(-42)), "-42");
    assert_eq!(opt_i64(None), "");
    assert_eq!(opt_i16(Some(1781)), "1781");
    assert_eq!(opt_i16(Some(i16::MIN)), "-32768");
    assert!(ExportFormat::default() == ExportFormat::Expanded);
}

#[test]
fn present_keys_keeps_each_key_once() {
    let keys = vec![
        Some("mind".to_string()),
        None,
        Some("nous".to_string()),
        Some("mind".to_string()),
        None,
    ];
    let set = present_keys(&keys);
    assert_eq!(set.len(), 2);
    assert!(set.contains(&"mind".chars().collect()));
    assert!(set.contains(&"nous".chars().collect()));
    assert!(!set.contains(&"".chars().collect()));
}

#[test]
fn present_keys_of_nothing_is_empty() {
    let keys: Vec<Option<String>> = vec![None, None];
    assert!(present_keys(&keys).is_empty());
}

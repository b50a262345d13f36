use alexandria_nexus::domain::{Author, AuthorRole, BibItem, BibitemAuthorsRow, BibitemKeywordsRow, EntryType};
use alexandria_nexus::expand::{keyword_ids_by_level, EXPANDABLE_FIELDS};
use alexandria_nexus::export::{author_keys, keyword_keys};
use alexandria_nexus::full_import::bibkey_by_id;
use alexandria_nexus::import::{
    format_insert_error, lists_text, plan_entity_row, ImportRowError, ImportTally, NameVariantType, RowPlan,
    VariantImport,
};
use alexandria_nexus::keymap::StrMap;
use alexandria_nexus::render::pipeline::{build_render_context, rows_for_bibkey, EntityNames};
use alexandria_nexus::validation::ValidationError;

fn author(key: &str, latex_variants: Option<Vec<&str>>) -> Author {
    Author {
        id: 1,
        author_key: key.to_string(),
        family_name_latex: None,
        family_name_unicode: Some("Kant".to_string()),
        famous_name_latex: None,
        famous_name_unicode: None,
        famous: false,
        given_name_latex: None,
        given_name_unicode: Some("Immanuel".to_string()),
        mononym_latex: None,
        mononym_unicode: None,
        name_variants_latex: latex_variants.map(|v| v.into_iter().map(str::to_string).collect()),
        name_variants_unicode: None,
        shorthand_latex: None,
        shorthand_unicode: None,
    }
}

fn link(bibkey: &str, author_key: &str, role: &str, position: i16) -> BibitemAuthorsRow {
    BibitemAuthorsRow {
        bibkey: bibkey.to_string(),
        author_key: author_key.to_string(),
        role: role.to_string(),
        position,
        name_variant_latex: None,
        name_variant_unicode: None,
    }
}

#[test]
fn insert_errors_flag_duplicate_keys() {
    assert_eq!(format_insert_error("duplicate key value violates"), "Duplicate key: duplicate key value violates");
    assert_eq!(format_insert_error("error 23505"), "Duplicate key: error 23505");
    assert_eq!(format_insert_error("connection reset"), "connection reset");
}

#[test]
fn entity_rows_are_counted_once_each() {
    let read = vec![ImportRowError { row: 1, identifier: "r".to_string(), error: "unreadable".to_string() }];
    let mut tally = ImportTally::new(read);
    // updated
    let plan = plan_entity_row(Some(4), "journal_key", "mind", Some("mind"), false);
    let go = tally.after_check(2, "mind", plan, Ok(())).unwrap();
    tally.after_store(2, "mind", &go, Ok(()));
    // refused: key mismatch
    let plan = plan_entity_row(Some(5), "journal_key", "nous", Some("other"), false);
    assert!(tally.after_check(3, "nous", plan, Ok(())).is_none());
    // refused: failing check
    let plan = plan_entity_row(None, "journal_key", "x", None, true);
    assert!(tally.after_check(4, "x", plan, Err(ValidationError::required("name_latex"))).is_none());
    // inserted, then a failed write
    let plan = plan_entity_row(None, "journal_key", "y", None, true);
    let go = tally.after_check(5, "y", plan, Ok(())).unwrap();
    tally.after_store(5, "y", &go, Ok(()));
    let plan = plan_entity_row(Some(9), "journal_key", "z", None, true);
    let go = tally.after_check(6, "z", plan, Ok(())).unwrap();
    assert!(matches!(go, RowPlan::InsertWithId(9)));
    tally.after_store(6, "z", &go, Err("23505".to_string()));
    let r = tally.finish();
    assert_eq!((r.imported, r.updated, r.failed), (1, 1, 4));
    assert_eq!(r.imported + r.updated + r.failed, 5 + 1);
    assert_eq!(r.errors[1].error, "ID 5 exists but has journal_key 'other', input has 'nous'");
    assert_eq!(r.errors[2].error, "name_latex is required");
    assert_eq!(r.errors[3].error, "Duplicate key: 23505");
}

#[test]
fn name_variants_are_deduplicated_and_checked() {
    let mut imp = VariantImport::new(vec![]);
    assert!(imp.first_sighting(1, NameVariantType::Latex, "I. Kant"));
    assert!(!imp.first_sighting(1, NameVariantType::Latex, "I. Kant"));
    assert!(imp.first_sighting(1, NameVariantType::Unicode, "I. Kant"));
    assert!(imp.first_sighting(2, NameVariantType::Latex, "I. Kant"));
    let a = author("kant", Some(vec!["Kant, I."]));
    assert!(!imp.after_author_lookup(2, "Kant, I.", 1, NameVariantType::Latex, Ok(Some(&a))));
    assert!(imp.after_author_lookup(3, "I. Kant", 1, NameVariantType::Latex, Ok(Some(&a))));
    assert!(imp.after_author_lookup(3, "Kant, I.", 1, NameVariantType::Unicode, Ok(Some(&a))));
    imp.after_variant_append(3, "I. Kant", 1, Ok(()));
    assert!(!imp.after_author_lookup(4, "X", 77, NameVariantType::Latex, Ok(None)));
    assert!(!imp.after_author_lookup(5, "Y", 78, NameVariantType::Latex, Err("down".to_string())));
    imp.after_variant_append(6, "Z", 1, Err("locked".to_string()));
    let r = imp.finish();
    assert_eq!((r.imported, r.updated, r.failed), (0, 1, 3));
    assert_eq!(r.errors[0].error, "Author with id 77 not found");
    assert_eq!(r.errors[1].error, "DB lookup error: down");
    assert_eq!(r.errors[2].error, "Failed to update author 1: locked");
    assert!(lists_text(&vec!["a".to_string(), "b".to_string()], "b"));
    assert!(!lists_text(&vec![], "b"));
}

#[test]
fn keyword_levels_keep_the_last_link() {
    assert_eq!(keyword_ids_by_level(&vec![(1, 1), (2, 2), (3, 1), (4, 5), (5, 3)]), (Some(3), Some(2), Some(5)));
    assert_eq!(keyword_ids_by_level(&vec![]), (None, None, None));
    assert_eq!(EXPANDABLE_FIELDS, ["authors", "editors", "guesteditors", "journal", "keywords", "crossref"]);
}

#[test]
fn render_context_of_a_bibitem() {
    let rows = vec![
        link("b", "hume", "author", 1),
        link("a", "kant", "author", 2),
        link("a", "hume", "author", 1),
        link("a", "locke", "editor", 0),
    ];
    assert!(rows_for_bibkey(&rows, "zzz").is_none());
    let mine = rows_for_bibkey(&rows, "a").unwrap();
    assert_eq!(mine.len(), 3);
    let mut authors: StrMap<Author> = StrMap::new();
    authors.insert("kant", author("kant", None));
    authors.insert("hume", author("hume", None));
    let mut names = EntityNames {
        journals: StrMap::new(),
        publishers: StrMap::new(),
        institutions: StrMap::new(),
        schools: StrMap::new(),
        series: StrMap::new(),
        crossrefs: StrMap::new(),
    };
    names.journals.insert("mind", "Mind".to_string());
    let ctx = build_render_context(Some(&mine), &authors, Some("mind"), Some("nobody"), None, None, None, None, &names);
    let keys: Vec<&str> = ctx.authors.iter().map(|a| a.author_key.as_str()).collect();
    assert_eq!(keys, ["hume", "kant"]);
    assert!(ctx.editors.is_empty());
    assert_eq!(ctx.journal_name.as_deref(), Some("Mind"));
    assert_eq!(ctx.publisher_name, None);
    assert!(!ctx.suppress_author);
    let _ = AuthorRole::Author;
}

#[test]
fn keys_to_fetch_are_listed_once() {
    let rows = vec![link("a", "kant", "author", 1), link("b", "kant", "author", 1), link("b", "hume", "editor", 1)];
    let set = author_keys(&rows);
    assert_eq!(set.len(), 2);
    assert_eq!(set.at(0), &"hume".chars().collect::<Vec<char>>());
    let kw = vec![
        BibitemKeywordsRow { bibkey: "a".to_string(), keyword_key: "ethics".to_string(), keyword_level: 1 },
        BibitemKeywordsRow { bibkey: "b".to_string(), keyword_key: "ethics".to_string(), keyword_level: 1 },
    ];
    assert_eq!(keyword_keys(&kw).len(), 1);
}

fn bib(id: i64, bibkey: &str) -> BibItem {
    BibItem {
        id,
        bibkey: bibkey.to_string(),
        entry_type: EntryType::Misc,
        date_year: None,
        date_year_2_hyphen: None,
        date_year_2_slash: None,
        date_month: None,
        date_day: None,
        date_is_no_date: true,
        pubstate: None,
        title_latex: String::new(),
        title_unicode: String::new(),
        title_simplified: String::new(),
        booktitle_latex: None,
        booktitle_unicode: None,
        booktitle_simplified: None,
        journal_id: None,
        publisher_id: None,
        address: None,
        volume: None,
        number: None,
        pages: None,
        eid: None,
        series_id: None,
        edition: None,
        institution_id: None,
        school_id: None,
        type_field: None,
        doi: None,
        url: None,
        eprint: None,
        urn: None,
        crossref_id: None,
        issuetitle_latex: None,
        issuetitle_unicode: None,
        note_latex: None,
        note_unicode: None,
        extra_note_latex: None,
        extra_note_unicode: None,
        langid: None,
        is_translation: false,
        epoch: None,
        options: None,
        shorthand: None,
        person_id: None,
        has_fulltext: false,
        fulltext_path: None,
    }
}

#[test]
fn bibkeys_are_found_by_id() {
    let m = bibkey_by_id(&vec![bib(1, "a"), bib(2, "b"), bib(1, "c")]);
    assert_eq!(m.len(), 2);
    assert_eq!(m.get(&1).map(String::as_str), Some("c"));
    assert_eq!(m.get(&2).map(String::as_str), Some("b"));
}

#[test]
fn entry_type_names_read_back() {
    for t in [
        EntryType::Article,
        EntryType::Book,
        EntryType::Incollection,
        EntryType::Inproceedings,
        EntryType::Mastersthesis,
        EntryType::Phdthesis,
        EntryType::Unpublished,
        EntryType::Misc,
    ] {
        assert_eq!(EntryType::parse(t.as_str()), Some(t));
    }
    assert_eq!(EntryType::parse("Article"), None);
    assert_eq!(EntryType::parse(""), None);
}

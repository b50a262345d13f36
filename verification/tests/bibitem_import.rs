use alexandria_nexus::bibitem_import::{
    after_bibitem_insert, after_bibitem_link, after_bibitem_lookup, after_bibitem_update, all_rows_imported,
    author_position, first_bibitem_step, missing_bibitem_ids_error, missing_references, notes_row_ids,
    ref_row_ids, referenced_ids, validate_bibitem_rows, BibRowStep, BibitemRowRefs, ParsedBibitemNotesRow,
    ParsedBibitemRefRow, ParsedBibitemRow,
};
use alexandria_nexus::domain::{AuthorRole, EntryType};
use alexandria_nexus::dto::CreateBibItem;
use alexandria_nexus::import::{ImportRowError, ImportTally};
use std::collections::HashSet;

fn dto(bibkey: &str, title: &str) -> CreateBibItem {
    CreateBibItem {
        bibkey: bibkey.to_string(),
        entry_type: EntryType::Article,
        date_year: Some(2024),
        date_year_2_hyphen: None,
        date_year_2_slash: None,
        date_month: None,
        date_day: None,
        date_is_no_date: false,
        pubstate: None,
        title_latex: title.to_string(),
        title_unicode: None,
        booktitle_latex: None,
        booktitle_unicode: None,
        journal_key: None,
        publisher_key: None,
        address: None,
        volume: None,
        volume_numeric: None,
        number: None,
        number_numeric: None,
        pages: None,
        start_page: None,
        eid: None,
        series_key: None,
        edition: None,
        institution_key: None,
        school_key: None,
        type_field: None,
        doi: None,
        url: None,
        eprint: None,
        urn: None,
        crossref: None,
        issuetitle_latex: None,
        issuetitle_unicode: None,
        note_latex: None,
        note_unicode: None,
        extra_note_latex: None,
        extra_note_unicode: None,
        langid: None,
        is_translation: false,
        epoch: None,
        options: None,
        shorthand: None,
        person_key: None,
        has_fulltext: false,
        fulltext_path: None,
        license: None,
    }
}

fn refs(authors: Vec<i64>, editors: Vec<i64>, journal: Option<i64>, crossref: Option<i64>) -> BibitemRowRefs {
    BibitemRowRefs {
        author_ids: authors,
        editor_ids: editors,
        guesteditor_ids: vec![],
        keyword_ids: vec![7],
        journal_id: journal,
        publisher_id: None,
        institution_id: None,
        school_id: None,
        series_id: None,
        crossref_id: crossref,
    }
}

fn row(n: usize, bibkey: &str, title: &str, r: BibitemRowRefs) -> ParsedBibitemRow {
    ParsedBibitemRow { row_num: n, bibkey: bibkey.to_string(), source_id: None, dto: dto(bibkey, title), refs: r }
}

fn set(v: &[i64]) -> HashSet<i64> {
    v.iter().copied().collect()
}

#[test]
fn failing_rows_become_errors_after_the_read_errors() {
    let rows = vec![
        row(2, "a:1", "A", refs(vec![1], vec![], None, None)),
        row(3, "b:2", "  ", refs(vec![2], vec![], None, None)),
        row(4, "c:3", "C", refs(vec![3], vec![], None, None)),
    ];
    let read = vec![ImportRowError { row: 1, identifier: "x".to_string(), error: "bad".to_string() }];
    let (valid, errors) = validate_bibitem_rows(rows, read);
    let keys: Vec<&str> = valid.iter().map(|r| r.bibkey.as_str()).collect();
    assert_eq!(keys, ["a:1", "c:3"]);
    assert_eq!(errors.len(), 2);
    assert_eq!(errors[0].error, "bad");
    assert_eq!((errors[1].row, errors[1].identifier.as_str(), errors[1].error.as_str()), (3, "b:2", "title_latex is required"));
}

#[test]
fn referenced_ids_are_gathered_by_kind() {
    let rows = vec![
        row(2, "a:1", "A", refs(vec![1, 2], vec![3], Some(10), None)),
        row(3, "b:2", "B", refs(vec![2], vec![], Some(11), Some(99))),
    ];
    let ids = referenced_ids(&rows);
    assert_eq!(ids.author_ids, set(&[1, 2, 3]));
    assert_eq!(ids.journal_ids, set(&[10, 11]));
    assert_eq!(ids.keyword_ids, set(&[7]));
    assert_eq!(ids.crossref_ids, set(&[99]));
    assert!(ids.publisher_ids.is_empty());
}

#[test]
fn missing_references_reply_names_its_kinds() {
    let m = missing_references(vec![1], vec![], vec![], vec![], vec![], vec![], vec![], vec![5]);
    assert_eq!(m.error, "missing_references");
    assert_eq!(m.message, "Some referenced entities were not found");
    assert!(m.has_missing());
    let none = missing_references(vec![], vec![], vec![], vec![], vec![], vec![], vec![], vec![]);
    assert!(!none.has_missing());
}

#[test]
fn a_row_with_a_known_id_is_updated_and_linked() {
    let mut tally = ImportTally::new(vec![]);
    assert!(matches!(first_bibitem_step(Some(5)), BibRowStep::FindExisting(5)));
    let step = after_bibitem_lookup(&mut tally, 2, "a:1", 5, Ok(Some("a:1".to_string())));
    assert!(matches!(step, BibRowStep::Update(5)));
    let mut step = after_bibitem_update(&mut tally, 2, "a:1", 5, Ok(true));
    let mut seen = vec![];
    while !matches!(step, BibRowStep::Done) {
        seen.push(format!("{:?}", step));
        step = after_bibitem_link(&mut tally, 2, "a:1", &step, Ok(()));
    }
    assert_eq!(seen.len(), 4);
    assert!(seen[3].starts_with("LinkKeywords"));
    assert_eq!((tally.imported, tally.updated, tally.errors.len()), (0, 1, 0));
}

#[test]
fn a_row_without_id_is_inserted_and_counted_as_imported() {
    let mut tally = ImportTally::new(vec![]);
    assert!(matches!(first_bibitem_step(None), BibRowStep::Insert));
    let mut step = after_bibitem_insert(&mut tally, 2, "a:1", Ok(41));
    assert!(matches!(step, BibRowStep::LinkPeople { bibitem_id: 41, role: AuthorRole::Author, is_update: false }));
    while !matches!(step, BibRowStep::Done) {
        step = after_bibitem_link(&mut tally, 2, "a:1", &step, Ok(()));
    }
    assert_eq!((tally.imported, tally.updated), (1, 0));
}

#[test]
fn bibitem_row_failures_are_reported_with_their_messages() {
    let mut tally = ImportTally::new(vec![]);
    let s = after_bibitem_lookup(&mut tally, 2, "a:1", 5, Ok(Some("other".to_string())));
    assert!(matches!(s, BibRowStep::Done));
    assert_eq!(tally.errors[0].error, "ID 5 exists but has bibkey 'other', input has 'a:1'");
    let s = after_bibitem_lookup(&mut tally, 3, "b", 6, Err("timeout".to_string()));
    assert!(matches!(s, BibRowStep::Done));
    assert_eq!(tally.errors[1].error, "DB lookup error: timeout");
    assert!(matches!(after_bibitem_lookup(&mut tally, 4, "c", 7, Ok(None)), BibRowStep::InsertWithId(7)));
    after_bibitem_update(&mut tally, 5, "d", 8, Ok(false));
    assert_eq!(tally.errors[2].error, "Failed to update bibitem 8: not found");
    after_bibitem_insert(&mut tally, 6, "e", Err("duplicate key value".to_string()));
    assert_eq!(tally.errors[3].error, "Duplicate key: duplicate key value");
    let step = BibRowStep::LinkPeople { bibitem_id: 1, role: AuthorRole::Editor, is_update: false };
    after_bibitem_link(&mut tally, 7, "f", &step, Err("fk".to_string()));
    assert_eq!(tally.errors[4].error, "Failed to link editors: fk");
    let step = BibRowStep::LinkKeywords { bibitem_id: 1, is_update: true };
    after_bibitem_link(&mut tally, 8, "g", &step, Err("fk".to_string()));
    assert_eq!(tally.errors[5].error, "Failed to link keywords: fk");
    assert_eq!((tally.imported, tally.updated, tally.errors.len()), (0, 0, 6));
    assert_eq!(tally.errors[5].row, 8);
    assert_eq!(tally.errors[5].identifier, "g");
}

#[test]
fn author_positions_must_fit_in_i16() {
    assert_eq!(author_position(0).unwrap(), 0);
    assert_eq!(author_position(32767).unwrap(), 32767);
    let e = author_position(32768).unwrap_err();
    assert_eq!(e.to_message(), "author position 32768 exceeds i16 range");
}

#[test]
fn ids_of_reference_and_notes_rows() {
    let rows = vec![
        ParsedBibitemRefRow { source_id: 1, target_id: 2, ref_type: "further_ref".to_string() },
        ParsedBibitemRefRow { source_id: 2, target_id: 3, ref_type: "depends_on".to_string() },
    ];
    assert_eq!(ref_row_ids(&rows), set(&[1, 2, 3]));
    let notes = vec![ParsedBibitemNotesRow {
        bibitem_id: 9,
        note_perso: Some("n".to_string()),
        note_stock: None,
        note_missing: None,
        change_request: None,
        dltc_copyediting_note: None,
        todo_general: None,
    }];
    assert_eq!(notes_row_ids(&notes), set(&[9]));
    let data = notes[0].data();
    assert_eq!(data.note_perso, Some("n"));
    assert_eq!(data.note_stock, None);
}

#[test]
fn missing_bibitem_ids_message_lists_them() {
    assert_eq!(missing_bibitem_ids_error(&vec![4, 12]).to_message(), "missing bibitem IDs: [4, 12]");
    assert_eq!(missing_bibitem_ids_error(&vec![]).to_message(), "missing bibitem IDs: []");
    let r = all_rows_imported(3);
    assert_eq!((r.imported, r.updated, r.failed, r.errors.len()), (3, 0, 0, 0));
}

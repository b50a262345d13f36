use alexandria_nexus::domain::{Author, BibItem, BibitemAuthorsRow, EntryType};
use alexandria_nexus::keymap::StrMap;
use alexandria_nexus::render::context::{AuthorName, RenderContext};
use alexandria_nexus::render::pipeline::{
    check_selection, missing_bibkeys, missing_ids, novel_ids, render_items,
    sort_for_bibliography, EntityNames, KeyedBibItem, RenderPipelineError, RenderSelection,
    MAX_RENDER_ITEMS,
};

fn item(id: i64, bibkey: &str, year: Option<i16>) -> BibItem {
    BibItem {
        id,
        bibkey: bibkey.to_string(),
        entry_type: EntryType::Article,
        date_year: year,
        date_year_2_hyphen: None,
        date_year_2_slash: None,
        date_month: None,
        date_day: None,
        date_is_no_date: year.is_none(),
        pubstate: None,
        title_latex: "T".to_string(),
        title_unicode: "T".to_string(),
        title_simplified: "t".to_string(),
        booktitle_latex: None,
        booktitle_unicode: None,
        booktitle_simplified: None,
        journal_id: None,
        publisher_id: None,
        address: None,
        volume: None,
        number: None,
        pages: None,
        eid: None,
        series_id: None,
        edition: None,
        institution_id: None,
        school_id: None,
        type_field: None,
        doi: None,
        url: None,
        eprint: None,
        urn: None,
        crossref_id: None,
        issuetitle_latex: None,
        issuetitle_unicode: None,
        note_latex: None,
        note_unicode: None,
        extra_note_latex: None,
        extra_note_unicode: None,
        langid: None,
        is_translation: false,
        epoch: None,
        options: None,
        shorthand: None,
        person_id: None,
        has_fulltext: false,
        fulltext_path: None,
    }
}

fn ctx_of(family: &str) -> RenderContext {
    RenderContext {
        authors: vec![AuthorName {
            author_key: String::new(),
            family: Some(family.to_string()),
            given: None,
            mononym: None,
            variant_unicode: None,
        }],
        ..Default::default()
    }
}

#[test]
fn selection_limit_is_1000() {
    let ok = RenderSelection::ByIds((0..MAX_RENDER_ITEMS as i64).collect());
    assert_eq!(check_selection(&ok).unwrap(), 1000);
    let too_many = RenderSelection::ByBibkeys(vec!["k".to_string(); 1001]);
    match check_selection(&too_many) {
        Err(RenderPipelineError::TooManyItems { requested, max }) => {
            assert_eq!((requested, max), (1001, 1000))
        }
        other => panic!("unexpected {other:?}"),
    }
    assert_eq!(check_selection(&RenderSelection::ByIds(vec![])).unwrap(), 0);
}

#[test]
fn missing_and_novel() {
    let found = vec![item(1, "a", None), item(3, "c", None)];
    assert_eq!(missing_ids(&vec![1, 2, 3, 4, 2], &found), vec![2, 4, 2]);
    assert_eq!(missing_bibkeys(&vec!["a".to_string(), "b".to_string()], &found), vec!["b".to_string()]);
    assert_eq!(novel_ids(&vec![5, 1, 6, 3], &vec![1, 3]), vec![5, 6]);
}

#[test]
fn bibliography_order() {
    let items = vec![
        (item(1, "z:2", Some(2001)), ctx_of("Smith")),
        (item(2, "a:1", Some(1999)), ctx_of("Adams")),
        (item(3, "s:1", None), ctx_of("Smith")),
        (item(4, "b:1", Some(2001)), ctx_of("Smith")),
        (item(5, "a:0", Some(1999)), ctx_of("adams")),
    ];
    let sorted = sort_for_bibliography(items);
    let ids: Vec<i64> = sorted.iter().map(|(b, _)| b.id).collect();
    assert_eq!(ids, vec![5, 2, 3, 4, 1]);
}

fn person(key: &str, family: &str) -> Author {
    Author {
        id: 1,
        author_key: key.to_string(),
        family_name_latex: Some(family.to_string()),
        family_name_unicode: Some(family.to_string()),
        famous_name_latex: None,
        famous_name_unicode: None,
        famous: false,
        given_name_latex: None,
        given_name_unicode: None,
        mononym_latex: None,
        mononym_unicode: None,
        name_variants_latex: None,
        name_variants_unicode: None,
        shorthand_latex: None,
        shorthand_unicode: None,
    }
}

fn link(bibkey: &str, author_key: &str) -> BibitemAuthorsRow {
    BibitemAuthorsRow {
        bibkey: bibkey.to_string(),
        author_key: author_key.to_string(),
        role: "author".to_string(),
        position: 1,
        name_variant_latex: None,
        name_variant_unicode: None,
    }
}

fn keyed(b: BibItem, journal_key: Option<&str>) -> KeyedBibItem {
    KeyedBibItem {
        item: b,
        journal_key: journal_key.map(|k| k.to_string()),
        publisher_key: None,
        series_key: None,
        institution_key: None,
        school_key: None,
        crossref: None,
    }
}

#[test]
fn render_items_sorts_by_author_and_names_the_journal() {
    let items = vec![
        keyed(item(1, "zeta:2001", Some(2001)), Some("mind")),
        keyed(item(2, "adams:1999", Some(1999)), None),
    ];
    let rows = vec![link("zeta:2001", "zeta"), link("adams:1999", "adams")];
    let mut authors = StrMap::new();
    authors.insert("zeta", person("zeta", "Zeta"));
    authors.insert("adams", person("adams", "Adams"));
    let mut journals = StrMap::new();
    journals.insert("mind", "Mind".to_string());
    let names = EntityNames {
        journals,
        publishers: StrMap::new(),
        institutions: StrMap::new(),
        schools: StrMap::new(),
        series: StrMap::new(),
        crossrefs: StrMap::new(),
    };
    let html = render_items(items, &rows, &authors, &names);
    let lines: Vec<&str> = html.split('\n').collect();
    assert_eq!(lines.len(), 2);
    assert!(lines[0].contains("Adams"));
    assert!(lines[1].contains("Zeta"));
    assert!(lines[1].contains("Mind"));
    assert!(!lines[0].contains("Mind"));
}

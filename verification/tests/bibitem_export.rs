use alexandria_nexus::bibitem_export::{
    escape_csv, format_bibtex_entry, format_csv_row, generate_bibtex, generate_csv, ExportFormat, ExportQuery,
    CSV_HEADER,
};
use alexandria_nexus::domain::{BibItem, EntryType, LangId, PubState};

fn item(id: i64, bibkey: &str, title: &str) -> BibItem {
    BibItem {
        id,
        bibkey: bibkey.to_string(),
        entry_type: EntryType::Article,
        date_year: None,
        date_year_2_hyphen: None,
        date_year_2_slash: None,
        date_month: None,
        date_day: None,
        date_is_no_date: true,
        pubstate: None,
        title_latex: title.to_string(),
        title_unicode: title.to_string(),
        title_simplified: title.to_string(),
        booktitle_latex: None,
        booktitle_unicode: None,
        booktitle_simplified: None,
        journal_id: None,
        publisher_id: None,
        address: None,
        volume: None,
        number: None,
        pages: None,
        eid: None,
        series_id: None,
        edition: None,
        institution_id: None,
        school_id: None,
        type_field: None,
        doi: None,
        url: None,
        eprint: None,
        urn: None,
        crossref_id: None,
        issuetitle_latex: None,
        issuetitle_unicode: None,
        note_latex: None,
        note_unicode: None,
        extra_note_latex: None,
        extra_note_unicode: None,
        langid: None,
        is_translation: false,
        epoch: None,
        options: None,
        shorthand: None,
        person_id: None,
        has_fulltext: false,
        fulltext_path: None,
    }
}

#[test]
fn csv_fields_are_quoted_only_when_needed() {
    assert_eq!(escape_csv("plain"), "plain");
    assert_eq!(escape_csv(""), "");
    assert_eq!(escape_csv("a,b"), "\"a,b\"");
    assert_eq!(escape_csv("say \"hi\""), "\"say \"\"hi\"\"\"");
    assert_eq!(escape_csv("two\nlines"), "\"two\nlines\"");
}

#[test]
fn csv_row_of_a_bare_item() {
    assert_eq!(format_csv_row(&item(7, "kant:1781", "Kritik")), "7,kant:1781,article,,,Kritik,,,,,,\n");
}

#[test]
fn csv_row_of_a_full_item() {
    let mut b = item(-3, "a:1", "On, things");
    b.pubstate = Some(PubState { code: "forthcoming".to_string() });
    b.date_year = Some(2001);
    b.booktitle_simplified = Some("Proceedings".to_string());
    b.journal_id = Some(42);
    b.volume = Some("12".to_string());
    b.number = Some("3".to_string());
    b.doi = Some("10.1/x".to_string());
    b.url = Some("http://x.org/?a=1,2".to_string());
    assert_eq!(
        format_csv_row(&b),
        "-3,a:1,article,forthcoming,2001,\"On, things\",Proceedings,42,12,3,10.1/x,\"http://x.org/?a=1,2\"\n"
    );
}

#[test]
fn csv_export_has_header_then_rows() {
    let items = vec![item(1, "a", "A"), item(2, "b", "B")];
    let out = generate_csv(&items);
    assert!(out.starts_with(CSV_HEADER));
    assert_eq!(out, format!("{}1,a,article,,,A,,,,,,\n2,b,article,,,B,,,,,,\n", CSV_HEADER));
    assert_eq!(generate_csv(&vec![]), CSV_HEADER);
}

#[test]
fn bibtex_entry_of_a_bare_item() {
    assert_eq!(format_bibtex_entry(&item(1, "k", "")), "@article{k\n}");
    assert_eq!(format_bibtex_entry(&item(1, "k", "T")), "@article{k,\n  title = {T}\n}");
}

#[test]
fn bibtex_entry_lists_present_fields_in_order() {
    let mut b = item(1, "kant:1781", "Kritik");
    b.entry_type = EntryType::Book;
    b.date_year = Some(1781);
    b.booktitle_latex = Some(String::new());
    b.address = Some("Riga".to_string());
    b.pages = Some("1--10".to_string());
    b.note_latex = Some("A note".to_string());
    b.langid = Some(LangId { code: "german".to_string() });
    assert_eq!(
        format_bibtex_entry(&b),
        "@book{kant:1781,\n  title = {Kritik},\n  year = {1781},\n  address = {Riga},\n  pages = {1--10},\n  note = {A note},\n  langid = {german}\n}"
    );
}

#[test]
fn bibtex_export_separates_entries_with_blank_lines() {
    let items = vec![item(1, "a", "A"), item(2, "b", "B")];
    assert_eq!(generate_bibtex(&items), "@article{a,\n  title = {A}\n}\n\n@article{b,\n  title = {B}\n}\n\n");
    assert_eq!(generate_bibtex(&vec![]), "");
}

#[test]
fn export_query_ids_are_parsed_leniently() {
    let q = ExportQuery { format: ExportFormat::Bibtex, ids: Some(" 3, x,5,,-1 ".to_string()) };
    assert_eq!(q.id_list(), Some(vec![3, 5, -1]));
    let all = ExportQuery { format: ExportFormat::default(), ids: None };
    assert_eq!(all.id_list(), None);
    assert_eq!(all.format, ExportFormat::Csv);
}

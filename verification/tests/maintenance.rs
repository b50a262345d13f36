use alexandria_nexus::maintenance::{
    numeric_field_updates, start_page_updates, BibitemPagesRow, BibitemTextFieldsRow,
};

fn pages_rows(pairs: Vec<(i64, Option<&str>)>) -> Vec<BibitemPagesRow> {
    pairs
        .into_iter()
        .map(|(id, pages)| BibitemPagesRow { id, pages: pages.map(str::to_owned) })
        .collect()
}

fn recorded(rows: Vec<BibitemPagesRow>) -> Vec<(i64, Option<i32>)> {
    start_page_updates(&rows).iter().map(|u| (u.id, u.start_page)).collect()
}

#[test]
fn start_pages_of_numeric_roman_null_and_unparseable_pages() {
    assert_eq!(recorded(pages_rows(vec![(1, Some("123--456"))])), [(1, Some(123))]);
    assert_eq!(recorded(pages_rows(vec![(2, Some("xii--xiv"))])), [(2, Some(12))]);
    assert_eq!(recorded(pages_rows(vec![(3, None)])), [(3, None)]);
    assert_eq!(recorded(pages_rows(vec![(4, Some("e12936"))])), [(4, None)]);
    assert_eq!(recorded(pages_rows(vec![(5, Some("200--300, 50"))])), [(5, Some(50))]);
    assert!(recorded(pages_rows(vec![])).is_empty());
}

#[test]
fn numeric_fields_of_rows() {
    let rows = vec![
        BibitemTextFieldsRow {
            id: 1,
            pages: Some("10--20".to_string()),
            volume: Some("78".to_string()),
            number: Some("3--4".to_string()),
        },
        BibitemTextFieldsRow { id: 2, pages: None, volume: None, number: Some("Suppl.".to_string()) },
    ];
    let got: Vec<(i64, Option<i32>, Option<i32>, Option<i32>)> = numeric_field_updates(&rows)
        .iter()
        .map(|u| (u.id, u.start_page, u.volume_numeric, u.number_numeric))
        .collect();
    assert_eq!(got, vec![(1, Some(10), Some(78), Some(3)), (2, None, None, None)]);
}

fn text_rows(rows: Vec<(i64, Option<&str>, Option<&str>, Option<&str>)>) -> Vec<BibitemTextFieldsRow> {
    rows.into_iter()
        .map(|(id, pages, volume, number)| BibitemTextFieldsRow {
            id,
            pages: pages.map(str::to_owned),
            volume: volume.map(str::to_owned),
            number: number.map(str::to_owned),
        })
        .collect()
}

fn numeric(rows: Vec<(i64, Option<&str>, Option<&str>, Option<&str>)>) -> Vec<(i64, Option<i32>, Option<i32>, Option<i32>)> {
    numeric_field_updates(&text_rows(rows))
        .iter()
        .map(|u| (u.id, u.start_page, u.volume_numeric, u.number_numeric))
        .collect()
}

#[test]
fn numeric_pages_compute_start_page() {
    let updates = recorded(pages_rows(vec![(1, Some("123--456"))]));
    assert_eq!(updates, [(1, Some(123))]);
    assert_eq!(updates.len(), 1);
}

#[test]
fn roman_numeral_pages_converted() {
    assert_eq!(recorded(pages_rows(vec![(2, Some("xii--xiv"))])), [(2, Some(12))]);
}

#[test]
fn null_pages_produces_null_start_page() {
    assert_eq!(recorded(pages_rows(vec![(3, None)])), [(3, None)]);
}

#[test]
fn unparseable_pages_produces_null_start_page() {
    assert_eq!(recorded(pages_rows(vec![(4, Some("e12936"))])), [(4, None)]);
}

#[test]
fn compute_start_pages_empty_input_produces_zero_updated() {
    assert!(recorded(pages_rows(vec![])).is_empty());
}

#[test]
fn multi_entry_pages_picks_minimum() {
    assert_eq!(recorded(pages_rows(vec![(5, Some("200--300, 50"))])), [(5, Some(50))]);
}

#[test]
fn computes_all_three_fields() {
    let updates = numeric(vec![(1, Some("123--456"), Some("10"), Some("3/4"))]);
    assert_eq!(updates, [(1, Some(123), Some(10), Some(3))]);
    assert_eq!(updates.len(), 1);
}

#[test]
fn null_fields_produce_null_numerics() {
    assert_eq!(numeric(vec![(2, None, None, None)]), [(2, None, None, None)]);
}

#[test]
fn compute_numeric_fields_empty_input_produces_zero_updated() {
    assert!(numeric(vec![]).is_empty());
}

#[test]
fn roman_volume_and_range_number() {
    assert_eq!(numeric(vec![(3, Some("xii--xiv"), Some("III"), Some("1--3"))]), [(3, Some(12), Some(3), Some(1))]);
}

#[test]
fn series_volume_encoding() {
    assert_eq!(numeric(vec![(4, None, Some("s2-4"), Some("suppl., 2"))]), [(4, None, Some(2004), Some(2))]);
}

#[test]
fn unparseable_text_produces_null() {
    assert_eq!(
        numeric(vec![(5, Some("e12936"), Some("special issue"), Some("suppl."))]),
        [(5, None, None, None)]
    );
}

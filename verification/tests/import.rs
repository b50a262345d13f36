use alexandria_nexus::import::{
    column_index, get_field, parse_i16_field, parse_i64_field, parse_id_list, require_column,
    MissingReferencesError, NameVariantType,
};
use csv::StringRecord;

#[test]
fn name_variant_type_parse_and_column() {
    assert_eq!(NameVariantType::parse("latex"), Some(NameVariantType::Latex));
    assert_eq!(NameVariantType::parse("unicode"), Some(NameVariantType::Unicode));
    assert_eq!(NameVariantType::parse("Latex"), None);
    assert_eq!(NameVariantType::Latex.column_name(), "name_variants_latex");
    assert_eq!(NameVariantType::Unicode.column_name(), "name_variants_unicode");
}

fn no_missing() -> MissingReferencesError {
    MissingReferencesError {
        error: "missing_references",
        message: "Some referenced IDs do not exist",
        missing_author_ids: vec![],
        missing_journal_ids: vec![],
        missing_publisher_ids: vec![],
        missing_institution_ids: vec![],
        missing_school_ids: vec![],
        missing_series_ids: vec![],
        missing_keyword_ids: vec![],
        missing_crossref_ids: vec![],
    }
}

#[test]
fn has_missing_any_kind() {
    assert!(!no_missing().has_missing());
    let mut e = no_missing();
    e.missing_crossref_ids = vec![3];
    assert!(e.has_missing());
    let mut e = no_missing();
    e.missing_author_ids = vec![1, 2];
    assert!(e.has_missing());
}

#[test]
fn fields_are_trimmed_and_blank_is_none() {
    let r = StringRecord::from(vec!["  a b ", "", "   ", "x"]);
    assert_eq!(get_field(&r, 0), Some("a b".to_string()));
    assert_eq!(get_field(&r, 1), None);
    assert_eq!(get_field(&r, 2), None);
    assert_eq!(get_field(&r, 3), Some("x".to_string()));
    assert_eq!(get_field(&r, 4), None);
}

#[test]
fn numeric_fields() {
    let r = StringRecord::from(vec![" 12 ", "-7", "40000", "+5", "1.5", "9223372036854775807"]);
    assert_eq!(parse_i16_field(&r, 0), Some(12));
    assert_eq!(parse_i16_field(&r, 1), Some(-7));
    assert_eq!(parse_i16_field(&r, 2), None);
    assert_eq!(parse_i64_field(&r, 2), Some(40000));
    assert_eq!(parse_i64_field(&r, 3), Some(5));
    assert_eq!(parse_i64_field(&r, 4), None);
    assert_eq!(parse_i64_field(&r, 5), Some(i64::MAX));
    assert_eq!(parse_i64_field(&r, 9), None);
}

#[test]
fn id_lists_skip_bad_pieces() {
    let r = StringRecord::from(vec!["1, 2,x,, 3 ", "", "7"]);
    assert_eq!(parse_id_list(&r, 0), vec![1, 2, 3]);
    assert_eq!(parse_id_list(&r, 1), Vec::<i64>::new());
    assert_eq!(parse_id_list(&r, 2), vec![7]);
    assert_eq!(parse_id_list(&r, 5), Vec::<i64>::new());
}

#[test]
fn columns_by_trimmed_header() {
    let h = StringRecord::from(vec!["id", " bibkey ", "title", "bibkey"]);
    assert_eq!(column_index(&h, "bibkey"), Some(1));
    assert_eq!(column_index(&h, "id"), Some(0));
    assert_eq!(column_index(&h, "year"), None);
    assert_eq!(require_column(&h, "title").unwrap(), 2);
    let e = require_column(&h, "year").unwrap_err();
    assert_eq!(e.to_message(), "Missing required column: year");
}

use alexandria_nexus::import::{early_bibitem_response, import_response, plan_entity_row, ImportRowError, RowPlan};

fn plan_text(p: RowPlan) -> String {
    match p {
        RowPlan::Update(id) => format!("update {id}"),
        RowPlan::InsertWithId(id) => format!("insert {id}"),
        RowPlan::Insert => "insert".to_string(),
        RowPlan::Refuse(m) => m,
    }
}

#[test]
fn entity_row_plans() {
    assert_eq!(plan_text(plan_entity_row(Some(5), "key", "kant", Some("kant"), false)), "update 5");
    assert_eq!(
        plan_text(plan_entity_row(Some(5), "key", "kant", Some("hume"), true)),
        "ID 5 exists but has key 'hume', input has 'kant'"
    );
    assert_eq!(
        plan_text(plan_entity_row(Some(-2), "bibkey", "a:1", Some("b:2"), true)),
        "ID -2 exists but has bibkey 'b:2', input has 'a:1'"
    );
    assert_eq!(plan_text(plan_entity_row(Some(9), "key", "kant", None, false)), "insert 9");
    assert_eq!(plan_text(plan_entity_row(None, "key", "kant", Some("x"), true)), "insert");
    assert_eq!(
        plan_text(plan_entity_row(None, "key", "kant", None, false)),
        "Missing id (use ?auto_assign_ids=true to auto-assign)"
    );
}

#[test]
fn responses_count_failures() {
    let e = ImportRowError { row: 3, identifier: "k".to_string(), error: "bad".to_string() };
    let r = import_response(2, 1, vec![e]);
    assert_eq!((r.imported, r.updated, r.failed, r.errors.len()), (2, 1, 1, 1));
    let e = ImportRowError { row: 4, identifier: "k".to_string(), error: "bad".to_string() };
    let r = early_bibitem_response(vec![e], 7).unwrap();
    assert_eq!((r.imported, r.updated, r.failed), (0, 0, 1));
    let r = early_bibitem_response(vec![], 0).unwrap();
    assert_eq!((r.imported, r.updated, r.failed), (0, 0, 0));
    assert!(early_bibitem_response(vec![], 3).is_none());
}

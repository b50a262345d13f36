use alexandria_nexus::domain::Keyword;
use alexandria_nexus::export::{entity_export_selection, export_selection, BibitemExportRequest, EntityExportRequest, ExportFormat, ExportSelection};
use alexandria_nexus::keyword_tree::partition_keywords;

fn kw(id: i64, name: &str, level: i16) -> Keyword {
    Keyword { id, name: name.to_string(), level }
}

#[test]
fn keywords_grouped_by_level() {
    let tree = partition_keywords(vec![kw(1, "a", 2), kw(2, "b", 1), kw(3, "c", 3), kw(4, "d", 7), kw(5, "e", 2)]);
    let names = |v: &Vec<Keyword>| v.iter().map(|k| k.name.clone()).collect::<Vec<_>>();
    assert_eq!(names(&tree.level_1), vec!["b"]);
    assert_eq!(names(&tree.level_2), vec!["a", "e"]);
    assert_eq!(names(&tree.level_3), vec!["c", "d"]);
}

#[test]
fn export_selection_order() {
    let req = |all: bool, ids: Option<Vec<i64>>, bibkeys: Option<Vec<String>>| BibitemExportRequest {
        format: ExportFormat::default(),
        all,
        ids,
        bibkeys,
    };
    assert!(matches!(export_selection(&req(true, Some(vec![1]), None)), Some(ExportSelection::All)));
    match export_selection(&req(false, Some(vec![1, 2]), Some(vec!["k".to_string()]))) {
        Some(ExportSelection::Ids(v)) => assert_eq!(v, vec![1, 2]),
        _ => panic!("ids expected"),
    }
    match export_selection(&req(false, None, Some(vec!["k".to_string()]))) {
        Some(ExportSelection::Keys(v)) => assert_eq!(v, vec!["k".to_string()]),
        _ => panic!("bibkeys expected"),
    }
    assert!(export_selection(&req(false, None, None)).is_none());
}

#[test]
fn entity_export_selection_order() {
    let req = |all: bool, ids: Option<Vec<i64>>, keys: Option<Vec<String>>| EntityExportRequest { all, ids, keys };
    assert!(matches!(entity_export_selection(&req(true, None, None)), Some(ExportSelection::All)));
    match entity_export_selection(&req(false, Some(vec![3]), Some(vec!["k".to_string()]))) {
        Some(ExportSelection::Ids(v)) => assert_eq!(v, vec![3]),
        other => panic!("unexpected {:?}", other),
    }
    match entity_export_selection(&req(false, None, Some(vec!["mind".to_string()]))) {
        Some(ExportSelection::Keys(v)) => assert_eq!(v, vec!["mind".to_string()]),
        other => panic!("unexpected {:?}", other),
    }
    assert!(entity_export_selection(&req(false, None, None)).is_none());
}

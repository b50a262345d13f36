use alexandria_nexus::queries::{JournalQuery, KeywordQuery, QueryParam};
use alexandria_nexus::search::{clamp_search_request, default_limit, SearchRequest};

fn request(limit: i64, offset: i64) -> SearchRequest {
    SearchRequest {
        query: "kant".to_string(),
        entry_type: None,
        year_from: Some(1700),
        year_to: None,
        author_id: Some(4),
        journal_id: None,
        epoch: None,
        limit,
        offset,
    }
}

#[test]
fn search_limit_defaults_to_fifty() {
    assert_eq!(default_limit(), 50);
}

#[test]
fn search_paging_is_clamped() {
    let r = clamp_search_request(request(0, -5));
    assert_eq!((r.limit, r.offset), (1, 0));
    let r = clamp_search_request(request(500, 20));
    assert_eq!((r.limit, r.offset), (100, 20));
    let r = clamp_search_request(request(30, 0));
    assert_eq!((r.limit, r.offset), (30, 0));
    assert_eq!(r.query, "kant");
    assert_eq!(r.year_from, Some(1700));
    assert_eq!(r.author_id, Some(4));
}

#[test]
fn journal_filter_conditions() {
    let q = JournalQuery { name: Some("mind".to_string()) };
    assert_eq!(q.build_conditions(3), (vec!["name_simplified ILIKE '%' || $3 || '%'".to_string()], 4));
    assert_eq!(q.params(), vec![QueryParam::Text("mind".to_string())]);
    let none = JournalQuery::default();
    assert_eq!(none.build_conditions(1), (vec![], 1));
    assert!(none.params().is_empty());
}

#[test]
fn keyword_filter_conditions_number_placeholders_in_order() {
    let q = KeywordQuery { level: Some(2), name: Some("ethics".to_string()) };
    assert_eq!(
        q.build_conditions(1),
        (vec!["level = $1".to_string(), "name ILIKE '%' || $2 || '%'".to_string()], 3)
    );
    assert_eq!(q.params(), vec![QueryParam::SmallInt(2), QueryParam::Text("ethics".to_string())]);
    let only_name = KeywordQuery { level: None, name: Some("x".to_string()) };
    assert_eq!(only_name.build_conditions(10), (vec!["name ILIKE '%' || $10 || '%'".to_string()], 11));
}

use alexandria_nexus::csv_parsing::pages::parse_pages;


#[test]
fn single_range() {
    assert_eq!(
        parse_pages("123--456").unwrap().as_deref(),
        Some("123--456")
    );
}

#[test]
fn single_page() {
    assert_eq!(parse_pages("123").unwrap().as_deref(), Some("123"));
}

#[test]
fn multiple_entries() {
    assert_eq!(
        parse_pages("123--456, 789").unwrap().as_deref(),
        Some("123--456, 789")
    );
}

#[test]
fn roman_numerals() {
    assert_eq!(
        parse_pages("xii--xiv").unwrap().as_deref(),
        Some("xii--xiv")
    );
}

#[test]
fn single_hyphen_error() {
    assert!(parse_pages("123-456").is_err());
}

#[test]
fn pages_empty_string() {
    assert_eq!(parse_pages("").unwrap(), None);
    assert_eq!(parse_pages("  ").unwrap(), None);
}

#[test]
fn whitespace_normalization() {
    assert_eq!(
        parse_pages(" 123 -- 456 ").unwrap().as_deref(),
        Some("123--456")
    );
}

#[test]
fn multiple_ranges() {
    assert_eq!(
        parse_pages("1--2, 10--20, 50").unwrap().as_deref(),
        Some("1--2, 10--20, 50")
    );
}

#[test]
fn missing_start_is_error() {
    assert!(parse_pages("--456").is_err());
}

#[test]
fn open_ended_range_uses_start() {
    assert_eq!(parse_pages("123--").unwrap().as_deref(), Some("123"));
    assert_eq!(parse_pages("xii--").unwrap().as_deref(), Some("xii"));
}

#[test]
fn too_many_double_hyphens() {
    assert!(parse_pages("1--2--3").is_err());
}

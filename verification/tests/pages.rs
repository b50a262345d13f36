use alexandria_nexus::pages::{
    compute_start_page, extract_leading_integer, parse_pages_string, roman_to_arabic, PageEntry,
};


// ── roman_to_arabic ──────────────────────────────────────────────────

#[test]
fn roman_basic() {
    assert_eq!(roman_to_arabic("i"), Some(1));
    assert_eq!(roman_to_arabic("v"), Some(5));
    assert_eq!(roman_to_arabic("x"), Some(10));
    assert_eq!(roman_to_arabic("l"), Some(50));
    assert_eq!(roman_to_arabic("c"), Some(100));
    assert_eq!(roman_to_arabic("d"), Some(500));
    assert_eq!(roman_to_arabic("m"), Some(1000));
}

#[test]
fn roman_subtractive() {
    assert_eq!(roman_to_arabic("iv"), Some(4));
    assert_eq!(roman_to_arabic("ix"), Some(9));
    assert_eq!(roman_to_arabic("xl"), Some(40));
    assert_eq!(roman_to_arabic("xc"), Some(90));
    assert_eq!(roman_to_arabic("cd"), Some(400));
    assert_eq!(roman_to_arabic("cm"), Some(900));
}

#[test]
fn roman_compound() {
    assert_eq!(roman_to_arabic("xii"), Some(12));
    assert_eq!(roman_to_arabic("xiv"), Some(14));
    assert_eq!(roman_to_arabic("xxiii"), Some(23));
    assert_eq!(roman_to_arabic("xlii"), Some(42));
    assert_eq!(roman_to_arabic("xcix"), Some(99));
    assert_eq!(roman_to_arabic("mcmxcix"), Some(1999));
    assert_eq!(roman_to_arabic("mmxxvi"), Some(2026));
}

#[test]
fn roman_case_insensitive() {
    assert_eq!(roman_to_arabic("XII"), Some(12));
    assert_eq!(roman_to_arabic("Xiv"), Some(14));
}

#[test]
fn roman_invalid() {
    assert_eq!(roman_to_arabic(""), None);
    assert_eq!(roman_to_arabic("abc"), None);
    assert_eq!(roman_to_arabic("123"), None);
    assert_eq!(roman_to_arabic("xii3"), None);
}

// ── parse_pages_string ───────────────────────────────────────────────

#[test]
fn parse_single_page() {
    let p = parse_pages_string("123").unwrap();
    assert_eq!(p.0, vec![PageEntry::Single("123".to_string())]);
}

#[test]
fn parse_range() {
    let p = parse_pages_string("123--456").unwrap();
    assert_eq!(
        p.0,
        vec![PageEntry::Range {
            start: "123".to_string(),
            end: "456".to_string()
        }]
    );
}

#[test]
fn parse_multi_entry() {
    let p = parse_pages_string("123--456, 789").unwrap();
    assert_eq!(
        p.0,
        vec![
            PageEntry::Range {
                start: "123".to_string(),
                end: "456".to_string()
            },
            PageEntry::Single("789".to_string()),
        ]
    );
}

#[test]
fn parse_roman_range() {
    let p = parse_pages_string("xii--xiv").unwrap();
    assert_eq!(
        p.0,
        vec![PageEntry::Range {
            start: "xii".to_string(),
            end: "xiv".to_string()
        }]
    );
}

#[test]
fn parse_empty() {
    let p = parse_pages_string("").unwrap();
    assert!(p.0.is_empty());
    let p = parse_pages_string("  ").unwrap();
    assert!(p.0.is_empty());
}

#[test]
fn parse_single_hyphen_error() {
    assert!(parse_pages_string("123-456").is_err());
}

#[test]
fn parse_missing_start_error() {
    assert!(parse_pages_string("--456").is_err());
}

#[test]
fn parse_open_ended_range() {
    let p = parse_pages_string("123--").unwrap();
    assert_eq!(p.0, vec![PageEntry::Single("123".to_string())]);
}

#[test]
fn parse_too_many_hyphens() {
    assert!(parse_pages_string("1--2--3").is_err());
}

#[test]
fn parse_excess_hyphens_normalized_to_range() {
    for input in ["90---103", "90----103", "90------103"] {
        let p = parse_pages_string(input).unwrap();
        assert_eq!(
            p.0,
            vec![PageEntry::Range {
                start: "90".to_string(),
                end: "103".to_string()
            }],
            "Failed for input: {input}"
        );
    }
}

#[test]
fn parse_whitespace_normalization() {
    let p = parse_pages_string(" 123 -- 456 ").unwrap();
    assert_eq!(
        p.0,
        vec![PageEntry::Range {
            start: "123".to_string(),
            end: "456".to_string()
        }]
    );
}

// ── compute_start_page ───────────────────────────────────────────────

#[test]
fn start_page_none() {
    assert_eq!(compute_start_page(None), None);
}

#[test]
fn start_page_empty() {
    assert_eq!(compute_start_page(Some("")), None);
}

#[test]
fn start_page_single_numeric() {
    assert_eq!(compute_start_page(Some("42")), Some(42));
}

#[test]
fn start_page_range() {
    assert_eq!(compute_start_page(Some("123--456")), Some(123));
}

#[test]
fn start_page_roman() {
    assert_eq!(compute_start_page(Some("xii")), Some(12));
}

#[test]
fn start_page_roman_range() {
    assert_eq!(compute_start_page(Some("xii--xiv")), Some(12));
}

#[test]
fn start_page_multi_entry_picks_minimum() {
    assert_eq!(compute_start_page(Some("200--300, 50")), Some(50));
}

#[test]
fn start_page_mixed_roman_and_arabic() {
    assert_eq!(compute_start_page(Some("xii--xiv, 5")), Some(5));
}

#[test]
fn start_page_uppercase_letter_prefix() {
    assert_eq!(compute_start_page(Some("S339--353")), Some(339));
    assert_eq!(compute_start_page(Some("C2--41")), Some(2));
}

#[test]
fn start_page_lowercase_elocator_returns_none() {
    assert_eq!(compute_start_page(Some("e12936")), None);
}

#[test]
fn start_page_excess_hyphens() {
    assert_eq!(compute_start_page(Some("90---103")), Some(90));
}

#[test]
fn start_page_unparseable_returns_none() {
    assert_eq!(compute_start_page(Some("frontmatter")), None);
}

#[test]
fn start_page_malformed_returns_none() {
    assert_eq!(compute_start_page(Some("123-456")), None);
}

// ── extract_leading_integer ─────────────────────────────────────────

#[test]
fn leading_int_none() {
    assert_eq!(extract_leading_integer(None), None);
}

#[test]
fn leading_int_empty() {
    assert_eq!(extract_leading_integer(Some("")), None);
    assert_eq!(extract_leading_integer(Some("  ")), None);
}

#[test]
fn leading_int_plain_integer() {
    assert_eq!(extract_leading_integer(Some("42")), Some(42));
    assert_eq!(extract_leading_integer(Some("1")), Some(1));
    assert_eq!(extract_leading_integer(Some("100")), Some(100));
}

#[test]
fn leading_int_roman_numeral() {
    assert_eq!(extract_leading_integer(Some("XII")), Some(12));
    assert_eq!(extract_leading_integer(Some("III")), Some(3));
    assert_eq!(extract_leading_integer(Some("V")), Some(5));
    assert_eq!(extract_leading_integer(Some("IX")), Some(9));
}

#[test]
fn leading_int_combined_slash() {
    assert_eq!(extract_leading_integer(Some("3/4")), Some(3));
    assert_eq!(extract_leading_integer(Some("38/39")), Some(38));
    assert_eq!(extract_leading_integer(Some("7/8")), Some(7));
    assert_eq!(extract_leading_integer(Some("11/12")), Some(11));
}

#[test]
fn leading_int_range_double_hyphen() {
    assert_eq!(extract_leading_integer(Some("1--3")), Some(1));
    assert_eq!(extract_leading_integer(Some("21--24")), Some(21));
    assert_eq!(extract_leading_integer(Some("185--188")), Some(185));
}

#[test]
fn leading_int_series_volume() {
    assert_eq!(extract_leading_integer(Some("s2-4")), Some(2004));
    assert_eq!(extract_leading_integer(Some("s1-11")), Some(1011));
    assert_eq!(extract_leading_integer(Some("s1-1")), Some(1001));
    assert_eq!(extract_leading_integer(Some("s2-6")), Some(2006));
}

#[test]
fn leading_int_series_double_volume() {
    assert_eq!(extract_leading_integer(Some("s1-13-14")), Some(1013));
    assert_eq!(extract_leading_integer(Some("s1-15-16")), Some(1015));
    assert_eq!(extract_leading_integer(Some("s1-17-18")), Some(1017));
}

#[test]
fn leading_int_number_with_trailing_text() {
    assert_eq!(
        extract_leading_integer(Some("10, Erg{\"a}nzungsband")),
        Some(10)
    );
}

#[test]
fn leading_int_latex_prefix() {
    assert_eq!(
        extract_leading_integer(Some("1.~Foundations of the Unity of Science")),
        Some(1)
    );
}

#[test]
fn leading_int_supplement_with_number() {
    assert_eq!(extract_leading_integer(Some("suppl., 2")), Some(2));
    assert_eq!(extract_leading_integer(Some("suppl., 1")), Some(1));
    assert_eq!(extract_leading_integer(Some("suppl., 3")), Some(3));
}

#[test]
fn leading_int_supplement_bare() {
    assert_eq!(extract_leading_integer(Some("suppl.")), None);
}

#[test]
fn leading_int_pure_text() {
    assert_eq!(extract_leading_integer(Some("special issue")), None);
    assert_eq!(extract_leading_integer(Some("s/n")), None);
}

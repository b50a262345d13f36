use alexandria_nexus::csv_parsing::bibkey::parse_bibkey;
use alexandria_nexus::csv_parsing::types::BibkeyDate;


#[test]
fn standard_bibkey() {
    let bk = parse_bibkey("kant:1781").unwrap();
    assert_eq!(bk.first_author, "kant");
    assert_eq!(bk.other_authors, None);
    assert_eq!(bk.date, BibkeyDate::Year(1781));
    assert_eq!(bk.suffix, "");
}

#[test]
fn with_suffix() {
    let bk = parse_bibkey("kant:1781a").unwrap();
    assert_eq!(bk.date, BibkeyDate::Year(1781));
    assert_eq!(bk.suffix, "a");
}

#[test]
fn two_authors() {
    let bk = parse_bibkey("kant-smith:2024").unwrap();
    assert_eq!(bk.first_author, "kant");
    assert_eq!(bk.other_authors.as_deref(), Some("smith"));
    assert_eq!(bk.date, BibkeyDate::Year(2024));
}

#[test]
fn unpub() {
    let bk = parse_bibkey("smith:unpub").unwrap();
    assert_eq!(bk.date, BibkeyDate::Unpub);
    assert_eq!(bk.suffix, "");
}

#[test]
fn forthcoming() {
    let bk = parse_bibkey("smith:forthcoming").unwrap();
    assert_eq!(bk.date, BibkeyDate::Forthcoming);
    assert_eq!(bk.suffix, "");
}

#[test]
fn forthcoming_with_suffix() {
    let bk = parse_bibkey("smith:forthcoming-a").unwrap();
    assert_eq!(bk.date, BibkeyDate::Forthcoming);
    assert_eq!(bk.suffix, "a");
}

#[test]
fn unpub_with_suffix() {
    let bk = parse_bibkey("smith:unpub-1").unwrap();
    assert_eq!(bk.date, BibkeyDate::Unpub);
    assert_eq!(bk.suffix, "1");
}

#[test]
fn bibkey_negative_year() {
    let bk = parse_bibkey("plato:-380").unwrap();
    assert_eq!(bk.date, BibkeyDate::Year(-380));
    assert_eq!(bk.suffix, "");
}

#[test]
fn negative_year_with_suffix() {
    let bk = parse_bibkey("plato:-380a").unwrap();
    assert_eq!(bk.date, BibkeyDate::Year(-380));
    assert_eq!(bk.suffix, "a");
}

#[test]
fn complex_author_names() {
    let bk = parse_bibkey("bordogarcia_l-olivadoti_s:2027z2").unwrap();
    assert_eq!(bk.first_author, "bordogarcia_l");
    assert_eq!(bk.other_authors.as_deref(), Some("olivadoti_s"));
    assert_eq!(bk.date, BibkeyDate::Year(2027));
    assert_eq!(bk.suffix, "z2");
}

#[test]
fn full_bibkey_string() {
    let bk = parse_bibkey("kant:1781").unwrap();
    assert_eq!(bk.full, "kant:1781");
}

#[test]
fn no_colon() {
    assert!(parse_bibkey("nocolon").is_err());
}

#[test]
fn too_many_colons() {
    assert!(parse_bibkey("too:many:colons").is_err());
}

#[test]
fn empty_author() {
    assert!(parse_bibkey(":1781").is_err());
}

#[test]
fn empty_date() {
    assert!(parse_bibkey("kant:").is_err());
}

#[test]
fn bibkey_empty_string() {
    assert!(parse_bibkey("").is_err());
}

#[test]
fn invalid_date_word() {
    assert!(parse_bibkey("kant:garbage").is_err());
}

#[test]
fn forthcoming_empty_suffix() {
    assert!(parse_bibkey("smith:forthcoming-").is_err());
}

#[test]
fn bibkey_author_part_with_two_hyphens_is_refused() {
    let err = parse_bibkey("kant-smith-jones:2024").unwrap_err();
    assert_eq!(
        err,
        "more than one hyphen in author part of bibkey: 'kant-smith-jones:2024'"
    );
}

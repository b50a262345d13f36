use alexandria_nexus::csv_parsing::date::parse_date;
use alexandria_nexus::csv_parsing::types::{DateRangeSeparator, ParsedDate};


#[test]
fn year_only() {
    assert_eq!(parse_date("2024").unwrap(), ParsedDate::Year(2024));
    assert_eq!(parse_date("1781").unwrap(), ParsedDate::Year(1781));
}

#[test]
fn no_date() {
    assert_eq!(parse_date("no date").unwrap(), ParsedDate::NoDate);
    assert_eq!(parse_date("NO DATE").unwrap(), ParsedDate::NoDate);
    assert_eq!(parse_date("No Date").unwrap(), ParsedDate::NoDate);
}

#[test]
fn date_empty_string() {
    assert_eq!(parse_date("").unwrap(), ParsedDate::NoDate);
    assert_eq!(parse_date("  ").unwrap(), ParsedDate::NoDate);
}

#[test]
fn year_range_hyphen() {
    assert_eq!(
        parse_date("2021-2022").unwrap(),
        ParsedDate::YearRange {
            year: 2021,
            year2: 2022,
            separator: DateRangeSeparator::Hyphen,
        }
    );
}

#[test]
fn year_range_slash() {
    assert_eq!(
        parse_date("2021/2022").unwrap(),
        ParsedDate::YearRange {
            year: 2021,
            year2: 2022,
            separator: DateRangeSeparator::Slash,
        }
    );
}

#[test]
fn full_date() {
    assert_eq!(
        parse_date("2021-01-15").unwrap(),
        ParsedDate::FullDate {
            year: 2021,
            month: 1,
            day: 15,
        }
    );
}

#[test]
fn date_negative_year() {
    assert_eq!(parse_date("-380").unwrap(), ParsedDate::Year(-380));
}

#[test]
fn invalid_format() {
    assert!(parse_date("202x").is_err());
    assert!(parse_date("not-a-date").is_err());
}

#[test]
fn invalid_month() {
    assert!(parse_date("2024-13-01").is_err());
    assert!(parse_date("2024-0-01").is_err());
}

#[test]
fn invalid_day() {
    assert!(parse_date("2024-01-32").is_err());
    assert!(parse_date("2024-01-0").is_err());
}

#[test]
fn year_out_of_range() {
    assert!(parse_date("10000").is_err());
    assert!(parse_date("-10000").is_err());
}

#[test]
fn whitespace_handling() {
    assert_eq!(parse_date("  2024  ").unwrap(), ParsedDate::Year(2024));
}

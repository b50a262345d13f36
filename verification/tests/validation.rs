use alexandria_nexus::domain::EntryType;
use alexandria_nexus::dto::{
    CreateBibItem, CreateInstitution, CreateKeyword, CreateSchool, UpdateInstitution, UpdateKeyword,
    UpdateSchool,
};
use alexandria_nexus::validation::{
    validate_create_bibitem, validate_create_institution, validate_create_keyword,
    validate_create_school, validate_update_institution, validate_update_keyword,
    validate_update_school,
};


fn minimal_create_input() -> CreateBibItem {
    CreateBibItem {
        bibkey: "Smith:2024".to_string(),
        entry_type: EntryType::Article,
        date_year: Some(2024),
        date_year_2_hyphen: None,
        date_year_2_slash: None,
        date_month: None,
        date_day: None,
        date_is_no_date: false,
        pubstate: None,
        title_latex: "Test Title".to_string(),
        title_unicode: None,
        booktitle_latex: None,
        booktitle_unicode: None,
        journal_key: None,
        publisher_key: None,
        address: None,
        volume: None,
        volume_numeric: None,
        number: None,
        number_numeric: None,
        pages: None,
        start_page: None,
        eid: None,
        series_key: None,
        edition: None,
        institution_key: None,
        school_key: None,
        type_field: None,
        doi: None,
        url: None,
        eprint: None,
        urn: None,
        crossref: None,
        issuetitle_latex: None,
        issuetitle_unicode: None,
        note_latex: None,
        note_unicode: None,
        extra_note_latex: None,
        extra_note_unicode: None,
        langid: None,
        is_translation: false,
        epoch: None,
        options: None,
        shorthand: None,
        person_key: None,
        has_fulltext: false,
        fulltext_path: None,
        license: None,
    }
}

#[test]
fn test_valid_create_bibitem() {
    let input = minimal_create_input();
    assert!(validate_create_bibitem(&input).is_ok());
}

#[test]
fn test_missing_bibkey() {
    let mut input = minimal_create_input();
    input.bibkey = String::new();
    assert!(validate_create_bibitem(&input).is_err());
}

#[test]
fn test_missing_title() {
    let mut input = minimal_create_input();
    input.title_latex = String::new();
    assert!(validate_create_bibitem(&input).is_err());
}

#[test]
fn test_invalid_month() {
    let mut input = minimal_create_input();
    input.date_month = Some(13);
    assert!(validate_create_bibitem(&input).is_err());
}

#[test]
fn test_invalid_day() {
    let mut input = minimal_create_input();
    input.date_day = Some(32);
    assert!(validate_create_bibitem(&input).is_err());
}

#[test]
fn test_both_year_ranges() {
    let mut input = minimal_create_input();
    input.date_year_2_hyphen = Some(2025);
    input.date_year_2_slash = Some(2025);
    assert!(validate_create_bibitem(&input).is_err());
}

#[test]
fn test_year_range_without_year() {
    let mut input = minimal_create_input();
    input.date_year = None;
    input.date_year_2_hyphen = Some(2025);
    assert!(validate_create_bibitem(&input).is_err());
}


#[test]
fn test_valid_institution() {
    let input = CreateInstitution {
        institution_key: "csli_stanford".to_string(),
        name_latex: Some("CSLI".to_string()),
        name_unicode: None,
        name_simplified: None,
        default_address: None,
    };
    assert!(validate_create_institution(&input).is_ok());
}

#[test]
fn test_institution_without_key() {
    let input = CreateInstitution {
        institution_key: String::new(),
        name_latex: Some("CSLI".to_string()),
        name_unicode: None,
        name_simplified: None,
        default_address: None,
    };
    assert!(validate_create_institution(&input).is_err());
}

#[test]
fn test_institution_without_name() {
    let input = CreateInstitution {
        institution_key: "csli_stanford".to_string(),
        name_latex: None,
        name_unicode: None,
        name_simplified: None,
        default_address: None,
    };
    assert!(validate_create_institution(&input).is_err());
}

#[test]
fn institution_test_update_empty_key() {
    let input = UpdateInstitution {
        institution_key: Some(String::new()),
        name_latex: None,
        name_unicode: None,
        name_simplified: None,
        default_address: None,
    };
    assert!(validate_update_institution(&input).is_err());
}

#[test]
fn institution_test_update_valid() {
    let input = UpdateInstitution {
        institution_key: None,
        name_latex: Some("New Name".to_string()),
        name_unicode: None,
        name_simplified: None,
        default_address: None,
    };
    assert!(validate_update_institution(&input).is_ok());
}


#[test]
fn test_valid_level_1_keyword() {
    let input = CreateKeyword {
        name: "Philosophy".to_string(),
        level: 1,
    };
    assert!(validate_create_keyword(&input).is_ok());
}

#[test]
fn test_valid_level_3_keyword() {
    let input = CreateKeyword {
        name: "Metaethics".to_string(),
        level: 3,
    };
    assert!(validate_create_keyword(&input).is_ok());
}

#[test]
fn test_invalid_level_zero() {
    let input = CreateKeyword {
        name: "Test".to_string(),
        level: 0,
    };
    assert!(validate_create_keyword(&input).is_err());
}

#[test]
fn test_invalid_level_four() {
    let input = CreateKeyword {
        name: "Test".to_string(),
        level: 4,
    };
    assert!(validate_create_keyword(&input).is_err());
}

#[test]
fn test_empty_name() {
    let input = CreateKeyword {
        name: String::new(),
        level: 1,
    };
    assert!(validate_create_keyword(&input).is_err());
}

#[test]
fn test_whitespace_only_name() {
    let input = CreateKeyword {
        name: "   ".to_string(),
        level: 1,
    };
    assert!(validate_create_keyword(&input).is_err());
}

#[test]
fn test_update_empty_name() {
    let input = UpdateKeyword {
        name: Some(String::new()),
        level: None,
    };
    assert!(validate_update_keyword(&input).is_err());
}

#[test]
fn test_update_invalid_level() {
    let input = UpdateKeyword {
        name: None,
        level: Some(5),
    };
    assert!(validate_update_keyword(&input).is_err());
}

#[test]
fn keyword_test_update_valid() {
    let input = UpdateKeyword {
        name: Some("Western Philosophy".to_string()),
        level: None,
    };
    assert!(validate_update_keyword(&input).is_ok());
}


#[test]
fn test_valid_school() {
    let input = CreateSchool {
        school_key: "mit_linguistics".to_string(),
        name_latex: Some("MIT Linguistics".to_string()),
        name_unicode: None,
        name_simplified: None,
        default_address: None,
    };
    assert!(validate_create_school(&input).is_ok());
}

#[test]
fn test_school_without_key() {
    let input = CreateSchool {
        school_key: String::new(),
        name_latex: Some("MIT Linguistics".to_string()),
        name_unicode: None,
        name_simplified: None,
        default_address: None,
    };
    assert!(validate_create_school(&input).is_err());
}

#[test]
fn test_school_without_name() {
    let input = CreateSchool {
        school_key: "mit_linguistics".to_string(),
        name_latex: None,
        name_unicode: None,
        name_simplified: None,
        default_address: None,
    };
    assert!(validate_create_school(&input).is_err());
}

#[test]
fn school_test_update_empty_key() {
    let input = UpdateSchool {
        school_key: Some(String::new()),
        name_latex: None,
        name_unicode: None,
        name_simplified: None,
        default_address: None,
    };
    assert!(validate_update_school(&input).is_err());
}

#[test]
fn school_test_update_valid() {
    let input = UpdateSchool {
        school_key: None,
        name_latex: Some("New Name".to_string()),
        name_unicode: None,
        name_simplified: None,
        default_address: None,
    };
    assert!(validate_update_school(&input).is_ok());
}

// ---------------------------------------------------------------------------
// Exact errors
// ---------------------------------------------------------------------------

use alexandria_nexus::dto::UpdateBibItem;
use alexandria_nexus::validation::{validate_update_bibitem, ValidationError};

fn invalid(field: &str, message: &str) -> ValidationError {
    ValidationError::InvalidValue { field: field.to_string(), message: message.to_string() }
}

fn message_of(r: Result<(), ValidationError>) -> String {
    match r {
        Ok(()) => String::new(),
        Err(e) => e.to_message(),
    }
}

#[test]
fn invalid_month_reports_the_value() {
    let mut input = minimal_create_input();
    input.date_month = Some(13);
    assert_eq!(
        message_of(validate_create_bibitem(&input)),
        "date_month: month must be between 1 and 12, got 13"
    );
}

#[test]
fn invalid_day_reports_negative_value() {
    let mut input = minimal_create_input();
    input.date_day = Some(-4);
    assert_eq!(
        message_of(validate_create_bibitem(&input)),
        "date_day: day must be between 1 and 31, got -4"
    );
}

#[test]
fn blank_bibkey_is_required_before_title() {
    let mut input = minimal_create_input();
    input.bibkey = "  \t".to_string();
    input.title_latex = String::new();
    assert_eq!(message_of(validate_create_bibitem(&input)), "bibkey is required");
}

#[test]
fn year_range_without_year_names_date_year() {
    let mut input = minimal_create_input();
    input.date_year = None;
    input.date_year_2_slash = Some(2025);
    let e = validate_create_bibitem(&input).unwrap_err();
    assert_eq!(
        e.to_message(),
        invalid("date_year", "year required when year_2_hyphen or year_2_slash is set").to_message()
    );
}

#[test]
fn both_ranges_names_hyphen_field() {
    let mut input = minimal_create_input();
    input.date_year_2_hyphen = Some(2025);
    input.date_year_2_slash = Some(2026);
    assert_eq!(
        message_of(validate_create_bibitem(&input)),
        "date_year_2_hyphen: cannot have both hyphen and slash year ranges"
    );
}

#[test]
fn month_and_day_edges_are_valid() {
    let mut input = minimal_create_input();
    input.date_month = Some(12);
    input.date_day = Some(31);
    assert!(validate_create_bibitem(&input).is_ok());
    input.date_month = Some(1);
    input.date_day = Some(1);
    assert!(validate_create_bibitem(&input).is_ok());
    input.date_month = Some(0);
    assert!(validate_create_bibitem(&input).is_err());
}

fn empty_update() -> UpdateBibItem {
    UpdateBibItem {
        bibkey: None,
        entry_type: None,
        date_year: None,
        date_year_2_hyphen: None,
        date_year_2_slash: None,
        date_month: None,
        date_day: None,
        date_is_no_date: None,
        pubstate: None,
        title_latex: None,
        title_unicode: None,
        booktitle_latex: None,
        booktitle_unicode: None,
        journal_key: None,
        publisher_key: None,
        address: None,
        volume: None,
        volume_numeric: None,
        number: None,
        number_numeric: None,
        pages: None,
        start_page: None,
        eid: None,
        series_key: None,
        edition: None,
        institution_key: None,
        school_key: None,
        type_field: None,
        doi: None,
        url: None,
        eprint: None,
        urn: None,
        crossref: None,
        issuetitle_latex: None,
        issuetitle_unicode: None,
        note_latex: None,
        note_unicode: None,
        extra_note_latex: None,
        extra_note_unicode: None,
        langid: None,
        is_translation: None,
        epoch: None,
        options: None,
        shorthand: None,
        person_key: None,
        has_fulltext: None,
        fulltext_path: None,
        license: None,
    }
}

#[test]
fn update_bibitem_checks() {
    let mut u = empty_update();
    assert!(validate_update_bibitem(&u).is_ok());
    u.bibkey = Some(" ".to_string());
    assert_eq!(message_of(validate_update_bibitem(&u)), "bibkey: bibkey cannot be empty");
    u.bibkey = Some("k:1".to_string());
    u.date_month = Some(14);
    assert_eq!(
        message_of(validate_update_bibitem(&u)),
        "date_month: month must be between 1 and 12, got 14"
    );
}

#[test]
fn institution_name_may_come_from_any_variant() {
    let input = CreateInstitution {
        institution_key: "k".to_string(),
        name_latex: Some("   ".to_string()),
        name_unicode: None,
        name_simplified: Some("x".to_string()),
        default_address: None,
    };
    assert!(validate_create_institution(&input).is_ok());
    let blank = CreateInstitution { name_simplified: Some(" ".to_string()), ..input };
    assert_eq!(message_of(validate_create_institution(&blank)), "name is required");
}

#[test]
fn keyword_update_level_message() {
    let input = UpdateKeyword { name: None, level: Some(0) };
    assert_eq!(message_of(validate_update_keyword(&input)), "level: level must be between 1 and 3");
}

//! Checks of request bodies before anything is written.
use vstd::prelude::*;
use crate::dto::{
    CreateBibItem, CreateInstitution, CreateKeyword, CreateSchool, UpdateBibItem,
    UpdateInstitution, UpdateKeyword, UpdateSchool,
};
use crate::numeric::{int_chars, int_str};
use crate::text::{extend, lit, string_of, trim, trimmed};

verus! {

/// Why a request body was refused.
#[derive(Debug, Clone)]
pub enum ValidationError {
    /// A required field is missing or blank.
    Required { field: String },
    /// A field holds a value that is not allowed.
    InvalidValue { field: String, message: String },
    /// Any other refusal.
    Custom { message: String },
}

/// The plain value of a [`ValidationError`].
pub enum ValidationErrorView {
    Required(Seq<char>),
    InvalidValue(Seq<char>, Seq<char>),
    Custom(Seq<char>),
}

impl View for ValidationError {
    type V = ValidationErrorView;

    open spec fn view(&self) -> ValidationErrorView {
        match self {
            ValidationError::Required { field } => ValidationErrorView::Required(field@),
            ValidationError::InvalidValue { field, message } => ValidationErrorView::InvalidValue(field@, message@),
            ValidationError::Custom { message } => ValidationErrorView::Custom(message@),
        }
    }
}

impl ValidationError {
    /// `field` is required.
    pub fn required(field: &str) -> (e: Self)
        ensures
            e@ == ValidationErrorView::Required(field@),
    {
        ValidationError::Required { field: String::from_str(field) }
    }

    /// `field` holds a value that is not allowed, for the reason `message`.
    pub fn invalid_value(field: &str, message: String) -> (e: Self)
        ensures
            e@ == ValidationErrorView::InvalidValue(field@, message@),
    {
        ValidationError::InvalidValue { field: String::from_str(field), message }
    }

    /// A refusal with a free message.
    pub fn custom(message: String) -> (e: Self)
        ensures
            e@ == ValidationErrorView::Custom(message@),
    {
        ValidationError::Custom { message }
    }

    /// The message shown for the error.
    pub fn to_message(&self) -> (r: String)
        ensures
            r@ == error_text(self@),
    {
        match self {
            ValidationError::Required { field } => {
                let mut v = lit(field.as_str());
                crate::text::extend_str(&mut v, " is required");
                string_of(&v)
            },
            ValidationError::InvalidValue { field, message } => {
                let mut v = lit(field.as_str());
                crate::text::extend_str(&mut v, ": ");
                crate::text::extend_str(&mut v, message.as_str());
                string_of(&v)
            },
            ValidationError::Custom { message } => message.clone(),
        }
    }
}

/// The message shown for an error.
pub open spec fn error_text(e: ValidationErrorView) -> Seq<char> {
    match e {
        ValidationErrorView::Required(f) => f + " is required"@,
        ValidationErrorView::InvalidValue(f, m) => f + ": "@ + m,
        ValidationErrorView::Custom(m) => m,
    }
}

/// Whether a text is empty or whitespace only.
pub open spec fn blank(s: Seq<char>) -> bool {
    trim(s).len() == 0
}

/// Whether an optional text is present and not blank.
pub open spec fn filled(o: Option<String>) -> bool {
    match o {
        Some(s) => !blank(s@),
        None => false,
    }
}

/// Whether an optional text is present and blank.
pub open spec fn present_blank(o: Option<String>) -> bool {
    match o {
        Some(s) => blank(s@),
        None => false,
    }
}

/// The outcome of a check: `None` when it passes.
pub open spec fn outcome(r: Result<(), ValidationError>) -> Option<ValidationErrorView> {
    match r {
        Ok(()) => None,
        Err(e) => Some(e@),
    }
}

fn is_blank(s: &str) -> (r: bool)
    ensures
        r == blank(s@),
{
    trimmed(s).len() == 0
}

fn is_filled(o: &Option<String>) -> (r: bool)
    ensures
        r == filled(*o),
{
    match o {
        Some(s) => !is_blank(s.as_str()),
        None => false,
    }
}

fn is_present_blank(o: &Option<String>) -> (r: bool)
    ensures
        r == present_blank(*o),
{
    match o {
        Some(s) => is_blank(s.as_str()),
        None => false,
    }
}

/// `"<what> must be between <lo> and <hi>, got <v>"`.
pub open spec fn range_msg(what: Seq<char>, lo: int, hi: int, v: int) -> Seq<char> {
    what + " must be between "@ + int_str(lo) + " and "@ + int_str(hi) + ", got "@ + int_str(v)
}

fn range_message(what: &str, lo: i64, hi: i64, v: i64) -> (r: String)
    ensures
        r@ == range_msg(what@, lo as int, hi as int, v as int),
{
    let mut m = lit(what);
    crate::text::extend_str(&mut m, " must be between ");
    extend(&mut m, &int_chars(lo));
    crate::text::extend_str(&mut m, " and ");
    extend(&mut m, &int_chars(hi));
    crate::text::extend_str(&mut m, ", got ");
    extend(&mut m, &int_chars(v));
    string_of(&m)
}

// ---------------------------------------------------------------------------
// Bibitems
// ---------------------------------------------------------------------------

/// The month and day checks shared by creation and update.
pub open spec fn month_day_check(month: Option<i16>, day: Option<i16>) -> Option<ValidationErrorView> {
    match month {
        Some(m) if !(1 <= m <= 12) => Some(
            ValidationErrorView::InvalidValue("date_month"@, range_msg("month"@, 1, 12, m as int)),
        ),
        _ => match day {
            Some(d) if !(1 <= d <= 31) => Some(
                ValidationErrorView::InvalidValue("date_day"@, range_msg("day"@, 1, 31, d as int)),
            ),
            _ => None,
        },
    }
}

/// The first rule a new bibitem breaks: a blank bibkey or LaTeX title, a
/// second year without a first, both kinds of year range, a month outside
/// 1..=12, a day outside 1..=31.
pub open spec fn create_bibitem_check(input: CreateBibItem) -> Option<ValidationErrorView> {
    if blank(input.bibkey@) {
        Some(ValidationErrorView::Required("bibkey"@))
    } else if blank(input.title_latex@) {
        Some(ValidationErrorView::Required("title_latex"@))
    } else if (input.date_year_2_hyphen is Some || input.date_year_2_slash is Some) && input.date_year is None {
        Some(
            ValidationErrorView::InvalidValue(
                "date_year"@,
                "year required when year_2_hyphen or year_2_slash is set"@,
            ),
        )
    } else if input.date_year_2_hyphen is Some && input.date_year_2_slash is Some {
        Some(
            ValidationErrorView::InvalidValue(
                "date_year_2_hyphen"@,
                "cannot have both hyphen and slash year ranges"@,
            ),
        )
    } else {
        month_day_check(input.date_month, input.date_day)
    }
}

fn check_month_day(month: Option<i16>, day: Option<i16>) -> (r: Result<(), ValidationError>)
    ensures
        outcome(r) == month_day_check(month, day),
{
    if let Some(m) = month {
        if !(1 <= m && m <= 12) {
            return Err(ValidationError::invalid_value("date_month", range_message("month", 1, 12, m as i64)));
        }
    }
    if let Some(d) = day {
        if !(1 <= d && d <= 31) {
            return Err(ValidationError::invalid_value("date_day", range_message("day", 1, 31, d as i64)));
        }
    }
    Ok(())
}

/// Checks a new bibitem (see `create_bibitem_check`).
pub fn validate_create_bibitem(input: &CreateBibItem) -> (r: Result<(), ValidationError>)
    ensures
        outcome(r) == create_bibitem_check(*input),
{
    if is_blank(input.bibkey.as_str()) {
        return Err(ValidationError::required("bibkey"));
    }
    if is_blank(input.title_latex.as_str()) {
        return Err(ValidationError::required("title_latex"));
    }
    if (input.date_year_2_hyphen.is_some() || input.date_year_2_slash.is_some()) && input.date_year.is_none() {
        return Err(
            ValidationError::invalid_value(
                "date_year",
                String::from_str("year required when year_2_hyphen or year_2_slash is set"),
            ),
        );
    }
    if input.date_year_2_hyphen.is_some() && input.date_year_2_slash.is_some() {
        return Err(
            ValidationError::invalid_value(
                "date_year_2_hyphen",
                String::from_str("cannot have both hyphen and slash year ranges"),
            ),
        );
    }
    check_month_day(input.date_month, input.date_day)
}

/// The first rule a bibitem update breaks: a blank new bibkey, a month
/// outside 1..=12, a day outside 1..=31.
pub open spec fn update_bibitem_check(input: UpdateBibItem) -> Option<ValidationErrorView> {
    if present_blank(input.bibkey) {
        Some(ValidationErrorView::InvalidValue("bibkey"@, "bibkey cannot be empty"@))
    } else {
        month_day_check(input.date_month, input.date_day)
    }
}

/// Checks a bibitem update (see `update_bibitem_check`).
pub fn validate_update_bibitem(input: &UpdateBibItem) -> (r: Result<(), ValidationError>)
    ensures
        outcome(r) == update_bibitem_check(*input),
{
    if is_present_blank(&input.bibkey) {
        return Err(ValidationError::invalid_value("bibkey", String::from_str("bibkey cannot be empty")));
    }
    check_month_day(input.date_month, input.date_day)
}

// ---------------------------------------------------------------------------
// Institutions and schools
// ---------------------------------------------------------------------------

/// A named entity needs a key and at least one name that is not blank.
pub open spec fn named_check(key_field: Seq<char>, key: Seq<char>, l: Option<String>, u: Option<String>, s: Option<String>) -> Option<ValidationErrorView> {
    if blank(key) {
        Some(ValidationErrorView::Required(key_field))
    } else if !(filled(l) || filled(u) || filled(s)) {
        Some(ValidationErrorView::Required("name"@))
    } else {
        None
    }
}

/// An update may not set the key to a blank text (refused with `message`).
pub open spec fn named_update_check(key_field: Seq<char>, message: Seq<char>, key: Option<String>) -> Option<ValidationErrorView> {
    if present_blank(key) {
        Some(ValidationErrorView::InvalidValue(key_field, message))
    } else {
        None
    }
}

/// Checks a new institution: a key and a name are required.
pub fn validate_create_institution(input: &CreateInstitution) -> (r: Result<(), ValidationError>)
    ensures
        outcome(r) == named_check(
            "institution_key"@,
            input.institution_key@,
            input.name_latex,
            input.name_unicode,
            input.name_simplified,
        ),
{
    if is_blank(input.institution_key.as_str()) {
        return Err(ValidationError::required("institution_key"));
    }
    let has_name = is_filled(&input.name_latex) || is_filled(&input.name_unicode) || is_filled(&input.name_simplified);
    if !has_name {
        return Err(ValidationError::required("name"));
    }
    Ok(())
}

/// Checks an institution update: the key may not become blank.
pub fn validate_update_institution(input: &UpdateInstitution) -> (r: Result<(), ValidationError>)
    ensures
        outcome(r) == named_update_check("institution_key"@, "institution_key cannot be empty"@, input.institution_key),
{
    if is_present_blank(&input.institution_key) {
        return Err(
            ValidationError::invalid_value("institution_key", String::from_str("institution_key cannot be empty")),
        );
    }
    Ok(())
}

/// Checks a new school: a key and a name are required.
pub fn validate_create_school(input: &CreateSchool) -> (r: Result<(), ValidationError>)
    ensures
        outcome(r) == named_check(
            "school_key"@,
            input.school_key@,
            input.name_latex,
            input.name_unicode,
            input.name_simplified,
        ),
{
    if is_blank(input.school_key.as_str()) {
        return Err(ValidationError::required("school_key"));
    }
    let has_name = is_filled(&input.name_latex) || is_filled(&input.name_unicode) || is_filled(&input.name_simplified);
    if !has_name {
        return Err(ValidationError::required("name"));
    }
    Ok(())
}

/// Checks a school update: the key may not become blank.
pub fn validate_update_school(input: &UpdateSchool) -> (r: Result<(), ValidationError>)
    ensures
        outcome(r) == named_update_check("school_key"@, "school_key cannot be empty"@, input.school_key),
{
    if is_present_blank(&input.school_key) {
        return Err(ValidationError::invalid_value("school_key", String::from_str("school_key cannot be empty")));
    }
    Ok(())
}

// ---------------------------------------------------------------------------
// Keywords
// ---------------------------------------------------------------------------

/// A keyword needs a name that is not blank and a level from 1 to 3.
pub open spec fn create_keyword_check(input: CreateKeyword) -> Option<ValidationErrorView> {
    if blank(input.name@) {
        Some(ValidationErrorView::Required("name"@))
    } else if !(1 <= input.level <= 3) {
        Some(ValidationErrorView::InvalidValue("level"@, "level must be between 1 and 3"@))
    } else {
        None
    }
}

/// Checks a new keyword (see `create_keyword_check`).
pub fn validate_create_keyword(input: &CreateKeyword) -> (r: Result<(), ValidationError>)
    ensures
        outcome(r) == create_keyword_check(*input),
{
    if is_blank(input.name.as_str()) {
        return Err(ValidationError::required("name"));
    }
    if !(1 <= input.level && input.level <= 3) {
        return Err(ValidationError::invalid_value("level", String::from_str("level must be between 1 and 3")));
    }
    Ok(())
}

/// A keyword update may not set a blank name or a level outside 1 to 3.
pub open spec fn update_keyword_check(input: UpdateKeyword) -> Option<ValidationErrorView> {
    if present_blank(input.name) {
        Some(ValidationErrorView::InvalidValue("name"@, "name cannot be empty"@))
    } else {
        match input.level {
            Some(l) if !(1 <= l <= 3) => Some(
                ValidationErrorView::InvalidValue("level"@, "level must be between 1 and 3"@),
            ),
            _ => None,
        }
    }
}

/// Checks a keyword update (see `update_keyword_check`).
pub fn validate_update_keyword(input: &UpdateKeyword) -> (r: Result<(), ValidationError>)
    ensures
        outcome(r) == update_keyword_check(*input),
{
    if is_present_blank(&input.name) {
        return Err(ValidationError::invalid_value("name", String::from_str("name cannot be empty")));
    }
    if let Some(level) = input.level {
        if !(1 <= level && level <= 3) {
            return Err(ValidationError::invalid_value("level", String::from_str("level must be between 1 and 3")));
        }
    }
    Ok(())
}

} // verus!

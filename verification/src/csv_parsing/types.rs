//! Values produced by the CSV field parsers.
use vstd::prelude::*;
use crate::text::{extend, extend_str, lit, string_of};

verus! {

// ---------------------------------------------------------------------------
// Parsed author
// ---------------------------------------------------------------------------

/// An author name as written in an import row.
#[derive(Debug, Clone, PartialEq, Eq, Hash)]
pub enum ParsedAuthor {
    Named { family_name: String, given_name: Option<String> },
    Mononym(String),
}

/// The view of an optional string.
pub open spec fn opt_str_view(o: Option<String>) -> Option<Seq<char>> {
    match o {
        Some(s) => Some(s@),
        None => None,
    }
}

/// The name shown for an author: `family, given`, the family name alone, or
/// the mononym.
pub open spec fn display_name_spec(a: ParsedAuthor) -> Seq<char> {
    match a {
        ParsedAuthor::Mononym(m) => m@,
        ParsedAuthor::Named { family_name, given_name } => match given_name {
            Some(g) => family_name@ + ", "@ + g@,
            None => family_name@,
        },
    }
}

impl ParsedAuthor {
    /// `Family, Given`, `Family`, or the mononym.
    pub fn display_name(&self) -> (r: String)
        ensures
            r@ == display_name_spec(*self),
    {
        match self {
            ParsedAuthor::Mononym(m) => m.clone(),
            ParsedAuthor::Named { family_name, given_name } => match given_name {
                Some(g) => {
                    let mut v = lit(family_name.as_str());
                    extend_str(&mut v, ", ");
                    extend_str(&mut v, g.as_str());
                    string_of(&v)
                },
                None => family_name.clone(),
            },
        }
    }
}

// ---------------------------------------------------------------------------
// Parsed date
// ---------------------------------------------------------------------------

/// The separator of a two-year date.
#[derive(Debug, Clone, Copy, PartialEq, Eq)]
pub enum DateRangeSeparator {
    Hyphen,
    Slash,
}

/// A parsed `date` field.
#[derive(Debug, Clone, PartialEq, Eq)]
pub enum ParsedDate {
    NoDate,
    Year(i16),
    YearRange { year: i16, year2: i16, separator: DateRangeSeparator },
    FullDate { year: i16, month: i16, day: i16 },
}

// ---------------------------------------------------------------------------
// Parsed bibkey
// ---------------------------------------------------------------------------

/// The date part of a bibkey.
#[derive(Debug, Clone, PartialEq, Eq)]
pub enum BibkeyDate {
    Year(i16),
    Unpub,
    Forthcoming,
}

/// A bibkey `author[-others]:date[suffix]` taken apart.
#[derive(Debug, Clone, PartialEq, Eq)]
pub struct ParsedBibkey {
    pub full: String,
    pub first_author: String,
    pub other_authors: Option<String>,
    pub date: BibkeyDate,
    pub suffix: String,
}

/// The mathematical value of a [`ParsedBibkey`].
pub struct ParsedBibkeyView {
    pub full: Seq<char>,
    pub first_author: Seq<char>,
    pub other_authors: Option<Seq<char>>,
    pub date: BibkeyDate,
    pub suffix: Seq<char>,
}

impl View for ParsedBibkey {
    type V = ParsedBibkeyView;

    open spec fn view(&self) -> ParsedBibkeyView {
        ParsedBibkeyView {
            full: self.full@,
            first_author: self.first_author@,
            other_authors: opt_str_view(self.other_authors),
            date: self.date,
            suffix: self.suffix@,
        }
    }
}

// ---------------------------------------------------------------------------
// Parsed keywords and row errors
// ---------------------------------------------------------------------------

/// Keyword names of one row, by level.
#[derive(Debug, Clone, Default, PartialEq, Eq)]
pub struct ParsedKeywords {
    pub level_1: Vec<String>,
    pub level_2: Vec<String>,
    pub level_3: Vec<String>,
}

/// One field of a row that could not be parsed.
#[derive(Debug, Clone)]
pub struct FieldError {
    pub field: String,
    pub error: String,
}

} // verus!

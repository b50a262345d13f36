//! Request bodies for creating and updating entities.
use vstd::prelude::*;
use crate::domain::{copy_epoch, copy_langid, copy_pubstate, EntryType, Epoch, LangId, PubState};

verus! {

/// A copy of an optional string.
pub fn clone_opt(o: &Option<String>) -> (r: Option<String>)
    ensures
        r == *o,
{
    match o {
        Some(s) => Some(s.clone()),
        None => None,
    }
}

/// Body for creating a author.
#[derive(Debug, Clone)]
pub struct CreateAuthor {
    pub author_key: String,
    pub given_name_latex: Option<String>,
    pub given_name_unicode: Option<String>,
    pub given_name_simplified: Option<String>,
    pub family_name_latex: Option<String>,
    pub family_name_unicode: Option<String>,
    pub family_name_simplified: Option<String>,
    pub mononym_latex: Option<String>,
    pub mononym_unicode: Option<String>,
    pub mononym_simplified: Option<String>,
    pub shorthand_latex: Option<String>,
    pub shorthand_unicode: Option<String>,
    pub shorthand_simplified: Option<String>,
    pub famous_name_latex: Option<String>,
    pub famous_name_unicode: Option<String>,
    pub famous_name_simplified: Option<String>,
}

/// Body for updating a author; every field is optional.
#[derive(Debug, Clone)]
pub struct UpdateAuthor {
    pub author_key: Option<String>,
    pub given_name_latex: Option<String>,
    pub given_name_unicode: Option<String>,
    pub given_name_simplified: Option<String>,
    pub family_name_latex: Option<String>,
    pub family_name_unicode: Option<String>,
    pub family_name_simplified: Option<String>,
    pub mononym_latex: Option<String>,
    pub mononym_unicode: Option<String>,
    pub mononym_simplified: Option<String>,
    pub shorthand_latex: Option<String>,
    pub shorthand_unicode: Option<String>,
    pub shorthand_simplified: Option<String>,
    pub famous_name_latex: Option<String>,
    pub famous_name_unicode: Option<String>,
    pub famous_name_simplified: Option<String>,
}

/// Body for creating a institution.
#[derive(Debug, Clone)]
pub struct CreateInstitution {
    pub institution_key: String,
    pub name_latex: Option<String>,
    pub name_unicode: Option<String>,
    pub name_simplified: Option<String>,
    pub default_address: Option<String>,
}

/// Body for updating a institution; every field is optional.
#[derive(Debug, Clone)]
pub struct UpdateInstitution {
    pub institution_key: Option<String>,
    pub name_latex: Option<String>,
    pub name_unicode: Option<String>,
    pub name_simplified: Option<String>,
    pub default_address: Option<String>,
}

/// Body for creating a journal.
#[derive(Debug, Clone)]
pub struct CreateJournal {
    pub journal_key: String,
    pub name_latex: Option<String>,
    pub name_unicode: Option<String>,
    pub name_simplified: Option<String>,
    pub issn_print: Option<String>,
    pub issn_electronic: Option<String>,
}

/// Body for updating a journal; every field is optional.
#[derive(Debug, Clone)]
pub struct UpdateJournal {
    pub journal_key: Option<String>,
    pub name_latex: Option<String>,
    pub name_unicode: Option<String>,
    pub name_simplified: Option<String>,
    pub issn_print: Option<String>,
    pub issn_electronic: Option<String>,
}

/// Body for creating a publisher.
#[derive(Debug, Clone)]
pub struct CreatePublisher {
    pub publisher_key: String,
    pub name_latex: Option<String>,
    pub name_unicode: Option<String>,
    pub name_simplified: Option<String>,
    pub default_address: Option<String>,
}

/// Body for updating a publisher; every field is optional.
#[derive(Debug, Clone)]
pub struct UpdatePublisher {
    pub publisher_key: Option<String>,
    pub name_latex: Option<String>,
    pub name_unicode: Option<String>,
    pub name_simplified: Option<String>,
    pub default_address: Option<String>,
}

/// Body for creating a school.
#[derive(Debug, Clone)]
pub struct CreateSchool {
    pub school_key: String,
    pub name_latex: Option<String>,
    pub name_unicode: Option<String>,
    pub name_simplified: Option<String>,
    pub default_address: Option<String>,
}

/// Body for updating a school; every field is optional.
#[derive(Debug, Clone)]
pub struct UpdateSchool {
    pub school_key: Option<String>,
    pub name_latex: Option<String>,
    pub name_unicode: Option<String>,
    pub name_simplified: Option<String>,
    pub default_address: Option<String>,
}

/// Body for creating a series.
#[derive(Debug, Clone)]
pub struct CreateSeries {
    pub series_key: String,
    pub name_latex: Option<String>,
    pub name_unicode: Option<String>,
    pub name_simplified: Option<String>,
}

/// Body for updating a series; every field is optional.
#[derive(Debug, Clone)]
pub struct UpdateSeries {
    pub series_key: Option<String>,
    pub name_latex: Option<String>,
    pub name_unicode: Option<String>,
    pub name_simplified: Option<String>,
}

/// Body for creating a keyword.
#[derive(Debug, Clone)]
pub struct CreateKeyword {
    pub name: String,
    pub level: i16,
}

/// Body for updating a keyword; every field is optional.
#[derive(Debug, Clone)]
pub struct UpdateKeyword {
    pub name: Option<String>,
    pub level: Option<i16>,
}

/// Body for creating a bibitem; related entities are referred to by key.
#[derive(Debug, Clone)]
pub struct CreateBibItem {
    pub bibkey: String,
    pub entry_type: EntryType,
    pub date_year: Option<i16>,
    pub date_year_2_hyphen: Option<i16>,
    pub date_year_2_slash: Option<i16>,
    pub date_month: Option<i16>,
    pub date_day: Option<i16>,
    pub date_is_no_date: bool,
    pub pubstate: Option<PubState>,
    pub title_latex: String,
    pub title_unicode: Option<String>,
    pub booktitle_latex: Option<String>,
    pub booktitle_unicode: Option<String>,
    pub journal_key: Option<String>,
    pub publisher_key: Option<String>,
    pub address: Option<String>,
    pub volume: Option<String>,
    pub volume_numeric: Option<i32>,
    pub number: Option<String>,
    pub number_numeric: Option<i32>,
    pub pages: Option<String>,
    pub start_page: Option<i32>,
    pub eid: Option<String>,
    pub series_key: Option<String>,
    pub edition: Option<String>,
    pub institution_key: Option<String>,
    pub school_key: Option<String>,
    pub type_field: Option<String>,
    pub doi: Option<String>,
    pub url: Option<String>,
    pub eprint: Option<String>,
    pub urn: Option<String>,
    pub crossref: Option<String>,
    pub issuetitle_latex: Option<String>,
    pub issuetitle_unicode: Option<String>,
    pub note_latex: Option<String>,
    pub note_unicode: Option<String>,
    pub extra_note_latex: Option<String>,
    pub extra_note_unicode: Option<String>,
    pub langid: Option<LangId>,
    pub is_translation: bool,
    pub epoch: Option<Epoch>,
    pub options: Option<String>,
    pub shorthand: Option<String>,
    pub person_key: Option<String>,
    pub has_fulltext: bool,
    pub fulltext_path: Option<String>,
    pub license: Option<String>,
}

/// Body for updating a bibitem; every field is optional.
#[derive(Debug, Clone)]
pub struct UpdateBibItem {
    pub bibkey: Option<String>,
    pub entry_type: Option<EntryType>,
    pub date_year: Option<i16>,
    pub date_year_2_hyphen: Option<i16>,
    pub date_year_2_slash: Option<i16>,
    pub date_month: Option<i16>,
    pub date_day: Option<i16>,
    pub date_is_no_date: Option<bool>,
    pub pubstate: Option<PubState>,
    pub title_latex: Option<String>,
    pub title_unicode: Option<String>,
    pub booktitle_latex: Option<String>,
    pub booktitle_unicode: Option<String>,
    pub journal_key: Option<String>,
    pub publisher_key: Option<String>,
    pub address: Option<String>,
    pub volume: Option<String>,
    pub volume_numeric: Option<i32>,
    pub number: Option<String>,
    pub number_numeric: Option<i32>,
    pub pages: Option<String>,
    pub start_page: Option<i32>,
    pub eid: Option<String>,
    pub series_key: Option<String>,
    pub edition: Option<String>,
    pub institution_key: Option<String>,
    pub school_key: Option<String>,
    pub type_field: Option<String>,
    pub doi: Option<String>,
    pub url: Option<String>,
    pub eprint: Option<String>,
    pub urn: Option<String>,
    pub crossref: Option<String>,
    pub issuetitle_latex: Option<String>,
    pub issuetitle_unicode: Option<String>,
    pub note_latex: Option<String>,
    pub note_unicode: Option<String>,
    pub extra_note_latex: Option<String>,
    pub extra_note_unicode: Option<String>,
    pub langid: Option<LangId>,
    pub is_translation: Option<bool>,
    pub epoch: Option<Epoch>,
    pub options: Option<String>,
    pub shorthand: Option<String>,
    pub person_key: Option<String>,
    pub has_fulltext: Option<bool>,
    pub fulltext_path: Option<String>,
    pub license: Option<String>,
}

/// The update that sets every field of a bibitem to the values of `create`
/// (used to upsert).
pub fn build_bibitem_update_dto(create: &CreateBibItem) -> (r: UpdateBibItem)
    ensures
        r.bibkey == Some(create.bibkey),
        r.entry_type == Some(create.entry_type),
        r.date_year == create.date_year,
        r.date_year_2_hyphen == create.date_year_2_hyphen,
        r.date_year_2_slash == create.date_year_2_slash,
        r.date_month == create.date_month,
        r.date_day == create.date_day,
        r.date_is_no_date == Some(create.date_is_no_date),
        r.pubstate == create.pubstate,
        r.title_latex == Some(create.title_latex),
        r.title_unicode == create.title_unicode,
        r.booktitle_latex == create.booktitle_latex,
        r.booktitle_unicode == create.booktitle_unicode,
        r.journal_key == create.journal_key,
        r.publisher_key == create.publisher_key,
        r.address == create.address,
        r.volume == create.volume,
        r.volume_numeric == create.volume_numeric,
        r.number == create.number,
        r.number_numeric == create.number_numeric,
        r.pages == create.pages,
        r.start_page == create.start_page,
        r.eid == create.eid,
        r.series_key == create.series_key,
        r.edition == create.edition,
        r.institution_key == create.institution_key,
        r.school_key == create.school_key,
        r.type_field == create.type_field,
        r.doi == create.doi,
        r.url == create.url,
        r.eprint == create.eprint,
        r.urn == create.urn,
        r.crossref == create.crossref,
        r.issuetitle_latex == create.issuetitle_latex,
        r.issuetitle_unicode == create.issuetitle_unicode,
        r.note_latex == create.note_latex,
        r.note_unicode == create.note_unicode,
        r.extra_note_latex == create.extra_note_latex,
        r.extra_note_unicode == create.extra_note_unicode,
        r.langid == create.langid,
        r.is_translation == Some(create.is_translation),
        r.epoch == create.epoch,
        r.options == create.options,
        r.shorthand == create.shorthand,
        r.person_key == create.person_key,
        r.has_fulltext == Some(create.has_fulltext),
        r.fulltext_path == create.fulltext_path,
        r.license == create.license,
{
    UpdateBibItem {
        bibkey: Some(create.bibkey.clone()),
        entry_type: Some(create.entry_type),
        date_year: create.date_year,
        date_year_2_hyphen: create.date_year_2_hyphen,
        date_year_2_slash: create.date_year_2_slash,
        date_month: create.date_month,
        date_day: create.date_day,
        date_is_no_date: Some(create.date_is_no_date),
        pubstate: copy_pubstate(&create.pubstate),
        title_latex: Some(create.title_latex.clone()),
        title_unicode: clone_opt(&create.title_unicode),
        booktitle_latex: clone_opt(&create.booktitle_latex),
        booktitle_unicode: clone_opt(&create.booktitle_unicode),
        journal_key: clone_opt(&create.journal_key),
        publisher_key: clone_opt(&create.publisher_key),
        address: clone_opt(&create.address),
        volume: clone_opt(&create.volume),
        volume_numeric: create.volume_numeric,
        number: clone_opt(&create.number),
        number_numeric: create.number_numeric,
        pages: clone_opt(&create.pages),
        start_page: create.start_page,
        eid: clone_opt(&create.eid),
        series_key: clone_opt(&create.series_key),
        edition: clone_opt(&create.edition),
        institution_key: clone_opt(&create.institution_key),
        school_key: clone_opt(&create.school_key),
        type_field: clone_opt(&create.type_field),
        doi: clone_opt(&create.doi),
        url: clone_opt(&create.url),
        eprint: clone_opt(&create.eprint),
        urn: clone_opt(&create.urn),
        crossref: clone_opt(&create.crossref),
        issuetitle_latex: clone_opt(&create.issuetitle_latex),
        issuetitle_unicode: clone_opt(&create.issuetitle_unicode),
        note_latex: clone_opt(&create.note_latex),
        note_unicode: clone_opt(&create.note_unicode),
        extra_note_latex: clone_opt(&create.extra_note_latex),
        extra_note_unicode: clone_opt(&create.extra_note_unicode),
        langid: copy_langid(&create.langid),
        is_translation: Some(create.is_translation),
        epoch: copy_epoch(&create.epoch),
        options: clone_opt(&create.options),
        shorthand: clone_opt(&create.shorthand),
        person_key: clone_opt(&create.person_key),
        has_fulltext: Some(create.has_fulltext),
        fulltext_path: clone_opt(&create.fulltext_path),
        license: clone_opt(&create.license),
    }
}

} // verus!

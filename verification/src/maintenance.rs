//! Recomputing the numeric fields that are derived from text fields of
//! bibitems: the start page from the pages, and the leading numbers of the
//! volume and the issue number.
use vstd::prelude::*;
use crate::csv_parsing::types::opt_str_view;
use crate::pages::{compute_start_page, extract_leading_integer, is_opt, leading_integer_spec, start_page_spec};

verus! {

/// How many bibitems a start page run updated.
#[derive(Debug)]
pub struct ComputeStartPagesReport {
    pub updated: usize,
}

/// The pages of one bibitem.
pub struct BibitemPagesRow {
    pub id: i64,
    pub pages: Option<String>,
}

/// The start page to store for one bibitem.
#[derive(Debug)]
pub struct StartPageUpdate {
    pub id: i64,
    pub start_page: Option<i32>,
}

/// How many bibitems a numeric fields run updated.
#[derive(Debug)]
pub struct ComputeNumericFieldsReport {
    pub updated: usize,
}

/// The text fields of one bibitem that numbers are derived from.
pub struct BibitemTextFieldsRow {
    pub id: i64,
    pub pages: Option<String>,
    pub volume: Option<String>,
    pub number: Option<String>,
}

/// The derived numbers to store for one bibitem.
#[derive(Debug)]
pub struct NumericFieldsUpdate {
    pub id: i64,
    pub start_page: Option<i32>,
    pub volume_numeric: Option<i32>,
    pub number_numeric: Option<i32>,
}

fn opt_as_str(o: &Option<String>) -> (r: Option<&str>)
    ensures
        crate::pages::opt_view(r) == opt_str_view(*o),
{
    match o {
        Some(s) => Some(s.as_str()),
        None => None,
    }
}

/// One update per row, in order: the start page of the row's pages.
pub fn start_page_updates(rows: &Vec<BibitemPagesRow>) -> (r: Vec<StartPageUpdate>)
    ensures
        r.len() == rows.len(),
        forall|i: int| 0 <= i < rows.len() ==> (#[trigger] r@[i]).id == rows@[i].id
            && is_opt(r@[i].start_page, start_page_spec(opt_str_view(rows@[i].pages))),
{
    let mut out: Vec<StartPageUpdate> = Vec::new();
    let mut i: usize = 0;
    while i < rows.len()
        invariant
            i <= rows.len(),
            out.len() == i,
            forall|k: int| 0 <= k < i ==> (#[trigger] out@[k]).id == rows@[k].id
                && is_opt(out@[k].start_page, start_page_spec(opt_str_view(rows@[k].pages))),
        decreases rows.len() - i,
    {
        let row = &rows[i];
        out.push(StartPageUpdate { id: row.id, start_page: compute_start_page(opt_as_str(&row.pages)) });
        i += 1;
    }
    out
}

/// One update per row, in order: the start page of the pages and the
/// leading integers of the volume and the number.
pub fn numeric_field_updates(rows: &Vec<BibitemTextFieldsRow>) -> (r: Vec<NumericFieldsUpdate>)
    ensures
        r.len() == rows.len(),
        forall|i: int| 0 <= i < rows.len() ==> (#[trigger] r@[i]).id == rows@[i].id
            && is_opt(r@[i].start_page, start_page_spec(opt_str_view(rows@[i].pages)))
            && is_opt(r@[i].volume_numeric, leading_integer_spec(opt_str_view(rows@[i].volume)))
            && is_opt(r@[i].number_numeric, leading_integer_spec(opt_str_view(rows@[i].number))),
{
    let mut out: Vec<NumericFieldsUpdate> = Vec::new();
    let mut i: usize = 0;
    while i < rows.len()
        invariant
            i <= rows.len(),
            out.len() == i,
            forall|k: int| 0 <= k < i ==> (#[trigger] out@[k]).id == rows@[k].id
                && is_opt(out@[k].start_page, start_page_spec(opt_str_view(rows@[k].pages)))
                && is_opt(out@[k].volume_numeric, leading_integer_spec(opt_str_view(rows@[k].volume)))
                && is_opt(out@[k].number_numeric, leading_integer_spec(opt_str_view(rows@[k].number))),
        decreases rows.len() - i,
    {
        let row = &rows[i];
        out.push(
            NumericFieldsUpdate {
                id: row.id,
                start_page: compute_start_page(opt_as_str(&row.pages)),
                volume_numeric: extract_leading_integer(opt_as_str(&row.volume)),
                number_numeric: extract_leading_integer(opt_as_str(&row.number)),
            },
        );
        i += 1;
    }
    out
}

} // verus!

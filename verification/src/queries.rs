//! Filters for listing entities, and the SQL conditions they stand for.
//!
//! A condition refers to its value by a numbered placeholder `$n`; the values
//! are handed over separately, in the order of their placeholders.
use vstd::prelude::*;
use crate::numeric::{nat_str, push_nat};
use crate::text::{extend_str, string_of};

verus! {

/// Filter for authors: part of the family name, or a term matched against
/// family and given names.
#[derive(Debug, Default)]
pub struct AuthorQuery {
    pub family_name: Option<String>,
    pub search_term: Option<String>,
}

/// Filter for bibliography items.
#[derive(Debug, Default)]
pub struct BibItemQuery {
    pub entry_type: Option<String>,
    pub year_from: Option<i16>,
    pub year_to: Option<i16>,
    pub author_id: Option<i64>,
    pub journal_id: Option<i64>,
    pub epoch: Option<String>,
    pub search_term: Option<String>,
}

/// Filter for series: part of the name.
#[derive(Debug, Default)]
pub struct SeriesQuery {
    pub name: Option<String>,
}

/// Filter for journals: part of the name.
#[derive(Debug, Default)]
pub struct JournalQuery {
    pub name: Option<String>,
}

/// Filter for keywords: the level, and part of the name.
#[derive(Debug, Default)]
pub struct KeywordQuery {
    pub level: Option<i16>,
    pub name: Option<String>,
}

/// A value bound to a placeholder.
#[derive(Debug, Clone, PartialEq, Eq)]
pub enum QueryParam {
    SmallInt(i16),
    Text(String),
}

/// The view of a bound value.
pub enum QueryParamView {
    SmallInt(int),
    Text(Seq<char>),
}

impl View for QueryParam {
    type V = QueryParamView;

    open spec fn view(&self) -> QueryParamView {
        match self {
            QueryParam::SmallInt(v) => QueryParamView::SmallInt(*v as int),
            QueryParam::Text(s) => QueryParamView::Text(s@),
        }
    }
}

/// The placeholder numbered `idx`.
pub open spec fn placeholder(idx: nat) -> Seq<char> {
    seq!['$'] + nat_str(idx)
}

/// The condition that a column holds the text of placeholder `idx`,
/// ignoring case.
pub open spec fn ilike_condition(column: Seq<char>, idx: nat) -> Seq<char> {
    column + " ILIKE '%' || "@ + placeholder(idx) + " || '%'"@
}

/// The condition that a column equals placeholder `idx`.
pub open spec fn eq_condition(column: Seq<char>, idx: nat) -> Seq<char> {
    column + " = "@ + placeholder(idx)
}

fn ilike(column: &str, idx: usize) -> (r: String)
    ensures
        r@ == ilike_condition(column@, idx as nat),
{
    let mut v: Vec<char> = Vec::new();
    extend_str(&mut v, column);
    extend_str(&mut v, " ILIKE '%' || ");
    v.push('$');
    push_nat(&mut v, idx as u64);
    extend_str(&mut v, " || '%'");
    assert(v@ =~= ilike_condition(column@, idx as nat));
    string_of(&v)
}

fn equals(column: &str, idx: usize) -> (r: String)
    ensures
        r@ == eq_condition(column@, idx as nat),
{
    let mut v: Vec<char> = Vec::new();
    extend_str(&mut v, column);
    extend_str(&mut v, " = ");
    v.push('$');
    push_nat(&mut v, idx as u64);
    assert(v@ =~= eq_condition(column@, idx as nat));
    string_of(&v)
}

/// The conditions of a journal filter from placeholder `idx` on, and the
/// next free placeholder number.
pub open spec fn journal_conditions(q: JournalQuery, idx: nat) -> (Seq<Seq<char>>, nat) {
    if q.name is Some {
        (seq![ilike_condition("name_simplified"@, idx)], idx + 1)
    } else {
        (Seq::empty(), idx)
    }
}

/// The conditions of a keyword filter from placeholder `idx` on, and the
/// next free placeholder number: the level first, then the name.
pub open spec fn keyword_conditions(q: KeywordQuery, idx: nat) -> (Seq<Seq<char>>, nat) {
    let (lv, next): (Seq<Seq<char>>, nat) = if q.level is Some {
        (seq![eq_condition("level"@, idx)], idx + 1)
    } else {
        (Seq::empty(), idx)
    };
    if q.name is Some {
        (lv.push(ilike_condition("name"@, next)), next + 1)
    } else {
        (lv, next)
    }
}

/// The number of values a journal filter binds.
pub open spec fn journal_param_count(q: JournalQuery) -> nat {
    if q.name is Some { 1 } else { 0 }
}

/// The number of values a keyword filter binds.
pub open spec fn keyword_param_count(q: KeywordQuery) -> nat {
    (if q.level is Some { 1nat } else { 0nat }) + (if q.name is Some { 1nat } else { 0nat })
}

/// The strings of a vector of conditions.
pub open spec fn texts(v: Seq<String>) -> Seq<Seq<char>> {
    v.map_values(|s: String| s@)
}

impl JournalQuery {
    /// The SQL conditions of this filter, numbering placeholders from `idx`,
    /// and the next free placeholder number.
    pub fn build_conditions(&self, idx: usize) -> (r: (Vec<String>, usize))
        requires
            idx + journal_param_count(*self) <= usize::MAX,
        ensures
            texts(r.0@) == journal_conditions(*self, idx as nat).0,
            r.1 == journal_conditions(*self, idx as nat).1,
    {
        let start = idx;
        let mut conditions: Vec<String> = Vec::new();
        let mut idx = idx;
        if self.name.is_some() {
            conditions.push(ilike("name_simplified", idx));
            idx += 1;
        }
        assert(texts(conditions@) =~= journal_conditions(*self, start as nat).0);
        (conditions, idx)
    }

    /// The values this filter binds, in the order of its placeholders.
    pub fn params(&self) -> (r: Vec<QueryParam>)
        ensures
            r.len() == journal_param_count(*self),
            self.name matches Some(n) ==> r@[0]@ == QueryParamView::Text(n@),
    {
        let mut r: Vec<QueryParam> = Vec::new();
        if let Some(n) = &self.name {
            r.push(QueryParam::Text(n.clone()));
        }
        r
    }
}

impl KeywordQuery {
    /// The SQL conditions of this filter (level first, then name), numbering
    /// placeholders from `idx`, and the next free placeholder number.
    pub fn build_conditions(&self, idx: usize) -> (r: (Vec<String>, usize))
        requires
            idx + keyword_param_count(*self) <= usize::MAX,
        ensures
            texts(r.0@) == keyword_conditions(*self, idx as nat).0,
            r.1 == keyword_conditions(*self, idx as nat).1,
    {
        let start = idx;
        let mut conditions: Vec<String> = Vec::new();
        let mut idx = idx;
        if self.level.is_some() {
            conditions.push(equals("level", idx));
            idx += 1;
        }
        let ghost mid = conditions@;
        if self.name.is_some() {
            conditions.push(ilike("name", idx));
            idx += 1;
        }
        assert(texts(conditions@) =~= keyword_conditions(*self, start as nat).0);
        (conditions, idx)
    }

    /// The values this filter binds, in the order of its placeholders: the
    /// level, then the name.
    pub fn params(&self) -> (r: Vec<QueryParam>)
        ensures
            r.len() == keyword_param_count(*self),
            self.level matches Some(l) ==> r@[0]@ == QueryParamView::SmallInt(l as int),
            self.name matches Some(n) ==> r@[r.len() - 1]@ == QueryParamView::Text(n@),
    {
        let mut r: Vec<QueryParam> = Vec::new();
        if let Some(l) = self.level {
            r.push(QueryParam::SmallInt(l));
        }
        if let Some(n) = &self.name {
            r.push(QueryParam::Text(n.clone()));
        }
        r
    }
}

/// A filter has one condition per value it binds, and numbers their
/// placeholders without gaps: the next free number is `idx` plus that count.
pub proof fn lemma_one_placeholder_per_param(j: JournalQuery, k: KeywordQuery, idx: nat)
    ensures
        journal_conditions(j, idx).0.len() == journal_param_count(j),
        journal_conditions(j, idx).1 == idx + journal_param_count(j),
        keyword_conditions(k, idx).0.len() == keyword_param_count(k),
        keyword_conditions(k, idx).1 == idx + keyword_param_count(k),
{
}

} // verus!

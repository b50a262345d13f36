//! Bulk bibitem import: the pure part. Given parsed rows and lookup tables,
//! decide what is missing, what can be imported, and which rows to write.
use vstd::prelude::*;
use crate::csv_parsing::types::{display_name_spec, opt_str_view};
use crate::domain::{copy_epoch, copy_langid, copy_pubstate, AuthorRole, EntryType, Epoch, LangId, PubState, RefType};
use crate::pages::{compute_start_page, is_opt, opt_view, start_page_spec};
use crate::dto::{clone_opt, CreateBibItem};
use crate::numeric::{int_chars, int_str};
use crate::validation::{create_bibitem_check, error_text, validate_create_bibitem};
use crate::keymap::{sort_strings, StrMap, StrSet};
use crate::latex_citations::{cite_keys_spec, extract_cite_keys};
use crate::text::{
    alnum, chars_of, extend, extend_str, is_alphanumeric, join, join_chars, lit, lower_text, seqs_of,
    slice_of, split, split_chars, string_of, strs_of, to_lowercase,
};

pub use crate::csv_parsing::types::{
    BibkeyDate, DateRangeSeparator, FieldError, ParsedAuthor, ParsedBibkey, ParsedDate,
    ParsedKeywords,
};

verus! {

// ---------------------------------------------------------------------------
// Parsed rows
// ---------------------------------------------------------------------------

/// One row of the import file with every field parsed.
#[derive(Debug, Clone)]
pub struct ParsedBibRow {
    pub bibkey: String,
    pub entry_type: EntryType,
    pub authors: Vec<ParsedAuthor>,
    pub editors: Vec<ParsedAuthor>,
    pub guesteditors: Vec<ParsedAuthor>,
    pub person: Option<ParsedAuthor>,
    pub date: ParsedDate,
    pub pubstate: Option<PubState>,
    pub title: String,
    pub booktitle: Option<String>,
    pub journal_name: Option<String>,
    pub publisher_name: Option<String>,
    pub institution_name: Option<String>,
    pub school_name: Option<String>,
    pub series_name: Option<String>,
    pub crossref_bibkey: Option<String>,
    pub keywords: ParsedKeywords,
    pub volume: Option<String>,
    pub number: Option<String>,
    pub pages: Option<String>,
    pub eid: Option<String>,
    pub address: Option<String>,
    pub type_field: Option<String>,
    pub edition: Option<String>,
    pub note: Option<String>,
    pub issuetitle: Option<String>,
    pub extra_note: Option<String>,
    pub shorthand: Option<String>,
    pub note_perso: Option<String>,
    pub note_stock: Option<String>,
    pub note_missing: Option<String>,
    pub change_request: Option<String>,
    pub dltc_copyediting_note: Option<String>,
    pub todo_general: Option<String>,
    pub options: Option<String>,
    pub doi: Option<String>,
    pub url: Option<String>,
    pub eprint: Option<String>,
    pub urn: Option<String>,
    pub epoch: Option<Epoch>,
    pub langid: Option<LangId>,
    pub is_translation: bool,
    pub has_fulltext: bool,
    pub license: Option<String>,
}

/// The outcome of parsing one row.
pub enum RowParseResult {
    /// The row parsed.
    Parsed(Box<ParsedBibRow>),
    /// The row did not parse.
    Failed { bibkey: Option<String>, errors: Vec<FieldError> },
}

// ---------------------------------------------------------------------------
// Reports
// ---------------------------------------------------------------------------

/// Everything a validation pass found.
#[derive(Debug)]
pub struct ValidationReport {
    pub total_rows: usize,
    pub valid_rows: usize,
    pub errors: Vec<RowError>,
    pub duplicate_bibkeys: Vec<DuplicateBibkey>,
    pub missing_authors: Vec<String>,
    pub ambiguous_authors: Vec<AmbiguousAuthor>,
    pub missing_journals: Vec<String>,
    pub missing_publishers: Vec<String>,
    pub missing_institutions: Vec<String>,
    pub missing_schools: Vec<String>,
    pub missing_series: Vec<String>,
    pub missing_keywords: MissingKeywords,
    pub missing_crossrefs: Vec<String>,
    pub missing_further_refs: Vec<String>,
    pub missing_depends_on: Vec<String>,
    pub stale_bibitems: Vec<String>,
}

/// Errors of one row.
#[derive(Debug)]
pub struct RowError {
    pub row: usize,
    pub bibkey: Option<String>,
    pub errors: Vec<FieldError>,
}

/// An author name that matches several authors.
#[derive(Debug)]
pub struct AmbiguousAuthor {
    pub name: String,
    pub matching_ids: Vec<i64>,
}

/// A bibkey that occurs in several rows.
#[derive(Debug)]
pub struct DuplicateBibkey {
    pub bibkey: String,
    pub rows: Vec<usize>,
}

/// Keyword names without a keyword, by level.
#[derive(Debug)]
pub struct MissingKeywords {
    pub level_1: Vec<String>,
    pub level_2: Vec<String>,
    pub level_3: Vec<String>,
}

impl ValidationReport {
    /// Hard errors block the entire import: only duplicate bibkeys qualify.
    pub fn has_hard_errors(&self) -> (r: bool)
        ensures
            r == (self.duplicate_bibkeys.len() > 0),
    {
        self.duplicate_bibkeys.len() != 0
    }

    /// Any issue at all: a hard error, or any missing or ambiguous reference.
    pub fn has_issues(&self) -> (r: bool)
        ensures
            r == (self.duplicate_bibkeys.len() > 0 || self.missing_authors.len() > 0
                || self.ambiguous_authors.len() > 0 || self.missing_journals.len() > 0
                || self.missing_publishers.len() > 0 || self.missing_institutions.len() > 0
                || self.missing_schools.len() > 0 || self.missing_series.len() > 0
                || self.missing_keywords.level_1.len() > 0 || self.missing_keywords.level_2.len()
                > 0 || self.missing_keywords.level_3.len() > 0 || self.missing_crossrefs.len() > 0
                || self.missing_further_refs.len() > 0 || self.missing_depends_on.len() > 0),
    {
        self.has_hard_errors() || self.missing_authors.len() != 0
            || self.ambiguous_authors.len() != 0 || self.missing_journals.len() != 0
            || self.missing_publishers.len() != 0 || self.missing_institutions.len() != 0
            || self.missing_schools.len() != 0 || self.missing_series.len() != 0
            || self.missing_keywords.level_1.len() != 0 || self.missing_keywords.level_2.len() != 0
            || self.missing_keywords.level_3.len() != 0 || self.missing_crossrefs.len() != 0
            || self.missing_further_refs.len() != 0 || self.missing_depends_on.len() != 0
    }
}

/// Counts of entities created by an entity import.
#[derive(Debug)]
pub struct EntityImportReport {
    pub created_institutions: usize,
    pub created_schools: usize,
    pub created_series: usize,
    pub created_keywords: usize,
    pub errors: Vec<EntityImportError>,
}

/// How many entities of `kind` the report counts as created.
pub open spec fn created_count(r: EntityImportReport, kind: NamedEntityKind) -> usize {
    match kind {
        NamedEntityKind::Institution => r.created_institutions,
        NamedEntityKind::School => r.created_schools,
        NamedEntityKind::Series => r.created_series,
        NamedEntityKind::Keyword => r.created_keywords,
    }
}

impl EntityImportReport {
    /// A report of nothing created and no errors.
    pub fn new() -> (r: Self)
        ensures
            r.created_institutions == 0,
            r.created_schools == 0,
            r.created_series == 0,
            r.created_keywords == 0,
            r.errors@.len() == 0,
    {
        EntityImportReport {
            created_institutions: 0,
            created_schools: 0,
            created_series: 0,
            created_keywords: 0,
            errors: Vec::new(),
        }
    }

    /// Counts one attempt to create an entity of `kind` named `name`: a
    /// success adds one to the count of its kind, a failure is recorded with
    /// its message and leaves the counts as they were.
    pub fn record(&mut self, kind: NamedEntityKind, name: String, result: Result<(), String>)
        requires
            created_count(*old(self), kind) < usize::MAX,
        ensures
            forall|k: NamedEntityKind| k != kind ==> created_count(*final(self), k) == created_count(*old(self), k),
            match result {
                Ok(()) => {
                    &&& created_count(*final(self), kind) == created_count(*old(self), kind) + 1
                    &&& final(self).errors@ == old(self).errors@
                },
                Err(e) => {
                    &&& created_count(*final(self), kind) == created_count(*old(self), kind)
                    &&& final(self).errors@ == old(self).errors@.push((EntityImportError { entity_type: kind, name, error: e }))
                },
            },
    {
        match result {
            Ok(()) => match kind {
                NamedEntityKind::Institution => self.created_institutions = self.created_institutions + 1,
                NamedEntityKind::School => self.created_schools = self.created_schools + 1,
                NamedEntityKind::Series => self.created_series = self.created_series + 1,
                NamedEntityKind::Keyword => self.created_keywords = self.created_keywords + 1,
            },
            Err(error) => self.errors.push(EntityImportError { entity_type: kind, name, error }),
        }
    }
}

/// An entity that could not be created.
#[derive(Debug)]
pub struct EntityImportError {
    pub entity_type: NamedEntityKind,
    pub name: String,
    pub error: String,
}

/// Per-item outcome of a LaTeX to Unicode conversion.
#[derive(Debug)]
pub enum ConvertOutcome {
    /// The converted text.
    Converted(String),
    /// The conversion failed.
    Failed { original: String, message: String },
}

/// Aggregate report of a batch LaTeX to Unicode conversion.
#[derive(Debug)]
pub struct LatexConvertReport {
    pub columns: Vec<ColumnConvertResult>,
    pub total_updated: usize,
    pub errors: Vec<LatexConvertError>,
    /// Bibkeys cited in LaTeX fields but not found among existing entries.
    pub missing_citation_keys: Vec<String>,
}

/// Stats for one converted column.
#[derive(Debug)]
pub struct ColumnConvertResult {
    pub entity: &'static str,
    pub field: &'static str,
    pub updated: usize,
}

/// A row whose LaTeX value could not be converted.
#[derive(Debug)]
pub struct LatexConvertError {
    pub entity: &'static str,
    pub field: &'static str,
    pub id: i64,
    pub error: String,
}

/// Counts of a full import.
#[derive(Debug)]
pub struct FullImportReport {
    pub imported: usize,
    pub updated: usize,
    pub deleted: usize,
    pub failed: usize,
    /// Rows skipped because an entity reference could not be resolved.
    pub skipped: usize,
    pub errors: Vec<RowError>,
}

/// A full import either ran or was stopped by validation.
pub enum FullImportResult {
    Success(FullImportReport),
    ValidationFailed(Box<ValidationReport>),
}

/// The kind of a named entity an import can create.
#[derive(Debug, Clone, Copy, PartialEq, Eq)]
pub enum NamedEntityKind {
    Institution,
    School,
    Series,
    Keyword,
}

// ---------------------------------------------------------------------------
// Author lookup keys
// ---------------------------------------------------------------------------

/// The name under which authors are looked up.
#[derive(Debug, Clone, PartialEq, Eq, Hash)]
pub enum AuthorNameKey {
    Named { family_name: String, given_name: Option<String> },
    Mononym(String),
}

/// The mathematical value of an [`AuthorNameKey`].
pub enum AuthorNameKeyView {
    Named { family_name: Seq<char>, given_name: Option<Seq<char>> },
    Mononym(Seq<char>),
}

impl View for AuthorNameKey {
    type V = AuthorNameKeyView;

    open spec fn view(&self) -> AuthorNameKeyView {
        match self {
            AuthorNameKey::Named { family_name, given_name } => AuthorNameKeyView::Named {
                family_name: family_name@,
                given_name: opt_str_view(*given_name),
            },
            AuthorNameKey::Mononym(m) => AuthorNameKeyView::Mononym(m@),
        }
    }
}

/// The key of a parsed author name.
pub open spec fn key_of(a: ParsedAuthor) -> AuthorNameKeyView {
    match a {
        ParsedAuthor::Named { family_name, given_name } => AuthorNameKeyView::Named {
            family_name: family_name@,
            given_name: opt_str_view(given_name),
        },
        ParsedAuthor::Mononym(m) => AuthorNameKeyView::Mononym(m@),
    }
}

/// How a key is written in reports: `family, given`, the family name, or
/// the mononym.
pub open spec fn key_text(k: AuthorNameKeyView) -> Seq<char> {
    match k {
        AuthorNameKeyView::Mononym(m) => m,
        AuthorNameKeyView::Named { family_name, given_name } => match given_name {
            Some(g) => family_name + ", "@ + g,
            None => family_name,
        },
    }
}

impl AuthorNameKey {
    /// The lookup key of a parsed author.
    pub fn from_parsed(author: &ParsedAuthor) -> (r: Self)
        ensures
            r@ == key_of(*author),
    {
        match author {
            ParsedAuthor::Named { family_name, given_name } => AuthorNameKey::Named {
                family_name: family_name.clone(),
                given_name: clone_opt(given_name),
            },
            ParsedAuthor::Mononym(m) => AuthorNameKey::Mononym(m.clone()),
        }
    }

    /// A copy of the key.
    pub fn copy(&self) -> (r: Self)
        ensures
            r@ == self@,
    {
        match self {
            AuthorNameKey::Named { family_name, given_name } => AuthorNameKey::Named {
                family_name: family_name.clone(),
                given_name: clone_opt(given_name),
            },
            AuthorNameKey::Mononym(m) => AuthorNameKey::Mononym(m.clone()),
        }
    }

    /// Whether two keys are equal.
    pub fn same(&self, other: &AuthorNameKey) -> (r: bool)
        ensures
            r == (self@ == other@),
    {
        match (self, other) {
            (
                AuthorNameKey::Named { family_name: f1, given_name: g1 },
                AuthorNameKey::Named { family_name: f2, given_name: g2 },
            ) => {
                let fe = crate::text::chars_eq(&chars_of(f1.as_str()), &chars_of(f2.as_str()));
                let ge = match (g1, g2) {
                    (Some(a), Some(b)) => crate::text::chars_eq(
                        &chars_of(a.as_str()),
                        &chars_of(b.as_str()),
                    ),
                    (None, None) => true,
                    _ => false,
                };
                fe && ge
            },
            (AuthorNameKey::Mononym(a), AuthorNameKey::Mononym(b)) => crate::text::chars_eq(
                &chars_of(a.as_str()),
                &chars_of(b.as_str()),
            ),
            _ => false,
        }
    }
}

/// How a lookup key is written in reports.
pub fn format_author_key(key: &AuthorNameKey) -> (r: String)
    ensures
        r@ == key_text(key@),
{
    match key {
        AuthorNameKey::Mononym(m) => m.clone(),
        AuthorNameKey::Named { family_name, given_name } => match given_name {
            Some(g) => {
                let mut v = lit(family_name.as_str());
                extend_str(&mut v, ", ");
                extend_str(&mut v, g.as_str());
                string_of(&v)
            },
            None => family_name.clone(),
        },
    }
}

/// The report text of a key is the display name of the author it came from.
pub proof fn lemma_key_text_is_display_name(a: ParsedAuthor)
    ensures
        key_text(key_of(a)) == display_name_spec(a),
{
}


// ---------------------------------------------------------------------------
// Lookup tables keyed by author name or by keyword
// ---------------------------------------------------------------------------

/// A map from author lookup keys to values; later insertions win.
pub struct AuthorMap<V> {
    entries: Vec<(AuthorNameKey, V)>,
}

/// The map a list of author entries stands for.
pub open spec fn author_entries_map<V>(es: Seq<(AuthorNameKey, V)>) -> Map<AuthorNameKeyView, V>
    decreases es.len(),
{
    if es.len() == 0 {
        Map::empty()
    } else {
        author_entries_map(es.drop_last()).insert(es.last().0@, es.last().1)
    }
}

impl<V> View for AuthorMap<V> {
    type V = Map<AuthorNameKeyView, V>;

    closed spec fn view(&self) -> Map<AuthorNameKeyView, V> {
        author_entries_map(self.entries@)
    }
}

impl<V> AuthorMap<V> {
    /// An empty map.
    pub fn new() -> (m: Self)
        ensures
            m@ == Map::<AuthorNameKeyView, V>::empty(),
    {
        AuthorMap { entries: Vec::new() }
    }

    /// Sets the value of `key`.
    pub fn insert(&mut self, key: AuthorNameKey, value: V)
        ensures
            final(self)@ == old(self)@.insert(key@, value),
    {
        self.entries.push((key, value));
        assert(self.entries@.drop_last() =~= old(self).entries@);
    }

    /// The value of `key`, if any.
    pub fn get(&self, key: &AuthorNameKey) -> (r: Option<&V>)
        ensures
            match r {
                Some(v) => self@.contains_key(key@) && self@[key@] == *v,
                None => !self@.contains_key(key@),
            },
    {
        let ghost es = self.entries@;
        let mut i = self.entries.len();
        assert(es.take(i as int) =~= es);
        while i > 0
            invariant
                i <= es.len(),
                es == self.entries@,
                author_entries_map(es.take(i as int)).contains_key(key@) == author_entries_map(
                    es,
                ).contains_key(key@),
                author_entries_map(es).contains_key(key@) ==> author_entries_map(es.take(i as int))[key@]
                    == author_entries_map(es)[key@],
            decreases i,
        {
            assert(es.take(i as int).drop_last() =~= es.take(i - 1));
            if self.entries[i - 1].0.same(key) {
                return Some(&self.entries[i - 1].1);
            }
            i -= 1;
        }
        None
    }
}

/// The values of a sequence of author keys.
pub open spec fn key_views(ks: Seq<AuthorNameKey>) -> Seq<AuthorNameKeyView> {
    Seq::new(ks.len(), |i: int| ks[i]@)
}

/// A set of author lookup keys, in the order they were first added.
pub struct AuthorKeySet {
    keys: Vec<AuthorNameKey>,
}

impl AuthorKeySet {
    #[verifier::type_invariant]
    spec fn inv(&self) -> bool {
        key_views(self.keys@).no_duplicates()
    }

    /// The elements in the order they were first added.
    pub closed spec fn elems(&self) -> Seq<AuthorNameKeyView> {
        key_views(self.keys@)
    }

    /// An empty set.
    pub fn new() -> (s: Self)
        ensures
            s@ == Set::<AuthorNameKeyView>::empty(),
    {
        let s = AuthorKeySet { keys: Vec::new() };
        assert(s@ =~= Set::<AuthorNameKeyView>::empty());
        s
    }

    /// Whether the set holds `key`.
    pub fn contains(&self, key: &AuthorNameKey) -> (r: bool)
        ensures
            r == self@.contains(key@),
    {
        let mut i: usize = 0;
        while i < self.keys.len()
            invariant
                i <= self.keys.len(),
                forall|j: int| 0 <= j < i ==> key_views(self.keys@)[j] != key@,
            decreases self.keys.len() - i,
        {
            if self.keys[i].same(key) {
                assert(key_views(self.keys@)[i as int] == key@);
                return true;
            }
            i += 1;
        }
        false
    }

    /// Adds a key.
    pub fn insert(&mut self, key: AuthorNameKey)
        ensures
            final(self)@ == old(self)@.insert(key@),
    {
        proof {
            use_type_invariant(&*self);
        }
        if !self.contains(&key) {
            let ghost before = key_views(self.keys@);
            let ghost k = key@;
            let mut keys: Vec<AuthorNameKey> = Vec::new();
            std::mem::swap(&mut keys, &mut self.keys);
            keys.push(key);
            assert(key_views(keys@) =~= before.push(k));
            self.keys = keys;
            proof {
                before.lemma_push_to_set_commute(k);
            }
            assert(self@ =~= old(self)@.insert(k));
        } else {
            assert(self@ =~= old(self)@.insert(key@));
        }
    }

    /// The number of keys.
    pub fn len(&self) -> (n: usize)
        ensures
            n == self.elems().len(),
            self.elems().no_duplicates(),
    {
        proof {
            use_type_invariant(self);
        }
        self.keys.len()
    }

    /// The key at index `i`.
    pub fn at(&self, i: usize) -> (r: &AuthorNameKey)
        requires
            i < self.elems().len(),
        ensures
            r@ == self.elems()[i as int],
    {
        &self.keys[i]
    }

    /// The view is the set of the elements.
    pub proof fn lemma_view(&self)
        ensures
            forall|k: AuthorNameKeyView| #[trigger] self@.contains(k) <==> self.elems().contains(k),
    {
    }
}

impl View for AuthorKeySet {
    type V = Set<AuthorNameKeyView>;

    closed spec fn view(&self) -> Set<AuthorNameKeyView> {
        key_views(self.keys@).to_set()
    }
}

/// The entries of `m` whose value is a one-element list, mapped to that
/// element.
pub open spec fn author_singles<V>(m: Map<AuthorNameKeyView, Vec<V>>) -> Map<AuthorNameKeyView, V> {
    Map::new(|k: AuthorNameKeyView| m.contains_key(k) && m[k]@.len() == 1, |k: AuthorNameKeyView| m[k]@[0])
}

proof fn lemma_author_entries_dom<V>(es: Seq<(AuthorNameKey, V)>, k: AuthorNameKeyView)
    ensures
        author_entries_map(es).contains_key(k) <==> exists|j: int| 0 <= j < es.len() && es[j].0@ == k,
    decreases es.len(),
{
    if es.len() > 0 {
        lemma_author_entries_dom(es.drop_last(), k);
        if exists|j: int| 0 <= j < es.len() && es[j].0@ == k {
            let j = choose|j: int| 0 <= j < es.len() && es[j].0@ == k;
            if j < es.len() - 1 {
                assert(es.drop_last()[j].0@ == k);
            }
        }
        if exists|j: int| 0 <= j < es.len() - 1 && es.drop_last()[j].0@ == k {
            let j = choose|j: int| 0 <= j < es.len() - 1 && es.drop_last()[j].0@ == k;
            assert(es[j].0@ == k);
        }
    }
}

impl AuthorMap<Vec<i64>> {
    /// The entries whose value is a one-element list, mapped to that
    /// element; keys with no or several values are left out.
    pub fn single_values(&self) -> (r: AuthorMap<i64>)
        ensures
            r@ == author_singles(self@),
    {
        let ghost es = self.entries@;
        let mut r: AuthorMap<i64> = AuthorMap::new();
        let mut j: usize = 0;
        while j < self.entries.len()
            invariant
                j <= self.entries.len(),
                es == self.entries@,
                forall|k: AuthorNameKeyView| #[trigger] r@.contains_key(k) <==> ((exists|i: int| 0 <= i < j && es[i].0@ == k) && self@.contains_key(k) && self@[k]@.len() == 1),
                forall|k: AuthorNameKeyView| #[trigger] r@.contains_key(k) ==> r@[k] == self@[k]@[0],
            decreases self.entries.len() - j,
        {
            let key = &self.entries[j].0;
            proof {
                lemma_author_entries_dom(es, key@);
            }
            let v = self.get(key).unwrap();
            if v.len() == 1 {
                let x = v[0];
                r.insert(key.copy(), x);
            }
            proof {
                assert forall|k: AuthorNameKeyView| #[trigger] r@.contains_key(k) <==> ((exists|i: int| 0 <= i < j + 1 && es[i].0@ == k) && self@.contains_key(k) && self@[k]@.len() == 1) by {
                    if exists|i: int| 0 <= i < j + 1 && es[i].0@ == k {
                        let i = choose|i: int| 0 <= i < j + 1 && es[i].0@ == k;
                        if i < j {
                        } else {
                            assert(k == key@);
                        }
                    }
                    if k == key@ {
                        assert(es[j as int].0@ == k);
                    }
                }
            }
            j += 1;
        }
        proof {
            assert forall|k: AuthorNameKeyView| #[trigger] r@.contains_key(k) <==> author_singles(self@).contains_key(k) by {
                lemma_author_entries_dom(es, k);
            }
        }
        assert(r@ =~= author_singles(self@));
        r
    }
}

impl AuthorMap<Vec<String>> {
    /// The entries whose value is a one-element list, mapped to that
    /// element; keys with no or several values are left out.
    pub fn single_strings(&self) -> (r: AuthorMap<String>)
        ensures
            r@ == author_singles(self@),
    {
        let ghost es = self.entries@;
        let mut r: AuthorMap<String> = AuthorMap::new();
        let mut j: usize = 0;
        while j < self.entries.len()
            invariant
                j <= self.entries.len(),
                es == self.entries@,
                forall|k: AuthorNameKeyView| #[trigger] r@.contains_key(k) <==> ((exists|i: int| 0 <= i < j && es[i].0@ == k) && self@.contains_key(k) && self@[k]@.len() == 1),
                forall|k: AuthorNameKeyView| #[trigger] r@.contains_key(k) ==> r@[k] == self@[k]@[0],
            decreases self.entries.len() - j,
        {
            let key = &self.entries[j].0;
            proof {
                lemma_author_entries_dom(es, key@);
            }
            let v = self.get(key).unwrap();
            if v.len() == 1 {
                let x = v[0].clone();
                r.insert(key.copy(), x);
            }
            proof {
                assert forall|k: AuthorNameKeyView| #[trigger] r@.contains_key(k) <==> ((exists|i: int| 0 <= i < j + 1 && es[i].0@ == k) && self@.contains_key(k) && self@[k]@.len() == 1) by {
                    if exists|i: int| 0 <= i < j + 1 && es[i].0@ == k {
                        let i = choose|i: int| 0 <= i < j + 1 && es[i].0@ == k;
                        if i < j {
                        } else {
                            assert(k == key@);
                        }
                    }
                    if k == key@ {
                        assert(es[j as int].0@ == k);
                    }
                }
            }
            j += 1;
        }
        proof {
            assert forall|k: AuthorNameKeyView| #[trigger] r@.contains_key(k) <==> author_singles(self@).contains_key(k) by {
                lemma_author_entries_dom(es, k);
            }
        }
        assert(r@ =~= author_singles(self@));
        r
    }
}

/// A map from (keyword name, level) to values; later insertions win.
pub struct KeywordMap<V> {
    entries: Vec<(Vec<char>, i16, V)>,
}

/// The map a list of keyword entries stands for.
pub open spec fn keyword_entries_map<V>(es: Seq<(Vec<char>, i16, V)>) -> Map<(Seq<char>, i16), V>
    decreases es.len(),
{
    if es.len() == 0 {
        Map::empty()
    } else {
        keyword_entries_map(es.drop_last()).insert((es.last().0@, es.last().1), es.last().2)
    }
}

impl<V> View for KeywordMap<V> {
    type V = Map<(Seq<char>, i16), V>;

    closed spec fn view(&self) -> Map<(Seq<char>, i16), V> {
        keyword_entries_map(self.entries@)
    }
}

impl<V> KeywordMap<V> {
    /// An empty map.
    pub fn new() -> (m: Self)
        ensures
            m@ == Map::<(Seq<char>, i16), V>::empty(),
    {
        KeywordMap { entries: Vec::new() }
    }

    /// Sets the value of (`name`, `level`).
    pub fn insert(&mut self, name: &str, level: i16, value: V)
        ensures
            final(self)@ == old(self)@.insert((name@, level), value),
    {
        let k = chars_of(name);
        self.entries.push((k, level, value));
        assert(self.entries@.drop_last() =~= old(self).entries@);
    }

    /// The value of (`name`, `level`), if any.
    pub fn get(&self, name: &Vec<char>, level: i16) -> (r: Option<&V>)
        ensures
            match r {
                Some(v) => self@.contains_key((name@, level)) && self@[(name@, level)] == *v,
                None => !self@.contains_key((name@, level)),
            },
    {
        let ghost es = self.entries@;
        let ghost key = (name@, level);
        let mut i = self.entries.len();
        assert(es.take(i as int) =~= es);
        while i > 0
            invariant
                i <= es.len(),
                es == self.entries@,
                key == (name@, level),
                keyword_entries_map(es.take(i as int)).contains_key(key) == keyword_entries_map(
                    es,
                ).contains_key(key),
                keyword_entries_map(es).contains_key(key) ==> keyword_entries_map(es.take(i as int))[key]
                    == keyword_entries_map(es)[key],
            decreases i,
        {
            assert(es.take(i as int).drop_last() =~= es.take(i - 1));
            if self.entries[i - 1].1 == level && crate::text::chars_eq(&self.entries[i - 1].0, name) {
                return Some(&self.entries[i - 1].2);
            }
            i -= 1;
        }
        None
    }
}

/// Variant info for an author matched via a name variant.
#[derive(Debug, Clone)]
pub struct VariantInfo {
    pub variant_latex: Option<String>,
    pub variant_unicode: Option<String>,
}

/// Author lookups built from the database.
pub struct AuthorLookupResult {
    /// Key to all matching author ids (several means ambiguous).
    pub id_map: AuthorMap<Vec<i64>>,
    /// Key to all matching author_key strings, parallel to `id_map`.
    pub key_map: AuthorMap<Vec<String>>,
    /// Key to variant info, for keys matched via a name variant.
    pub variant_map: AuthorMap<VariantInfo>,
    /// Name to author ids, famous authors only (for `_person`).
    pub famous_person_map: StrMap<Vec<i64>>,
    /// Name to author_key strings, famous authors only.
    pub famous_person_key_map: StrMap<Vec<String>>,
}

/// All lookup tables of one import.
pub struct LookupMaps {
    pub authors: AuthorLookupResult,
    pub journals: StrMap<String>,
    pub publishers: StrMap<String>,
    pub institutions: StrMap<String>,
    pub schools: StrMap<String>,
    pub series: StrMap<String>,
    pub keywords: KeywordMap<String>,
    pub bibkeys: StrSet,
}

/// Resolution context for bibitem upsert (unambiguous authors only).
pub struct ResolutionCtx {
    pub author_resolve: AuthorMap<i64>,
    /// Key to the single matching author_key.
    pub author_key_resolve: AuthorMap<String>,
    /// For keys matched via a name variant, the variant strings.
    pub author_variants: AuthorMap<VariantInfo>,
    /// Unambiguous famous-author name to id, used for `_person`.
    pub famous_person_resolve: StrMap<i64>,
    /// Unambiguous famous-author name to author_key.
    pub famous_person_key_resolve: StrMap<String>,
    pub journal_map: StrMap<String>,
    pub publisher_map: StrMap<String>,
    pub institution_map: StrMap<String>,
    pub school_map: StrMap<String>,
    pub series_map: StrMap<String>,
    pub keyword_map: KeywordMap<String>,
    pub existing_bibkeys: StrSet,
}

// ---------------------------------------------------------------------------
// Person resolution
// ---------------------------------------------------------------------------

/// The name a `_person` entry is looked up by: the mononym or the family name.
pub open spec fn person_name(p: ParsedAuthor) -> Seq<char> {
    match p {
        ParsedAuthor::Mononym(m) => m@,
        ParsedAuthor::Named { family_name, .. } => family_name@,
    }
}

/// The value a map holds for a key, if any.
pub open spec fn map_get<K, V>(m: Map<K, V>, k: K) -> Option<V> {
    if m.contains_key(k) {
        Some(m[k])
    } else {
        None
    }
}

/// Resolve a `_person` entry to a famous author id: only unambiguous famous
/// authors, indexed by mononym or family name, are considered.
pub fn resolve_person_id(person: &ParsedAuthor, ctx: &ResolutionCtx) -> (r: Option<i64>)
    ensures
        r == map_get(ctx.famous_person_resolve@, person_name(*person)),
{
    let name: &str = match person {
        ParsedAuthor::Mononym(m) => m.as_str(),
        ParsedAuthor::Named { family_name, .. } => family_name.as_str(),
    };
    match ctx.famous_person_resolve.get_str(name) {
        Some(id) => Some(*id),
        None => None,
    }
}

// ---------------------------------------------------------------------------
// Missing names
// ---------------------------------------------------------------------------

/// The requested names that `present` lacks, in increasing order.
pub open spec fn is_sorted_missing(r: Seq<Seq<char>>, requested: Set<Seq<char>>, present: spec_fn(Seq<char>) -> bool) -> bool {
    &&& crate::keymap::sorted_strict(r)
    &&& forall|x: Seq<char>| #[trigger] r.contains(x) <==> (requested.contains(x) && !present(x))
}

/// The elements of `requested` whose flag is set, in increasing order.
fn filter_sorted(requested: &StrSet, keep: &Vec<bool>) -> (r: Vec<String>)
    requires
        keep.len() == requested.elems().len(),
    ensures
        crate::keymap::sorted_strict(crate::text::strs_of(r@)),
        forall|x: Seq<char>| #[trigger] crate::text::strs_of(r@).contains(x) <==> (exists|j: int| 0 <= j < keep.len() && requested.elems()[j] == x && keep@[j]),
{
    let n = requested.len();
    let ghost el = requested.elems();
    let mut out: Vec<String> = Vec::new();
    let mut i: usize = 0;
    while i < n
        invariant
            i <= n,
            n == el.len(),
            keep.len() == n,
            el == requested.elems(),
            crate::keymap::sorted_strict(el),
            crate::keymap::sorted_strict(crate::text::strs_of(out@)),
            forall|k: int| 0 <= k < out.len() ==> exists|j: int| 0 <= j < i && #[trigger] crate::text::strs_of(out@)[k] == el[j],
            forall|x: Seq<char>| #[trigger] crate::text::strs_of(out@).contains(x) <==> (exists|j: int| 0 <= j < i && el[j] == x && keep@[j]),
        decreases n - i,
    {
        let name = requested.at(i);
        if keep[i] {
            let ghost before = crate::text::strs_of(out@);
            let s = string_of(name);
            out.push(s);
            let ghost after = crate::text::strs_of(out@);
            assert(after =~= before.push(el[i as int]));
            assert forall|a: int, b: int| 0 <= a < b < after.len() implies crate::keymap::lex_lt(#[trigger] after[a], #[trigger] after[b]) by {
                if b == after.len() - 1 {
                    let j = choose|j: int| 0 <= j < i && #[trigger] before[a] == el[j];
                    assert(crate::keymap::lex_lt(el[j], el[i as int]));
                }
            }
            assert forall|k: int| 0 <= k < after.len() implies exists|j: int| 0 <= j < i + 1 && #[trigger] after[k] == el[j] by {
                if k < before.len() {
                    let j = choose|j: int| 0 <= j < i && #[trigger] before[k] == el[j];
                    assert(after[k] == el[j]);
                } else {
                    assert(after[k] == el[i as int]);
                }
            }
            assert forall|x: Seq<char>| #[trigger] after.contains(x) <==> (exists|j: int| 0 <= j < i + 1 && el[j] == x && keep@[j]) by {
                if after.contains(x) {
                    let k = choose|k: int| 0 <= k < after.len() && after[k] == x;
                    if k < before.len() {
                        assert(before.contains(x));
                    }
                }
                if exists|j: int| 0 <= j < i + 1 && el[j] == x && keep@[j] {
                    let j = choose|j: int| 0 <= j < i + 1 && el[j] == x && keep@[j];
                    if j < i {
                        assert(before.contains(x));
                        let k = choose|k: int| 0 <= k < before.len() && before[k] == x;
                        assert(after[k] == x);
                    } else {
                        assert(after[after.len() - 1] == x);
                    }
                }
            }
        } else {
            let ghost cur = crate::text::strs_of(out@);
            assert forall|x: Seq<char>| #[trigger] cur.contains(x) <==> (exists|j: int| 0 <= j < i + 1 && el[j] == x && keep@[j]) by {
                if exists|j: int| 0 <= j < i + 1 && el[j] == x && keep@[j] {
                    let j = choose|j: int| 0 <= j < i + 1 && el[j] == x && keep@[j];
                    assert(j != i);
                }
            }
        }
        i += 1;
    }
    out
}

/// Names of `requested` that have no entry in `existing`, sorted.
pub fn find_missing_names(requested: &StrSet, existing: &StrMap<String>) -> (r: Vec<String>)
    ensures
        is_sorted_missing(crate::text::strs_of(r@), requested@, |x: Seq<char>| existing@.contains_key(x)),
{
    let n = requested.len();
    let mut keep: Vec<bool> = Vec::new();
    let mut i: usize = 0;
    while i < n
        invariant
            i <= n,
            n == requested.elems().len(),
            keep.len() == i,
            forall|j: int| 0 <= j < i ==> keep@[j] == !existing@.contains_key(#[trigger] requested.elems()[j]),
        decreases n - i,
    {
        keep.push(!existing.contains_key(requested.at(i)));
        i += 1;
    }
    let r = filter_sorted(requested, &keep);
    proof {
        requested.lemma_view();
    }
    r
}

/// Keyword names of `requested` that have no keyword at `level`, sorted.
pub fn find_missing_keywords(requested: &StrSet, level: i16, existing: &KeywordMap<String>) -> (r: Vec<String>)
    ensures
        is_sorted_missing(crate::text::strs_of(r@), requested@, |x: Seq<char>| existing@.contains_key((x, level))),
{
    let n = requested.len();
    let mut keep: Vec<bool> = Vec::new();
    let mut i: usize = 0;
    while i < n
        invariant
            i <= n,
            n == requested.elems().len(),
            keep.len() == i,
            forall|j: int| 0 <= j < i ==> keep@[j] == !existing@.contains_key((#[trigger] requested.elems()[j], level)),
        decreases n - i,
    {
        keep.push(existing.get(requested.at(i), level).is_none());
        i += 1;
    }
    let r = filter_sorted(requested, &keep);
    proof {
        requested.lemma_view();
    }
    r
}

/// Bibkeys of `requested` not in `existing`, sorted.
pub fn find_missing_bibkeys(requested: &StrSet, existing: &StrSet) -> (r: Vec<String>)
    ensures
        is_sorted_missing(crate::text::strs_of(r@), requested@, |x: Seq<char>| existing@.contains(x)),
{
    let n = requested.len();
    let mut keep: Vec<bool> = Vec::new();
    let mut i: usize = 0;
    while i < n
        invariant
            i <= n,
            n == requested.elems().len(),
            keep.len() == i,
            forall|j: int| 0 <= j < i ==> keep@[j] == !existing@.contains(#[trigger] requested.elems()[j]),
        decreases n - i,
    {
        keep.push(!existing.contains(requested.at(i)));
        i += 1;
    }
    let r = filter_sorted(requested, &keep);
    proof {
        requested.lemma_view();
    }
    r
}


// ---------------------------------------------------------------------------
// Keys for new entities
// ---------------------------------------------------------------------------

/// The maximal runs of alphanumeric characters of `s`, in order.
pub open spec fn alnum_runs(s: Seq<char>) -> Seq<Seq<char>>
    decreases s.len(),
{
    if s.len() == 0 {
        Seq::empty()
    } else {
        let r = alnum_runs(s.drop_last());
        let c = s.last();
        if !alnum(c) {
            r
        } else if s.len() >= 2 && alnum(s[s.len() - 2]) {
            r.update(r.len() - 1, r.last().push(c))
        } else {
            r.push(seq![c])
        }
    }
}

/// The key made of an already lowercased name: its alphanumeric runs joined
/// by `_` (every other character only separates runs).
pub open spec fn key_of_lowered(s: Seq<char>) -> Seq<char> {
    join(alnum_runs(s), "_"@)
}

/// The key `generate_key` makes of a name.
pub open spec fn key_of_name(name: Seq<char>) -> Seq<char> {
    key_of_lowered(lower_text(name))
}

proof fn lemma_runs_nonempty(s: Seq<char>)
    requires
        s.len() > 0,
        alnum(s.last()),
    ensures
        alnum_runs(s).len() > 0,
    decreases s.len(),
{
    if s.len() >= 2 && alnum(s[s.len() - 2]) {
        lemma_runs_nonempty(s.drop_last());
    }
}

/// The key of an already lowercased name: alphanumeric runs joined by `_`.
pub fn key_from_lowered(lowered: &str) -> (r: String)
    ensures
        r@ == key_of_lowered(lowered@),
{
    let cs = chars_of(lowered);
    let n = cs.len();
    let mut words: Vec<Vec<char>> = Vec::new();
    let mut prev: bool = false;
    let mut i: usize = 0;
    while i < n
        invariant
            i <= n,
            n == cs.len(),
            seqs_of(words@) == alnum_runs(cs@.take(i as int)),
            prev == (i > 0 && alnum(cs@[i - 1])),
        decreases n - i,
    {
        let c = cs[i];
        let a = is_alphanumeric(c);
        let ghost pre = cs@.take(i as int);
        let ghost nxt = cs@.take(i + 1);
        proof {
            assert(nxt.drop_last() =~= pre);
            assert(nxt.last() == c);
            if i > 0 {
                assert(nxt[nxt.len() - 2] == cs@[i - 1]);
            }
        }
        if a {
            if prev {
                proof {
                    lemma_runs_nonempty(pre);
                }
                let ghost before = seqs_of(words@);
                let mut last = words.pop().unwrap();
                last.push(c);
                words.push(last);
                assert(seqs_of(words@) =~= before.update(before.len() - 1, before.last().push(c)));
            } else {
                let ghost before = seqs_of(words@);
                let mut w: Vec<char> = Vec::new();
                w.push(c);
                words.push(w);
                assert(seqs_of(words@) =~= before.push(seq![c]));
            }
        }
        prev = a;
        i += 1;
    }
    assert(cs@.take(n as int) =~= cs@);
    let sep = lit("_");
    let joined = join_chars(&words, &sep);
    string_of(&joined)
}

/// A key for a new entity: the name lowercased, with every run of
/// non-alphanumeric characters turned into one `_` and none at either end.
pub fn generate_key(name: &str) -> (r: String)
    ensures
        r@ == key_of_name(name@),
{
    let lowered = to_lowercase(name);
    key_from_lowered(lowered.as_str())
}


// ---------------------------------------------------------------------------
// Building the bibitem body of a row
// ---------------------------------------------------------------------------

/// `dto` with the date fields that `date` sets.
pub open spec fn date_applied(date: ParsedDate, dto: CreateBibItem) -> CreateBibItem {
    match date {
        ParsedDate::NoDate => CreateBibItem { date_is_no_date: true, ..dto },
        ParsedDate::Year(y) => CreateBibItem { date_year: Some(y), ..dto },
        ParsedDate::YearRange { year, year2, separator } => match separator {
            DateRangeSeparator::Hyphen => CreateBibItem {
                date_year: Some(year),
                date_year_2_hyphen: Some(year2),
                ..dto
            },
            DateRangeSeparator::Slash => CreateBibItem {
                date_year: Some(year),
                date_year_2_slash: Some(year2),
                ..dto
            },
        },
        ParsedDate::FullDate { year, month, day } => CreateBibItem {
            date_year: Some(year),
            date_month: Some(month),
            date_day: Some(day),
            ..dto
        },
    }
}

/// Writes the fields of a parsed date into a bibitem body; the other fields
/// stay as they were.
pub fn apply_date_to_dto(date: &ParsedDate, dto: &mut CreateBibItem)
    ensures
        *final(dto) == date_applied(*date, *old(dto)),
{
    match date {
        ParsedDate::NoDate => {
            dto.date_is_no_date = true;
        },
        ParsedDate::Year(y) => {
            dto.date_year = Some(*y);
        },
        ParsedDate::YearRange { year, year2, separator } => {
            dto.date_year = Some(*year);
            match separator {
                DateRangeSeparator::Hyphen => dto.date_year_2_hyphen = Some(*year2),
                DateRangeSeparator::Slash => dto.date_year_2_slash = Some(*year2),
            }
        },
        ParsedDate::FullDate { year, month, day } => {
            dto.date_year = Some(*year);
            dto.date_month = Some(*month);
            dto.date_day = Some(*day);
        },
    }
}

/// The value `m` holds for an optional name (none without a name).
pub open spec fn lookup_opt(m: Map<Seq<char>, String>, name: Option<String>) -> Option<String> {
    match name {
        Some(n) => map_get(m, n@),
        None => None,
    }
}

/// The author_key of the `_person` of a row, if the person is an unambiguous
/// famous author.
pub open spec fn person_key_of(person: Option<ParsedAuthor>, ctx: ResolutionCtx) -> Option<String> {
    match person {
        Some(p) => map_get(ctx.famous_person_key_resolve@, person_name(p)),
        None => None,
    }
}

/// An optional page number as the body stores it.
pub open spec fn opt_i32(o: Option<int>) -> Option<i32> {
    match o {
        Some(x) => Some(x as i32),
        None => None,
    }
}

/// The bibitem body of a row before its date is applied: the row's fields,
/// related entities by the keys `ctx` resolves their names to, no unicode
/// fields, no crossref and the start page of the row's pages.
pub open spec fn bibitem_dto_base(row: ParsedBibRow, ctx: ResolutionCtx) -> CreateBibItem {
    CreateBibItem {
        bibkey: row.bibkey,
        entry_type: row.entry_type,
        date_year: None,
        date_year_2_hyphen: None,
        date_year_2_slash: None,
        date_month: None,
        date_day: None,
        date_is_no_date: false,
        pubstate: row.pubstate,
        title_latex: row.title,
        title_unicode: None,
        booktitle_latex: row.booktitle,
        booktitle_unicode: None,
        journal_key: lookup_opt(ctx.journal_map@, row.journal_name),
        publisher_key: lookup_opt(ctx.publisher_map@, row.publisher_name),
        address: row.address,
        volume: row.volume,
        volume_numeric: None,
        number: row.number,
        number_numeric: None,
        pages: row.pages,
        start_page: opt_i32(start_page_spec(opt_str_view(row.pages))),
        eid: row.eid,
        series_key: lookup_opt(ctx.series_map@, row.series_name),
        edition: row.edition,
        institution_key: lookup_opt(ctx.institution_map@, row.institution_name),
        school_key: lookup_opt(ctx.school_map@, row.school_name),
        type_field: row.type_field,
        doi: row.doi,
        url: row.url,
        eprint: row.eprint,
        urn: row.urn,
        crossref: None,
        issuetitle_latex: row.issuetitle,
        issuetitle_unicode: None,
        note_latex: row.note,
        note_unicode: None,
        extra_note_latex: row.extra_note,
        extra_note_unicode: None,
        langid: row.langid,
        is_translation: row.is_translation,
        epoch: row.epoch,
        options: row.options,
        shorthand: row.shorthand,
        person_key: person_key_of(row.person, ctx),
        has_fulltext: row.has_fulltext,
        fulltext_path: None,
        license: row.license,
    }
}

/// The bibitem body `build_bibitem_dto` makes of a row.
pub open spec fn bibitem_dto_spec(row: ParsedBibRow, ctx: ResolutionCtx) -> CreateBibItem {
    date_applied(row.date, bibitem_dto_base(row, ctx))
}

/// The bibitem body built from a row keeps each of the row's own text and
/// flag fields in the field of the same name (the title and notes in their
/// LaTeX fields), and takes its date fields from the row's date: a year, a
/// year range by its separator, a full date, or the no-date flag.
pub proof fn lemma_dto_keeps_row_fields(row: ParsedBibRow, ctx: ResolutionCtx)
    ensures
        ({
            let d = bibitem_dto_spec(row, ctx);
            &&& d.bibkey == row.bibkey
            &&& d.entry_type == row.entry_type
            &&& d.pubstate == row.pubstate
            &&& d.title_latex == row.title
            &&& d.booktitle_latex == row.booktitle
            &&& d.address == row.address
            &&& d.volume == row.volume
            &&& d.number == row.number
            &&& d.pages == row.pages
            &&& d.eid == row.eid
            &&& d.edition == row.edition
            &&& d.type_field == row.type_field
            &&& d.doi == row.doi
            &&& d.url == row.url
            &&& d.eprint == row.eprint
            &&& d.urn == row.urn
            &&& d.issuetitle_latex == row.issuetitle
            &&& d.note_latex == row.note
            &&& d.extra_note_latex == row.extra_note
            &&& d.langid == row.langid
            &&& d.is_translation == row.is_translation
            &&& d.epoch == row.epoch
            &&& d.options == row.options
            &&& d.shorthand == row.shorthand
            &&& d.has_fulltext == row.has_fulltext
            &&& d.license == row.license
            &&& d.volume_numeric is None && d.number_numeric is None
            &&& d.date_is_no_date == (row.date is NoDate)
            &&& d.date_year == match row.date {
                ParsedDate::NoDate => None,
                ParsedDate::Year(y) => Some(y),
                ParsedDate::YearRange { year, .. } => Some(year),
                ParsedDate::FullDate { year, .. } => Some(year),
            }
            &&& d.date_year_2_hyphen == match row.date {
                ParsedDate::YearRange { year2, separator: DateRangeSeparator::Hyphen, .. } => Some(year2),
                _ => None,
            }
            &&& d.date_year_2_slash == match row.date {
                ParsedDate::YearRange { year2, separator: DateRangeSeparator::Slash, .. } => Some(year2),
                _ => None,
            }
            &&& d.date_month == match row.date {
                ParsedDate::FullDate { month, .. } => Some(month),
                _ => None,
            }
            &&& d.date_day == match row.date {
                ParsedDate::FullDate { day, .. } => Some(day),
                _ => None,
            }
        }),
{
}

fn lookup_key(m: &StrMap<String>, name: &Option<String>) -> (r: Option<String>)
    ensures
        r == lookup_opt(m@, *name),
{
    match name {
        Some(n) => match m.get_str(n.as_str()) {
            Some(v) => Some(v.clone()),
            None => None,
        },
        None => None,
    }
}

/// The bibitem body of a parsed row: names of related entities resolved to
/// their keys, the date written into the date fields and the start page
/// computed from the pages. It always succeeds.
pub fn build_bibitem_dto(row: &ParsedBibRow, ctx: &ResolutionCtx) -> (r: Result<CreateBibItem, String>)
    ensures
        r == Ok::<CreateBibItem, String>(bibitem_dto_spec(*row, *ctx)),
{
    let person_key = match &row.person {
        Some(p) => {
            let name: &str = match p {
                ParsedAuthor::Mononym(m) => m.as_str(),
                ParsedAuthor::Named { family_name, .. } => family_name.as_str(),
            };
            match ctx.famous_person_key_resolve.get_str(name) {
                Some(k) => Some(k.clone()),
                None => None,
            }
        },
        None => None,
    };
    let mut dto = CreateBibItem {
        bibkey: row.bibkey.clone(),
        entry_type: row.entry_type,
        date_year: None,
        date_year_2_hyphen: None,
        date_year_2_slash: None,
        date_month: None,
        date_day: None,
        date_is_no_date: false,
        pubstate: copy_pubstate(&row.pubstate),
        title_latex: row.title.clone(),
        title_unicode: None,
        booktitle_latex: clone_opt(&row.booktitle),
        booktitle_unicode: None,
        journal_key: lookup_key(&ctx.journal_map, &row.journal_name),
        publisher_key: lookup_key(&ctx.publisher_map, &row.publisher_name),
        address: clone_opt(&row.address),
        volume: clone_opt(&row.volume),
        volume_numeric: None,
        number: clone_opt(&row.number),
        number_numeric: None,
        pages: clone_opt(&row.pages),
        start_page: None,
        eid: clone_opt(&row.eid),
        series_key: lookup_key(&ctx.series_map, &row.series_name),
        edition: clone_opt(&row.edition),
        institution_key: lookup_key(&ctx.institution_map, &row.institution_name),
        school_key: lookup_key(&ctx.school_map, &row.school_name),
        type_field: clone_opt(&row.type_field),
        doi: clone_opt(&row.doi),
        url: clone_opt(&row.url),
        eprint: clone_opt(&row.eprint),
        urn: clone_opt(&row.urn),
        crossref: None,
        issuetitle_latex: clone_opt(&row.issuetitle),
        issuetitle_unicode: None,
        note_latex: clone_opt(&row.note),
        note_unicode: None,
        extra_note_latex: clone_opt(&row.extra_note),
        extra_note_unicode: None,
        langid: copy_langid(&row.langid),
        is_translation: row.is_translation,
        epoch: copy_epoch(&row.epoch),
        options: clone_opt(&row.options),
        shorthand: clone_opt(&row.shorthand),
        person_key,
        has_fulltext: row.has_fulltext,
        fulltext_path: None,
        license: clone_opt(&row.license),
    };
    apply_date_to_dto(&row.date, &mut dto);
    let sp = match &dto.pages {
        Some(p) => compute_start_page(Some(p.as_str())),
        None => compute_start_page(None),
    };
    dto.start_page = sp;
    Ok(dto)
}


// ---------------------------------------------------------------------------
// Names a file refers to
// ---------------------------------------------------------------------------

/// Every name that rows refer to, by kind.
pub struct CollectedNames {
    pub authors: AuthorKeySet,
    pub journal_names: StrSet,
    pub publisher_names: StrSet,
    pub institution_names: StrSet,
    pub school_names: StrSet,
    pub series_names: StrSet,
    pub keywords_l1: StrSet,
    pub keywords_l2: StrSet,
    pub keywords_l3: StrSet,
    pub crossref_bibkeys: StrSet,
    pub further_ref_bibkeys: StrSet,
    pub depends_on_bibkeys: StrSet,
}

impl Default for CollectedNames {
    fn default() -> (r: Self)
        ensures
            r.authors@ == Set::<AuthorNameKeyView>::empty(),
            r.journal_names@ == Set::<Seq<char>>::empty(),
            r.publisher_names@ == Set::<Seq<char>>::empty(),
            r.institution_names@ == Set::<Seq<char>>::empty(),
            r.school_names@ == Set::<Seq<char>>::empty(),
            r.series_names@ == Set::<Seq<char>>::empty(),
            r.keywords_l1@ == Set::<Seq<char>>::empty(),
            r.keywords_l2@ == Set::<Seq<char>>::empty(),
            r.keywords_l3@ == Set::<Seq<char>>::empty(),
            r.crossref_bibkeys@ == Set::<Seq<char>>::empty(),
            r.further_ref_bibkeys@ == Set::<Seq<char>>::empty(),
            r.depends_on_bibkeys@ == Set::<Seq<char>>::empty(),
    {
        CollectedNames {
            authors: AuthorKeySet::new(),
            journal_names: StrSet::new(),
            publisher_names: StrSet::new(),
            institution_names: StrSet::new(),
            school_names: StrSet::new(),
            series_names: StrSet::new(),
            keywords_l1: StrSet::new(),
            keywords_l2: StrSet::new(),
            keywords_l3: StrSet::new(),
            crossref_bibkeys: StrSet::new(),
            further_ref_bibkeys: StrSet::new(),
            depends_on_bibkeys: StrSet::new(),
        }
    }
}

/// The authors, editors and guest editors of a row, in that order.
pub open spec fn row_names(row: ParsedBibRow) -> Seq<ParsedAuthor> {
    row.authors@ + row.editors@ + row.guesteditors@
}

/// The keys of a list of parsed authors.
pub open spec fn keys_of(names: Seq<ParsedAuthor>) -> Set<AuthorNameKeyView> {
    names.map_values(|a: ParsedAuthor| key_of(a)).to_set()
}

/// The lookup keys a row refers to: its authors, editors, guest editors and
/// `_person`.
pub open spec fn row_author_keys(row: ParsedBibRow) -> Set<AuthorNameKeyView> {
    match row.person {
        Some(p) => keys_of(row_names(row)).insert(key_of(p)),
        None => keys_of(row_names(row)),
    }
}

/// The name of an optional field, as a set.
pub open spec fn opt_set(o: Option<String>) -> Set<Seq<char>> {
    match o {
        Some(n) => Set::empty().insert(n@),
        None => Set::empty(),
    }
}

/// The bibkeys an optional field cites.
pub open spec fn opt_cites(o: Option<String>) -> Set<Seq<char>> {
    match o {
        Some(n) => cite_keys_spec(n@).to_set(),
        None => Set::empty(),
    }
}

fn add_author_keys(set: &mut AuthorKeySet, names: &Vec<ParsedAuthor>)
    ensures
        final(set)@ == old(set)@.union(keys_of(names@)),
{
    let ghost s0 = set@;
    let mut i: usize = 0;
    while i < names.len()
        invariant
            i <= names.len(),
            set@ == s0.union(keys_of(names@.take(i as int))),
        decreases names.len() - i,
    {
        let ghost before = names@.take(i as int).map_values(|a: ParsedAuthor| key_of(a));
        set.insert(AuthorNameKey::from_parsed(&names[i]));
        proof {
            assert(names@.take(i + 1).map_values(|a: ParsedAuthor| key_of(a)) =~= before.push(key_of(names@[i as int])));
            before.lemma_push_to_set_commute(key_of(names@[i as int]));
        }
        assert(set@ =~= s0.union(keys_of(names@.take(i + 1))));
        i += 1;
    }
    assert(names@.take(names.len() as int) =~= names@);
}

fn add_opt_name(set: &mut StrSet, o: &Option<String>)
    ensures
        final(set)@ == old(set)@.union(opt_set(*o)),
{
    match o {
        Some(n) => {
            set.insert(n.as_str());
        },
        None => {},
    }
    assert(set@ =~= old(set)@.union(opt_set(*o)));
}

fn add_opt_cites(set: &mut StrSet, o: &Option<String>)
    ensures
        final(set)@ == old(set)@.union(opt_cites(*o)),
{
    match o {
        Some(n) => {
            let keys = extract_cite_keys(n.as_str());
            set.extend_strs(&keys);
        },
        None => {
            assert(set@ =~= old(set)@.union(opt_cites(*o)));
        },
    }
}

impl CollectedNames {
    /// Adds every name `row` refers to: author keys, entity names, keywords
    /// by level, its crossref, the bibkeys cited in its title and note
    /// (further references) and those in its extra note together with its
    /// crossref (dependencies).
    pub fn collect_from_row(&mut self, row: &ParsedBibRow)
        ensures
            final(self).authors@ == old(self).authors@.union(row_author_keys(*row)),
            final(self).journal_names@ == old(self).journal_names@.union(opt_set(row.journal_name)),
            final(self).publisher_names@ == old(self).publisher_names@.union(opt_set(row.publisher_name)),
            final(self).institution_names@ == old(self).institution_names@.union(opt_set(row.institution_name)),
            final(self).school_names@ == old(self).school_names@.union(opt_set(row.school_name)),
            final(self).series_names@ == old(self).series_names@.union(opt_set(row.series_name)),
            final(self).keywords_l1@ == old(self).keywords_l1@.union(strs_of(row.keywords.level_1@).to_set()),
            final(self).keywords_l2@ == old(self).keywords_l2@.union(strs_of(row.keywords.level_2@).to_set()),
            final(self).keywords_l3@ == old(self).keywords_l3@.union(strs_of(row.keywords.level_3@).to_set()),
            final(self).crossref_bibkeys@ == old(self).crossref_bibkeys@.union(opt_set(row.crossref_bibkey)),
            final(self).further_ref_bibkeys@ == old(self).further_ref_bibkeys@.union(
                cite_keys_spec(row.title@).to_set(),
            ).union(opt_cites(row.note)),
            final(self).depends_on_bibkeys@ == old(self).depends_on_bibkeys@.union(
                opt_set(row.crossref_bibkey),
            ).union(opt_cites(row.extra_note)),
    {
        let ghost a0 = self.authors@;
        add_author_keys(&mut self.authors, &row.authors);
        add_author_keys(&mut self.authors, &row.editors);
        add_author_keys(&mut self.authors, &row.guesteditors);
        proof {
            let f = |a: ParsedAuthor| key_of(a);
            let s1 = row.authors@.map_values(f);
            let s2 = row.editors@.map_values(f);
            let s3 = row.guesteditors@.map_values(f);
            assert(row_names(*row).map_values(f) =~= s1 + s2 + s3);
            vstd::seq_lib::seq_to_set_distributes_over_add(s1, s2);
            vstd::seq_lib::seq_to_set_distributes_over_add(s1 + s2, s3);
        }
        assert(self.authors@ =~= a0.union(keys_of(row_names(*row))));
        match &row.person {
            Some(p) => {
                self.authors.insert(AuthorNameKey::from_parsed(p));
            },
            None => {},
        }
        assert(self.authors@ =~= a0.union(row_author_keys(*row)));
        add_opt_name(&mut self.journal_names, &row.journal_name);
        add_opt_name(&mut self.publisher_names, &row.publisher_name);
        add_opt_name(&mut self.institution_names, &row.institution_name);
        add_opt_name(&mut self.school_names, &row.school_name);
        add_opt_name(&mut self.series_names, &row.series_name);
        self.keywords_l1.extend_strs(&row.keywords.level_1);
        self.keywords_l2.extend_strs(&row.keywords.level_2);
        self.keywords_l3.extend_strs(&row.keywords.level_3);
        add_opt_name(&mut self.crossref_bibkeys, &row.crossref_bibkey);
        add_opt_name(&mut self.depends_on_bibkeys, &row.crossref_bibkey);
        let title_keys = extract_cite_keys(row.title.as_str());
        self.further_ref_bibkeys.extend_strs(&title_keys);
        add_opt_cites(&mut self.further_ref_bibkeys, &row.note);
        add_opt_cites(&mut self.depends_on_bibkeys, &row.extra_note);
    }
}


// ---------------------------------------------------------------------------
// Validation report
// ---------------------------------------------------------------------------

/// The names collected from rows, as sets.
#[verifier::ext_equal]
pub struct NamesView {
    pub authors: Set<AuthorNameKeyView>,
    pub journal_names: Set<Seq<char>>,
    pub publisher_names: Set<Seq<char>>,
    pub institution_names: Set<Seq<char>>,
    pub school_names: Set<Seq<char>>,
    pub series_names: Set<Seq<char>>,
    pub keywords_l1: Set<Seq<char>>,
    pub keywords_l2: Set<Seq<char>>,
    pub keywords_l3: Set<Seq<char>>,
    pub crossref_bibkeys: Set<Seq<char>>,
    pub further_ref_bibkeys: Set<Seq<char>>,
    pub depends_on_bibkeys: Set<Seq<char>>,
}

impl CollectedNames {
    /// The collected names as sets.
    pub open spec fn names(&self) -> NamesView {
        NamesView {
            authors: self.authors@,
            journal_names: self.journal_names@,
            publisher_names: self.publisher_names@,
            institution_names: self.institution_names@,
            school_names: self.school_names@,
            series_names: self.series_names@,
            keywords_l1: self.keywords_l1@,
            keywords_l2: self.keywords_l2@,
            keywords_l3: self.keywords_l3@,
            crossref_bibkeys: self.crossref_bibkeys@,
            further_ref_bibkeys: self.further_ref_bibkeys@,
            depends_on_bibkeys: self.depends_on_bibkeys@,
        }
    }
}

/// No names at all.
pub open spec fn no_names() -> NamesView {
    NamesView {
        authors: Set::empty(),
        journal_names: Set::empty(),
        publisher_names: Set::empty(),
        institution_names: Set::empty(),
        school_names: Set::empty(),
        series_names: Set::empty(),
        keywords_l1: Set::empty(),
        keywords_l2: Set::empty(),
        keywords_l3: Set::empty(),
        crossref_bibkeys: Set::empty(),
        further_ref_bibkeys: Set::empty(),
        depends_on_bibkeys: Set::empty(),
    }
}

/// The names one row refers to (see `CollectedNames::collect_from_row`).
pub open spec fn row_names_view(row: ParsedBibRow) -> NamesView {
    NamesView {
        authors: row_author_keys(row),
        journal_names: opt_set(row.journal_name),
        publisher_names: opt_set(row.publisher_name),
        institution_names: opt_set(row.institution_name),
        school_names: opt_set(row.school_name),
        series_names: opt_set(row.series_name),
        keywords_l1: strs_of(row.keywords.level_1@).to_set(),
        keywords_l2: strs_of(row.keywords.level_2@).to_set(),
        keywords_l3: strs_of(row.keywords.level_3@).to_set(),
        crossref_bibkeys: opt_set(row.crossref_bibkey),
        further_ref_bibkeys: cite_keys_spec(row.title@).to_set().union(opt_cites(row.note)),
        depends_on_bibkeys: opt_set(row.crossref_bibkey).union(opt_cites(row.extra_note)),
    }
}

/// Both collections of names together.
pub open spec fn names_union(a: NamesView, b: NamesView) -> NamesView {
    NamesView {
        authors: a.authors.union(b.authors),
        journal_names: a.journal_names.union(b.journal_names),
        publisher_names: a.publisher_names.union(b.publisher_names),
        institution_names: a.institution_names.union(b.institution_names),
        school_names: a.school_names.union(b.school_names),
        series_names: a.series_names.union(b.series_names),
        keywords_l1: a.keywords_l1.union(b.keywords_l1),
        keywords_l2: a.keywords_l2.union(b.keywords_l2),
        keywords_l3: a.keywords_l3.union(b.keywords_l3),
        crossref_bibkeys: a.crossref_bibkeys.union(b.crossref_bibkeys),
        further_ref_bibkeys: a.further_ref_bibkeys.union(b.further_ref_bibkeys),
        depends_on_bibkeys: a.depends_on_bibkeys.union(b.depends_on_bibkeys),
    }
}

/// Every name the rows refer to.
pub open spec fn collected_spec(rows: Seq<ParsedBibRow>) -> NamesView
    decreases rows.len(),
{
    if rows.len() == 0 {
        no_names()
    } else {
        names_union(collected_spec(rows.drop_last()), row_names_view(rows.last()))
    }
}

/// The bibkeys of the rows.
pub open spec fn file_bibkeys_spec(rows: Seq<ParsedBibRow>) -> Set<Seq<char>>
    decreases rows.len(),
{
    if rows.len() == 0 {
        Set::empty()
    } else {
        file_bibkeys_spec(rows.drop_last()).insert(rows.last().bibkey@)
    }
}

/// The line numbers (the header being line 1) of the rows whose bibkey is `b`.
pub open spec fn lines_of(rows: Seq<ParsedBibRow>, b: Seq<char>) -> Seq<usize>
    decreases rows.len(),
{
    if rows.len() == 0 {
        Seq::empty()
    } else if rows.last().bibkey@ == b {
        lines_of(rows.drop_last(), b).push((rows.len() + 1) as usize)
    } else {
        lines_of(rows.drop_last(), b)
    }
}

/// `d` lists every bibkey that occurs in several rows, with its lines, in
/// increasing order of bibkeys.
pub open spec fn duplicates_ok(rows: Seq<ParsedBibRow>, d: Seq<DuplicateBibkey>) -> bool {
    &&& crate::keymap::sorted_strict(dup_keys(d))
    &&& forall|i: int| 0 <= i < d.len() ==> (#[trigger] d[i]).rows@ == lines_of(rows, d[i].bibkey@) && d[i].rows.len() > 1
    &&& forall|b: Seq<char>| #[trigger] lines_of(rows, b).len() > 1 ==> dup_keys(d).contains(b)
}

/// The bibkeys of a list of duplicates.
pub open spec fn dup_keys(d: Seq<DuplicateBibkey>) -> Seq<Seq<char>> {
    Seq::new(d.len(), |i: int| d[i].bibkey@)
}

/// The report texts of a sequence of keys.
pub open spec fn key_texts(ks: Seq<AuthorNameKeyView>) -> Seq<Seq<char>> {
    Seq::new(ks.len(), |i: int| key_text(ks[i]))
}

/// The keys without any author.
pub open spec fn missing_author_keys(keys: Set<AuthorNameKeyView>, m: Map<AuthorNameKeyView, Vec<i64>>) -> Set<AuthorNameKeyView> {
    keys.filter(|k: AuthorNameKeyView| !m.contains_key(k))
}

/// The keys matching several authors.
pub open spec fn ambiguous_author_keys(keys: Set<AuthorNameKeyView>, m: Map<AuthorNameKeyView, Vec<i64>>) -> Set<AuthorNameKeyView> {
    keys.filter(|k: AuthorNameKeyView| m.contains_key(k) && m[k].len() > 1)
}

/// `r` holds the report texts of the keys without any author, sorted.
pub open spec fn missing_authors_ok(r: Seq<String>, keys: Set<AuthorNameKeyView>, m: Map<AuthorNameKeyView, Vec<i64>>) -> bool {
    &&& crate::keymap::sorted_le(strs_of(r))
    &&& exists|ks: Seq<AuthorNameKeyView>| {
        &&& ks.no_duplicates()
        &&& ks.to_set() == missing_author_keys(keys, m)
        &&& strs_of(r).to_multiset() == key_texts(ks).to_multiset()
    }
}

/// `a` holds one entry per key matching several authors: its report text
/// and the matching ids.
pub open spec fn ambiguous_ok(a: Seq<AmbiguousAuthor>, keys: Set<AuthorNameKeyView>, m: Map<AuthorNameKeyView, Vec<i64>>) -> bool {
    exists|ks: Seq<AuthorNameKeyView>| {
        &&& ks.no_duplicates()
        &&& ks.to_set() == ambiguous_author_keys(keys, m)
        &&& ks.len() == a.len()
        &&& forall|i: int| 0 <= i < a.len() ==> (#[trigger] a[i]).name@ == key_text(ks[i]) && a[i].matching_ids@ == m[ks[i]]@
    }
}

proof fn lemma_lines_in_file(rows: Seq<ParsedBibRow>, b: Seq<char>)
    requires
        lines_of(rows, b).len() > 0,
    ensures
        file_bibkeys_spec(rows).contains(b),
    decreases rows.len(),
{
    if rows.last().bibkey@ != b {
        lemma_lines_in_file(rows.drop_last(), b);
    }
}

fn lines_for(rows: &[ParsedBibRow], b: &Vec<char>) -> (r: Vec<usize>)
    requires
        rows.len() < usize::MAX,
    ensures
        r@ == lines_of(rows@, b@),
{
    let mut out: Vec<usize> = Vec::new();
    let mut i: usize = 0;
    assert(rows@.take(0) =~= Seq::<ParsedBibRow>::empty());
    while i < rows.len()
        invariant
            i <= rows.len(),
            rows.len() < usize::MAX,
            out@ == lines_of(rows@.take(i as int), b@),
        decreases rows.len() - i,
    {
        assert(rows@.take(i + 1).drop_last() =~= rows@.take(i as int));
        if crate::text::chars_eq(&chars_of(rows[i].bibkey.as_str()), b) {
            out.push(i + 2);
        }
        i += 1;
    }
    assert(rows@.take(rows.len() as int) =~= rows@);
    out
}

fn find_duplicates(rows: &[ParsedBibRow], file_keys: &StrSet) -> (r: Vec<DuplicateBibkey>)
    requires
        rows.len() < usize::MAX,
        file_keys@ == file_bibkeys_spec(rows@),
    ensures
        duplicates_ok(rows@, r@),
{
    let n = file_keys.len();
    let ghost el = file_keys.elems();
    let mut out: Vec<DuplicateBibkey> = Vec::new();
    let mut i: usize = 0;
    while i < n
        invariant
            i <= n,
            n == el.len(),
            el == file_keys.elems(),
            crate::keymap::sorted_strict(el),
            rows.len() < usize::MAX,
            crate::keymap::sorted_strict(dup_keys(out@)),
            forall|k: int, j: int| 0 <= k < out.len() && i <= j < n ==> crate::keymap::lex_lt(#[trigger] dup_keys(out@)[k], #[trigger] el[j]),
            forall|k: int| 0 <= k < out.len() ==> (#[trigger] out@[k]).rows@ == lines_of(rows@, out@[k].bibkey@) && out@[k].rows.len() > 1,
            forall|j: int| 0 <= j < i && lines_of(rows@, #[trigger] el[j]).len() > 1 ==> dup_keys(out@).contains(el[j]),
        decreases n - i,
    {
        let b = file_keys.at(i);
        let lines = lines_for(rows, b);
        if lines.len() > 1 {
            let ghost before = dup_keys(out@);
            out.push(DuplicateBibkey { bibkey: string_of(b), rows: lines });
            let ghost after = dup_keys(out@);
            assert(after =~= before.push(el[i as int]));
            assert forall|k: int, j: int| 0 <= k < out.len() && i + 1 <= j < n implies crate::keymap::lex_lt(#[trigger] after[k], #[trigger] el[j]) by {
                if k < before.len() {
                    assert(crate::keymap::lex_lt(before[k], el[j]));
                }
            }
            assert forall|j: int| 0 <= j < i + 1 && lines_of(rows@, #[trigger] el[j]).len() > 1 implies after.contains(el[j]) by {
                if j < i {
                    let k = choose|k: int| 0 <= k < before.len() && before[k] == el[j];
                    assert(after[k] == el[j]);
                } else {
                    assert(after[before.len() as int] == el[j]);
                }
            }
        }
        i += 1;
    }
    proof {
        file_keys.lemma_view();
        assert forall|b: Seq<char>| #[trigger] lines_of(rows@, b).len() > 1 implies dup_keys(out@).contains(b) by {
            lemma_lines_in_file(rows@, b);
            assert(el.contains(b));
            let j = choose|j: int| 0 <= j < el.len() && el[j] == b;
            assert(lines_of(rows@, el[j]).len() > 1);
        }
    }
    out
}

fn copy_ids(ids: &Vec<i64>) -> (r: Vec<i64>)
    ensures
        r@ == ids@,
{
    let mut out: Vec<i64> = Vec::new();
    let mut i: usize = 0;
    while i < ids.len()
        invariant
            i <= ids.len(),
            out@ == ids@.take(i as int),
        decreases ids.len() - i,
    {
        out.push(ids[i]);
        assert(out@ =~= ids@.take(i + 1));
        i += 1;
    }
    assert(ids@.take(ids.len() as int) =~= ids@);
    out
}

/// The report texts of the keys without any author (sorted), and the keys
/// matching several authors.
fn classify_authors(keys: &AuthorKeySet, m: &AuthorMap<Vec<i64>>) -> (r: (Vec<String>, Vec<AmbiguousAuthor>))
    ensures
        missing_authors_ok(r.0@, keys@, m@),
        ambiguous_ok(r.1@, keys@, m@),
{
    broadcast use vstd::seq_lib::lemma_seq_contains_after_push;

    let n = keys.len();
    let ghost el = keys.elems();
    let mut texts: Vec<String> = Vec::new();
    let mut amb: Vec<AmbiguousAuthor> = Vec::new();
    let ghost mut mks: Seq<AuthorNameKeyView> = Seq::empty();
    let ghost mut aks: Seq<AuthorNameKeyView> = Seq::empty();
    let mut i: usize = 0;
    assert(strs_of(texts@) =~= key_texts(mks));
    while i < n
        invariant
            i <= n,
            n == el.len(),
            el == keys.elems(),
            el.no_duplicates(),
            mks.no_duplicates(),
            aks.no_duplicates(),
            forall|k: AuthorNameKeyView| #[trigger] mks.contains(k) <==> (el.take(i as int).contains(k) && !m@.contains_key(k)),
            forall|k: AuthorNameKeyView| #[trigger] aks.contains(k) <==> (el.take(i as int).contains(k) && m@.contains_key(k) && m@[k].len() > 1),
            strs_of(texts@) == key_texts(mks),
            aks.len() == amb.len(),
            forall|j: int| 0 <= j < amb.len() ==> (#[trigger] amb@[j]).name@ == key_text(aks[j]) && amb@[j].matching_ids@ == m@[aks[j]]@,
        decreases n - i,
    {
        let key = keys.at(i);
        let ghost kv = el[i as int];
        let ghost pre = el.take(i as int);
        let ghost post = el.take(i + 1);
        proof {
            assert(post =~= pre.push(kv));
            assert(!pre.contains(kv)) by {
                if pre.contains(kv) {
                    let j = choose|j: int| 0 <= j < pre.len() && pre[j] == kv;
                    assert(el[j] == el[i as int]);
                }
            }
        }
        match m.get(key) {
            None => {
                let ghost tb = strs_of(texts@);
                let ghost before = mks;
                texts.push(format_author_key(key));
                proof {
                    assert(!before.contains(kv));
                    mks = mks.push(kv);
                    assert(strs_of(texts@) =~= tb.push(key_text(kv)));
                    assert(key_texts(mks) =~= key_texts(before).push(key_text(kv)));
                    assert forall|k: AuthorNameKeyView| #[trigger] mks.contains(k) <==> (post.contains(k) && !m@.contains_key(k)) by {
                        vstd::seq_lib::lemma_seq_contains_after_push(before, kv, k);
                        vstd::seq_lib::lemma_seq_contains_after_push(pre, kv, k);
                    }
                    assert forall|k: AuthorNameKeyView| #[trigger] aks.contains(k) <==> (post.contains(k) && m@.contains_key(k) && m@[k].len() > 1) by {
                        vstd::seq_lib::lemma_seq_contains_after_push(pre, kv, k);
                    }
                }
            },
            Some(ids) => {
                if ids.len() > 1 {
                    let ghost before = aks;
                    amb.push(AmbiguousAuthor { name: format_author_key(key), matching_ids: copy_ids(ids) });
                    proof {
                        assert(!before.contains(kv));
                        aks = aks.push(kv);
                        assert forall|k: AuthorNameKeyView| #[trigger] aks.contains(k) <==> (post.contains(k) && m@.contains_key(k) && m@[k].len() > 1) by {
                            vstd::seq_lib::lemma_seq_contains_after_push(before, kv, k);
                            vstd::seq_lib::lemma_seq_contains_after_push(pre, kv, k);
                        }
                    }
                } else {
                    proof {
                        assert forall|k: AuthorNameKeyView| #[trigger] aks.contains(k) <==> (post.contains(k) && m@.contains_key(k) && m@[k].len() > 1) by {
                            vstd::seq_lib::lemma_seq_contains_after_push(pre, kv, k);
                        }
                    }
                }
                proof {
                    assert forall|k: AuthorNameKeyView| #[trigger] mks.contains(k) <==> (post.contains(k) && !m@.contains_key(k)) by {
                        vstd::seq_lib::lemma_seq_contains_after_push(pre, kv, k);
                    }
                }
            },
        }
        i += 1;
    }
    proof {
        assert(el.take(n as int) =~= el);
        keys.lemma_view();
        assert(mks.to_set() =~= missing_author_keys(keys@, m@));
        assert(aks.to_set() =~= ambiguous_author_keys(keys@, m@));
    }
    let sorted = sort_strings(texts);
    (sorted, amb)
}

/// What the validation report of `rows` says: the counts, the row errors
/// passed in, duplicate bibkeys, authors without a match or with several,
/// names of entities and keywords that have no entry (sorted), cited bibkeys
/// that neither the database nor the file holds, and the database bibkeys
/// the file lacks (stale), sorted.
pub open spec fn validation_report_ok(
    rows: Seq<ParsedBibRow>,
    errors: Seq<RowError>,
    maps: LookupMaps,
    r: ValidationReport,
) -> bool {
    let names = collected_spec(rows);
    let file_keys = file_bibkeys_spec(rows);
    let known = maps.bibkeys@.union(file_keys);
    &&& r.total_rows == rows.len() + errors.len()
    &&& r.valid_rows == rows.len()
    &&& r.errors@ == errors
    &&& duplicates_ok(rows, r.duplicate_bibkeys@)
    &&& missing_authors_ok(r.missing_authors@, names.authors, maps.authors.id_map@)
    &&& ambiguous_ok(r.ambiguous_authors@, names.authors, maps.authors.id_map@)
    &&& is_sorted_missing(strs_of(r.missing_journals@), names.journal_names, |x: Seq<char>| maps.journals@.contains_key(x))
    &&& is_sorted_missing(strs_of(r.missing_publishers@), names.publisher_names, |x: Seq<char>| maps.publishers@.contains_key(x))
    &&& is_sorted_missing(strs_of(r.missing_institutions@), names.institution_names, |x: Seq<char>| maps.institutions@.contains_key(x))
    &&& is_sorted_missing(strs_of(r.missing_schools@), names.school_names, |x: Seq<char>| maps.schools@.contains_key(x))
    &&& is_sorted_missing(strs_of(r.missing_series@), names.series_names, |x: Seq<char>| maps.series@.contains_key(x))
    &&& is_sorted_missing(strs_of(r.missing_keywords.level_1@), names.keywords_l1, |x: Seq<char>| maps.keywords@.contains_key((x, 1i16)))
    &&& is_sorted_missing(strs_of(r.missing_keywords.level_2@), names.keywords_l2, |x: Seq<char>| maps.keywords@.contains_key((x, 2i16)))
    &&& is_sorted_missing(strs_of(r.missing_keywords.level_3@), names.keywords_l3, |x: Seq<char>| maps.keywords@.contains_key((x, 3i16)))
    &&& is_sorted_missing(strs_of(r.missing_crossrefs@), names.crossref_bibkeys, |x: Seq<char>| known.contains(x))
    &&& is_sorted_missing(strs_of(r.missing_further_refs@), names.further_ref_bibkeys, |x: Seq<char>| known.contains(x))
    &&& is_sorted_missing(strs_of(r.missing_depends_on@), names.depends_on_bibkeys, |x: Seq<char>| known.contains(x))
    &&& is_sorted_missing(strs_of(r.stale_bibitems@), maps.bibkeys@, |x: Seq<char>| file_keys.contains(x))
}

/// The validation report of parsed rows against the lookup tables; the row
/// errors of the parse are passed through. Nothing is written anywhere.
pub fn assemble_validation_report(parsed_rows: &[ParsedBibRow], row_errors: Vec<RowError>, maps: &LookupMaps) -> (r: ValidationReport)
    requires
        parsed_rows.len() + row_errors.len() < usize::MAX,
    ensures
        validation_report_ok(parsed_rows@, row_errors@, *maps, r),
{
    let total_rows = parsed_rows.len() + row_errors.len();
    let mut collected = CollectedNames::default();
    let mut file_bibkeys = StrSet::new();
    let mut i: usize = 0;
    assert(parsed_rows@.take(0) =~= Seq::<ParsedBibRow>::empty());
    assert(collected.names() =~= no_names());
    assert(file_bibkeys@ =~= Set::<Seq<char>>::empty());
    while i < parsed_rows.len()
        invariant
            i <= parsed_rows.len(),
            collected.names() == collected_spec(parsed_rows@.take(i as int)),
            file_bibkeys@ == file_bibkeys_spec(parsed_rows@.take(i as int)),
        decreases parsed_rows.len() - i,
    {
        let ghost before = collected.names();
        let row = &parsed_rows[i];
        file_bibkeys.insert(row.bibkey.as_str());
        collected.collect_from_row(row);
        proof {
            let nxt = parsed_rows@.take(i + 1);
            assert(nxt.drop_last() =~= parsed_rows@.take(i as int));
            assert(nxt.last() == *row);
            assert(collected.names() =~= names_union(before, row_names_view(*row)));
        }
        i += 1;
    }
    assert(parsed_rows@.take(parsed_rows.len() as int) =~= parsed_rows@);
    let duplicate_bibkeys = find_duplicates(parsed_rows, &file_bibkeys);
    let (missing_authors, ambiguous_authors) = classify_authors(&collected.authors, &maps.authors.id_map);
    let missing_journals = find_missing_names(&collected.journal_names, &maps.journals);
    let missing_publishers = find_missing_names(&collected.publisher_names, &maps.publishers);
    let missing_institutions = find_missing_names(&collected.institution_names, &maps.institutions);
    let missing_schools = find_missing_names(&collected.school_names, &maps.schools);
    let missing_series = find_missing_names(&collected.series_names, &maps.series);
    let missing_keywords = MissingKeywords {
        level_1: find_missing_keywords(&collected.keywords_l1, 1, &maps.keywords),
        level_2: find_missing_keywords(&collected.keywords_l2, 2, &maps.keywords),
        level_3: find_missing_keywords(&collected.keywords_l3, 3, &maps.keywords),
    };
    let all_known = maps.bibkeys.union(&file_bibkeys);
    let missing_crossrefs = find_missing_bibkeys(&collected.crossref_bibkeys, &all_known);
    let missing_further_refs = find_missing_bibkeys(&collected.further_ref_bibkeys, &all_known);
    let missing_depends_on = find_missing_bibkeys(&collected.depends_on_bibkeys, &all_known);
    let stale_bibitems = find_missing_bibkeys(&maps.bibkeys, &file_bibkeys);
    ValidationReport {
        total_rows,
        valid_rows: parsed_rows.len(),
        errors: row_errors,
        duplicate_bibkeys,
        missing_authors,
        ambiguous_authors,
        missing_journals,
        missing_publishers,
        missing_institutions,
        missing_schools,
        missing_series,
        missing_keywords,
        missing_crossrefs,
        missing_further_refs,
        missing_depends_on,
        stale_bibitems,
    }
}

impl ResolutionCtx {
    /// The resolution context of the lookup tables: authors, author keys and
    /// famous persons only where the name matches exactly one; the other
    /// tables as they are.
    pub fn from_lookup_maps(maps: LookupMaps) -> (r: Self)
        ensures
            r.author_resolve@ == author_singles(maps.authors.id_map@),
            r.author_key_resolve@ == author_singles(maps.authors.key_map@),
            r.author_variants@ == maps.authors.variant_map@,
            r.famous_person_resolve@ == crate::keymap::singles(maps.authors.famous_person_map@),
            r.famous_person_key_resolve@ == crate::keymap::singles(maps.authors.famous_person_key_map@),
            r.journal_map@ == maps.journals@,
            r.publisher_map@ == maps.publishers@,
            r.institution_map@ == maps.institutions@,
            r.school_map@ == maps.schools@,
            r.series_map@ == maps.series@,
            r.keyword_map@ == maps.keywords@,
            r.existing_bibkeys@ == maps.bibkeys@,
    {
        let author_resolve = maps.authors.id_map.single_values();
        let author_key_resolve = maps.authors.key_map.single_strings();
        let famous_person_resolve = maps.authors.famous_person_map.single_values();
        let famous_person_key_resolve = maps.authors.famous_person_key_map.single_strings();
        ResolutionCtx {
            author_resolve,
            author_key_resolve,
            author_variants: maps.authors.variant_map,
            famous_person_resolve,
            famous_person_key_resolve,
            journal_map: maps.journals,
            publisher_map: maps.publishers,
            institution_map: maps.institutions,
            school_map: maps.schools,
            series_map: maps.series,
            keyword_map: maps.keywords,
            existing_bibkeys: maps.bibkeys,
        }
    }
}

// ---------------------------------------------------------------------------
// Rows to insert
// ---------------------------------------------------------------------------

/// A link from a bibitem to one of its authors, editors or guest editors.
#[derive(Debug)]
pub struct AuthorJunctionRow {
    pub bibkey: String,
    pub author_key: String,
    pub role: AuthorRole,
    pub position: i16,
    pub variant_latex: Option<String>,
    pub variant_unicode: Option<String>,
}

/// A link from a bibitem to a keyword.
#[derive(Debug)]
pub struct KeywordJunctionRow {
    pub bibkey: String,
    pub keyword_key: String,
    pub keyword_level: i16,
}

/// A reference from one bibitem to another.
#[derive(Debug)]
pub struct BibitemRefInsertRow {
    pub source_bibkey: String,
    pub target_bibkey: String,
    pub ref_type: RefType,
}

/// The LaTeX variant of an optional variant record.
pub open spec fn variant_latex_of(v: Option<VariantInfo>) -> Option<String> {
    match v {
        Some(i) => i.variant_latex,
        None => None,
    }
}

/// The Unicode variant of an optional variant record.
pub open spec fn variant_unicode_of(v: Option<VariantInfo>) -> Option<String> {
    match v {
        Some(i) => i.variant_unicode,
        None => None,
    }
}

/// The author links of the names of one role: one per name whose key
/// resolves to a single author, at its position in the list (positions
/// beyond `i16` are skipped).
pub open spec fn role_junctions(bibkey: String, role: AuthorRole, names: Seq<ParsedAuthor>, ctx: ResolutionCtx) -> Seq<AuthorJunctionRow>
    decreases names.len(),
{
    if names.len() == 0 {
        Seq::empty()
    } else {
        let prev = role_junctions(bibkey, role, names.drop_last(), ctx);
        let pos = names.len() - 1;
        let k = key_of(names.last());
        if ctx.author_key_resolve@.contains_key(k) && pos <= 0x7fff {
            let v = map_get(ctx.author_variants@, k);
            prev.push(AuthorJunctionRow {
                bibkey,
                author_key: ctx.author_key_resolve@[k],
                role,
                position: pos as i16,
                variant_latex: variant_latex_of(v),
                variant_unicode: variant_unicode_of(v),
            })
        } else {
            prev
        }
    }
}

/// The author links of one row: authors, then editors, then guest editors.
pub open spec fn row_author_junctions(row: ParsedBibRow, ctx: ResolutionCtx) -> Seq<AuthorJunctionRow> {
    role_junctions(row.bibkey, AuthorRole::Author, row.authors@, ctx)
        + role_junctions(row.bibkey, AuthorRole::Editor, row.editors@, ctx)
        + role_junctions(row.bibkey, AuthorRole::Guesteditor, row.guesteditors@, ctx)
}

/// The author links of all rows, row by row.
pub open spec fn author_junctions_spec(rows: Seq<ParsedBibRow>, ctx: ResolutionCtx) -> Seq<AuthorJunctionRow>
    decreases rows.len(),
{
    if rows.len() == 0 {
        Seq::empty()
    } else {
        author_junctions_spec(rows.drop_last(), ctx) + row_author_junctions(rows.last(), ctx)
    }
}

fn push_role_junctions(
    out: &mut Vec<AuthorJunctionRow>,
    bibkey: &String,
    role: AuthorRole,
    names: &Vec<ParsedAuthor>,
    ctx: &ResolutionCtx,
)
    ensures
        final(out)@ == old(out)@ + role_junctions(*bibkey, role, names@, *ctx),
{
    let mut position: usize = 0;
    assert(names@.take(0) =~= Seq::<ParsedAuthor>::empty());
    assert(out@ =~= old(out)@ + role_junctions(*bibkey, role, names@.take(0), *ctx));
    while position < names.len()
        invariant
            position <= names.len(),
            out@ == old(out)@ + role_junctions(*bibkey, role, names@.take(position as int), *ctx),
        decreases names.len() - position,
    {
        let ghost before = out@;
        let ghost pre = names@.take(position as int);
        let ghost nxt = names@.take(position + 1);
        assert(nxt.drop_last() =~= pre);
        let key = AuthorNameKey::from_parsed(&names[position]);
        match ctx.author_key_resolve.get(&key) {
            Some(author_key) => {
                if position <= 32767 {
                    let (vl, vu) = match ctx.author_variants.get(&key) {
                        Some(v) => (clone_opt(&v.variant_latex), clone_opt(&v.variant_unicode)),
                        None => (None, None),
                    };
                    out.push(AuthorJunctionRow {
                        bibkey: bibkey.clone(),
                        author_key: author_key.clone(),
                        role,
                        position: position as i16,
                        variant_latex: vl,
                        variant_unicode: vu,
                    });
                }
            },
            None => {},
        }
        assert(out@ =~= old(out)@ + role_junctions(*bibkey, role, nxt, *ctx));
        position += 1;
    }
    assert(names@.take(names.len() as int) =~= names@);
}

/// The author links of all rows whose names resolve; names that do not
/// resolve are skipped (validation reports them).
pub fn collect_author_junction_rows(parsed_rows: &[ParsedBibRow], ctx: &ResolutionCtx) -> (r: Vec<AuthorJunctionRow>)
    ensures
        r@ == author_junctions_spec(parsed_rows@, *ctx),
{
    let mut rows: Vec<AuthorJunctionRow> = Vec::new();
    let mut i: usize = 0;
    assert(parsed_rows@.take(0) =~= Seq::<ParsedBibRow>::empty());
    while i < parsed_rows.len()
        invariant
            i <= parsed_rows.len(),
            rows@ == author_junctions_spec(parsed_rows@.take(i as int), *ctx),
        decreases parsed_rows.len() - i,
    {
        let parsed = &parsed_rows[i];
        push_role_junctions(&mut rows, &parsed.bibkey, AuthorRole::Author, &parsed.authors, ctx);
        push_role_junctions(&mut rows, &parsed.bibkey, AuthorRole::Editor, &parsed.editors, ctx);
        push_role_junctions(&mut rows, &parsed.bibkey, AuthorRole::Guesteditor, &parsed.guesteditors, ctx);
        proof {
            let nxt = parsed_rows@.take(i + 1);
            assert(nxt.drop_last() =~= parsed_rows@.take(i as int));
            assert(nxt.last() == *parsed);
        }
        assert(rows@ =~= author_junctions_spec(parsed_rows@.take(i + 1), *ctx));
        i += 1;
    }
    assert(parsed_rows@.take(parsed_rows.len() as int) =~= parsed_rows@);
    rows
}

/// The keyword links of the keywords of one level that resolve.
pub open spec fn level_junctions(bibkey: String, names: Seq<String>, level: i16, ctx: ResolutionCtx) -> Seq<KeywordJunctionRow>
    decreases names.len(),
{
    if names.len() == 0 {
        Seq::empty()
    } else {
        let prev = level_junctions(bibkey, names.drop_last(), level, ctx);
        let k = (names.last()@, level);
        if ctx.keyword_map@.contains_key(k) {
            prev.push(KeywordJunctionRow { bibkey, keyword_key: ctx.keyword_map@[k], keyword_level: level })
        } else {
            prev
        }
    }
}

/// The keyword links of one row, level 1 first.
pub open spec fn row_keyword_junctions(row: ParsedBibRow, ctx: ResolutionCtx) -> Seq<KeywordJunctionRow> {
    level_junctions(row.bibkey, row.keywords.level_1@, 1, ctx)
        + level_junctions(row.bibkey, row.keywords.level_2@, 2, ctx)
        + level_junctions(row.bibkey, row.keywords.level_3@, 3, ctx)
}

/// The keyword links of all rows, row by row.
pub open spec fn keyword_junctions_spec(rows: Seq<ParsedBibRow>, ctx: ResolutionCtx) -> Seq<KeywordJunctionRow>
    decreases rows.len(),
{
    if rows.len() == 0 {
        Seq::empty()
    } else {
        keyword_junctions_spec(rows.drop_last(), ctx) + row_keyword_junctions(rows.last(), ctx)
    }
}

fn push_level_junctions(
    out: &mut Vec<KeywordJunctionRow>,
    bibkey: &String,
    names: &Vec<String>,
    level: i16,
    ctx: &ResolutionCtx,
)
    ensures
        final(out)@ == old(out)@ + level_junctions(*bibkey, names@, level, *ctx),
{
    let mut i: usize = 0;
    assert(names@.take(0) =~= Seq::<String>::empty());
    assert(out@ =~= old(out)@ + level_junctions(*bibkey, names@.take(0), level, *ctx));
    while i < names.len()
        invariant
            i <= names.len(),
            out@ == old(out)@ + level_junctions(*bibkey, names@.take(i as int), level, *ctx),
        decreases names.len() - i,
    {
        let ghost nxt = names@.take(i + 1);
        assert(nxt.drop_last() =~= names@.take(i as int));
        let name = chars_of(names[i].as_str());
        match ctx.keyword_map.get(&name, level) {
            Some(keyword_key) => {
                out.push(KeywordJunctionRow { bibkey: bibkey.clone(), keyword_key: keyword_key.clone(), keyword_level: level });
            },
            None => {},
        }
        assert(out@ =~= old(out)@ + level_junctions(*bibkey, nxt, level, *ctx));
        i += 1;
    }
    assert(names@.take(names.len() as int) =~= names@);
}

/// The keyword links of all rows whose keywords resolve; keywords that do
/// not resolve are skipped.
pub fn collect_keyword_junction_rows(parsed_rows: &[ParsedBibRow], ctx: &ResolutionCtx) -> (r: Vec<KeywordJunctionRow>)
    ensures
        r@ == keyword_junctions_spec(parsed_rows@, *ctx),
{
    let mut rows: Vec<KeywordJunctionRow> = Vec::new();
    let mut i: usize = 0;
    assert(parsed_rows@.take(0) =~= Seq::<ParsedBibRow>::empty());
    while i < parsed_rows.len()
        invariant
            i <= parsed_rows.len(),
            rows@ == keyword_junctions_spec(parsed_rows@.take(i as int), *ctx),
        decreases parsed_rows.len() - i,
    {
        let parsed = &parsed_rows[i];
        push_level_junctions(&mut rows, &parsed.bibkey, &parsed.keywords.level_1, 1, ctx);
        push_level_junctions(&mut rows, &parsed.bibkey, &parsed.keywords.level_2, 2, ctx);
        push_level_junctions(&mut rows, &parsed.bibkey, &parsed.keywords.level_3, 3, ctx);
        proof {
            let nxt = parsed_rows@.take(i + 1);
            assert(nxt.drop_last() =~= parsed_rows@.take(i as int));
            assert(nxt.last() == *parsed);
        }
        assert(rows@ =~= keyword_junctions_spec(parsed_rows@.take(i + 1), *ctx));
        i += 1;
    }
    assert(parsed_rows@.take(parsed_rows.len() as int) =~= parsed_rows@);
    rows
}

// ---------------------------------------------------------------------------
// Rows whose references do not all resolve
// ---------------------------------------------------------------------------

/// One message per listed name whose key resolves to no single author.
pub open spec fn author_msgs(names: Seq<ParsedAuthor>, ctx: ResolutionCtx) -> Seq<Seq<char>>
    decreases names.len(),
{
    if names.len() == 0 {
        Seq::empty()
    } else {
        let prev = author_msgs(names.drop_last(), ctx);
        let k = key_of(names.last());
        if !ctx.author_resolve@.contains_key(k) {
            prev.push("unresolved author: "@ + key_text(k))
        } else {
            prev
        }
    }
}

/// The message for a `_person` that is no unambiguous famous author.
pub open spec fn person_msgs(person: Option<ParsedAuthor>, ctx: ResolutionCtx) -> Seq<Seq<char>> {
    match person {
        Some(p) => if map_get(ctx.famous_person_resolve@, person_name(p)) is None {
            seq!["unresolved person: "@ + key_text(key_of(p))]
        } else {
            Seq::empty()
        },
        None => Seq::empty(),
    }
}

/// The message for an entity name that `m` does not know.
pub open spec fn entity_msgs(prefix: Seq<char>, name: Option<String>, m: Map<Seq<char>, String>) -> Seq<Seq<char>> {
    match name {
        Some(n) => if m.contains_key(n@) {
            Seq::empty()
        } else {
            seq![prefix + n@]
        },
        None => Seq::empty(),
    }
}

/// Why a row cannot be imported: its authors, person, journal, publisher,
/// institution, school and series that do not resolve, in that order.
pub open spec fn missing_for_row(row: ParsedBibRow, ctx: ResolutionCtx) -> Seq<Seq<char>> {
    author_msgs(row_names(row), ctx) + person_msgs(row.person, ctx)
        + entity_msgs("missing journal: "@, row.journal_name, ctx.journal_map@)
        + entity_msgs("missing publisher: "@, row.publisher_name, ctx.publisher_map@)
        + entity_msgs("missing institution: "@, row.institution_name, ctx.institution_map@)
        + entity_msgs("missing school: "@, row.school_name, ctx.school_map@)
        + entity_msgs("missing series: "@, row.series_name, ctx.series_map@)
}

fn push_author_msgs(out: &mut Vec<String>, names: &Vec<ParsedAuthor>, ctx: &ResolutionCtx)
    ensures
        strs_of(final(out)@) == strs_of(old(out)@) + author_msgs(names@, *ctx),
{
    let mut i: usize = 0;
    assert(names@.take(0) =~= Seq::<ParsedAuthor>::empty());
    assert(strs_of(out@) =~= strs_of(old(out)@) + author_msgs(names@.take(0), *ctx));
    while i < names.len()
        invariant
            i <= names.len(),
            strs_of(out@) == strs_of(old(out)@) + author_msgs(names@.take(i as int), *ctx),
        decreases names.len() - i,
    {
        let ghost before = strs_of(out@);
        let ghost nxt = names@.take(i + 1);
        assert(nxt.drop_last() =~= names@.take(i as int));
        let key = AuthorNameKey::from_parsed(&names[i]);
        if ctx.author_resolve.get(&key).is_none() {
            let mut m = lit("unresolved author: ");
            let t = format_author_key(&key);
            extend_str(&mut m, t.as_str());
            out.push(string_of(&m));
            assert(strs_of(out@) =~= before.push("unresolved author: "@ + key_text(key@)));
        }
        assert(strs_of(out@) =~= strs_of(old(out)@) + author_msgs(nxt, *ctx));
        i += 1;
    }
    assert(names@.take(names.len() as int) =~= names@);
}

fn push_entity_msg(out: &mut Vec<String>, prefix: &str, name: &Option<String>, m: &StrMap<String>)
    ensures
        strs_of(final(out)@) == strs_of(old(out)@) + entity_msgs(prefix@, *name, m@),
{
    match name {
        Some(n) => {
            if m.get_str(n.as_str()).is_none() {
                let mut t = lit(prefix);
                extend_str(&mut t, n.as_str());
                out.push(string_of(&t));
                assert(strs_of(out@) =~= strs_of(old(out)@) + entity_msgs(prefix@, *name, m@));
            } else {
                assert(strs_of(out@) =~= strs_of(old(out)@) + entity_msgs(prefix@, *name, m@));
            }
        },
        None => {
            assert(strs_of(out@) =~= strs_of(old(out)@) + entity_msgs(prefix@, *name, m@));
        },
    }
}

/// Why a row cannot be imported (see `missing_for_row`); empty when every
/// reference resolves.
fn collect_missing_for_row(row: &ParsedBibRow, ctx: &ResolutionCtx) -> (r: Vec<String>)
    ensures
        strs_of(r@) == missing_for_row(*row, *ctx),
{
    let mut missing: Vec<String> = Vec::new();
    assert(strs_of(missing@) =~= Seq::<Seq<char>>::empty());
    push_author_msgs(&mut missing, &row.authors, ctx);
    push_author_msgs(&mut missing, &row.editors, ctx);
    push_author_msgs(&mut missing, &row.guesteditors, ctx);
    proof {
        lemma_author_msgs_append(row.authors@, row.editors@, *ctx);
        lemma_author_msgs_append(row.authors@ + row.editors@, row.guesteditors@, *ctx);
    }
    let ghost before_person = strs_of(missing@);
    match &row.person {
        Some(p) => {
            if resolve_person_id(p, ctx).is_none() {
                let key = AuthorNameKey::from_parsed(p);
                let mut m = lit("unresolved person: ");
                let t = format_author_key(&key);
                extend_str(&mut m, t.as_str());
                missing.push(string_of(&m));
            }
        },
        None => {},
    }
    assert(strs_of(missing@) =~= before_person + person_msgs(row.person, *ctx));
    push_entity_msg(&mut missing, "missing journal: ", &row.journal_name, &ctx.journal_map);
    push_entity_msg(&mut missing, "missing publisher: ", &row.publisher_name, &ctx.publisher_map);
    push_entity_msg(&mut missing, "missing institution: ", &row.institution_name, &ctx.institution_map);
    push_entity_msg(&mut missing, "missing school: ", &row.school_name, &ctx.school_map);
    push_entity_msg(&mut missing, "missing series: ", &row.series_name, &ctx.series_map);
    assert(strs_of(missing@) =~= missing_for_row(*row, *ctx));
    missing
}

proof fn lemma_author_msgs_append(a: Seq<ParsedAuthor>, b: Seq<ParsedAuthor>, ctx: ResolutionCtx)
    ensures
        author_msgs(a + b, ctx) == author_msgs(a, ctx) + author_msgs(b, ctx),
    decreases b.len(),
{
    if b.len() == 0 {
        assert(a + b =~= a);
        assert(author_msgs(a, ctx) + author_msgs(b, ctx) =~= author_msgs(a, ctx));
    } else {
        lemma_author_msgs_append(a, b.drop_last(), ctx);
        assert((a + b).drop_last() =~= a + b.drop_last());
        assert((a + b).last() == b.last());
        assert(author_msgs(a + b, ctx) =~= author_msgs(a, ctx) + author_msgs(b, ctx));
    }
}

/// A row error as plain values: line, bibkey and (field, message) pairs.
pub open spec fn row_error_view(e: RowError) -> (usize, Option<Seq<char>>, Seq<(Seq<char>, Seq<char>)>) {
    (e.row, opt_str_view(e.bibkey), Seq::new(e.errors.len() as nat, |i: int| (e.errors@[i].field@, e.errors@[i].error@)))
}

/// The rows whose references all resolve, in order.
pub open spec fn importable_spec(rows: Seq<ParsedBibRow>, ctx: ResolutionCtx) -> Seq<ParsedBibRow>
    decreases rows.len(),
{
    if rows.len() == 0 {
        Seq::empty()
    } else if missing_for_row(rows.last(), ctx).len() == 0 {
        importable_spec(rows.drop_last(), ctx).push(rows.last())
    } else {
        importable_spec(rows.drop_last(), ctx)
    }
}

/// One error per row with unresolved references: its line (the header being
/// line 1), its bibkey and one `entity_reference` message per reference.
pub open spec fn skipped_spec(rows: Seq<ParsedBibRow>, ctx: ResolutionCtx) -> Seq<(usize, Option<Seq<char>>, Seq<(Seq<char>, Seq<char>)>)>
    decreases rows.len(),
{
    if rows.len() == 0 {
        Seq::empty()
    } else {
        let msgs = missing_for_row(rows.last(), ctx);
        if msgs.len() == 0 {
            skipped_spec(rows.drop_last(), ctx)
        } else {
            skipped_spec(rows.drop_last(), ctx).push((
                (rows.len() + 1) as usize,
                Some(rows.last().bibkey@),
                Seq::new(msgs.len(), |i: int| ("entity_reference"@, msgs[i])),
            ))
        }
    }
}

/// The row errors as plain values.
pub open spec fn row_error_views(es: Seq<RowError>) -> Seq<(usize, Option<Seq<char>>, Seq<(Seq<char>, Seq<char>)>)> {
    Seq::new(es.len(), |i: int| row_error_view(es[i]))
}

/// Splits rows into those whose references all resolve and an error for
/// each of the others.
pub fn filter_importable_rows(rows: Vec<ParsedBibRow>, ctx: &ResolutionCtx) -> (r: (Vec<ParsedBibRow>, Vec<RowError>))
    requires
        rows.len() < usize::MAX,
    ensures
        r.0@ == importable_spec(rows@, *ctx),
        row_error_views(r.1@) == skipped_spec(rows@, *ctx),
{
    let ghost orig = rows@;
    let n = rows.len();
    let mut rest = rows;
    let mut importable: Vec<ParsedBibRow> = Vec::new();
    let mut skipped: Vec<RowError> = Vec::new();
    let mut idx: usize = 0;
    assert(orig.take(0) =~= Seq::<ParsedBibRow>::empty());
    assert(row_error_views(skipped@) =~= skipped_spec(orig.take(0), *ctx));
    assert(rest@ =~= orig.skip(0));
    while idx < n
        invariant
            idx <= n,
            n == orig.len(),
            n < usize::MAX,
            rest@ == orig.skip(idx as int),
            importable@ == importable_spec(orig.take(idx as int), *ctx),
            row_error_views(skipped@) == skipped_spec(orig.take(idx as int), *ctx),
        decreases n - idx,
    {
        let row = rest.remove(0);
        let ghost nxt = orig.take(idx + 1);
        proof {
            assert(nxt.drop_last() =~= orig.take(idx as int));
            assert(row == orig[idx as int]);
            assert(nxt.last() == row);
            assert(rest@ =~= orig.skip(idx + 1));
        }
        let missing = collect_missing_for_row(&row, ctx);
        if missing.len() == 0 {
            importable.push(row);
        } else {
            let ghost before = row_error_views(skipped@);
            let mut errors: Vec<FieldError> = Vec::new();
            let mut j: usize = 0;
            while j < missing.len()
                invariant
                    j <= missing.len(),
                    errors.len() == j,
                    forall|k: int| 0 <= k < j ==> (#[trigger] errors@[k]).field@ == "entity_reference"@ && errors@[k].error@ == missing@[k]@,
                decreases missing.len() - j,
            {
                errors.push(FieldError { field: String::from_str("entity_reference"), error: missing[j].clone() });
                j += 1;
            }
            let e = RowError { row: idx + 2, bibkey: Some(row.bibkey.clone()), errors };
            let ghost ev = row_error_view(e);
            skipped.push(e);
            proof {
                let msgs = missing_for_row(row, *ctx);
                assert(ev.2 =~= Seq::new(msgs.len(), |i: int| ("entity_reference"@, msgs[i])));
                assert(row_error_views(skipped@) =~= before.push(ev));
            }
        }
        idx += 1;
    }
    assert(orig.take(n as int) =~= orig);
    (importable, skipped)
}

// ---------------------------------------------------------------------------
// References between bibitems
// ---------------------------------------------------------------------------

/// The keys an optional field cites, in order.
pub open spec fn opt_cite_seq(o: Option<String>) -> Seq<Seq<char>> {
    match o {
        Some(n) => cite_keys_spec(n@),
        None => Seq::empty(),
    }
}

/// An optional field as a list of at most one text.
pub open spec fn opt_seq(o: Option<String>) -> Seq<Seq<char>> {
    match o {
        Some(n) => seq![n@],
        None => Seq::empty(),
    }
}

/// A reference row as plain values.
pub open spec fn ref_view(r: BibitemRefInsertRow) -> (Seq<char>, Seq<char>, RefType) {
    (r.source_bibkey@, r.target_bibkey@, r.ref_type)
}

/// The references of one row: further references to the keys cited in its
/// title, then in its note; dependencies on the keys cited in its extra
/// note, then on its crossref.
pub open spec fn row_refs(row: ParsedBibRow) -> Seq<(Seq<char>, Seq<char>, RefType)> {
    let further = cite_keys_spec(row.title@) + opt_cite_seq(row.note);
    let depends = opt_cite_seq(row.extra_note) + opt_seq(row.crossref_bibkey);
    Seq::new(further.len(), |i: int| (row.bibkey@, further[i], RefType::FurtherRef))
        + Seq::new(depends.len(), |i: int| (row.bibkey@, depends[i], RefType::DependsOn))
}

/// The references of all rows, row by row.
pub open spec fn refs_spec(rows: Seq<ParsedBibRow>) -> Seq<(Seq<char>, Seq<char>, RefType)>
    decreases rows.len(),
{
    if rows.len() == 0 {
        Seq::empty()
    } else {
        refs_spec(rows.drop_last()) + row_refs(rows.last())
    }
}

/// The reference rows as plain values.
pub open spec fn ref_views(rs: Seq<BibitemRefInsertRow>) -> Seq<(Seq<char>, Seq<char>, RefType)> {
    Seq::new(rs.len(), |i: int| ref_view(rs[i]))
}

fn push_refs(out: &mut Vec<BibitemRefInsertRow>, source: &String, targets: &Vec<String>, ref_type: RefType)
    ensures
        ref_views(final(out)@) == ref_views(old(out)@) + Seq::new(targets.len() as nat, |i: int| (source@, targets@[i]@, ref_type)),
{
    let mut i: usize = 0;
    while i < targets.len()
        invariant
            i <= targets.len(),
            ref_views(out@) == ref_views(old(out)@) + Seq::new(i as nat, |k: int| (source@, targets@[k]@, ref_type)),
        decreases targets.len() - i,
    {
        let ghost before = ref_views(out@);
        let t = targets[i].clone();
        assert(t@ == targets@[i as int]@);
        out.push(BibitemRefInsertRow { source_bibkey: source.clone(), target_bibkey: t, ref_type });
        assert(ref_views(out@) =~= before.push((source@, targets@[i as int]@, ref_type)));
        assert(Seq::new((i + 1) as nat, |k: int| (source@, targets@[k]@, ref_type)) =~= Seq::new(i as nat, |k: int| (source@, targets@[k]@, ref_type)).push((source@, targets@[i as int]@, ref_type)));
        assert(ref_views(out@) =~= ref_views(old(out)@) + Seq::new((i + 1) as nat, |k: int| (source@, targets@[k]@, ref_type)));
        i += 1;
    }
}

/// The reference rows of all rows (see `row_refs`).
pub fn collect_ref_rows(parsed_rows: &[ParsedBibRow]) -> (r: Vec<BibitemRefInsertRow>)
    ensures
        ref_views(r@) == refs_spec(parsed_rows@),
{
    let mut rows: Vec<BibitemRefInsertRow> = Vec::new();
    let mut i: usize = 0;
    assert(parsed_rows@.take(0) =~= Seq::<ParsedBibRow>::empty());
    assert(ref_views(rows@) =~= refs_spec(parsed_rows@.take(0)));
    while i < parsed_rows.len()
        invariant
            i <= parsed_rows.len(),
            ref_views(rows@) == refs_spec(parsed_rows@.take(i as int)),
        decreases parsed_rows.len() - i,
    {
        let parsed = &parsed_rows[i];
        let ghost before = ref_views(rows@);
        let mut further = extract_cite_keys(parsed.title.as_str());
        match &parsed.note {
            Some(n) => {
                let mut note_keys = extract_cite_keys(n.as_str());
                further.append(&mut note_keys);
            },
            None => {},
        }
        let mut depends: Vec<String> = match &parsed.extra_note {
            Some(n) => extract_cite_keys(n.as_str()),
            None => Vec::new(),
        };
        match &parsed.crossref_bibkey {
            Some(cr) => depends.push(cr.clone()),
            None => {},
        }
        proof {
            assert(strs_of(further@) =~= cite_keys_spec(parsed.title@) + opt_cite_seq(parsed.note));
            assert(strs_of(depends@) =~= opt_cite_seq(parsed.extra_note) + opt_seq(parsed.crossref_bibkey));
        }
        push_refs(&mut rows, &parsed.bibkey, &further, RefType::FurtherRef);
        push_refs(&mut rows, &parsed.bibkey, &depends, RefType::DependsOn);
        proof {
            let nxt = parsed_rows@.take(i + 1);
            assert(nxt.drop_last() =~= parsed_rows@.take(i as int));
            assert(nxt.last() == *parsed);
            assert(ref_views(rows@) =~= before + row_refs(*parsed));
        }
        i += 1;
    }
    assert(parsed_rows@.take(parsed_rows.len() as int) =~= parsed_rows@);
    rows
}

/// A generated key is made of non-empty runs of alphanumeric characters
/// joined by `_`: separators never pile up and never stand at either end.
pub proof fn lemma_key_runs(s: Seq<char>)
    ensures
        key_of_lowered(s) == join(alnum_runs(s), "_"@),
        forall|i: int| 0 <= i < alnum_runs(s).len() ==> (#[trigger] alnum_runs(s)[i]).len() > 0,
        forall|i: int, j: int| 0 <= i < alnum_runs(s).len() && 0 <= j < alnum_runs(s)[i].len() ==> alnum(
            #[trigger] alnum_runs(s)[i][j],
        ),
    decreases s.len(),
{
    if s.len() > 0 {
        lemma_key_runs(s.drop_last());
        let r = alnum_runs(s.drop_last());
        let c = s.last();
        if alnum(c) {
            if s.len() >= 2 && alnum(s[s.len() - 2]) {
                lemma_runs_nonempty(s.drop_last());
                let t = alnum_runs(s);
                assert forall|i: int, j: int| 0 <= i < t.len() && 0 <= j < t[i].len() implies alnum(#[trigger] t[i][j]) by {
                    if i < r.len() - 1 {
                        assert(t[i] == r[i]);
                    } else {
                        assert(t[i] == r.last().push(c));
                        if j < r.last().len() {
                            assert(t[i][j] == r[r.len() - 1][j]);
                        }
                    }
                }
            }
        }
    }
}

/// Filtering rows loses none: each row is either importable, with every
/// reference resolved, or answered by exactly one error.
pub proof fn lemma_filter_partitions(rows: Seq<ParsedBibRow>, ctx: ResolutionCtx)
    ensures
        importable_spec(rows, ctx).len() + skipped_spec(rows, ctx).len() == rows.len(),
        forall|i: int| 0 <= i < importable_spec(rows, ctx).len() ==> missing_for_row(#[trigger] importable_spec(rows, ctx)[i], ctx).len() == 0,
        forall|i: int| 0 <= i < skipped_spec(rows, ctx).len() ==> (#[trigger] skipped_spec(rows, ctx)[i]).2.len() > 0,
    decreases rows.len(),
{
    if rows.len() > 0 {
        lemma_filter_partitions(rows.drop_last(), ctx);
        let a = importable_spec(rows.drop_last(), ctx);
        let b = skipped_spec(rows.drop_last(), ctx);
        let msgs = missing_for_row(rows.last(), ctx);
        if msgs.len() == 0 {
            assert forall|i: int| 0 <= i < importable_spec(rows, ctx).len() implies missing_for_row(#[trigger] importable_spec(rows, ctx)[i], ctx).len() == 0 by {
                if i < a.len() {
                    assert(importable_spec(rows, ctx)[i] == a[i]);
                }
            }
        } else {
            assert forall|i: int| 0 <= i < skipped_spec(rows, ctx).len() implies (#[trigger] skipped_spec(rows, ctx)[i]).2.len() > 0 by {
                if i < b.len() {
                    assert(skipped_spec(rows, ctx)[i] == b[i]);
                }
            }
        }
    }
}

// ---------------------------------------------------------------------------
// Steps of a full import
// ---------------------------------------------------------------------------

/// The bibitem body of a row with whether its bibkey exists already, or
/// the row's validation error.
pub open spec fn entity_outcome(row: ParsedBibRow, ctx: ResolutionCtx) -> Result<(bool, CreateBibItem), Seq<char>> {
    let dto = bibitem_dto_spec(row, ctx);
    match create_bibitem_check(dto) {
        Some(e) => Err(error_text(e)),
        None => Ok((ctx.existing_bibkeys@.contains(row.bibkey@), dto)),
    }
}

/// The bodies of the rows that validate, in order, each with whether it
/// replaces an existing bibitem.
pub open spec fn entities_spec(rows: Seq<ParsedBibRow>, ctx: ResolutionCtx) -> Seq<(bool, CreateBibItem)>
    decreases rows.len(),
{
    if rows.len() == 0 {
        Seq::empty()
    } else {
        match entity_outcome(rows.last(), ctx) {
            Ok(e) => entities_spec(rows.drop_last(), ctx).push(e),
            Err(_) => entities_spec(rows.drop_last(), ctx),
        }
    }
}

/// One `_validation` error per row that does not validate, with its line.
pub open spec fn build_errors_spec(rows: Seq<ParsedBibRow>, ctx: ResolutionCtx) -> Seq<(usize, Option<Seq<char>>, Seq<(Seq<char>, Seq<char>)>)>
    decreases rows.len(),
{
    if rows.len() == 0 {
        Seq::empty()
    } else {
        match entity_outcome(rows.last(), ctx) {
            Ok(_) => build_errors_spec(rows.drop_last(), ctx),
            Err(m) => build_errors_spec(rows.drop_last(), ctx).push(
                ((rows.len() + 1) as usize, Some(rows.last().bibkey@), seq![("_validation"@, m)]),
            ),
        }
    }
}

/// Builds and checks the bibitem body of every row; the bodies come with
/// whether their bibkey exists already (an update), the others as errors.
pub fn build_all_bibitem_entities(parsed_rows: &[ParsedBibRow], ctx: &ResolutionCtx) -> (r: (Vec<(bool, CreateBibItem)>, Vec<RowError>))
    requires
        parsed_rows.len() < usize::MAX,
    ensures
        r.0@ == entities_spec(parsed_rows@, *ctx),
        row_error_views(r.1@) == build_errors_spec(parsed_rows@, *ctx),
{
    let mut entities: Vec<(bool, CreateBibItem)> = Vec::new();
    let mut errors: Vec<RowError> = Vec::new();
    let mut idx: usize = 0;
    assert(parsed_rows@.take(0) =~= Seq::<ParsedBibRow>::empty());
    assert(row_error_views(errors@) =~= Seq::<(usize, Option<Seq<char>>, Seq<(Seq<char>, Seq<char>)>)>::empty());
    while idx < parsed_rows.len()
        invariant
            idx <= parsed_rows.len(),
            parsed_rows.len() < usize::MAX,
            entities@ == entities_spec(parsed_rows@.take(idx as int), *ctx),
            row_error_views(errors@) == build_errors_spec(parsed_rows@.take(idx as int), *ctx),
        decreases parsed_rows.len() - idx,
    {
        let row = &parsed_rows[idx];
        proof {
            let nxt = parsed_rows@.take(idx + 1);
            assert(nxt.drop_last() =~= parsed_rows@.take(idx as int));
            assert(nxt.last() == *row);
        }
        let ghost before = row_error_views(errors@);
        match build_bibitem_dto(row, ctx) {
            Err(e) => {
                let fe = FieldError { field: String::from_str("_build"), error: e };
                errors.push(RowError { row: idx + 2, bibkey: Some(row.bibkey.clone()), errors: vec![fe] });
            },
            Ok(dto) => match validate_create_bibitem(&dto) {
                Err(e) => {
                    let fe = FieldError { field: String::from_str("_validation"), error: e.to_message() };
                    let mut fes: Vec<FieldError> = Vec::new();
                    fes.push(fe);
                    let re = RowError { row: idx + 2, bibkey: Some(row.bibkey.clone()), errors: fes };
                    let ghost rv = row_error_view(re);
                    errors.push(re);
                    assert(rv.2 =~= seq![("_validation"@, error_text(e@))]);
                    assert(row_error_views(errors@) =~= before.push(rv));
                },
                Ok(()) => {
                    let was_update = ctx.existing_bibkeys.contains(&chars_of(row.bibkey.as_str()));
                    entities.push((was_update, dto));
                    assert(row_error_views(errors@) =~= before);
                },
            },
        }
        idx += 1;
    }
    assert(parsed_rows@.take(parsed_rows.len() as int) =~= parsed_rows@);
    (entities, errors)
}

/// How many bodies replace an existing bibitem, and how many are new.
pub open spec fn update_count(es: Seq<(bool, CreateBibItem)>) -> nat
    decreases es.len(),
{
    if es.len() == 0 {
        0
    } else {
        update_count(es.drop_last()) + (if es.last().0 {
            1nat
        } else {
            0nat
        })
    }
}

/// The number of updates and of inserts among the bodies.
pub fn count_updates(entities: &Vec<(bool, CreateBibItem)>) -> (r: (usize, usize))
    ensures
        r.0 == update_count(entities@),
        r.0 + r.1 == entities.len(),
{
    let mut updated: usize = 0;
    let mut imported: usize = 0;
    let mut i: usize = 0;
    assert(entities@.take(0) =~= Seq::<(bool, CreateBibItem)>::empty());
    while i < entities.len()
        invariant
            i <= entities.len(),
            updated == update_count(entities@.take(i as int)),
            updated + imported == i,
        decreases entities.len() - i,
    {
        assert(entities@.take(i + 1).drop_last() =~= entities@.take(i as int));
        if entities[i].0 {
            updated += 1;
        } else {
            imported += 1;
        }
        i += 1;
    }
    assert(entities@.take(entities.len() as int) =~= entities@);
    (updated, imported)
}

/// The bibkeys of the bodies that replace an existing bibitem, in order.
pub open spec fn update_bibkeys_spec(es: Seq<(bool, CreateBibItem)>) -> Seq<Seq<char>>
    decreases es.len(),
{
    if es.len() == 0 {
        Seq::empty()
    } else if es.last().0 {
        update_bibkeys_spec(es.drop_last()).push(es.last().1.bibkey@)
    } else {
        update_bibkeys_spec(es.drop_last())
    }
}

/// The bibkeys to delete before the bodies are inserted again.
pub fn update_bibkeys(entities: &Vec<(bool, CreateBibItem)>) -> (r: Vec<String>)
    ensures
        strs_of(r@) == update_bibkeys_spec(entities@),
{
    let mut out: Vec<String> = Vec::new();
    let mut i: usize = 0;
    assert(entities@.take(0) =~= Seq::<(bool, CreateBibItem)>::empty());
    assert(strs_of(out@) =~= Seq::<Seq<char>>::empty());
    while i < entities.len()
        invariant
            i <= entities.len(),
            strs_of(out@) == update_bibkeys_spec(entities@.take(i as int)),
        decreases entities.len() - i,
    {
        assert(entities@.take(i + 1).drop_last() =~= entities@.take(i as int));
        assert(entities@.take(i + 1).last() == entities@[i as int]);
        if entities[i].0 {
            let ghost before = strs_of(out@);
            let b = entities[i].1.bibkey.clone();
            assert(b@ == entities@[i as int].1.bibkey@);
            out.push(b);
            assert(strs_of(out@) =~= before.push(entities@[i as int].1.bibkey@));
        }
        i += 1;
    }
    assert(entities@.take(entities.len() as int) =~= entities@);
    out
}

/// The stored bibkeys that the file lacks, sorted (deleted when stale
/// bibitems are to go).
pub fn stale_bibkeys(existing: &StrSet, rows: &[ParsedBibRow]) -> (r: Vec<String>)
    ensures
        is_sorted_missing(strs_of(r@), existing@, |x: Seq<char>| file_bibkeys_spec(rows@).contains(x)),
{
    let mut file_keys = StrSet::new();
    let mut i: usize = 0;
    assert(rows@.take(0) =~= Seq::<ParsedBibRow>::empty());
    assert(file_keys@ =~= file_bibkeys_spec(rows@.take(0)));
    while i < rows.len()
        invariant
            i <= rows.len(),
            file_keys@ == file_bibkeys_spec(rows@.take(i as int)),
        decreases rows.len() - i,
    {
        assert(rows@.take(i + 1).drop_last() =~= rows@.take(i as int));
        assert(rows@.take(i + 1).last() == rows@[i as int]);
        file_keys.insert(rows[i].bibkey.as_str());
        i += 1;
    }
    assert(rows@.take(rows.len() as int) =~= rows@);
    find_missing_bibkeys(existing, &file_keys)
}

/// The six note fields of a row, for an upsert.
#[derive(Debug)]
pub struct BibitemNotesData<'a> {
    pub note_perso: Option<&'a str>,
    pub note_stock: Option<&'a str>,
    pub note_missing: Option<&'a str>,
    pub change_request: Option<&'a str>,
    pub dltc_copyediting_note: Option<&'a str>,
    pub todo_general: Option<&'a str>,
}

/// Whether a row has any note field.
pub fn has_notes(row: &ParsedBibRow) -> (r: bool)
    ensures
        r == (row.note_perso is Some || row.note_stock is Some || row.note_missing is Some
            || row.change_request is Some || row.dltc_copyediting_note is Some
            || row.todo_general is Some),
{
    row.note_perso.is_some() || row.note_stock.is_some() || row.note_missing.is_some()
        || row.change_request.is_some() || row.dltc_copyediting_note.is_some()
        || row.todo_general.is_some()
}

/// The text of an optional string, borrowed.
pub fn opt_ref(o: &Option<String>) -> (r: Option<&str>)
    ensures
        crate::render::components::opt_seq(r) == opt_str_view(*o),
{
    match o {
        Some(s) => Some(s.as_str()),
        None => None,
    }
}

/// The note fields of a row.
pub fn notes_data(row: &ParsedBibRow) -> (r: BibitemNotesData<'_>)
    ensures
        crate::render::components::opt_seq(r.note_perso) == opt_str_view(row.note_perso),
        crate::render::components::opt_seq(r.note_stock) == opt_str_view(row.note_stock),
        crate::render::components::opt_seq(r.note_missing) == opt_str_view(row.note_missing),
        crate::render::components::opt_seq(r.change_request) == opt_str_view(row.change_request),
        crate::render::components::opt_seq(r.dltc_copyediting_note) == opt_str_view(row.dltc_copyediting_note),
        crate::render::components::opt_seq(r.todo_general) == opt_str_view(row.todo_general),
{
    BibitemNotesData {
        note_perso: opt_ref(&row.note_perso),
        note_stock: opt_ref(&row.note_stock),
        note_missing: opt_ref(&row.note_missing),
        change_request: opt_ref(&row.change_request),
        dltc_copyediting_note: opt_ref(&row.dltc_copyediting_note),
        todo_general: opt_ref(&row.todo_general),
    }
}

/// The report of a full import: rows skipped for unresolved references
/// first, then rows that failed to build.
pub fn full_import_report(
    imported: usize,
    updated: usize,
    deleted: usize,
    skipped_errors: Vec<RowError>,
    build_errors: Vec<RowError>,
) -> (r: FullImportReport)
    ensures
        r.imported == imported,
        r.updated == updated,
        r.deleted == deleted,
        r.skipped == skipped_errors.len(),
        r.failed == build_errors.len(),
        r.errors@ == skipped_errors@ + build_errors@,
{
    let skipped = skipped_errors.len();
    let failed = build_errors.len();
    let mut errors = skipped_errors;
    let mut rest = build_errors;
    errors.append(&mut rest);
    FullImportReport { imported, updated, deleted, failed, skipped, errors }
}

/// Names of entities to create, each with the key generated for it.
pub struct EntityCreationPlan {
    pub institutions: Vec<(String, String)>,
    pub schools: Vec<(String, String)>,
    pub series: Vec<(String, String)>,
    /// Keyword names with their level.
    pub keywords: Vec<(String, i16)>,
}

/// The names of `names` that `m` lacks, in increasing order, each with its
/// generated key.
fn keyed_missing(names: &StrSet, m: &StrMap<String>) -> (r: Vec<(String, String)>)
    ensures
        forall|i: int| 0 <= i < r.len() ==> (#[trigger] r@[i]).0@ == key_of_name(r@[i].1@),
        is_sorted_missing(Seq::new(r.len() as nat, |i: int| r@[i].1@), names@, |x: Seq<char>| m@.contains_key(x)),
{
    let missing = find_missing_names(names, m);
    let mut out: Vec<(String, String)> = Vec::new();
    let mut i: usize = 0;
    while i < missing.len()
        invariant
            i <= missing.len(),
            out.len() == i,
            forall|k: int| 0 <= k < i ==> (#[trigger] out@[k]).1@ == missing@[k]@ && out@[k].0@ == key_of_name(missing@[k]@),
        decreases missing.len() - i,
    {
        let name = missing[i].clone();
        let key = generate_key(name.as_str());
        out.push((key, name));
        i += 1;
    }
    assert(Seq::new(out.len() as nat, |i: int| out@[i].1@) =~= strs_of(missing@));
    out
}

/// The keyword names of `names` that have no keyword at `level`, sorted.
fn missing_keywords_at(names: &StrSet, level: i16, m: &KeywordMap<String>, out: &mut Vec<(String, i16)>)
    ensures
        final(out)@.len() >= old(out)@.len(),
        forall|i: int| 0 <= i < old(out)@.len() ==> final(out)@[i] == old(out)@[i],
        forall|i: int| old(out)@.len() <= i < final(out)@.len() ==> (#[trigger] final(out)@[i]).1 == level,
        is_sorted_missing(
            Seq::new((final(out)@.len() - old(out)@.len()) as nat, |i: int| final(out)@[old(out)@.len() + i].0@),
            names@,
            |x: Seq<char>| m@.contains_key((x, level)),
        ),
{
    let missing = find_missing_keywords(names, level, m);
    let start = out.len();
    let mut i: usize = 0;
    while i < missing.len()
        invariant
            i <= missing.len(),
            start == old(out)@.len(),
            out.len() == start + i,
            forall|k: int| 0 <= k < start ==> out@[k] == old(out)@[k],
            forall|k: int| 0 <= k < i ==> (#[trigger] out@[start + k]).0@ == missing@[k]@ && out@[start + k].1 == level,
        decreases missing.len() - i,
    {
        out.push((missing[i].clone(), level));
        i += 1;
    }
    assert(Seq::new((out@.len() - start) as nat, |i: int| out@[start + i].0@) =~= strs_of(missing@));
    assert forall|i: int| start <= i < out@.len() implies (#[trigger] out@[i]).1 == level by {
        assert(out@[start + (i - start)].1 == level);
    }
}

/// The names of the entries `a..b` of a keyword list.
pub open spec fn keyword_names_in(kws: Seq<(String, i16)>, a: int, b: int) -> Seq<Seq<char>> {
    Seq::new((b - a) as nat, |i: int| kws[a + i].0@)
}

/// The keyword names of `names` that `m` has no keyword for at `level`, in
/// increasing order.
pub open spec fn is_missing_at(r: Seq<Seq<char>>, names: Set<Seq<char>>, level: i16, m: Map<(Seq<char>, i16), String>) -> bool {
    is_sorted_missing(r, names, |x: Seq<char>| m.contains_key((x, level)))
}

/// A keyword list made of three blocks in order, at levels 1, 2 and 3: each
/// block holds, in increasing order, the names of its level's set that `m`
/// has no keyword for at that level.
pub open spec fn keywords_planned(
    kws: Seq<(String, i16)>,
    l1: Set<Seq<char>>,
    l2: Set<Seq<char>>,
    l3: Set<Seq<char>>,
    m: Map<(Seq<char>, i16), String>,
) -> bool {
    exists|b1: int, b2: int|
        #![trigger keyword_names_in(kws, b1, b2)]
        {
            &&& 0 <= b1 <= b2 <= kws.len()
            &&& forall|i: int| 0 <= i < b1 ==> (#[trigger] kws[i]).1 == 1
            &&& forall|i: int| b1 <= i < b2 ==> (#[trigger] kws[i]).1 == 2
            &&& forall|i: int| b2 <= i < kws.len() ==> (#[trigger] kws[i]).1 == 3
            &&& is_missing_at(keyword_names_in(kws, 0, b1), l1, 1, m)
            &&& is_missing_at(keyword_names_in(kws, b1, b2), l2, 2, m)
            &&& is_missing_at(keyword_names_in(kws, b2, kws.len() as int), l3, 3, m)
        }
}

/// What an entity import must create: the institutions, schools and series
/// the rows name that have no entry, with generated keys, and the keywords
/// missing at each level (level 1 first), each list in increasing order of
/// names.
pub fn plan_entity_creation(collected: &CollectedNames, maps: &LookupMaps) -> (r: EntityCreationPlan)
    ensures
        forall|i: int| 0 <= i < r.institutions.len() ==> (#[trigger] r.institutions@[i]).0@ == key_of_name(r.institutions@[i].1@),
        is_sorted_missing(Seq::new(r.institutions.len() as nat, |i: int| r.institutions@[i].1@), collected.institution_names@, |x: Seq<char>| maps.institutions@.contains_key(x)),
        forall|i: int| 0 <= i < r.schools.len() ==> (#[trigger] r.schools@[i]).0@ == key_of_name(r.schools@[i].1@),
        is_sorted_missing(Seq::new(r.schools.len() as nat, |i: int| r.schools@[i].1@), collected.school_names@, |x: Seq<char>| maps.schools@.contains_key(x)),
        forall|i: int| 0 <= i < r.series.len() ==> (#[trigger] r.series@[i]).0@ == key_of_name(r.series@[i].1@),
        is_sorted_missing(Seq::new(r.series.len() as nat, |i: int| r.series@[i].1@), collected.series_names@, |x: Seq<char>| maps.series@.contains_key(x)),
        keywords_planned(r.keywords@, collected.keywords_l1@, collected.keywords_l2@, collected.keywords_l3@, maps.keywords@),
{
    let institutions = keyed_missing(&collected.institution_names, &maps.institutions);
    let schools = keyed_missing(&collected.school_names, &maps.schools);
    let series = keyed_missing(&collected.series_names, &maps.series);
    let mut keywords: Vec<(String, i16)> = Vec::new();
    missing_keywords_at(&collected.keywords_l1, 1, &maps.keywords, &mut keywords);
    let ghost k1 = keywords@;
    missing_keywords_at(&collected.keywords_l2, 2, &maps.keywords, &mut keywords);
    let ghost k2 = keywords@;
    missing_keywords_at(&collected.keywords_l3, 3, &maps.keywords, &mut keywords);
    proof {
        let kws = keywords@;
        let b1 = k1.len() as int;
        let b2 = k2.len() as int;
        assert forall|i: int| 0 <= i < b1 implies kws[i] == k1[i] by {
            assert(kws[i] == k2[i]);
        }
        assert(keyword_names_in(kws, 0, b1) =~= Seq::new((k1.len() - 0) as nat, |i: int| k1[0 + i].0@));
        assert(keyword_names_in(kws, b1, b2) =~= Seq::new((k2.len() - k1.len()) as nat, |i: int| k2[k1.len() + i].0@));
        assert(keyword_names_in(kws, b2, kws.len() as int) =~= Seq::new((kws.len() - k2.len()) as nat, |i: int| kws[k2.len() + i].0@));
        assert forall|i: int| 0 <= i < b1 implies (#[trigger] kws[i]).1 == 1 by {
            assert(kws[i] == k1[i]);
        }
        assert forall|i: int| b1 <= i < b2 implies (#[trigger] kws[i]).1 == 2 by {
            assert(kws[i] == k2[i]);
        }
        assert forall|i: int| b2 <= i < kws.len() implies (#[trigger] kws[i]).1 == 3 by {}
        let m = maps.keywords@;
        assert(is_missing_at(keyword_names_in(kws, 0, b1), collected.keywords_l1@, 1, m));
        assert(is_missing_at(keyword_names_in(kws, b1, b2), collected.keywords_l2@, 2, m));
        assert(is_missing_at(keyword_names_in(kws, b2, kws.len() as int), collected.keywords_l3@, 3, m));
        assert(keywords_planned(kws, collected.keywords_l1@, collected.keywords_l2@, collected.keywords_l3@, m));
    }
    EntityCreationPlan { institutions, schools, series, keywords }
}

/// The name under which a keyword that could not be created is reported:
/// `NAME (level N)`.
pub open spec fn keyword_error_name(name: Seq<char>, level: i16) -> Seq<char> {
    name + " (level "@ + int_str(level as int) + ")"@
}

/// The reported name of a keyword that could not be created.
pub fn keyword_error_label(name: &str, level: i16) -> (r: String)
    ensures
        r@ == keyword_error_name(name@, level),
{
    let mut v = lit(name);
    extend_str(&mut v, " (level ");
    extend(&mut v, &int_chars(level as i64));
    extend_str(&mut v, ")");
    string_of(&v)
}


// ---------------------------------------------------------------------------
// Export lookups
// ---------------------------------------------------------------------------

/// The tables of named entities that are looked up by name.
#[derive(Debug, Clone, Copy, PartialEq, Eq)]
pub enum NamedEntity {
    Journals,
    Publishers,
    Institutions,
    Schools,
    Series,
}

/// Lookup data resolved ahead of building export records: names by key,
/// keyword name and level by key, bibkeys by id, and the links and notes of
/// each bibitem by bibkey.
pub struct ExportContext {
    pub author_names: StrMap<String>,
    pub journal_names: StrMap<String>,
    pub publisher_names: StrMap<String>,
    pub institution_names: StrMap<String>,
    pub school_names: StrMap<String>,
    pub series_names: StrMap<String>,
    pub keyword_names: StrMap<(String, i16)>,
    pub bibkey_by_id: std::collections::HashMap<i64, String>,
    pub authors_by_bib: StrMap<Vec<crate::domain::BibitemAuthorsRow>>,
    pub keywords_by_bib: StrMap<Vec<crate::domain::BibitemKeywordsRow>>,
    pub notes_by_bib: StrMap<crate::domain::BibitemNotes>,
}

/// The bibkey of each id among `items`; of two items with one id, the later
/// one's bibkey is kept.
pub open spec fn bibkeys_by_id(items: Seq<crate::domain::BibItem>) -> Map<i64, Seq<char>>
    decreases items.len(),
{
    if items.len() == 0 {
        Map::empty()
    } else {
        bibkeys_by_id(items.drop_last()).insert(items.last().id, items.last().bibkey@)
    }
}

/// The bibkey of every bibitem, by id.
pub fn bibkey_by_id(bibitems: &Vec<crate::domain::BibItem>) -> (r: std::collections::HashMap<i64, String>)
    ensures
        r@.map_values(|s: String| s@) == bibkeys_by_id(bibitems@),
{
    let mut r: std::collections::HashMap<i64, String> = std::collections::HashMap::new();
    let mut i: usize = 0;
    while i < bibitems.len()
        invariant
            i <= bibitems.len(),
            r@.map_values(|s: String| s@) == bibkeys_by_id(bibitems@.take(i as int)),
        decreases bibitems.len() - i,
    {
        let ghost before = r@;
        r.insert(bibitems[i].id, bibitems[i].bibkey.clone());
        assert(bibitems@.take(i + 1).drop_last() =~= bibitems@.take(i as int));
        assert(r@.map_values(|s: String| s@) =~= before.map_values(|s: String| s@).insert(
            bibitems@[i as int].id,
            bibitems@[i as int].bibkey@,
        ));
        i += 1;
    }
    assert(bibitems@.take(bibitems.len() as int) =~= bibitems@);
    r
}

} // verus!

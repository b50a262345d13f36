//! Entity import from tabular files: the reply types, name variant kinds and
//! reading fields of a record.
use vstd::prelude::*;
use crate::numeric::{int_chars, int_str, parse_i16, parse_i16_chars, parse_i64, parse_i64_chars};
use crate::text::{chars_eq, chars_of, lit, seqs_of, split, split_chars, string_of, trim, trim_chars};
use crate::validation::{error_text, ValidationError, ValidationErrorView};

verus! {

// ---------------------------------------------------------------------------
// Replies
// ---------------------------------------------------------------------------

/// Counts of an import and the errors of its rows.
#[derive(Debug)]
pub struct ImportResponse {
    pub imported: usize,
    pub updated: usize,
    pub failed: usize,
    pub errors: Vec<ImportRowError>,
}

/// The error of one row, with the row number and what identifies the row.
#[derive(Debug)]
pub struct ImportRowError {
    pub row: usize,
    pub identifier: String,
    pub error: String,
}

/// Referenced ids that do not exist, by kind.
#[derive(Debug)]
pub struct MissingReferencesError {
    pub error: &'static str,
    pub message: &'static str,
    pub missing_author_ids: Vec<i64>,
    pub missing_journal_ids: Vec<i64>,
    pub missing_publisher_ids: Vec<i64>,
    pub missing_institution_ids: Vec<i64>,
    pub missing_school_ids: Vec<i64>,
    pub missing_series_ids: Vec<i64>,
    pub missing_keyword_ids: Vec<i64>,
    pub missing_crossref_ids: Vec<i64>,
}

impl MissingReferencesError {
    /// Whether any referenced id is missing.
    pub fn has_missing(&self) -> (r: bool)
        ensures
            r == (self.missing_author_ids.len() > 0 || self.missing_journal_ids.len() > 0
                || self.missing_publisher_ids.len() > 0 || self.missing_institution_ids.len() > 0
                || self.missing_school_ids.len() > 0 || self.missing_series_ids.len() > 0
                || self.missing_keyword_ids.len() > 0 || self.missing_crossref_ids.len() > 0),
    {
        !self.missing_author_ids.is_empty() || !self.missing_journal_ids.is_empty()
            || !self.missing_publisher_ids.is_empty() || !self.missing_institution_ids.is_empty()
            || !self.missing_school_ids.is_empty() || !self.missing_series_ids.is_empty()
            || !self.missing_keyword_ids.is_empty() || !self.missing_crossref_ids.is_empty()
    }
}

/// The outcome of a bibitem import.
pub enum BibitemImportResult {
    /// The import ran (rows may have failed).
    Success(ImportResponse),
    /// The check of referenced ids failed; nothing was imported.
    MissingReferences(MissingReferencesError),
}

// ---------------------------------------------------------------------------
// Rows of an entity import
// ---------------------------------------------------------------------------

/// What to do with one row of an entity import.
#[derive(Debug)]
pub enum RowPlan {
    /// Update the existing entity with this id.
    Update(i64),
    /// Insert with the id the file gives.
    InsertWithId(i64),
    /// Insert and let the database assign an id.
    Insert,
    /// Refuse the row, with this message.
    Refuse(String),
}

/// The plain value of a [`RowPlan`].
pub enum RowPlanView {
    Update(i64),
    InsertWithId(i64),
    Insert,
    Refuse(Seq<char>),
}

impl View for RowPlan {
    type V = RowPlanView;

    open spec fn view(&self) -> RowPlanView {
        match self {
            RowPlan::Update(id) => RowPlanView::Update(*id),
            RowPlan::InsertWithId(id) => RowPlanView::InsertWithId(*id),
            RowPlan::Insert => RowPlanView::Insert,
            RowPlan::Refuse(m) => RowPlanView::Refuse(m@),
        }
    }
}

/// `ID <id> exists but has <what> '<existing>', input has '<input>'`.
pub open spec fn key_mismatch_msg(id: int, what: Seq<char>, existing: Seq<char>, input: Seq<char>) -> Seq<char> {
    "ID "@ + int_str(id) + " exists but has "@ + what + " '"@ + existing + "', input has '"@ + input + "'"@
}

/// The message for a row without an id when ids are not assigned.
pub open spec fn missing_id_msg() -> Seq<char> {
    "Missing id (use ?auto_assign_ids=true to auto-assign)"@
}

/// The plan of a row: with an id that exists, update it when the keys agree
/// and refuse it otherwise; with an id that does not exist, insert with that
/// id; without an id, insert when ids are assigned and refuse otherwise.
pub open spec fn plan_spec(source_id: Option<i64>, what: Seq<char>, key: Seq<char>, existing_key: Option<Seq<char>>, auto_assign_ids: bool) -> RowPlanView {
    match source_id {
        Some(id) => match existing_key {
            Some(ek) => if ek == key {
                RowPlanView::Update(id)
            } else {
                RowPlanView::Refuse(key_mismatch_msg(id as int, what, ek, key))
            },
            None => RowPlanView::InsertWithId(id),
        },
        None => if auto_assign_ids {
            RowPlanView::Insert
        } else {
            RowPlanView::Refuse(missing_id_msg())
        },
    }
}

/// Decides what to do with a row of an entity import (see `plan_spec`);
/// `existing_key` is the key (`what`) of the stored entity with the row's
/// id, if there is one.
pub fn plan_entity_row(source_id: Option<i64>, what: &str, key: &str, existing_key: Option<&str>, auto_assign_ids: bool) -> (r: RowPlan)
    ensures
        r@ == plan_spec(source_id, what@, key@, crate::render::components::opt_seq(existing_key), auto_assign_ids),
{
    match source_id {
        Some(id) => match existing_key {
            Some(ek) => {
                if chars_eq(&chars_of(ek), &chars_of(key)) {
                    RowPlan::Update(id)
                } else {
                    let mut m = lit("ID ");
                    crate::text::extend(&mut m, &int_chars(id));
                    crate::text::extend_str(&mut m, " exists but has ");
                    crate::text::extend_str(&mut m, what);
                    crate::text::extend_str(&mut m, " '");
                    crate::text::extend_str(&mut m, ek);
                    crate::text::extend_str(&mut m, "', input has '");
                    crate::text::extend_str(&mut m, key);
                    crate::text::extend_str(&mut m, "'");
                    RowPlan::Refuse(string_of(&m))
                }
            },
            None => RowPlan::InsertWithId(id),
        },
        None => if auto_assign_ids {
            RowPlan::Insert
        } else {
            RowPlan::Refuse(String::from_str("Missing id (use ?auto_assign_ids=true to auto-assign)"))
        },
    }
}

/// The reply of an import: its counts, and as many failures as errors.
pub fn import_response(imported: usize, updated: usize, errors: Vec<ImportRowError>) -> (r: ImportResponse)
    ensures
        r.imported == imported,
        r.updated == updated,
        r.failed == errors.len(),
        r.errors@ == errors@,
{
    let failed = errors.len();
    ImportResponse { imported, updated, failed, errors }
}

/// The reply of a bibitem import before anything is written: the parse
/// errors when there are any (nothing is imported then), an empty reply
/// when no row is left, and none when the import goes on.
pub fn early_bibitem_response(parse_errors: Vec<ImportRowError>, valid_rows: usize) -> (r: Option<ImportResponse>)
    ensures
        parse_errors.len() > 0 ==> (r matches Some(resp) && resp.imported == 0 && resp.updated == 0
            && resp.failed == parse_errors.len() && resp.errors@ == parse_errors@),
        parse_errors.len() == 0 && valid_rows == 0 ==> (r matches Some(resp) && resp.imported == 0
            && resp.updated == 0 && resp.failed == 0 && resp.errors@.len() == 0),
        parse_errors.len() == 0 && valid_rows > 0 ==> r is None,
{
    if parse_errors.len() > 0 {
        Some(import_response(0, 0, parse_errors))
    } else if valid_rows == 0 {
        Some(import_response(0, 0, Vec::new()))
    } else {
        None
    }
}

/// The message of a failed write: marked as a duplicate key when the
/// database message says so (`duplicate key`, or the code `23505`).
pub open spec fn insert_error_text(msg: Seq<char>) -> Seq<char> {
    if crate::text::contains_seq(msg, "duplicate key"@) || crate::text::contains_seq(msg, "23505"@) {
        "Duplicate key: "@ + msg
    } else {
        msg
    }
}

/// The message shown for a failed write, from the database's own message.
pub fn format_insert_error(msg: &str) -> (r: String)
    ensures
        r@ == insert_error_text(msg@),
{
    let m = chars_of(msg);
    if crate::text::contains_chars(&m, &lit("duplicate key")) || crate::text::contains_chars(&m, &lit("23505")) {
        let mut out = lit("Duplicate key: ");
        crate::text::extend(&mut out, &m);
        string_of(&out)
    } else {
        string_of(&m)
    }
}

/// The running counts and errors of an entity import, row by row.
///
/// For each row the caller plans it (`plan_entity_row`), checks the data it
/// would write, and hands both to `after_check`; when that asks for a write,
/// the caller performs it and hands the result to `after_store`.
#[derive(Debug)]
pub struct ImportTally {
    pub imported: usize,
    pub updated: usize,
    pub errors: Vec<ImportRowError>,
}

/// The view of a row error: row number, identifier, message.
pub open spec fn import_error_view(e: ImportRowError) -> (usize, Seq<char>, Seq<char>) {
    (e.row, e.identifier@, e.error@)
}

/// Rows accounted for so far: written, updated, or failed.
pub open spec fn tally_total(t: ImportTally) -> int {
    t.imported + t.updated + t.errors@.len()
}

impl ImportTally {
    /// A tally with nothing written yet and the errors found while reading.
    pub fn new(errors: Vec<ImportRowError>) -> (r: Self)
        ensures
            r.imported == 0,
            r.updated == 0,
            r.errors@ == errors@,
    {
        ImportTally { imported: 0, updated: 0, errors }
    }

    /// Takes a row's plan and the check of its data. A refused row or data
    /// that fails its check is recorded as an error of the row and nothing
    /// is to be written (`None`); otherwise the plan to carry out is
    /// returned and the tally is unchanged.
    pub fn after_check(&mut self, row: usize, identifier: &str, plan: RowPlan, check: Result<(), ValidationError>) -> (r: Option<RowPlan>)
        ensures
            final(self).imported == old(self).imported,
            final(self).updated == old(self).updated,
            tally_total(*final(self)) == tally_total(*old(self)) + (if r is None { 1int } else { 0int }),
            match plan@ {
                RowPlanView::Refuse(m) => r is None && final(self).errors@.len() == old(self).errors@.len() + 1
                    && final(self).errors@.drop_last() == old(self).errors@
                    && import_error_view(final(self).errors@.last()) == (row, identifier@, m),
                _ => match check {
                    Err(e) => r is None && final(self).errors@.len() == old(self).errors@.len() + 1
                        && final(self).errors@.drop_last() == old(self).errors@
                        && import_error_view(final(self).errors@.last()) == (row, identifier@, error_text(e@)),
                    Ok(_) => r matches Some(p) && p@ == plan@ && final(self).errors@ == old(self).errors@,
                },
            },
    {
        match plan {
            RowPlan::Refuse(m) => {
                self.errors.push(ImportRowError { row, identifier: String::from_str(identifier), error: m });
                None
            },
            _ => match check {
                Err(e) => {
                    self.errors.push(
                        ImportRowError { row, identifier: String::from_str(identifier), error: e.to_message() },
                    );
                    None
                },
                Ok(_) => Some(plan),
            },
        }
    }

    /// Takes the result of the write a plan asked for: a success counts the
    /// row as updated (for an update) or imported; a failure is recorded as
    /// an error of the row with `format_insert_error` of its message.
    pub fn after_store(&mut self, row: usize, identifier: &str, plan: &RowPlan, result: Result<(), String>)
        requires
            !(plan is Refuse),
            old(self).imported < usize::MAX,
            old(self).updated < usize::MAX,
        ensures
            tally_total(*final(self)) == tally_total(*old(self)) + 1,
            match result {
                Ok(_) => final(self).errors@ == old(self).errors@ && if plan is Update {
                    final(self).updated == old(self).updated + 1 && final(self).imported == old(self).imported
                } else {
                    final(self).imported == old(self).imported + 1 && final(self).updated == old(self).updated
                },
                Err(msg) => final(self).imported == old(self).imported && final(self).updated == old(self).updated
                    && final(self).errors@.len() == old(self).errors@.len() + 1
                    && final(self).errors@.drop_last() == old(self).errors@
                    && import_error_view(final(self).errors@.last()) == (row, identifier@, insert_error_text(msg@)),
            },
    {
        match result {
            Ok(_) => {
                if let RowPlan::Update(_) = plan {
                    self.updated = self.updated + 1;
                } else {
                    self.imported = self.imported + 1;
                }
            },
            Err(msg) => {
                let error = format_insert_error(msg.as_str());
                self.errors.push(ImportRowError { row, identifier: String::from_str(identifier), error });
            },
        }
    }

    /// The reply of the import: its counts, and as many failures as errors.
    pub fn finish(self) -> (r: ImportResponse)
        ensures
            r.imported == self.imported,
            r.updated == self.updated,
            r.failed == self.errors.len(),
            r.errors@ == self.errors@,
    {
        import_response(self.imported, self.updated, self.errors)
    }
}

// ---------------------------------------------------------------------------
// Name variants
// ---------------------------------------------------------------------------

/// The kind of an author name variant.
#[derive(Debug, Clone, PartialEq, Eq, Structural, Hash)]
pub enum NameVariantType {
    Latex,
    Unicode,
}

impl NameVariantType {
    /// `latex` or `unicode`; anything else is no kind.
    pub fn parse(s: &str) -> (r: Option<Self>)
        ensures
            r == (if s@ == "latex"@ {
                Some(NameVariantType::Latex)
            } else if s@ == "unicode"@ {
                Some(NameVariantType::Unicode)
            } else {
                None
            }),
    {
        let c = chars_of(s);
        if chars_eq(&c, &lit("latex")) {
            Some(NameVariantType::Latex)
        } else if chars_eq(&c, &lit("unicode")) {
            Some(NameVariantType::Unicode)
        } else {
            None
        }
    }

    /// The author column that holds variants of this kind.
    pub fn column_name(&self) -> (r: &'static str)
        ensures
            r@ == (match self {
                NameVariantType::Latex => "name_variants_latex"@,
                NameVariantType::Unicode => "name_variants_unicode"@,
            }),
    {
        match self {
            NameVariantType::Latex => "name_variants_latex",
            NameVariantType::Unicode => "name_variants_unicode",
        }
    }
}

// ---------------------------------------------------------------------------
// Importing name variants
// ---------------------------------------------------------------------------

/// The variants of a kind an author already lists.
pub open spec fn listed_variants(a: crate::domain::Author, t: NameVariantType) -> Seq<Seq<char>> {
    match (match t {
        NameVariantType::Latex => a.name_variants_latex,
        NameVariantType::Unicode => a.name_variants_unicode,
    }) {
        Some(v) => crate::text::strs_of(v@),
        None => Seq::empty(),
    }
}

/// `Author with id <id> not found`.
pub open spec fn author_not_found_msg(id: int) -> Seq<char> {
    "Author with id "@ + int_str(id) + " not found"@
}

/// `Failed to update author <id>: <detail>`.
pub open spec fn author_update_failed_msg(id: int, detail: Seq<char>) -> Seq<char> {
    "Failed to update author "@ + int_str(id) + ": "@ + detail
}

/// Whether `list` holds the text `t`.
pub fn lists_text(list: &Vec<String>, t: &str) -> (r: bool)
    ensures
        r == crate::text::strs_of(list@).contains(t@),
{
    let v = chars_of(t);
    let ghost ls = crate::text::strs_of(list@);
    let mut i: usize = 0;
    while i < list.len()
        invariant
            i <= list.len(),
            ls == crate::text::strs_of(list@),
            v@ == t@,
            forall|j: int| 0 <= j < i ==> ls[j] != t@,
        decreases list.len() - i,
    {
        assert(ls[i as int] == list@[i as int]@);
        if chars_eq(&chars_of(list[i].as_str()), &v) {
            assert(ls.contains(t@));
            return true;
        }
        i += 1;
    }
    assert(!ls.contains(t@));
    false
}

/// The running state of a name variant import: the variants met so far and
/// the tally.
///
/// For each row the caller asks `first_sighting`; for a new variant it looks
/// the author up and hands the result to `after_author_lookup`; when that
/// asks for it, the caller appends the variant and hands the result to
/// `after_variant_append`.
pub struct VariantImport {
    pub seen: Vec<(i64, NameVariantType, Vec<char>)>,
    pub tally: ImportTally,
}

/// The view of a variant met: author id, kind, text.
pub open spec fn seen_view(e: (i64, NameVariantType, Vec<char>)) -> (i64, NameVariantType, Seq<char>) {
    (e.0, e.1, e.2@)
}

impl VariantImport {
    /// The variants met so far.
    pub open spec fn seen_set(&self) -> Set<(i64, NameVariantType, Seq<char>)> {
        self.seen@.map_values(|e: (i64, NameVariantType, Vec<char>)| seen_view(e)).to_set()
    }

    /// Nothing met yet, and the errors found while reading.
    pub fn new(errors: Vec<ImportRowError>) -> (r: Self)
        ensures
            r.seen_set() == Set::<(i64, NameVariantType, Seq<char>)>::empty(),
            r.tally.imported == 0,
            r.tally.updated == 0,
            r.tally.errors@ == errors@,
    {
        let r = VariantImport { seen: Vec::new(), tally: ImportTally::new(errors) };
        assert(r.seen_set() =~= Set::<(i64, NameVariantType, Seq<char>)>::empty());
        r
    }

    /// Whether this variant of this author is met for the first time in the
    /// import; it is remembered either way.
    pub fn first_sighting(&mut self, profile_id: i64, variant_type: NameVariantType, variant: &str) -> (r: bool)
        ensures
            r == !old(self).seen_set().contains((profile_id, variant_type, variant@)),
            final(self).seen_set() == old(self).seen_set().insert((profile_id, variant_type, variant@)),
            final(self).tally == old(self).tally,
    {
        let v = chars_of(variant);
        let ghost views = self.seen@.map_values(|e: (i64, NameVariantType, Vec<char>)| seen_view(e));
        let mut i: usize = 0;
        while i < self.seen.len()
            invariant
                i <= self.seen.len(),
                views == self.seen@.map_values(|e: (i64, NameVariantType, Vec<char>)| seen_view(e)),
                v@ == variant@,
                forall|j: int| 0 <= j < i ==> views[j] != (profile_id, variant_type, variant@),
            decreases self.seen.len() - i,
        {
            assert(views[i as int] == seen_view(self.seen@[i as int]));
            if self.seen[i].0 == profile_id && self.seen[i].1 == variant_type && chars_eq(&self.seen[i].2, &v) {
                assert(views[i as int] == (profile_id, variant_type, variant@));
                assert(self.seen_set().contains((profile_id, variant_type, variant@)));
                assert(self.seen_set().insert((profile_id, variant_type, variant@)) =~= self.seen_set());
                return false;
            }
            i += 1;
        }
        assert(!views.contains((profile_id, variant_type, variant@)));
        self.seen.push((profile_id, variant_type, v));
        assert(self.seen@.map_values(|e: (i64, NameVariantType, Vec<char>)| seen_view(e)) =~= views.push(
            (profile_id, variant_type, variant@),
        ));
        let ghost item = (profile_id, variant_type, variant@);
        assert forall|x: (i64, NameVariantType, Seq<char>)| views.push(item).contains(x) <==> (views.contains(x)
            || x == item) by {
            if views.push(item).contains(x) {
                let k = views.push(item).index_of(x);
                if k < views.len() {
                    assert(views[k] == x);
                }
            }
            if views.contains(x) {
                let k = views.index_of(x);
                assert(views.push(item)[k] == x);
            }
            if x == item {
                assert(views.push(item)[views.len() as int] == x);
            }
        }
        assert(self.seen_set() =~= old(self).seen_set().insert(item));
        true
    }

    /// Takes the lookup of the variant's author: the variant is to be
    /// appended (`true`) when the author exists and does not list it yet; a
    /// listed variant is skipped without error; a missing author or a failed
    /// lookup is an error of the row.
    pub fn after_author_lookup(&mut self, row: usize, variant: &str, profile_id: i64, variant_type: NameVariantType, found: Result<Option<&crate::domain::Author>, String>) -> (r: bool)
        ensures
            final(self).seen_set() == old(self).seen_set(),
            final(self).tally.imported == old(self).tally.imported,
            final(self).tally.updated == old(self).tally.updated,
            match found {
                Ok(Some(a)) => r == !listed_variants(*a, variant_type).contains(variant@)
                    && final(self).tally.errors@ == old(self).tally.errors@,
                Ok(None) => !r && final(self).tally.errors@.drop_last() == old(self).tally.errors@
                    && final(self).tally.errors@.len() == old(self).tally.errors@.len() + 1
                    && import_error_view(final(self).tally.errors@.last()) == (row, variant@, author_not_found_msg(profile_id as int)),
                Err(e) => !r && final(self).tally.errors@.drop_last() == old(self).tally.errors@
                    && final(self).tally.errors@.len() == old(self).tally.errors@.len() + 1
                    && import_error_view(final(self).tally.errors@.last()) == (row, variant@, "DB lookup error: "@ + e@),
            },
    {
        match found {
            Ok(Some(a)) => {
                let current = match variant_type {
                    NameVariantType::Latex => &a.name_variants_latex,
                    NameVariantType::Unicode => &a.name_variants_unicode,
                };
                match current {
                    Some(list) => !lists_text(list, variant),
                    None => true,
                }
            },
            Ok(None) => {
                let mut m = lit("Author with id ");
                crate::text::extend(&mut m, &int_chars(profile_id));
                crate::text::extend_str(&mut m, " not found");
                self.tally.errors.push(ImportRowError { row, identifier: String::from_str(variant), error: string_of(&m) });
                false
            },
            Err(e) => {
                let mut m = lit("DB lookup error: ");
                crate::text::extend_str(&mut m, e.as_str());
                self.tally.errors.push(ImportRowError { row, identifier: String::from_str(variant), error: string_of(&m) });
                false
            },
        }
    }

    /// Takes the result of appending the variant: a success counts the row
    /// as updated; a failure is an error of the row.
    pub fn after_variant_append(&mut self, row: usize, variant: &str, profile_id: i64, result: Result<(), String>)
        requires
            old(self).tally.updated < usize::MAX,
        ensures
            final(self).seen_set() == old(self).seen_set(),
            final(self).tally.imported == old(self).tally.imported,
            match result {
                Ok(_) => final(self).tally.updated == old(self).tally.updated + 1
                    && final(self).tally.errors@ == old(self).tally.errors@,
                Err(e) => final(self).tally.updated == old(self).tally.updated
                    && final(self).tally.errors@.drop_last() == old(self).tally.errors@
                    && final(self).tally.errors@.len() == old(self).tally.errors@.len() + 1
                    && import_error_view(final(self).tally.errors@.last()) == (row, variant@, author_update_failed_msg(profile_id as int, e@)),
            },
    {
        match result {
            Ok(_) => {
                self.tally.updated = self.tally.updated + 1;
            },
            Err(e) => {
                let mut m = lit("Failed to update author ");
                crate::text::extend(&mut m, &int_chars(profile_id));
                crate::text::extend_str(&mut m, ": ");
                crate::text::extend_str(&mut m, e.as_str());
                self.tally.errors.push(ImportRowError { row, identifier: String::from_str(variant), error: string_of(&m) });
            },
        }
    }

    /// The reply of the import: nothing imported, the variants appended
    /// counted as updated, and as many failures as errors.
    pub fn finish(self) -> (r: ImportResponse)
        ensures
            r.imported == 0,
            r.updated == self.tally.updated,
            r.failed == self.tally.errors.len(),
            r.errors@ == self.tally.errors@,
    {
        import_response(0, self.tally.updated, self.tally.errors)
    }
}

// ---------------------------------------------------------------------------
// Fields of a record
// ---------------------------------------------------------------------------

#[verifier::external_type_specification]
#[verifier::external_body]
pub struct ExStringRecord(csv::StringRecord);

/// The fields of a record, in order.
pub uninterp spec fn record_fields(r: csv::StringRecord) -> Seq<Seq<char>>;

/// `StringRecord::len`: the number of fields of the record.
#[verifier::external_body]
fn record_len(record: &csv::StringRecord) -> (n: usize)
    ensures
        n == record_fields(*record).len(),
{
    record.len()
}

/// `StringRecord::get`: the field at index `i`, none when the record has no
/// such field.
#[verifier::external_body]
fn record_get(record: &csv::StringRecord, i: usize) -> (f: Option<&str>)
    ensures
        match f {
            Some(s) => i < record_fields(*record).len() && s@ == record_fields(*record)[i as int],
            None => i >= record_fields(*record).len(),
        },
{
    record.get(i)
}

/// The field at `idx`, trimmed; none when there is no such field or it is
/// blank.
pub open spec fn field_spec(fields: Seq<Seq<char>>, idx: int) -> Option<Seq<char>> {
    if 0 <= idx < fields.len() && trim(fields[idx]).len() > 0 {
        Some(trim(fields[idx]))
    } else {
        None
    }
}

/// The trimmed, non-blank field at `idx`.
pub fn get_field(record: &csv::StringRecord, idx: usize) -> (r: Option<String>)
    ensures
        match r {
            Some(s) => field_spec(record_fields(*record), idx as int) == Some(s@),
            None => field_spec(record_fields(*record), idx as int) is None,
        },
{
    match record_get(record, idx) {
        Some(f) => {
            let t = trim_chars(&chars_of(f));
            if t.len() == 0 {
                None
            } else {
                Some(string_of(&t))
            }
        },
        None => None,
    }
}

/// An optional parse of an optional text.
pub open spec fn parse_opt(o: Option<Seq<char>>, p: spec_fn(Seq<char>) -> Option<int>) -> Option<int> {
    match o {
        Some(s) => p(s),
        None => None,
    }
}

/// The field at `idx` read as an `i16`, if it is one.
pub fn parse_i16_field(record: &csv::StringRecord, idx: usize) -> (r: Option<i16>)
    ensures
        match r {
            Some(v) => parse_opt(field_spec(record_fields(*record), idx as int), |s: Seq<char>| parse_i16(s)) == Some(v as int),
            None => parse_opt(field_spec(record_fields(*record), idx as int), |s: Seq<char>| parse_i16(s)) is None,
        },
{
    match get_field(record, idx) {
        Some(s) => parse_i16_chars(&chars_of(s.as_str())),
        None => None,
    }
}

/// The field at `idx` read as an `i64`, if it is one.
pub fn parse_i64_field(record: &csv::StringRecord, idx: usize) -> (r: Option<i64>)
    ensures
        match r {
            Some(v) => parse_opt(field_spec(record_fields(*record), idx as int), |s: Seq<char>| parse_i64(s)) == Some(v as int),
            None => parse_opt(field_spec(record_fields(*record), idx as int), |s: Seq<char>| parse_i64(s)) is None,
        },
{
    match get_field(record, idx) {
        Some(s) => parse_i64_chars(&chars_of(s.as_str())),
        None => None,
    }
}

/// The pieces that read as `i64` after trimming, in order; the others are
/// dropped.
pub open spec fn ids_of(parts: Seq<Seq<char>>) -> Seq<int>
    decreases parts.len(),
{
    if parts.len() == 0 {
        Seq::empty()
    } else {
        match parse_i64(trim(parts.last())) {
            Some(v) => ids_of(parts.drop_last()).push(v),
            None => ids_of(parts.drop_last()),
        }
    }
}

/// The ids of a comma-separated field: the pieces that read as `i64`.
pub open spec fn id_list_spec(fields: Seq<Seq<char>>, idx: int) -> Seq<int> {
    match field_spec(fields, idx) {
        Some(s) => ids_of(split(s, ","@)),
        None => Seq::empty(),
    }
}

/// The comma-separated ids in `s`: the pieces that read as `i64` once
/// trimmed, in order; the others are skipped.
pub fn parse_ids_chars(s: &Vec<char>) -> (r: Vec<i64>)
    ensures
        r@.map_values(|v: i64| v as int) == ids_of(split(s@, ","@)),
{
    let mut out: Vec<i64> = Vec::new();
    let comma = lit(",");
    proof {
        reveal_strlit(",");
    }
    let parts = split_chars(s, &comma);
    let ghost ps = seqs_of(parts@);
    let mut i: usize = 0;
    assert(ps.take(0) =~= Seq::<Seq<char>>::empty());
    assert(out@.map_values(|v: i64| v as int) =~= ids_of(ps.take(0)));
    while i < parts.len()
        invariant
            i <= parts.len(),
            ps == seqs_of(parts@),
            out@.map_values(|v: i64| v as int) == ids_of(ps.take(i as int)),
        decreases parts.len() - i,
    {
        let ghost before = out@;
        assert(ps.take(i + 1).drop_last() =~= ps.take(i as int));
        assert(ps.take(i + 1).last() == parts@[i as int]@);
        let t = trim_chars(&parts[i]);
        match parse_i64_chars(&t) {
            Some(v) => {
                out.push(v);
                assert(out@.map_values(|v: i64| v as int) =~= before.map_values(|v: i64| v as int).push(v as int));
            },
            None => {},
        }
        i += 1;
    }
    assert(ps.take(parts.len() as int) =~= ps);
    out
}

/// The comma-separated ids of the field at `idx`; pieces that are no `i64`
/// are skipped, and a missing or blank field gives none.
pub fn parse_id_list(record: &csv::StringRecord, idx: usize) -> (r: Vec<i64>)
    ensures
        r@.map_values(|v: i64| v as int) == id_list_spec(record_fields(*record), idx as int),
{
    match get_field(record, idx) {
        Some(s) => parse_ids_chars(&chars_of(s.as_str())),
        None => {
            let out: Vec<i64> = Vec::new();
            assert(out@.map_values(|v: i64| v as int) =~= Seq::<int>::empty());
            out
        },
    }
}

// ---------------------------------------------------------------------------
// Columns
// ---------------------------------------------------------------------------

/// The index of the first header that reads `name` once trimmed.
pub fn column_index(headers: &csv::StringRecord, name: &str) -> (r: Option<usize>)
    ensures
        match r {
            Some(i) => i < record_fields(*headers).len() && trim(record_fields(*headers)[i as int]) == name@
                && forall|j: int| 0 <= j < i ==> trim(#[trigger] record_fields(*headers)[j]) != name@,
            None => forall|j: int| 0 <= j < record_fields(*headers).len() ==> trim(#[trigger] record_fields(*headers)[j]) != name@,
        },
{
    let n = record_len(headers);
    let target = chars_of(name);
    let mut i: usize = 0;
    while i < n
        invariant
            i <= n,
            n == record_fields(*headers).len(),
            target@ == name@,
            forall|j: int| 0 <= j < i ==> trim(#[trigger] record_fields(*headers)[j]) != name@,
        decreases n - i,
    {
        match record_get(headers, i) {
            Some(h) => {
                let t = trim_chars(&chars_of(h));
                if chars_eq(&t, &target) {
                    return Some(i);
                }
            },
            None => {},
        }
        i += 1;
    }
    None
}

/// The message for a missing required column.
pub open spec fn missing_column_msg(name: Seq<char>) -> Seq<char> {
    "Missing required column: "@ + name
}

/// The index of a required column, or the error that it is missing.
pub fn require_column(headers: &csv::StringRecord, name: &str) -> (r: Result<usize, ValidationError>)
    ensures
        match r {
            Ok(i) => i < record_fields(*headers).len() && trim(record_fields(*headers)[i as int]) == name@
                && forall|j: int| 0 <= j < i ==> trim(#[trigger] record_fields(*headers)[j]) != name@,
            Err(e) => e@ == ValidationErrorView::Custom(missing_column_msg(name@))
                && forall|j: int| 0 <= j < record_fields(*headers).len() ==> trim(#[trigger] record_fields(*headers)[j]) != name@,
        },
{
    match column_index(headers, name) {
        Some(i) => Ok(i),
        None => {
            let mut m = lit("Missing required column: ");
            crate::text::extend_str(&mut m, name);
            Err(ValidationError::custom(string_of(&m)))
        },
    }
}

} // verus!

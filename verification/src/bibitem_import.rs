//! Import of bibitems given with the ids of what they reference: checking
//! the rows, gathering the referenced ids, and the steps of writing a row.
use vstd::prelude::*;
use crate::dto::CreateBibItem;
use crate::domain::AuthorRole;
use crate::import::{import_error_view, insert_error_text, key_mismatch_msg, tally_total, format_insert_error, ImportRowError, ImportTally, MissingReferencesError};
use crate::numeric::{int_chars, int_str, nat_str, push_nat};
use crate::text::{chars_eq, chars_of, extend, extend_str, join, join_chars, lit, string_of};
use crate::csv_parsing::types::opt_str_view;
use crate::full_import::{opt_ref, BibitemNotesData};
use crate::render::components::opt_seq;
use crate::validation::{ValidationError, ValidationErrorView};
use crate::validation::{create_bibitem_check, error_text, validate_create_bibitem};
use std::collections::HashSet;

verus! {

// ---------------------------------------------------------------------------
// Rows
// ---------------------------------------------------------------------------

/// The ids a bibitem row refers to.
#[derive(Debug)]
pub struct BibitemRowRefs {
    pub author_ids: Vec<i64>,
    pub editor_ids: Vec<i64>,
    pub guesteditor_ids: Vec<i64>,
    pub keyword_ids: Vec<i64>,
    pub journal_id: Option<i64>,
    pub publisher_id: Option<i64>,
    pub institution_id: Option<i64>,
    pub school_id: Option<i64>,
    pub series_id: Option<i64>,
    pub crossref_id: Option<i64>,
}

/// One row of a bibitem file: its number, bibkey, optional id, the item to
/// write and the ids it refers to.
#[derive(Debug)]
pub struct ParsedBibitemRow {
    pub row_num: usize,
    pub bibkey: String,
    pub source_id: Option<i64>,
    pub dto: CreateBibItem,
    pub refs: BibitemRowRefs,
}

/// Whether the item of a row fails its check.
pub open spec fn row_fails(r: ParsedBibitemRow) -> bool {
    create_bibitem_check(r.dto) is Some
}

/// The rows whose item passes its check, in order.
pub open spec fn valid_rows(rows: Seq<ParsedBibitemRow>) -> Seq<ParsedBibitemRow>
    decreases rows.len(),
{
    if rows.len() == 0 {
        Seq::empty()
    } else if row_fails(rows.last()) {
        valid_rows(rows.drop_last())
    } else {
        valid_rows(rows.drop_last()).push(rows.last())
    }
}

/// One error per row whose item fails its check, in order: the row number,
/// the bibkey and the message of the check.
pub open spec fn row_failures(rows: Seq<ParsedBibitemRow>) -> Seq<(usize, Seq<char>, Seq<char>)>
    decreases rows.len(),
{
    if rows.len() == 0 {
        Seq::empty()
    } else if row_fails(rows.last()) {
        row_failures(rows.drop_last()).push(
            (rows.last().row_num, rows.last().bibkey@, error_text(create_bibitem_check(rows.last().dto)->0)),
        )
    } else {
        row_failures(rows.drop_last())
    }
}

/// The views of a list of row errors.
pub open spec fn import_error_views(es: Seq<ImportRowError>) -> Seq<(usize, Seq<char>, Seq<char>)> {
    es.map_values(|e: ImportRowError| import_error_view(e))
}

/// Checks the item of every row: the rows that pass, in order, and the
/// errors found while reading followed by one error per failing row.
pub fn validate_bibitem_rows(rows: Vec<ParsedBibitemRow>, parse_errors: Vec<ImportRowError>) -> (r: (Vec<ParsedBibitemRow>, Vec<ImportRowError>))
    ensures
        r.0@ == valid_rows(rows@),
        import_error_views(r.1@) == import_error_views(parse_errors@) + row_failures(rows@),
{
    let ghost orig = rows@;
    let n = rows.len();
    let mut rest = rows;
    let mut valid: Vec<ParsedBibitemRow> = Vec::new();
    let mut errors = parse_errors;
    let ghost start = import_error_views(errors@);
    let mut idx: usize = 0;
    assert(orig.take(0) =~= Seq::<ParsedBibitemRow>::empty());
    assert(rest@ =~= orig.skip(0));
    assert(start + row_failures(orig.take(0)) =~= start);
    while idx < n
        invariant
            idx <= n,
            n == orig.len(),
            rest@ == orig.skip(idx as int),
            valid@ == valid_rows(orig.take(idx as int)),
            import_error_views(errors@) == start + row_failures(orig.take(idx as int)),
        decreases n - idx,
    {
        let row = rest.remove(0);
        let ghost nxt = orig.take(idx + 1);
        proof {
            assert(nxt.drop_last() =~= orig.take(idx as int));
            assert(row == orig[idx as int]);
            assert(nxt.last() == row);
            assert(rest@ =~= orig.skip(idx + 1));
        }
        match validate_create_bibitem(&row.dto) {
            Ok(()) => {
                valid.push(row);
            },
            Err(e) => {
                let ghost before = errors@;
                let message = e.to_message();
                errors.push(ImportRowError { row: row.row_num, identifier: row.bibkey, error: message });
                assert(import_error_views(errors@) =~= import_error_views(before).push(
                    (nxt.last().row_num, nxt.last().bibkey@, error_text(create_bibitem_check(nxt.last().dto)->0)),
                ));
            },
        }
        idx += 1;
    }
    assert(orig.take(n as int) =~= orig);
    (valid, errors)
}

// ---------------------------------------------------------------------------
// Referenced ids
// ---------------------------------------------------------------------------

/// The ids of every kind that a set of rows refers to.
#[derive(Debug)]
pub struct ReferencedIds {
    pub author_ids: HashSet<i64>,
    pub journal_ids: HashSet<i64>,
    pub publisher_ids: HashSet<i64>,
    pub institution_ids: HashSet<i64>,
    pub school_ids: HashSet<i64>,
    pub series_ids: HashSet<i64>,
    pub keyword_ids: HashSet<i64>,
    pub crossref_ids: HashSet<i64>,
}

/// The id of an optional reference, as a set.
pub open spec fn opt_id_set(o: Option<i64>) -> Set<i64> {
    match o {
        Some(id) => set![id],
        None => Set::empty(),
    }
}

/// The people a row refers to, in any role.
pub open spec fn people_of(r: BibitemRowRefs) -> Set<i64> {
    r.author_ids@.to_set() + r.editor_ids@.to_set() + r.guesteditor_ids@.to_set()
}

/// The kinds of single references a row can make.
pub enum RefKind {
    Journal,
    Publisher,
    Institution,
    School,
    Series,
    Crossref,
}

/// The reference of a row of kind `k`.
pub open spec fn ref_of(r: BibitemRowRefs, k: RefKind) -> Option<i64> {
    match k {
        RefKind::Journal => r.journal_id,
        RefKind::Publisher => r.publisher_id,
        RefKind::Institution => r.institution_id,
        RefKind::School => r.school_id,
        RefKind::Series => r.series_id,
        RefKind::Crossref => r.crossref_id,
    }
}

/// The people the rows refer to, in any role.
pub open spec fn people_of_rows(rows: Seq<ParsedBibitemRow>) -> Set<i64>
    decreases rows.len(),
{
    if rows.len() == 0 {
        Set::empty()
    } else {
        people_of_rows(rows.drop_last()) + people_of(rows.last().refs)
    }
}

/// The keywords the rows refer to.
pub open spec fn keywords_of_rows(rows: Seq<ParsedBibitemRow>) -> Set<i64>
    decreases rows.len(),
{
    if rows.len() == 0 {
        Set::empty()
    } else {
        keywords_of_rows(rows.drop_last()) + rows.last().refs.keyword_ids@.to_set()
    }
}

/// The references of kind `k` the rows make.
pub open spec fn refs_of_rows(rows: Seq<ParsedBibitemRow>, k: RefKind) -> Set<i64>
    decreases rows.len(),
{
    if rows.len() == 0 {
        Set::empty()
    } else {
        refs_of_rows(rows.drop_last(), k) + opt_id_set(ref_of(rows.last().refs, k))
    }
}

fn add_all(set: &mut HashSet<i64>, ids: &Vec<i64>)
    ensures
        final(set)@ == old(set)@ + ids@.to_set(),
{
    let mut i: usize = 0;
    while i < ids.len()
        invariant
            i <= ids.len(),
            set@ == old(set)@ + ids@.take(i as int).to_set(),
        decreases ids.len() - i,
    {
        set.insert(ids[i]);
        assert(set@ =~= old(set)@ + ids@.take(i + 1).to_set()) by {
            assert forall|x: i64| ids@.take(i + 1).to_set().contains(x) <==> (ids@.take(
                i as int,
            ).to_set().contains(x) || x == ids@[i as int]) by {
                if ids@.take(i + 1).contains(x) {
                    let k = ids@.take(i + 1).index_of(x);
                    if k < i {
                        assert(ids@.take(i as int)[k] == x);
                    }
                }
                if ids@.take(i as int).contains(x) {
                    let k = ids@.take(i as int).index_of(x);
                    assert(ids@.take(i + 1)[k] == x);
                }
                if x == ids@[i as int] {
                    assert(ids@.take(i + 1)[i as int] == x);
                }
            }
        }
        i += 1;
    }
    assert(ids@.take(ids.len() as int) =~= ids@);
}

fn add_opt(set: &mut HashSet<i64>, id: Option<i64>)
    ensures
        final(set)@ == old(set)@ + opt_id_set(id),
{
    match id {
        Some(v) => {
            set.insert(v);
            assert(set@ =~= old(set)@ + set![v]);
        },
        None => {
            assert(set@ =~= old(set)@ + Set::<i64>::empty());
        },
    }
}

/// Every id the rows refer to, by kind: people in any role, journals,
/// publishers, institutions, schools, series, keywords and crossrefs.
pub fn referenced_ids(rows: &Vec<ParsedBibitemRow>) -> (r: ReferencedIds)
    ensures
        r.author_ids@ == people_of_rows(rows@),
        r.keyword_ids@ == keywords_of_rows(rows@),
        r.journal_ids@ == refs_of_rows(rows@, RefKind::Journal),
        r.publisher_ids@ == refs_of_rows(rows@, RefKind::Publisher),
        r.institution_ids@ == refs_of_rows(rows@, RefKind::Institution),
        r.school_ids@ == refs_of_rows(rows@, RefKind::School),
        r.series_ids@ == refs_of_rows(rows@, RefKind::Series),
        r.crossref_ids@ == refs_of_rows(rows@, RefKind::Crossref),
{
    let mut r = ReferencedIds {
        author_ids: HashSet::new(),
        journal_ids: HashSet::new(),
        publisher_ids: HashSet::new(),
        institution_ids: HashSet::new(),
        school_ids: HashSet::new(),
        series_ids: HashSet::new(),
        keyword_ids: HashSet::new(),
        crossref_ids: HashSet::new(),
    };
    let mut i: usize = 0;
    assert(rows@.take(0) =~= Seq::<ParsedBibitemRow>::empty());
    while i < rows.len()
        invariant
            i <= rows.len(),
            r.author_ids@ == people_of_rows(rows@.take(i as int)),
            r.keyword_ids@ == keywords_of_rows(rows@.take(i as int)),
            r.journal_ids@ == refs_of_rows(rows@.take(i as int), RefKind::Journal),
            r.publisher_ids@ == refs_of_rows(rows@.take(i as int), RefKind::Publisher),
            r.institution_ids@ == refs_of_rows(rows@.take(i as int), RefKind::Institution),
            r.school_ids@ == refs_of_rows(rows@.take(i as int), RefKind::School),
            r.series_ids@ == refs_of_rows(rows@.take(i as int), RefKind::Series),
            r.crossref_ids@ == refs_of_rows(rows@.take(i as int), RefKind::Crossref),
        decreases rows.len() - i,
    {
        let refs = &rows[i].refs;
        let ghost before = r.author_ids@;
        add_all(&mut r.author_ids, &refs.author_ids);
        add_all(&mut r.author_ids, &refs.editor_ids);
        add_all(&mut r.author_ids, &refs.guesteditor_ids);
        add_all(&mut r.keyword_ids, &refs.keyword_ids);
        add_opt(&mut r.journal_ids, refs.journal_id);
        add_opt(&mut r.publisher_ids, refs.publisher_id);
        add_opt(&mut r.institution_ids, refs.institution_id);
        add_opt(&mut r.school_ids, refs.school_id);
        add_opt(&mut r.series_ids, refs.series_id);
        add_opt(&mut r.crossref_ids, refs.crossref_id);
        proof {
            let nxt = rows@.take(i + 1);
            assert(nxt.drop_last() =~= rows@.take(i as int));
            assert(nxt.last() == rows@[i as int]);
            assert(r.author_ids@ =~= before + people_of(rows@[i as int].refs));
        }
        i += 1;
    }
    assert(rows@.take(rows.len() as int) =~= rows@);
    r
}

/// The reply when referenced ids are missing, listing them by kind.
pub fn missing_references(
    missing_author_ids: Vec<i64>,
    missing_journal_ids: Vec<i64>,
    missing_publisher_ids: Vec<i64>,
    missing_institution_ids: Vec<i64>,
    missing_school_ids: Vec<i64>,
    missing_series_ids: Vec<i64>,
    missing_keyword_ids: Vec<i64>,
    missing_crossref_ids: Vec<i64>,
) -> (r: MissingReferencesError)
    ensures
        r.error@ == "missing_references"@,
        r.message@ == "Some referenced entities were not found"@,
        r.missing_author_ids@ == missing_author_ids@,
        r.missing_journal_ids@ == missing_journal_ids@,
        r.missing_publisher_ids@ == missing_publisher_ids@,
        r.missing_institution_ids@ == missing_institution_ids@,
        r.missing_school_ids@ == missing_school_ids@,
        r.missing_series_ids@ == missing_series_ids@,
        r.missing_keyword_ids@ == missing_keyword_ids@,
        r.missing_crossref_ids@ == missing_crossref_ids@,
{
    MissingReferencesError {
        error: "missing_references",
        message: "Some referenced entities were not found",
        missing_author_ids,
        missing_journal_ids,
        missing_publisher_ids,
        missing_institution_ids,
        missing_school_ids,
        missing_series_ids,
        missing_keyword_ids,
        missing_crossref_ids,
    }
}

// ---------------------------------------------------------------------------
// Writing a row
// ---------------------------------------------------------------------------

/// The next thing to do for one bibitem row.
#[derive(Debug)]
pub enum BibRowStep {
    /// Look up the stored bibitem with this id.
    FindExisting(i64),
    /// Write the row over the stored bibitem with this id.
    Update(i64),
    /// Insert the row under this id.
    InsertWithId(i64),
    /// Insert the row under an id the database assigns.
    Insert,
    /// Link the row's people of one role to the bibitem written.
    LinkPeople { bibitem_id: i64, role: AuthorRole, is_update: bool },
    /// Link the row's keywords to the bibitem written.
    LinkKeywords { bibitem_id: i64, is_update: bool },
    /// Nothing is left to do for the row.
    Done,
}

/// The first step of a row: look up its id when it has one, else insert.
pub fn first_bibitem_step(source_id: Option<i64>) -> (r: BibRowStep)
    ensures
        match source_id {
            Some(id) => r == BibRowStep::FindExisting(id),
            None => r == BibRowStep::Insert,
        },
{
    match source_id {
        Some(id) => BibRowStep::FindExisting(id),
        None => BibRowStep::Insert,
    }
}

/// `prefix` followed by `detail`.
pub open spec fn with_detail(prefix: Seq<char>, detail: Seq<char>) -> Seq<char> {
    prefix + detail
}

fn record(tally: &mut ImportTally, row: usize, identifier: &str, message: String)
    ensures
        final(tally).imported == old(tally).imported,
        final(tally).updated == old(tally).updated,
        final(tally).errors@.drop_last() == old(tally).errors@,
        final(tally).errors@.len() == old(tally).errors@.len() + 1,
        import_error_view(final(tally).errors@.last()) == (row, identifier@, message@),
{
    tally.errors.push(ImportRowError { row, identifier: String::from_str(identifier), error: message });
    assert(tally.errors@.drop_last() =~= old(tally).errors@);
}

fn prefixed(prefix: &str, detail: &str) -> (r: String)
    ensures
        r@ == with_detail(prefix@, detail@),
{
    let mut v = lit(prefix);
    extend_str(&mut v, detail);
    string_of(&v)
}

/// The step after looking up the row's id: update when the stored bibitem
/// has the row's bibkey, insert under the id when none is stored; a bibkey
/// that differs, or a failed lookup, ends the row with an error.
pub fn after_bibitem_lookup(tally: &mut ImportTally, row: usize, bibkey: &str, id: i64, found: Result<Option<String>, String>) -> (r: BibRowStep)
    ensures
        final(tally).imported == old(tally).imported,
        final(tally).updated == old(tally).updated,
        tally_total(*final(tally)) == tally_total(*old(tally)) + (if r is Done { 1int } else { 0int }),
        match found {
            Ok(Some(existing)) => if existing@ == bibkey@ {
                r == BibRowStep::Update(id) && final(tally).errors@ == old(tally).errors@
            } else {
                r is Done && final(tally).errors@.drop_last() == old(tally).errors@
                    && import_error_view(final(tally).errors@.last()) == (row, bibkey@, key_mismatch_msg(id as int, "bibkey"@, existing@, bibkey@))
            },
            Ok(None) => r == BibRowStep::InsertWithId(id) && final(tally).errors@ == old(tally).errors@,
            Err(e) => r is Done && final(tally).errors@.drop_last() == old(tally).errors@
                && import_error_view(final(tally).errors@.last()) == (row, bibkey@, with_detail("DB lookup error: "@, e@)),
        },
{
    match found {
        Ok(Some(existing)) => {
            if chars_eq(&chars_of(existing.as_str()), &chars_of(bibkey)) {
                BibRowStep::Update(id)
            } else {
                let mut m = lit("ID ");
                extend(&mut m, &int_chars(id));
                extend_str(&mut m, " exists but has ");
                extend_str(&mut m, "bibkey");
                extend_str(&mut m, " '");
                extend_str(&mut m, existing.as_str());
                extend_str(&mut m, "', input has '");
                extend_str(&mut m, bibkey);
                extend_str(&mut m, "'");
                record(tally, row, bibkey, string_of(&m));
                BibRowStep::Done
            }
        },
        Ok(None) => BibRowStep::InsertWithId(id),
        Err(e) => {
            record(tally, row, bibkey, prefixed("DB lookup error: ", e.as_str()));
            BibRowStep::Done
        },
    }
}

/// `Failed to update bibitem <id>: not found`.
pub open spec fn update_not_found_msg(id: int) -> Seq<char> {
    "Failed to update bibitem "@ + int_str(id) + ": not found"@
}

/// The step after writing the row over the stored bibitem `id`: link its
/// people when the write found the bibitem; a bibitem that is gone, or a
/// failed write, ends the row with an error.
pub fn after_bibitem_update(tally: &mut ImportTally, row: usize, bibkey: &str, id: i64, result: Result<bool, String>) -> (r: BibRowStep)
    ensures
        final(tally).imported == old(tally).imported,
        final(tally).updated == old(tally).updated,
        tally_total(*final(tally)) == tally_total(*old(tally)) + (if r is Done { 1int } else { 0int }),
        match result {
            Ok(true) => r == (BibRowStep::LinkPeople { bibitem_id: id, role: AuthorRole::Author, is_update: true })
                && final(tally).errors@ == old(tally).errors@,
            Ok(false) => r is Done && final(tally).errors@.drop_last() == old(tally).errors@
                && import_error_view(final(tally).errors@.last()) == (row, bibkey@, update_not_found_msg(id as int)),
            Err(e) => r is Done && final(tally).errors@.drop_last() == old(tally).errors@
                && import_error_view(final(tally).errors@.last()) == (row, bibkey@, insert_error_text(e@)),
        },
{
    match result {
        Ok(true) => BibRowStep::LinkPeople { bibitem_id: id, role: AuthorRole::Author, is_update: true },
        Ok(false) => {
            let mut m = lit("Failed to update bibitem ");
            extend(&mut m, &int_chars(id));
            extend_str(&mut m, ": not found");
            record(tally, row, bibkey, string_of(&m));
            BibRowStep::Done
        },
        Err(e) => {
            record(tally, row, bibkey, format_insert_error(e.as_str()));
            BibRowStep::Done
        },
    }
}

/// The step after inserting the row: link its people to the new bibitem;
/// a failed insert ends the row with an error.
pub fn after_bibitem_insert(tally: &mut ImportTally, row: usize, bibkey: &str, result: Result<i64, String>) -> (r: BibRowStep)
    ensures
        final(tally).imported == old(tally).imported,
        final(tally).updated == old(tally).updated,
        tally_total(*final(tally)) == tally_total(*old(tally)) + (if r is Done { 1int } else { 0int }),
        match result {
            Ok(new_id) => r == (BibRowStep::LinkPeople { bibitem_id: new_id, role: AuthorRole::Author, is_update: false })
                && final(tally).errors@ == old(tally).errors@,
            Err(e) => r is Done && final(tally).errors@.drop_last() == old(tally).errors@
                && import_error_view(final(tally).errors@.last()) == (row, bibkey@, insert_error_text(e@)),
        },
{
    match result {
        Ok(new_id) => BibRowStep::LinkPeople { bibitem_id: new_id, role: AuthorRole::Author, is_update: false },
        Err(e) => {
            record(tally, row, bibkey, format_insert_error(e.as_str()));
            BibRowStep::Done
        },
    }
}

/// What a link step links, as named in its error message.
pub open spec fn link_target(step: BibRowStep) -> Seq<char> {
    match step {
        BibRowStep::LinkPeople { role, .. } => match role {
            AuthorRole::Author => "authors"@,
            AuthorRole::Editor => "editors"@,
            AuthorRole::Guesteditor => "guesteditors"@,
        },
        _ => "keywords"@,
    }
}

/// `Failed to link <what>: <detail>`.
pub open spec fn link_error_msg(what: Seq<char>, detail: Seq<char>) -> Seq<char> {
    "Failed to link "@ + what + ": "@ + detail
}

/// The step after a link step: authors, then editors, then guest editors,
/// then keywords; after the keywords the row counts as updated or imported.
/// A failed link ends the row with an error.
pub fn after_bibitem_link(tally: &mut ImportTally, row: usize, bibkey: &str, step: &BibRowStep, result: Result<(), String>) -> (r: BibRowStep)
    requires
        step is LinkPeople || step is LinkKeywords,
        old(tally).imported < usize::MAX,
        old(tally).updated < usize::MAX,
    ensures
        tally_total(*final(tally)) == tally_total(*old(tally)) + (if r is Done { 1int } else { 0int }),
        match result {
            Err(e) => r is Done && final(tally).imported == old(tally).imported
                && final(tally).updated == old(tally).updated
                && final(tally).errors@.drop_last() == old(tally).errors@
                && import_error_view(final(tally).errors@.last()) == (row, bibkey@, link_error_msg(link_target(*step), e@)),
            Ok(_) => final(tally).errors@ == old(tally).errors@ && match *step {
                BibRowStep::LinkPeople { bibitem_id, role, is_update } => final(tally).imported == old(tally).imported
                    && final(tally).updated == old(tally).updated && r == match role {
                    AuthorRole::Author => BibRowStep::LinkPeople { bibitem_id, role: AuthorRole::Editor, is_update },
                    AuthorRole::Editor => BibRowStep::LinkPeople { bibitem_id, role: AuthorRole::Guesteditor, is_update },
                    AuthorRole::Guesteditor => BibRowStep::LinkKeywords { bibitem_id, is_update },
                },
                BibRowStep::LinkKeywords { is_update, .. } => r is Done && if is_update {
                    final(tally).updated == old(tally).updated + 1 && final(tally).imported == old(tally).imported
                } else {
                    final(tally).imported == old(tally).imported + 1 && final(tally).updated == old(tally).updated
                },
                _ => false,
            },
        },
{
    match result {
        Err(e) => {
            let what = match step {
                BibRowStep::LinkPeople { role, .. } => match role {
                    AuthorRole::Author => "authors",
                    AuthorRole::Editor => "editors",
                    AuthorRole::Guesteditor => "guesteditors",
                },
                _ => "keywords",
            };
            let mut m = lit("Failed to link ");
            extend_str(&mut m, what);
            extend_str(&mut m, ": ");
            extend_str(&mut m, e.as_str());
            record(tally, row, bibkey, string_of(&m));
            BibRowStep::Done
        },
        Ok(_) => match step {
            BibRowStep::LinkPeople { bibitem_id, role, is_update } => match role {
                AuthorRole::Author => BibRowStep::LinkPeople { bibitem_id: *bibitem_id, role: AuthorRole::Editor, is_update: *is_update },
                AuthorRole::Editor => BibRowStep::LinkPeople { bibitem_id: *bibitem_id, role: AuthorRole::Guesteditor, is_update: *is_update },
                AuthorRole::Guesteditor => BibRowStep::LinkKeywords { bibitem_id: *bibitem_id, is_update: *is_update },
            },
            BibRowStep::LinkKeywords { is_update, .. } => {
                if *is_update {
                    tally.updated = tally.updated + 1;
                } else {
                    tally.imported = tally.imported + 1;
                }
                BibRowStep::Done
            },
            _ => BibRowStep::Done,
        },
    }
}

/// `author position <n> exceeds i16 range`.
pub open spec fn position_range_msg(position: nat) -> Seq<char> {
    "author position "@ + nat_str(position) + " exceeds i16 range"@
}

/// The stored position of the `position`-th person of a role: the index
/// itself when it fits in an `i16`, an error otherwise.
pub fn author_position(position: usize) -> (r: Result<i16, ValidationError>)
    ensures
        position <= i16::MAX ==> r == Ok::<i16, ValidationError>(position as i16),
        position > i16::MAX ==> (r matches Err(e) && e@ == ValidationErrorView::Custom(position_range_msg(position as nat))),
{
    if position <= 32767 {
        Ok(position as i16)
    } else {
        let mut m = lit("author position ");
        push_nat(&mut m, position as u64);
        extend_str(&mut m, " exceeds i16 range");
        assert(m@ =~= position_range_msg(position as nat));
        Err(ValidationError::custom(string_of(&m)))
    }
}

// ---------------------------------------------------------------------------
// References between bibitems, and notes
// ---------------------------------------------------------------------------

/// One row of a file of references between bibitems.
#[derive(Debug)]
pub struct ParsedBibitemRefRow {
    pub source_id: i64,
    pub target_id: i64,
    pub ref_type: String,
}

/// One row of a file of bibitem notes.
#[derive(Debug)]
pub struct ParsedBibitemNotesRow {
    pub bibitem_id: i64,
    pub note_perso: Option<String>,
    pub note_stock: Option<String>,
    pub note_missing: Option<String>,
    pub change_request: Option<String>,
    pub dltc_copyediting_note: Option<String>,
    pub todo_general: Option<String>,
}

impl ParsedBibitemNotesRow {
    /// The note fields of the row, borrowed.
    pub fn data(&self) -> (r: BibitemNotesData<'_>)
        ensures
            opt_seq(r.note_perso) == opt_str_view(self.note_perso),
            opt_seq(r.note_stock) == opt_str_view(self.note_stock),
            opt_seq(r.note_missing) == opt_str_view(self.note_missing),
            opt_seq(r.change_request) == opt_str_view(self.change_request),
            opt_seq(r.dltc_copyediting_note) == opt_str_view(self.dltc_copyediting_note),
            opt_seq(r.todo_general) == opt_str_view(self.todo_general),
    {
        BibitemNotesData {
            note_perso: opt_ref(&self.note_perso),
            note_stock: opt_ref(&self.note_stock),
            note_missing: opt_ref(&self.note_missing),
            change_request: opt_ref(&self.change_request),
            dltc_copyediting_note: opt_ref(&self.dltc_copyediting_note),
            todo_general: opt_ref(&self.todo_general),
        }
    }
}

/// Every bibitem id that the reference rows name, as source or target.
pub open spec fn ref_rows_ids(rows: Seq<ParsedBibitemRefRow>) -> Set<i64> {
    Set::new(|id: i64| exists|i: int| 0 <= i < rows.len() && (rows[i].source_id == id || rows[i].target_id == id))
}

/// The bibitem ids that the reference rows name, as source or target.
pub fn ref_row_ids(rows: &Vec<ParsedBibitemRefRow>) -> (r: HashSet<i64>)
    ensures
        r@ == ref_rows_ids(rows@),
{
    let mut r: HashSet<i64> = HashSet::new();
    let mut i: usize = 0;
    while i < rows.len()
        invariant
            i <= rows.len(),
            r@ == ref_rows_ids(rows@.take(i as int)),
        decreases rows.len() - i,
    {
        r.insert(rows[i].source_id);
        r.insert(rows[i].target_id);
        proof {
            let pre = rows@.take(i as int);
            let nxt = rows@.take(i + 1);
            assert forall|id: i64| ref_rows_ids(nxt).contains(id) <==> (ref_rows_ids(pre).contains(id)
                || id == rows@[i as int].source_id || id == rows@[i as int].target_id) by {
                if ref_rows_ids(nxt).contains(id) {
                    let k = choose|k: int| 0 <= k < nxt.len() && (nxt[k].source_id == id || nxt[k].target_id == id);
                    if k < i {
                        assert(pre[k] == nxt[k]);
                    }
                }
                if ref_rows_ids(pre).contains(id) {
                    let k = choose|k: int| 0 <= k < pre.len() && (pre[k].source_id == id || pre[k].target_id == id);
                    assert(nxt[k] == pre[k]);
                }
                if id == rows@[i as int].source_id || id == rows@[i as int].target_id {
                    assert(nxt[i as int] == rows@[i as int]);
                }
            }
            assert(r@ =~= ref_rows_ids(nxt));
        }
        i += 1;
    }
    assert(rows@.take(rows.len() as int) =~= rows@);
    r
}

/// Every bibitem id that the notes rows name.
pub open spec fn notes_rows_ids(rows: Seq<ParsedBibitemNotesRow>) -> Set<i64> {
    Set::new(|id: i64| exists|i: int| 0 <= i < rows.len() && rows[i].bibitem_id == id)
}

/// The bibitem ids that the notes rows name.
pub fn notes_row_ids(rows: &Vec<ParsedBibitemNotesRow>) -> (r: HashSet<i64>)
    ensures
        r@ == notes_rows_ids(rows@),
{
    let mut r: HashSet<i64> = HashSet::new();
    let mut i: usize = 0;
    while i < rows.len()
        invariant
            i <= rows.len(),
            r@ == notes_rows_ids(rows@.take(i as int)),
        decreases rows.len() - i,
    {
        r.insert(rows[i].bibitem_id);
        proof {
            let pre = rows@.take(i as int);
            let nxt = rows@.take(i + 1);
            assert forall|id: i64| notes_rows_ids(nxt).contains(id) <==> (notes_rows_ids(pre).contains(id)
                || id == rows@[i as int].bibitem_id) by {
                if notes_rows_ids(nxt).contains(id) {
                    let k = choose|k: int| 0 <= k < nxt.len() && nxt[k].bibitem_id == id;
                    if k < i {
                        assert(pre[k] == nxt[k]);
                    }
                }
                if notes_rows_ids(pre).contains(id) {
                    let k = choose|k: int| 0 <= k < pre.len() && pre[k].bibitem_id == id;
                    assert(nxt[k] == pre[k]);
                }
                if id == rows@[i as int].bibitem_id {
                    assert(nxt[i as int] == rows@[i as int]);
                }
            }
            assert(r@ =~= notes_rows_ids(nxt));
        }
        i += 1;
    }
    assert(rows@.take(rows.len() as int) =~= rows@);
    r
}

/// A list of ids as `Debug` writes it: `[1, 2, 3]`.
pub open spec fn id_list_text(ids: Seq<i64>) -> Seq<char> {
    "["@ + join(ids.map_values(|id: i64| int_str(id as int)), ", "@) + "]"@
}

/// `missing bibitem IDs: [..]`.
pub open spec fn missing_bibitem_ids_msg(ids: Seq<i64>) -> Seq<char> {
    "missing bibitem IDs: "@ + id_list_text(ids)
}

/// The refusal of an import that names bibitem ids which do not exist.
pub fn missing_bibitem_ids_error(missing: &Vec<i64>) -> (e: ValidationError)
    ensures
        e@ == ValidationErrorView::Custom(missing_bibitem_ids_msg(missing@)),
{
    let mut parts: Vec<Vec<char>> = Vec::new();
    let mut i: usize = 0;
    while i < missing.len()
        invariant
            i <= missing.len(),
            crate::text::seqs_of(parts@) == missing@.take(i as int).map_values(|id: i64| int_str(id as int)),
        decreases missing.len() - i,
    {
        let ghost before = crate::text::seqs_of(parts@);
        parts.push(int_chars(missing[i]));
        assert(crate::text::seqs_of(parts@) =~= before.push(int_str(missing@[i as int] as int)));
        assert(missing@.take(i + 1).map_values(|id: i64| int_str(id as int)) =~= missing@.take(i as int).map_values(
            |id: i64| int_str(id as int),
        ).push(int_str(missing@[i as int] as int)));
        i += 1;
    }
    assert(missing@.take(missing.len() as int) =~= missing@);
    let mut m = lit("missing bibitem IDs: [");
    extend(&mut m, &join_chars(&parts, &lit(", ")));
    extend_str(&mut m, "]");
    proof {
        reveal_strlit("missing bibitem IDs: [");
        reveal_strlit("missing bibitem IDs: ");
        reveal_strlit("[");
    }
    assert(m@ =~= missing_bibitem_ids_msg(missing@));
    ValidationError::custom(string_of(&m))
}

/// The reply of an import that wrote all of its `total` rows.
pub fn all_rows_imported(total: usize) -> (r: crate::import::ImportResponse)
    ensures
        r.imported == total,
        r.updated == 0,
        r.failed == 0,
        r.errors@.len() == 0,
{
    crate::import::import_response(total, 0, Vec::new())
}

} // verus!

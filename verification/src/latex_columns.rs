//! Converting LaTeX columns to Unicode: which texts go to the converter,
//! which rows are cleared because they cite, what is written back and what
//! is reported.
use vstd::prelude::*;
use crate::full_import::{ColumnConvertResult, ConvertOutcome, LatexConvertError, LatexConvertReport};
use crate::latex_citations::{subst_spec, substitute_citations_checked, CitationMap};
use crate::text::strs_of;

verus! {

/// The `(id, LaTeX)` rows of one column, named by table and Unicode column.
pub struct ColumnBatch {
    pub table: &'static str,
    pub column: &'static str,
    pub rows: Vec<(i64, String)>,
}

/// The texts of some rows, in order.
pub open spec fn row_texts(rows: Seq<(i64, String)>) -> Seq<Seq<char>> {
    Seq::new(rows.len(), |i: int| rows[i].1@)
}

/// The texts of all batches, batch after batch.
pub open spec fn batches_texts(bs: Seq<ColumnBatch>) -> Seq<Seq<char>>
    decreases bs.len(),
{
    if bs.len() == 0 {
        Seq::empty()
    } else {
        batches_texts(bs.drop_last()) + row_texts(bs.last().rows@)
    }
}

/// The texts of all batches, batch after batch (one citation pass for all).
pub fn column_texts(batches: &Vec<ColumnBatch>) -> (r: Vec<String>)
    ensures
        strs_of(r@) == batches_texts(batches@),
{
    let mut out: Vec<String> = Vec::new();
    let mut b: usize = 0;
    assert(batches@.take(0) =~= Seq::<ColumnBatch>::empty());
    assert(strs_of(out@) =~= Seq::<Seq<char>>::empty());
    while b < batches.len()
        invariant
            b <= batches.len(),
            strs_of(out@) == batches_texts(batches@.take(b as int)),
        decreases batches.len() - b,
    {
        let ghost start = strs_of(out@);
        let rows = &batches[b].rows;
        let mut j: usize = 0;
        while j < rows.len()
            invariant
                j <= rows.len(),
                strs_of(out@) == start + row_texts(rows@).take(j as int),
            decreases rows.len() - j,
        {
            let t = rows[j].1.clone();
            let ghost before = strs_of(out@);
            assert(t@ == rows@[j as int].1@);
            out.push(t);
            assert(strs_of(out@) =~= before.push(rows@[j as int].1@));
            assert(strs_of(out@) =~= start + row_texts(rows@).take(j + 1));
            j += 1;
        }
        assert(row_texts(rows@).take(rows.len() as int) =~= row_texts(rows@));
        assert(batches@.take(b + 1).drop_last() =~= batches@.take(b as int));
        assert(batches@.take(b + 1).last() == batches@[b as int]);
        b += 1;
    }
    assert(batches@.take(batches.len() as int) =~= batches@);
    out
}

/// A text with its citations substituted, or none when it cites: such a
/// text is cleared rather than converted.
pub open spec fn tainted_text(t: Seq<char>, m: Map<Seq<char>, crate::latex_citations::CitationView>) -> Option<Seq<char>> {
    let (s, cites) = subst_spec(t, m);
    if cites {
        None
    } else {
        Some(s)
    }
}

/// Every text with its citations substituted, or none when it cites.
pub fn taint_texts(texts: &Vec<String>, resolved: &CitationMap) -> (r: Vec<Option<String>>)
    ensures
        r.len() == texts.len(),
        forall|i: int| 0 <= i < texts.len() ==> crate::csv_parsing::types::opt_str_view(#[trigger] r@[i]) == tainted_text(texts@[i]@, resolved@),
{
    let mut out: Vec<Option<String>> = Vec::new();
    let mut i: usize = 0;
    while i < texts.len()
        invariant
            i <= texts.len(),
            out.len() == i,
            forall|k: int| 0 <= k < i ==> crate::csv_parsing::types::opt_str_view(#[trigger] out@[k]) == tainted_text(texts@[k]@, resolved@),
        decreases texts.len() - i,
    {
        let (s, cites) = substitute_citations_checked(texts[i].as_str(), resolved);
        if cites {
            out.push(None);
        } else {
            out.push(Some(s));
        }
        i += 1;
    }
    out
}

/// A converter outcome as plain values.
pub open spec fn outcome_view(o: ConvertOutcome) -> Result<Seq<char>, Seq<char>> {
    match o {
        ConvertOutcome::Converted(u) => Ok(u@),
        ConvertOutcome::Failed { message, .. } => Err(message@),
    }
}

/// How many rows and outcomes are paired: as far as both go.
pub open spec fn paired_len(rows: Seq<(i64, String)>, outs: Seq<ConvertOutcome>) -> nat {
    if rows.len() < outs.len() {
        rows.len()
    } else {
        outs.len()
    }
}

/// The writes of the first `k` paired rows of a column: converted values
/// and cleared ids; the rows of failed conversions are written nowhere.
pub open spec fn writes_upto(
    rows: Seq<(i64, String)>,
    pre: Seq<Option<String>>,
    outs: Seq<ConvertOutcome>,
    k: nat,
) -> (Seq<(i64, Seq<char>)>, Seq<i64>)
    decreases k,
{
    if k == 0 {
        (Seq::empty(), Seq::empty())
    } else {
        let (ok, nulls) = writes_upto(rows, pre, outs, (k - 1) as nat);
        let i = k - 1;
        if pre[i] is None {
            (ok, nulls.push(rows[i].0))
        } else {
            match outcome_view(outs[i]) {
                Ok(u) => (ok.push((rows[i].0, u)), nulls),
                Err(_) => (ok, nulls),
            }
        }
    }
}

/// The failed conversions among the first `k` paired rows of a column.
pub open spec fn errors_upto(
    rows: Seq<(i64, String)>,
    pre: Seq<Option<String>>,
    outs: Seq<ConvertOutcome>,
    k: nat,
) -> Seq<(i64, Seq<char>)>
    decreases k,
{
    if k == 0 {
        Seq::empty()
    } else {
        let prev = errors_upto(rows, pre, outs, (k - 1) as nat);
        let i = k - 1;
        if pre[i] is None {
            prev
        } else {
            match outcome_view(outs[i]) {
                Ok(_) => prev,
                Err(m) => prev.push((rows[i].0, m)),
            }
        }
    }
}

/// The writes of one column as plain values.
pub open spec fn writes_view(w: (Vec<(i64, String)>, Vec<i64>)) -> (Seq<(i64, Seq<char>)>, Seq<i64>) {
    (Seq::new(w.0.len() as nat, |i: int| (w.0@[i].0, w.0@[i].1@)), w.1@)
}

/// The writes and the failed conversions of one column. `pre` holds the
/// column's texts after citation substitution (none for a citing text),
/// `outcomes` the converter's answers for them; rows and outcomes are
/// paired in order, as far as both go.
pub fn column_writes(
    batch: &ColumnBatch,
    pre: &[Option<String>],
    outcomes: Vec<ConvertOutcome>,
) -> (r: ((Vec<(i64, String)>, Vec<i64>), Vec<LatexConvertError>))
    requires
        pre.len() >= batch.rows.len(),
    ensures
        writes_view(r.0) == writes_upto(batch.rows@, pre@, outcomes@, paired_len(batch.rows@, outcomes@)),
        r.1.len() == errors_upto(batch.rows@, pre@, outcomes@, paired_len(batch.rows@, outcomes@)).len(),
        forall|i: int| 0 <= i < r.1.len() ==> (#[trigger] r.1@[i]).entity@ == batch.table@ && r.1@[i].field@ == batch.column@
            && (r.1@[i].id, r.1@[i].error@) == errors_upto(batch.rows@, pre@, outcomes@, paired_len(batch.rows@, outcomes@))[i],
{
    let ghost outs0 = outcomes@;
    let rows = &batch.rows;
    let n: usize = if rows.len() < outcomes.len() { rows.len() } else { outcomes.len() };
    let mut ok: Vec<(i64, String)> = Vec::new();
    let mut nulls: Vec<i64> = Vec::new();
    let mut errors: Vec<LatexConvertError> = Vec::new();
    let mut rest = outcomes;
    let mut j: usize = 0;
    assert(writes_view((ok, nulls)) =~= writes_upto(rows@, pre@, outs0, 0));
    assert(rest@ =~= outs0.skip(0));
    while j < n
        invariant
            j <= n,
            n == paired_len(rows@, outs0),
            pre.len() >= rows.len(),
            rest@ == outs0.skip(j as int),
            writes_view((ok, nulls)) == writes_upto(rows@, pre@, outs0, j as nat),
            errors.len() == errors_upto(rows@, pre@, outs0, j as nat).len(),
            forall|i: int| 0 <= i < errors.len() ==> (#[trigger] errors@[i]).entity@ == batch.table@ && errors@[i].field@ == batch.column@
                && (errors@[i].id, errors@[i].error@) == errors_upto(rows@, pre@, outs0, j as nat)[i],
        decreases n - j,
    {
        let outcome = rest.remove(0);
        proof {
            assert(outcome == outs0[j as int]);
            assert(rest@ =~= outs0.skip(j + 1));
        }
        let id = rows[j].0;
        let ghost ok_before = writes_view((ok, nulls)).0;
        let ghost nulls_before = nulls@;
        let ghost errs_before = errors_upto(rows@, pre@, outs0, j as nat);
        if pre[j].is_none() {
            nulls.push(id);
            assert(writes_view((ok, nulls)).0 =~= ok_before);
            assert(writes_view((ok, nulls)) =~= writes_upto(rows@, pre@, outs0, (j + 1) as nat));
        } else {
            match outcome {
                ConvertOutcome::Converted(unicode) => {
                    let ghost u = unicode@;
                    ok.push((id, unicode));
                    assert(writes_view((ok, nulls)).0 =~= ok_before.push((id, u)));
                    assert(writes_view((ok, nulls)) =~= writes_upto(rows@, pre@, outs0, (j + 1) as nat));
                },
                ConvertOutcome::Failed { message, .. } => {
                    errors.push(LatexConvertError { entity: batch.table, field: batch.column, id, error: message });
                    assert(writes_view((ok, nulls)).0 =~= ok_before);
                    assert(writes_view((ok, nulls)) =~= writes_upto(rows@, pre@, outs0, (j + 1) as nat));
                    assert forall|i: int| 0 <= i < errors.len() implies (#[trigger] errors@[i]).entity@ == batch.table@ && errors@[i].field@ == batch.column@
                        && (errors@[i].id, errors@[i].error@) == errors_upto(rows@, pre@, outs0, (j + 1) as nat)[i] by {
                        if i < errs_before.len() {
                            assert(errors_upto(rows@, pre@, outs0, (j + 1) as nat)[i] == errs_before[i]);
                        }
                    }
                },
            }
        }
        j += 1;
    }
    ((ok, nulls), errors)
}

/// The sum of the counts.
pub open spec fn sum_counts(cs: Seq<usize>) -> int
    decreases cs.len(),
{
    if cs.len() == 0 {
        0
    } else {
        sum_counts(cs.drop_last()) + cs.last()
    }
}

/// The report of a conversion: one result per column with its write count
/// (columns and counts paired in order), their total, the failed
/// conversions and the citation keys that could not be resolved.
pub fn convert_report(
    batches: &Vec<ColumnBatch>,
    write_counts: &Vec<usize>,
    errors: Vec<LatexConvertError>,
    missing_citation_keys: Vec<String>,
) -> (r: LatexConvertReport)
    requires
        sum_counts(write_counts@) <= usize::MAX,
    ensures
        r.total_updated == sum_counts(write_counts@),
        r.columns.len() == (if batches.len() < write_counts.len() { batches.len() } else { write_counts.len() }),
        forall|i: int| 0 <= i < r.columns.len() ==> (#[trigger] r.columns@[i]).entity@ == batches@[i].table@
            && r.columns@[i].field@ == batches@[i].column@ && r.columns@[i].updated == write_counts@[i],
        r.errors@ == errors@,
        strs_of(r.missing_citation_keys@) == strs_of(missing_citation_keys@),
{
    let mut total: usize = 0;
    let mut i: usize = 0;
    assert(write_counts@.take(0) =~= Seq::<usize>::empty());
    while i < write_counts.len()
        invariant
            i <= write_counts.len(),
            sum_counts(write_counts@) <= usize::MAX,
            total == sum_counts(write_counts@.take(i as int)),
        decreases write_counts.len() - i,
    {
        assert(write_counts@.take(i + 1).drop_last() =~= write_counts@.take(i as int));
        proof {
            lemma_sum_prefix(write_counts@, i + 1);
        }
        total = total + write_counts[i];
        i += 1;
    }
    assert(write_counts@.take(write_counts.len() as int) =~= write_counts@);
    let n: usize = if batches.len() < write_counts.len() { batches.len() } else { write_counts.len() };
    let mut columns: Vec<ColumnConvertResult> = Vec::new();
    let mut k: usize = 0;
    while k < n
        invariant
            k <= n,
            n <= batches.len(),
            n <= write_counts.len(),
            columns.len() == k,
            forall|j: int| 0 <= j < k ==> (#[trigger] columns@[j]).entity@ == batches@[j].table@
                && columns@[j].field@ == batches@[j].column@ && columns@[j].updated == write_counts@[j],
        decreases n - k,
    {
        columns.push(ColumnConvertResult { entity: batches[k].table, field: batches[k].column, updated: write_counts[k] });
        k += 1;
    }
    LatexConvertReport { columns, total_updated: total, errors, missing_citation_keys }
}

proof fn lemma_sum_prefix(cs: Seq<usize>, k: int)
    requires
        0 <= k <= cs.len(),
    ensures
        0 <= sum_counts(cs.take(k)) <= sum_counts(cs),
    decreases cs.len(),
{
    if cs.len() > 0 {
        if k == cs.len() {
            assert(cs.take(k) =~= cs);
            lemma_sum_prefix(cs.drop_last(), k - 1);
            assert(cs.drop_last().take(k - 1) =~= cs.drop_last().take(k - 1));
        } else {
            lemma_sum_prefix(cs.drop_last(), k);
            assert(cs.drop_last().take(k) =~= cs.take(k));
        }
    }
}

} // verus!

use alexandria_nexus::full_import::ConvertOutcome;
use alexandria_nexus::latex_citations::{collect_cite_keys, finish_pre_compile, CitationData, CitationMap};
use alexandria_nexus::latex_columns::{column_texts, column_writes, convert_report, taint_texts, ColumnBatch};

fn s(v: &str) -> String {
    v.to_string()
}

fn identity(texts: &[Option<String>]) -> Vec<ConvertOutcome> {
    texts.iter().map(|t| ConvertOutcome::Converted(t.clone().unwrap_or_default())).collect()
}

#[test]
fn clean_text_goes_to_updates_and_citing_text_is_cleared() {
    let mut db = CitationMap::new();
    db.insert("smith:2000", CitationData { author: Some(s("Smith")), year: Some(2000) });
    let batch = ColumnBatch {
        table: "bibitems",
        column: "title_unicode",
        rows: vec![(10, s(r"Review of \citet{smith:2000}")), (11, s("Plain title")), (12, s(r"\citet{ghost:1}"))],
    };
    let batches = vec![batch];
    let texts = column_texts(&batches);
    assert_eq!(texts.len(), 3);
    let pre = taint_texts(&texts, &db);
    assert_eq!(pre, vec![None, Some(s("Plain title")), None]);
    let outcomes = identity(&pre);
    let ((ok, nulls), errors) = column_writes(&batches[0], &pre, outcomes);
    assert_eq!(ok, vec![(11, s("Plain title"))]);
    assert_eq!(nulls, vec![10, 12]);
    assert!(errors.is_empty());
}

#[test]
fn converter_errors_are_collected_not_written() {
    let batch = ColumnBatch { table: "journals", column: "name_unicode", rows: vec![(99, s("broken{latex"))] };
    let pre = vec![Some(s("broken{latex"))];
    let outcomes = vec![ConvertOutcome::Failed { original: s("broken{latex"), message: s("bad latex") }];
    let ((ok, nulls), errors) = column_writes(&batch, &pre, outcomes);
    assert!(ok.is_empty());
    assert!(nulls.is_empty());
    assert_eq!(errors.len(), 1);
    assert_eq!(errors[0].id, 99);
    assert_eq!(errors[0].error, "bad latex");
    assert_eq!(errors[0].entity, "journals");
    assert_eq!(errors[0].field, "name_unicode");
}

#[test]
fn texts_of_several_columns_in_order() {
    let batches = vec![
        ColumnBatch { table: "authors", column: "family_name_unicode", rows: vec![(1, s("Müller")), (2, s("García"))] },
        ColumnBatch { table: "authors", column: "given_name_unicode", rows: vec![(1, s("Hans")), (2, s("Luis"))] },
    ];
    assert_eq!(column_texts(&batches), vec![s("Müller"), s("García"), s("Hans"), s("Luis")]);
    let report = convert_report(&batches, &vec![2, 1], vec![], vec![s("k:1")]);
    assert_eq!(report.total_updated, 3);
    assert_eq!(report.columns.len(), 2);
    assert_eq!(report.columns[1].field, "given_name_unicode");
    assert_eq!(report.columns[1].updated, 1);
    assert_eq!(report.missing_citation_keys, vec![s("k:1")]);
}

#[test]
fn empty_batches_empty_report() {
    let batches: Vec<ColumnBatch> = vec![];
    assert!(column_texts(&batches).is_empty());
    let report = convert_report(&batches, &vec![], vec![], vec![]);
    assert_eq!(report.total_updated, 0);
    assert!(report.columns.is_empty());
    assert!(report.errors.is_empty());
}

type WriteCall = (String, String, Vec<(i64, String)>, Vec<i64>);

/// Runs the conversion of all columns: citations are resolved from `db`,
/// the converter hands back every text (or fails on every text), and each
/// column is written in turn by a writer that counts what it is given.
fn run_conversion(
    batches: &Vec<ColumnBatch>,
    db: &[(&str, CitationData)],
    converter_fails: bool,
) -> (Vec<WriteCall>, alexandria_nexus::full_import::LatexConvertReport) {
    let texts = column_texts(batches);
    let keys = collect_cite_keys(&texts);
    let mut resolved = CitationMap::new();
    for (k, d) in db {
        if keys.iter().any(|x| x == k) {
            resolved.insert(k, CitationData { author: d.author.clone(), year: d.year });
        }
    }
    let (_, missing) = finish_pre_compile(&texts, &keys, &resolved);
    let pre = taint_texts(&texts, &resolved);
    let mut calls: Vec<WriteCall> = Vec::new();
    let mut counts: Vec<usize> = Vec::new();
    let mut errors = Vec::new();
    let mut offset = 0;
    for b in batches {
        let n = b.rows.len();
        let slice = &pre[offset..offset + n];
        let outcomes: Vec<ConvertOutcome> = if converter_fails {
            slice
                .iter()
                .map(|t| ConvertOutcome::Failed { original: t.clone().unwrap_or_default(), message: s("bad latex") })
                .collect()
        } else {
            identity(slice)
        };
        let ((ok, nulls), errs) = column_writes(b, slice, outcomes);
        counts.push(ok.len() + nulls.len());
        calls.push((b.table.to_string(), b.column.to_string(), ok, nulls));
        errors.extend(errs);
        offset += n;
    }
    let report = convert_report(batches, &counts, errors, missing);
    (calls, report)
}

#[test]
fn clean_text_goes_to_ok_updates() {
    let batches = vec![ColumnBatch { table: "journals", column: "name_unicode", rows: vec![(1, s("Journal of Philosophy"))] }];
    let (calls, _) = run_conversion(&batches, &[], false);
    assert_eq!(calls.len(), 1);
    let (_, _, updates, null_ids) = &calls[0];
    assert_eq!(updates, &[(1i64, s("Journal of Philosophy"))]);
    assert!(null_ids.is_empty());
}

#[test]
fn cite_command_taints_row_to_null_ids() {
    let batches = vec![ColumnBatch {
        table: "bibitems",
        column: "title_unicode",
        rows: vec![(10, s(r"Review of \citet{smith:2000}")), (11, s("Plain title"))],
    }];
    let db = [("smith:2000", CitationData { author: Some(s("Smith")), year: Some(2000) })];
    let (calls, _) = run_conversion(&batches, &db, false);
    let (_, _, updates, null_ids) = &calls[0];
    assert_eq!(null_ids, &[10i64]);
    assert_eq!(updates.len(), 1);
    assert_eq!(updates[0].0, 11);
}

#[test]
fn missing_cite_key_also_taints_row() {
    let batches = vec![ColumnBatch { table: "bibitems", column: "title_unicode", rows: vec![(5, s(r"See \citet{ghost:1999}"))] }];
    let (calls, report) = run_conversion(&batches, &[], false);
    let (_, _, updates, null_ids) = &calls[0];
    assert_eq!(null_ids, &[5i64]);
    assert!(updates.is_empty());
    assert!(report.missing_citation_keys.contains(&s("ghost:1999")));
}

#[test]
fn converter_error_is_collected_not_written() {
    let batches = vec![ColumnBatch { table: "journals", column: "name_unicode", rows: vec![(99, s("broken{latex"))] }];
    let (calls, report) = run_conversion(&batches, &[], true);
    let (_, _, updates, null_ids) = &calls[0];
    assert!(updates.is_empty());
    assert!(null_ids.is_empty());
    assert_eq!(report.errors.len(), 1);
    assert_eq!(report.errors[0].id, 99);
    assert_eq!(report.errors[0].error, "bad latex");
}

#[test]
fn multi_column_rows_sliced_correctly() {
    let batches = vec![
        ColumnBatch { table: "authors", column: "family_name_unicode", rows: vec![(1, s("Müller")), (2, s("García"))] },
        ColumnBatch { table: "authors", column: "given_name_unicode", rows: vec![(1, s("Hans")), (2, s("Luis"))] },
    ];
    let (calls, _) = run_conversion(&batches, &[], false);
    assert_eq!(calls.len(), 2);
    let (_, col0, updates0, _) = &calls[0];
    assert_eq!(col0, "family_name_unicode");
    assert_eq!(updates0.len(), 2);
    assert_eq!(updates0[0], (1i64, s("Müller")));
    assert_eq!(updates0[1], (2i64, s("García")));
    let (_, col1, updates1, _) = &calls[1];
    assert_eq!(col1, "given_name_unicode");
    assert_eq!(updates1.len(), 2);
    assert_eq!(updates1[0], (1i64, s("Hans")));
    assert_eq!(updates1[1], (2i64, s("Luis")));
}

#[test]
fn writes_are_sequential_in_batch_order() {
    let batches = vec![
        ColumnBatch { table: "t", column: "col_a", rows: vec![(1, s("a"))] },
        ColumnBatch { table: "t", column: "col_b", rows: vec![(2, s("b"))] },
        ColumnBatch { table: "t", column: "col_c", rows: vec![(3, s("c"))] },
    ];
    let (calls, _) = run_conversion(&batches, &[], false);
    let columns: Vec<&str> = calls.iter().map(|(_, c, _, _)| c.as_str()).collect();
    assert_eq!(columns, ["col_a", "col_b", "col_c"]);
}

#[test]
fn total_updated_counts_both_ok_and_null() {
    let batches = vec![ColumnBatch {
        table: "bibitems",
        column: "title_unicode",
        rows: vec![(1, s(r"\citet{k:1}")), (2, s("Clean title"))],
    }];
    let db = [("k:1", CitationData { author: Some(s("K")), year: Some(2001) })];
    let (_, report) = run_conversion(&batches, &db, false);
    assert_eq!(report.total_updated, 2);
    assert_eq!(report.columns[0].updated, 2);
}

#[test]
fn empty_batches_produce_empty_report() {
    let batches: Vec<ColumnBatch> = vec![];
    let (calls, report) = run_conversion(&batches, &[], false);
    assert!(calls.is_empty());
    assert_eq!(report.total_updated, 0);
    assert!(report.errors.is_empty());
    assert!(report.missing_citation_keys.is_empty());
}

use alexandria_nexus::latex_citations::{collect_cite_keys, finish_pre_compile, CitationData, CitationMap};

fn cd(author: &str, year: i16) -> CitationData {
    CitationData { author: Some(author.to_string()), year: Some(year) }
}

fn s(v: &str) -> String {
    v.to_string()
}

/// Collect the keys, resolve those that `db` knows, substitute.
fn pre_compile(texts: &[String], db: &[(&str, CitationData)]) -> (Vec<String>, Vec<String>) {
    let keys = collect_cite_keys(texts);
    let mut resolved = CitationMap::new();
    for (k, d) in db {
        if keys.iter().any(|x| x == k) {
            resolved.insert(k, CitationData { author: d.author.clone(), year: d.year });
        }
    }
    finish_pre_compile(texts, &keys, &resolved)
}

#[test]
fn empty_texts_no_db_call() {
    assert!(collect_cite_keys(&[]).is_empty());
    let (texts, missing) = pre_compile(&[], &[]);
    assert!(texts.is_empty());
    assert!(missing.is_empty());
}

#[test]
fn no_cite_keys_returns_texts_unchanged() {
    let input = vec![s("plain text"), s("no citations here")];
    let (texts, missing) = pre_compile(&input, &[]);
    assert_eq!(texts, vec![s("plain text"), s("no citations here")]);
    assert!(missing.is_empty());
}

#[test]
fn empty_cite_command_has_no_keys() {
    let input = vec![s(r"\cite{}")];
    assert!(collect_cite_keys(&input).is_empty());
    let (texts, missing) = pre_compile(&input, &[]);
    assert_eq!(texts, input);
    assert!(missing.is_empty());
}

#[test]
fn resolved_cite_substituted_into_text() {
    let input = vec![s(r"Review of \citet{smith:2000}")];
    let (texts, missing) = pre_compile(&input, &[("smith:2000", cd("Smith", 2000))]);
    assert_eq!(texts, vec![s("Review of Smith (2000)")]);
    assert!(missing.is_empty());
}

#[test]
fn missing_key_renders_empty_and_is_reported() {
    let input = vec![s(r"See \citet{ghost:1999}.")];
    let (texts, missing) = pre_compile(&input, &[]);
    assert_eq!(texts, vec![s("See .")]);
    assert_eq!(missing, vec!["ghost:1999"]);
}

#[test]
fn same_key_across_multiple_texts_both_substituted() {
    let input = vec![s(r"First \citet{a:1}."), s(r"Second \citet{a:1} again.")];
    let (texts, missing) = pre_compile(&input, &[("a:1", cd("A", 2001))]);
    assert_eq!(texts[0], s("First A (2001)."));
    assert_eq!(texts[1], s("Second A (2001) again."));
    assert!(missing.is_empty());
}

#[test]
fn missing_keys_deduplicated_across_texts() {
    let input = vec![s(r"\citet{ghost:1}"), s(r"\citet{ghost:1} again")];
    let (_, missing) = pre_compile(&input, &[]);
    assert_eq!(missing.len(), 1);
    assert_eq!(missing[0], "ghost:1");
}

#[test]
fn partial_missing_renders_partial_text() {
    let input = vec![s(r"\citet{known:2000} and \citet{missing:x}")];
    let (texts, missing) = pre_compile(&input, &[("known:2000", cd("Known", 2000))]);
    assert_eq!(texts, vec![s("Known (2000) and ")]);
    assert_eq!(missing, vec!["missing:x"]);
}

#[test]
fn collected_keys_in_first_appearance_order() {
    let input = vec![s(r"\citet{b:2,a:1}"), s(r"\cite{a:1} \cite{c:3}")];
    assert_eq!(collect_cite_keys(&input), vec!["b:2", "a:1", "c:3"]);
}

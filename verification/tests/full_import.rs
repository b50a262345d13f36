use alexandria_nexus::csv_parsing::types::{
    DateRangeSeparator, FieldError, ParsedAuthor, ParsedDate, ParsedKeywords,
};
use alexandria_nexus::domain::{AuthorRole, EntryType, RefType};
use alexandria_nexus::full_import::{
    apply_date_to_dto, assemble_validation_report, build_bibitem_dto, collect_author_junction_rows,
    collect_keyword_junction_rows, collect_ref_rows, filter_importable_rows, generate_key,
    key_from_lowered, resolve_person_id, AuthorLookupResult, AuthorMap, AuthorNameKey,
    CollectedNames, KeywordMap, LookupMaps, ParsedBibRow, ResolutionCtx, RowError, VariantInfo,
};
use alexandria_nexus::keymap::{StrMap, StrSet};

fn empty_ctx() -> ResolutionCtx {
    ResolutionCtx {
        author_resolve: AuthorMap::new(),
        author_key_resolve: AuthorMap::new(),
        author_variants: AuthorMap::new(),
        famous_person_resolve: StrMap::new(),
        famous_person_key_resolve: StrMap::new(),
        journal_map: StrMap::new(),
        publisher_map: StrMap::new(),
        institution_map: StrMap::new(),
        school_map: StrMap::new(),
        series_map: StrMap::new(),
        keyword_map: KeywordMap::new(),
        existing_bibkeys: StrSet::new(),
    }
}

fn ctx_with_famous(famous: &[(&str, i64)]) -> ResolutionCtx {
    let mut ctx = empty_ctx();
    for (name, id) in famous {
        ctx.famous_person_resolve.insert(name, *id);
    }
    ctx
}

fn mononym(m: &str) -> ParsedAuthor {
    ParsedAuthor::Mononym(m.to_string())
}

fn named(family: &str, given: &str) -> ParsedAuthor {
    ParsedAuthor::Named { family_name: family.to_string(), given_name: Some(given.to_string()) }
}

#[test]
fn person_resolved_by_famous_mononym() {
    let ctx = ctx_with_famous(&[("Aristotle", 1)]);
    assert_eq!(resolve_person_id(&mononym("Aristotle"), &ctx), Some(1));
}

#[test]
fn person_resolved_by_famous_family_name() {
    // Famous named author indexed by family name
    let ctx = ctx_with_famous(&[("Kierkegaard", 42)]);
    assert_eq!(resolve_person_id(&mononym("Kierkegaard"), &ctx), Some(42));
}

#[test]
fn person_not_famous_returns_none() {
    let ctx = ctx_with_famous(&[("Kant", 1)]);
    assert_eq!(resolve_person_id(&mononym("Müller"), &ctx), None);
}

#[test]
fn person_not_found_returns_none() {
    let ctx = ctx_with_famous(&[("Aristotle", 1)]);
    assert_eq!(resolve_person_id(&mononym("Plato"), &ctx), None);
}

#[test]
fn person_empty_famous_map_returns_none() {
    let ctx = ctx_with_famous(&[]);
    assert_eq!(resolve_person_id(&mononym("Kant"), &ctx), None);
}

#[test]
fn basic_lowercase() {
    assert_eq!(generate_key("MIT"), "mit");
}

#[test]
fn spaces_become_single_underscore() {
    assert_eq!(generate_key("University of Toronto"), "university_of_toronto");
}

#[test]
fn parens_dont_produce_double_underscore() {
    assert_eq!(
        generate_key("COINS (University of Massachusetts)"),
        "coins_university_of_massachusetts"
    );
}

#[test]
fn leading_trailing_special_chars_trimmed() {
    assert_eq!(generate_key("(MIT)"), "mit");
}

#[test]
fn multiple_consecutive_separators_collapsed() {
    assert_eq!(generate_key("A  --  B"), "a_b");
}

// ---------------------------------------------------------------------------
// Keys
// ---------------------------------------------------------------------------

#[test]
fn key_from_lowered_keeps_case_and_unicode_letters() {
    assert_eq!(key_from_lowered("École_normale"), "École_normale");
    assert_eq!(key_from_lowered("__"), "");
    assert_eq!(key_from_lowered(""), "");
    assert_eq!(key_from_lowered("a1 b2"), "a1_b2");
}

#[test]
fn generate_key_lowercases_unicode() {
    assert_eq!(generate_key("Université Paris-Sorbonne"), "université_paris_sorbonne");
}

// ---------------------------------------------------------------------------
// Rows
// ---------------------------------------------------------------------------

fn row(bibkey: &str) -> ParsedBibRow {
    ParsedBibRow {
        bibkey: bibkey.to_string(),
        entry_type: EntryType::Article,
        authors: vec![],
        editors: vec![],
        guesteditors: vec![],
        person: None,
        date: ParsedDate::NoDate,
        pubstate: None,
        title: "A title".to_string(),
        booktitle: None,
        journal_name: None,
        publisher_name: None,
        institution_name: None,
        school_name: None,
        series_name: None,
        crossref_bibkey: None,
        keywords: ParsedKeywords { level_1: vec![], level_2: vec![], level_3: vec![] },
        volume: None,
        number: None,
        pages: None,
        eid: None,
        address: None,
        type_field: None,
        edition: None,
        note: None,
        issuetitle: None,
        extra_note: None,
        shorthand: None,
        note_perso: None,
        note_stock: None,
        note_missing: None,
        change_request: None,
        dltc_copyediting_note: None,
        todo_general: None,
        options: None,
        doi: None,
        url: None,
        eprint: None,
        urn: None,
        epoch: None,
        langid: None,
        is_translation: false,
        has_fulltext: false,
        license: None,
    }
}

#[test]
fn build_dto_resolves_names_and_computes_start_page() {
    let mut ctx = empty_ctx();
    ctx.journal_map.insert("Dialectica", "dialectica".to_string());
    ctx.famous_person_key_resolve.insert("Kant", "kant_i".to_string());
    let mut r = row("kant:1781");
    r.journal_name = Some("Dialectica".to_string());
    r.publisher_name = Some("Unknown Press".to_string());
    r.person = Some(named("Kant", "Immanuel"));
    r.pages = Some("xii--xiv".to_string());
    r.date = ParsedDate::YearRange { year: 1781, year2: 1787, separator: DateRangeSeparator::Slash };
    let dto = build_bibitem_dto(&r, &ctx).unwrap();
    assert_eq!(dto.journal_key, Some("dialectica".to_string()));
    assert_eq!(dto.publisher_key, None);
    assert_eq!(dto.person_key, Some("kant_i".to_string()));
    assert_eq!(dto.start_page, Some(12));
    assert_eq!(dto.date_year, Some(1781));
    assert_eq!(dto.date_year_2_slash, Some(1787));
    assert_eq!(dto.date_year_2_hyphen, None);
    assert_eq!(dto.title_latex, "A title");
    assert_eq!(dto.crossref, None);
    assert!(!dto.date_is_no_date);
}

#[test]
fn apply_date_variants() {
    let ctx = empty_ctx();
    let mut dto = build_bibitem_dto(&row("x"), &ctx).unwrap();
    assert!(dto.date_is_no_date);
    apply_date_to_dto(&ParsedDate::FullDate { year: 2020, month: 3, day: 9 }, &mut dto);
    assert_eq!((dto.date_year, dto.date_month, dto.date_day), (Some(2020), Some(3), Some(9)));
    apply_date_to_dto(&ParsedDate::YearRange { year: 1990, year2: 1991, separator: DateRangeSeparator::Hyphen }, &mut dto);
    assert_eq!((dto.date_year, dto.date_year_2_hyphen), (Some(1990), Some(1991)));
    assert_eq!(dto.date_month, Some(3));
}

#[test]
fn collected_names_of_a_row() {
    let mut r = row("a:1");
    r.authors = vec![named("Smith", "Jane")];
    r.editors = vec![named("Smith", "Jane"), mononym("Plato")];
    r.title = r"On \citet{b:2}".to_string();
    r.note = Some(r"see \citep{c:3}".to_string());
    r.extra_note = Some(r"\cite{d:4}".to_string());
    r.crossref_bibkey = Some("e:5".to_string());
    r.keywords = ParsedKeywords { level_1: vec!["Ethics".to_string()], level_2: vec![], level_3: vec![] };
    let mut c = CollectedNames::default();
    c.collect_from_row(&r);
    assert_eq!(c.authors.len(), 2);
    assert!(c.further_ref_bibkeys.contains(&"b:2".chars().collect()));
    assert!(c.further_ref_bibkeys.contains(&"c:3".chars().collect()));
    assert!(!c.further_ref_bibkeys.contains(&"d:4".chars().collect()));
    assert!(c.depends_on_bibkeys.contains(&"d:4".chars().collect()));
    assert!(c.depends_on_bibkeys.contains(&"e:5".chars().collect()));
    assert!(c.crossref_bibkeys.contains(&"e:5".chars().collect()));
    assert!(c.keywords_l1.contains(&"Ethics".chars().collect()));
}

fn maps() -> LookupMaps {
    LookupMaps {
        authors: AuthorLookupResult {
            id_map: AuthorMap::new(),
            key_map: AuthorMap::new(),
            variant_map: AuthorMap::new(),
            famous_person_map: StrMap::new(),
            famous_person_key_map: StrMap::new(),
        },
        journals: StrMap::new(),
        publishers: StrMap::new(),
        institutions: StrMap::new(),
        schools: StrMap::new(),
        series: StrMap::new(),
        keywords: KeywordMap::new(),
        bibkeys: StrSet::new(),
    }
}

#[test]
fn validation_report_scenario() {
    let mut m = maps();
    m.authors.id_map.insert(AuthorNameKey::from_parsed(&named("Smith", "Jane")), vec![1, 2]);
    m.authors.id_map.insert(AuthorNameKey::from_parsed(&mononym("Plato")), vec![7]);
    m.journals.insert("Mind", "mind".to_string());
    m.keywords.insert("Ethics", 1, "ethics".to_string());
    m.bibkeys.insert("old:1");
    m.bibkeys.insert("b:1");
    let mut r1 = row("b:1");
    r1.authors = vec![named("Smith", "Jane"), mononym("Zeno"), named("Adams", "A")];
    r1.journal_name = Some("Nous".to_string());
    r1.keywords = ParsedKeywords {
        level_1: vec!["Ethics".to_string(), "Logic".to_string()],
        level_2: vec![],
        level_3: vec![],
    };
    r1.crossref_bibkey = Some("c:9".to_string());
    let mut r2 = row("a:1");
    r2.editors = vec![mononym("Plato")];
    r2.journal_name = Some("Mind".to_string());
    r2.title = r"\citet{old:1} and \citet{b:1}".to_string();
    let r3 = row("b:1");
    let errors = vec![RowError { row: 9, bibkey: None, errors: vec![] }];
    let rep = assemble_validation_report(&[r1, r2, r3], errors, &m);
    assert_eq!(rep.total_rows, 4);
    assert_eq!(rep.valid_rows, 3);
    assert_eq!(rep.errors.len(), 1);
    assert_eq!(rep.duplicate_bibkeys.len(), 1);
    assert_eq!(rep.duplicate_bibkeys[0].bibkey, "b:1");
    assert_eq!(rep.duplicate_bibkeys[0].rows, vec![2, 4]);
    assert_eq!(rep.missing_authors, vec!["Adams, A".to_string(), "Zeno".to_string()]);
    assert_eq!(rep.ambiguous_authors.len(), 1);
    assert_eq!(rep.ambiguous_authors[0].name, "Smith, Jane");
    assert_eq!(rep.ambiguous_authors[0].matching_ids, vec![1, 2]);
    assert_eq!(rep.missing_journals, vec!["Nous".to_string()]);
    assert_eq!(rep.missing_keywords.level_1, vec!["Logic".to_string()]);
    assert_eq!(rep.missing_crossrefs, vec!["c:9".to_string()]);
    assert!(rep.missing_further_refs.is_empty());
    assert_eq!(rep.stale_bibitems, vec!["old:1".to_string()]);
    assert!(rep.has_hard_errors());
    assert!(rep.has_issues());
}

#[test]
fn resolution_context_keeps_only_single_matches() {
    let mut m = maps();
    let jane = AuthorNameKey::from_parsed(&named("Smith", "Jane"));
    let plato = AuthorNameKey::from_parsed(&mononym("Plato"));
    m.authors.id_map.insert(jane.copy(), vec![1, 2]);
    m.authors.id_map.insert(plato.copy(), vec![7]);
    m.authors.key_map.insert(plato.copy(), vec!["plato".to_string()]);
    m.authors.famous_person_map.insert("Kant", vec![3]);
    m.authors.famous_person_map.insert("Smith", vec![4, 5]);
    let ctx = ResolutionCtx::from_lookup_maps(m);
    assert_eq!(ctx.author_resolve.get(&jane), None);
    assert_eq!(ctx.author_resolve.get(&plato), Some(&7));
    assert_eq!(ctx.author_key_resolve.get(&plato), Some(&"plato".to_string()));
    assert_eq!(ctx.famous_person_resolve.get_str("Kant"), Some(&3));
    assert_eq!(ctx.famous_person_resolve.get_str("Smith"), None);
}

#[test]
fn junction_rows_skip_unresolved() {
    let mut ctx = empty_ctx();
    let plato = AuthorNameKey::from_parsed(&mononym("Plato"));
    ctx.author_key_resolve.insert(plato.copy(), "plato".to_string());
    ctx.author_variants.insert(plato, VariantInfo { variant_latex: Some("Platon".to_string()), variant_unicode: None });
    ctx.keyword_map.insert("Ethics", 2, "ethics".to_string());
    let mut r = row("p:1");
    r.authors = vec![mononym("Zeno"), mononym("Plato")];
    r.editors = vec![mononym("Plato")];
    r.keywords = ParsedKeywords {
        level_1: vec!["Ethics".to_string()],
        level_2: vec!["Ethics".to_string()],
        level_3: vec![],
    };
    let a = collect_author_junction_rows(&[r], &ctx);
    assert_eq!(a.len(), 2);
    assert_eq!(a[0].author_key, "plato");
    assert_eq!(a[0].role, AuthorRole::Author);
    assert_eq!(a[0].position, 1);
    assert_eq!(a[0].variant_latex, Some("Platon".to_string()));
    assert_eq!(a[1].role, AuthorRole::Editor);
    assert_eq!(a[1].position, 0);
    let mut r2 = row("p:2");
    r2.keywords = ParsedKeywords {
        level_1: vec!["Ethics".to_string()],
        level_2: vec!["Ethics".to_string()],
        level_3: vec![],
    };
    let k = collect_keyword_junction_rows(&[r2], &ctx);
    assert_eq!(k.len(), 1);
    assert_eq!(k[0].keyword_key, "ethics");
    assert_eq!(k[0].keyword_level, 2);
}

#[test]
fn rows_with_unresolved_references_are_skipped() {
    let mut ctx = empty_ctx();
    ctx.author_resolve.insert(AuthorNameKey::from_parsed(&mononym("Plato")), 7);
    ctx.journal_map.insert("Mind", "mind".to_string());
    let mut ok = row("ok:1");
    ok.authors = vec![mononym("Plato")];
    ok.journal_name = Some("Mind".to_string());
    let mut bad = row("bad:1");
    bad.authors = vec![named("Doe", "J")];
    bad.person = Some(mononym("Kant"));
    bad.series_name = Some("Lost".to_string());
    let (importable, skipped) = filter_importable_rows(vec![ok, bad], &ctx);
    assert_eq!(importable.len(), 1);
    assert_eq!(importable[0].bibkey, "ok:1");
    assert_eq!(skipped.len(), 1);
    assert_eq!(skipped[0].row, 3);
    assert_eq!(skipped[0].bibkey, Some("bad:1".to_string()));
    let msgs: Vec<(String, String)> =
        skipped[0].errors.iter().map(|e: &FieldError| (e.field.clone(), e.error.clone())).collect();
    assert_eq!(
        msgs,
        vec![
            ("entity_reference".to_string(), "unresolved author: Doe, J".to_string()),
            ("entity_reference".to_string(), "unresolved person: Kant".to_string()),
            ("entity_reference".to_string(), "missing series: Lost".to_string()),
        ]
    );
}

#[test]
fn reference_rows_in_order() {
    let mut r = row("s:1");
    r.title = r"\citet{a:1,b:2}".to_string();
    r.note = Some(r"\cite{a:1}".to_string());
    r.extra_note = Some(r"\cite{c:3}".to_string());
    r.crossref_bibkey = Some("d:4".to_string());
    let refs = collect_ref_rows(&[r]);
    let got: Vec<(String, String, RefType)> =
        refs.iter().map(|x| (x.source_bibkey.clone(), x.target_bibkey.clone(), x.ref_type)).collect();
    assert_eq!(
        got,
        vec![
            ("s:1".to_string(), "a:1".to_string(), RefType::FurtherRef),
            ("s:1".to_string(), "b:2".to_string(), RefType::FurtherRef),
            ("s:1".to_string(), "a:1".to_string(), RefType::FurtherRef),
            ("s:1".to_string(), "c:3".to_string(), RefType::DependsOn),
            ("s:1".to_string(), "d:4".to_string(), RefType::DependsOn),
        ]
    );
}

// ---------------------------------------------------------------------------
// Steps of a full import
// ---------------------------------------------------------------------------

use alexandria_nexus::full_import::{
    build_all_bibitem_entities, count_updates, full_import_report, has_notes, keyword_error_label,
    notes_data, plan_entity_creation, stale_bibkeys, update_bibkeys, EntityImportReport,
    NamedEntityKind,
};

#[test]
fn entities_flag_updates_and_report_invalid_rows() {
    let mut ctx = empty_ctx();
    ctx.existing_bibkeys.insert("old:1");
    let mut bad = row("bad:1");
    bad.title = "  ".to_string();
    let rows = vec![row("old:1"), bad, row("new:1")];
    let (entities, errors) = build_all_bibitem_entities(&rows, &ctx);
    let flags: Vec<(bool, String)> = entities.iter().map(|(u, d)| (*u, d.bibkey.clone())).collect();
    assert_eq!(flags, vec![(true, "old:1".to_string()), (false, "new:1".to_string())]);
    assert_eq!(errors.len(), 1);
    assert_eq!(errors[0].row, 3);
    assert_eq!(errors[0].errors[0].field, "_validation");
    assert_eq!(errors[0].errors[0].error, "title_latex is required");
    assert_eq!(count_updates(&entities), (1, 1));
    assert_eq!(update_bibkeys(&entities), vec!["old:1".to_string()]);
}

#[test]
fn stale_keys_are_sorted_and_exclude_file_keys() {
    let mut existing = StrSet::new();
    existing.insert("c:1");
    existing.insert("a:1");
    existing.insert("b:1");
    assert_eq!(stale_bibkeys(&existing, &[row("b:1")]), vec!["a:1".to_string(), "c:1".to_string()]);
}

#[test]
fn notes_of_a_row() {
    let mut r = row("n:1");
    assert!(!has_notes(&r));
    r.todo_general = Some("check".to_string());
    assert!(has_notes(&r));
    let n = notes_data(&r);
    assert_eq!(n.todo_general, Some("check"));
    assert_eq!(n.note_perso, None);
}

#[test]
fn full_report_counts() {
    let e1 = RowError { row: 2, bibkey: None, errors: vec![] };
    let e2 = RowError { row: 5, bibkey: None, errors: vec![] };
    let e3 = RowError { row: 7, bibkey: None, errors: vec![] };
    let rep = full_import_report(3, 1, 2, vec![e1, e2], vec![e3]);
    assert_eq!((rep.imported, rep.updated, rep.deleted, rep.skipped, rep.failed), (3, 1, 2, 2, 1));
    let lines: Vec<usize> = rep.errors.iter().map(|e| e.row).collect();
    assert_eq!(lines, vec![2, 5, 7]);
}

#[test]
fn entity_creation_plan() {
    let mut m = maps();
    m.institutions.insert("MIT", "mit".to_string());
    m.keywords.insert("Ethics", 1, "ethics".to_string());
    let mut r = row("x:1");
    r.institution_name = Some("MIT".to_string());
    r.school_name = Some("École Normale".to_string());
    r.keywords = ParsedKeywords {
        level_1: vec!["Ethics".to_string(), "Logic".to_string()],
        level_2: vec!["Ethics".to_string()],
        level_3: vec![],
    };
    let mut c = CollectedNames::default();
    c.collect_from_row(&r);
    let plan = plan_entity_creation(&c, &m);
    assert!(plan.institutions.is_empty());
    assert_eq!(plan.schools, vec![("école_normale".to_string(), "École Normale".to_string())]);
    assert_eq!(plan.keywords, vec![("Logic".to_string(), 1), ("Ethics".to_string(), 2)]);
    assert_eq!(keyword_error_label("Logic", 1), "Logic (level 1)");
}

#[test]
fn entity_report_counts_successes_and_records_failures() {
    let mut rep = EntityImportReport::new();
    rep.record(NamedEntityKind::School, "ENS".to_string(), Ok(()));
    rep.record(NamedEntityKind::Keyword, "Logic (level 1)".to_string(), Ok(()));
    rep.record(NamedEntityKind::Keyword, "Ethics (level 2)".to_string(), Ok(()));
    rep.record(NamedEntityKind::Series, "Mind".to_string(), Err("duplicate key".to_string()));
    assert_eq!(
        (rep.created_institutions, rep.created_schools, rep.created_series, rep.created_keywords),
        (0, 1, 0, 2)
    );
    assert_eq!(rep.errors.len(), 1);
    assert_eq!(rep.errors[0].entity_type, NamedEntityKind::Series);
    assert_eq!(rep.errors[0].name, "Mind");
    assert_eq!(rep.errors[0].error, "duplicate key");
}

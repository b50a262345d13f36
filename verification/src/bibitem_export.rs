//! Bibitems written out as CSV rows or BibTeX entries.
use vstd::prelude::*;
use crate::domain::{BibItem, entry_type_name};
use crate::export::opt_int_text;
use crate::import::{ids_of, parse_ids_chars};
use crate::numeric::{int_chars, int_str};
use crate::csv_parsing::types::opt_str_view;
use crate::text::{
    chars_of, contains_seq, extend, extend_str, has_char, join, join_chars, lemma_find, matches_at, seqs_of, split,
    string_of,
};

verus! {

// ---------------------------------------------------------------------------
// Requests
// ---------------------------------------------------------------------------

/// The file format of an export.
#[derive(Debug, Clone, Copy, PartialEq, Eq)]
pub enum ExportFormat {
    Csv,
    Bibtex,
}

impl Default for ExportFormat {
    /// CSV.
    fn default() -> (r: Self)
        ensures
            r == ExportFormat::Csv,
    {
        ExportFormat::Csv
    }
}

/// What an export asks for: a format and, optionally, comma-separated ids.
#[derive(Debug)]
pub struct ExportQuery {
    pub format: ExportFormat,
    pub ids: Option<String>,
}

impl ExportQuery {
    /// The ids asked for, when the query names any: the comma-separated pieces
    /// that read as `i64` once trimmed, in order. `None` asks for every bibitem.
    pub fn id_list(&self) -> (r: Option<Vec<i64>>)
        ensures
            match self.ids {
                Some(s) => r is Some && r->0@.map_values(|v: i64| v as int) == ids_of(split(s@, ","@)),
                None => r is None,
            },
    {
        match &self.ids {
            Some(s) => Some(parse_ids_chars(&chars_of(s.as_str()))),
            None => None,
        }
    }
}

// ---------------------------------------------------------------------------
// CSV escaping
// ---------------------------------------------------------------------------

/// Whether a CSV field must be quoted: it holds a comma, a quote or a newline.
pub open spec fn needs_csv_quotes(s: Seq<char>) -> bool {
    s.contains(',') || s.contains('"') || s.contains('\n')
}

/// `s` with every quote doubled.
pub open spec fn double_quotes(s: Seq<char>) -> Seq<char>
    decreases s.len(),
{
    if s.len() == 0 {
        Seq::empty()
    } else if s.last() == '"' {
        double_quotes(s.drop_last()) + seq!['"', '"']
    } else {
        double_quotes(s.drop_last()).push(s.last())
    }
}

/// A CSV field: quoted, with its quotes doubled, when it needs quoting;
/// unchanged otherwise.
pub open spec fn csv_escaped(s: Seq<char>) -> Seq<char> {
    if needs_csv_quotes(s) {
        seq!['"'] + double_quotes(s) + seq!['"']
    } else {
        s
    }
}

/// The CSV field of the characters `s`.
pub fn escape_csv_chars(s: &Vec<char>) -> (r: Vec<char>)
    ensures
        r@ == csv_escaped(s@),
{
    let quote = has_char(s, ',') || has_char(s, '"') || has_char(s, '\n');
    if !quote {
        let mut r: Vec<char> = Vec::new();
        extend(&mut r, s);
        assert(r@ =~= s@);
        return r;
    }
    let mut r: Vec<char> = Vec::new();
    r.push('"');
    let mut i: usize = 0;
    while i < s.len()
        invariant
            i <= s.len(),
            r@ == seq!['"'] + double_quotes(s@.take(i as int)),
        decreases s.len() - i,
    {
        let ghost prev = r@;
        assert(s@.take(i + 1).drop_last() =~= s@.take(i as int));
        assert(s@.take(i + 1).last() == s@[i as int]);
        if s[i] == '"' {
            r.push('"');
            r.push('"');
            assert(r@ =~= seq!['"'] + double_quotes(s@.take(i + 1)));
        } else {
            r.push(s[i]);
            assert(r@ =~= seq!['"'] + double_quotes(s@.take(i + 1)));
        }
        i += 1;
    }
    assert(s@.take(s.len() as int) =~= s@);
    r.push('"');
    r
}

/// The CSV field of `s`: `s` itself, or `s` in quotes with its quotes doubled
/// when it holds a comma, a quote or a newline.
pub fn escape_csv(s: &str) -> (r: String)
    ensures
        r@ == csv_escaped(s@),
{
    string_of(&escape_csv_chars(&chars_of(s)))
}


/// The CSV field of an optional text, empty when absent.
pub open spec fn opt_escaped(o: Option<Seq<char>>) -> Seq<char> {
    match o {
        Some(s) => csv_escaped(s),
        None => Seq::empty(),
    }
}

fn opt_escaped_chars(o: &Option<String>) -> (r: Vec<char>)
    ensures
        r@ == opt_escaped(opt_str_view(*o)),
{
    match o {
        Some(s) => escape_csv_chars(&chars_of(s.as_str())),
        None => Vec::new(),
    }
}

fn int_text_chars(o: Option<i64>) -> (r: Vec<char>)
    ensures
        r@ == opt_int_text(match o {
            Some(n) => Some(n as int),
            None => None,
        }),
{
    match o {
        Some(n) => int_chars(n),
        None => Vec::new(),
    }
}

// ---------------------------------------------------------------------------
// CSV rows
// ---------------------------------------------------------------------------

/// The first line of a CSV export.
pub const CSV_HEADER: &'static str = "id,bibkey,entry_type,pubstate,year,title,booktitle,journal_id,volume,number,doi,url\n";

/// The fields of the CSV row of a bibitem, in column order.
pub open spec fn csv_fields(item: BibItem) -> Seq<Seq<char>> {
    seq![
        int_str(item.id as int),
        csv_escaped(item.bibkey@),
        csv_escaped(entry_type_name(item.entry_type)),
        match item.pubstate {
            Some(p) => csv_escaped(p.code@),
            None => Seq::empty(),
        },
        opt_int_text(match item.date_year {
            Some(y) => Some(y as int),
            None => None,
        }),
        csv_escaped(item.title_simplified@),
        opt_escaped(opt_str_view(item.booktitle_simplified)),
        opt_int_text(match item.journal_id {
            Some(j) => Some(j as int),
            None => None,
        }),
        opt_escaped(opt_str_view(item.volume)),
        opt_escaped(opt_str_view(item.number)),
        opt_escaped(opt_str_view(item.doi)),
        opt_escaped(opt_str_view(item.url)),
    ]
}

/// The column names of the CSV export, in order.
pub open spec fn csv_columns() -> Seq<Seq<char>> {
    seq![
        "id"@, "bibkey"@, "entry_type"@, "pubstate"@, "year"@, "title"@, "booktitle"@, "journal_id"@,
        "volume"@, "number"@, "doi"@, "url"@,
    ]
}

/// The CSV header names the columns, and each row has one field per column
/// holding the bibitem's value of that name: the id and journal id in
/// decimal, the bibkey, entry type, pubstate code, simplified title and
/// booktitle, volume, number, DOI and URL escaped, and nothing for an absent
/// value.
pub proof fn lemma_csv_columns(item: BibItem)
    ensures
        CSV_HEADER@ == join(csv_columns(), ","@).push('\n'),
        csv_row(item) == join(csv_fields(item), ","@).push('\n'),
        csv_fields(item).len() == csv_columns().len(),
        csv_fields(item)[0] == int_str(item.id as int),
        csv_fields(item)[1] == csv_escaped(item.bibkey@),
        csv_fields(item)[2] == csv_escaped(entry_type_name(item.entry_type)),
        csv_fields(item)[4] == opt_int_text(match item.date_year {
            Some(y) => Some(y as int),
            None => None,
        }),
        csv_fields(item)[5] == csv_escaped(item.title_simplified@),
        csv_fields(item)[6] == opt_escaped(opt_str_view(item.booktitle_simplified)),
        csv_fields(item)[7] == opt_int_text(match item.journal_id {
            Some(j) => Some(j as int),
            None => None,
        }),
        csv_fields(item)[8] == opt_escaped(opt_str_view(item.volume)),
        csv_fields(item)[9] == opt_escaped(opt_str_view(item.number)),
        csv_fields(item)[10] == opt_escaped(opt_str_view(item.doi)),
        csv_fields(item)[11] == opt_escaped(opt_str_view(item.url)),
{
    reveal_strlit("id,bibkey,entry_type,pubstate,year,title,booktitle,journal_id,volume,number,doi,url\n");
    reveal_strlit("id");
    reveal_strlit("bibkey");
    reveal_strlit("entry_type");
    reveal_strlit("pubstate");
    reveal_strlit("year");
    reveal_strlit("title");
    reveal_strlit("booktitle");
    reveal_strlit("journal_id");
    reveal_strlit("volume");
    reveal_strlit("number");
    reveal_strlit("doi");
    reveal_strlit("url");
    reveal_strlit(",");
    let c = csv_columns();
    reveal_with_fuel(join, 13);
    assert(CSV_HEADER@ =~= join(c, ","@).push('\n'));
}

/// The CSV row of a bibitem: its fields joined by commas, ending in a newline.
pub open spec fn csv_row(item: BibItem) -> Seq<char> {
    join(csv_fields(item), ","@).push('\n')
}

/// The CSV row of one bibitem, newline included.
pub fn format_csv_row(item: &BibItem) -> (r: String)
    ensures
        r@ == csv_row(*item),
{
    let mut parts: Vec<Vec<char>> = Vec::new();
    parts.push(int_chars(item.id));
    parts.push(escape_csv_chars(&chars_of(item.bibkey.as_str())));
    parts.push(escape_csv_chars(&chars_of(item.entry_type.as_str())));
    parts.push(
        match &item.pubstate {
            Some(p) => escape_csv_chars(&chars_of(p.code.as_str())),
            None => Vec::new(),
        },
    );
    parts.push(
        int_text_chars(
            match item.date_year {
                Some(y) => Some(y as i64),
                None => None,
            },
        ),
    );
    parts.push(escape_csv_chars(&chars_of(item.title_simplified.as_str())));
    parts.push(opt_escaped_chars(&item.booktitle_simplified));
    parts.push(int_text_chars(item.journal_id));
    parts.push(opt_escaped_chars(&item.volume));
    parts.push(opt_escaped_chars(&item.number));
    parts.push(opt_escaped_chars(&item.doi));
    parts.push(opt_escaped_chars(&item.url));
    assert(seqs_of(parts@) =~= csv_fields(*item));
    let comma = chars_of(",");
    proof {
        reveal_strlit(",");
    }
    let mut line = join_chars(&parts, &comma);
    line.push('\n');
    string_of(&line)
}

/// The CSV rows of `items`, one after the other.
pub open spec fn csv_rows(items: Seq<BibItem>) -> Seq<char>
    decreases items.len(),
{
    if items.len() == 0 {
        Seq::empty()
    } else {
        csv_rows(items.drop_last()) + csv_row(items.last())
    }
}

/// A whole CSV export: the header line, then one row per bibitem.
pub fn generate_csv(bibitems: &Vec<BibItem>) -> (r: String)
    ensures
        r@ == CSV_HEADER@ + csv_rows(bibitems@),
{
    let mut out: Vec<char> = Vec::new();
    extend_str(&mut out, CSV_HEADER);
    let mut i: usize = 0;
    while i < bibitems.len()
        invariant
            i <= bibitems.len(),
            out@ == CSV_HEADER@ + csv_rows(bibitems@.take(i as int)),
        decreases bibitems.len() - i,
    {
        let row = format_csv_row(&bibitems[i]);
        extend_str(&mut out, row.as_str());
        assert(bibitems@.take(i + 1).drop_last() =~= bibitems@.take(i as int));
        assert(out@ =~= CSV_HEADER@ + csv_rows(bibitems@.take(i + 1)));
        i += 1;
    }
    assert(bibitems@.take(bibitems.len() as int) =~= bibitems@);
    string_of(&out)
}

// ---------------------------------------------------------------------------
// BibTeX entries
// ---------------------------------------------------------------------------

/// One BibTeX field line: `  name = {value},` and a newline.
pub open spec fn bib_field(name: Seq<char>, value: Seq<char>) -> Seq<char> {
    "  "@ + name + " = {"@ + value + "},\n"@
}

/// The field line of an optional value; nothing when it is absent or empty.
pub open spec fn opt_bib_field(name: Seq<char>, o: Option<Seq<char>>) -> Seq<char> {
    match o {
        Some(v) => if v.len() > 0 {
            bib_field(name, v)
        } else {
            Seq::empty()
        },
        None => Seq::empty(),
    }
}

/// The opening line and field lines of the BibTeX entry of a bibitem, before
/// the last comma is dropped and the brace closed.
pub open spec fn bibtex_body(item: BibItem) -> Seq<char> {
    "@"@ + entry_type_name(item.entry_type) + "{"@ + item.bibkey@ + ",\n"@
        + (if item.title_latex@.len() > 0 {
        bib_field("title"@, item.title_latex@)
    } else {
        Seq::empty()
    }) + match item.date_year {
        Some(y) => bib_field("year"@, int_str(y as int)),
        None => Seq::empty(),
    } + opt_bib_field("booktitle"@, opt_str_view(item.booktitle_latex))
        + opt_bib_field("address"@, opt_str_view(item.address))
        + opt_bib_field("volume"@, opt_str_view(item.volume))
        + opt_bib_field("number"@, opt_str_view(item.number))
        + opt_bib_field("pages"@, opt_str_view(item.pages))
        + opt_bib_field("doi"@, opt_str_view(item.doi))
        + opt_bib_field("url"@, opt_str_view(item.url))
        + opt_bib_field("note"@, opt_str_view(item.note_latex))
        + match item.langid {
        Some(l) => bib_field("langid"@, l.code@),
        None => Seq::empty(),
    }
}

/// `s` with a final comma-and-newline replaced by a newline.
pub open spec fn without_trailing_comma(s: Seq<char>) -> Seq<char> {
    if s.len() >= 2 && s[s.len() - 2] == ',' && s[s.len() - 1] == '\n' {
        s.take(s.len() - 2).push('\n')
    } else {
        s
    }
}

/// The BibTeX entry of a bibitem: `@type{key,`, one line per non-empty field,
/// the last comma dropped, and the closing brace.
pub open spec fn bibtex_entry(item: BibItem) -> Seq<char> {
    without_trailing_comma(bibtex_body(item)).push('}')
}


/// The line `  NAME = {VALUE}` that an entry holds for a field line of its body.
proof fn lemma_line_in_entry(item: BibItem, k: int, name: Seq<char>, v: Seq<char>)
    requires
        0 <= k,
        k + bib_field(name, v).len() <= bibtex_body(item).len(),
        bibtex_body(item).subrange(k, k + bib_field(name, v).len()) == bib_field(name, v),
    ensures
        contains_seq(bibtex_entry(item), "  "@ + name + " = {"@ + v + "}"@),
{
    reveal_strlit("  ");
    reveal_strlit(" = {");
    reveal_strlit("}");
    reveal_strlit("},\n");
    reveal_strlit(",\n");
    let body = bibtex_body(item);
    let pat = "  "@ + name + " = {"@ + v + "}"@;
    assert(bib_field(name, v) =~= pat + ",\n"@);
    assert(body.subrange(k, k + pat.len()) =~= pat) by {
        assert forall|i: int| 0 <= i < pat.len() implies body.subrange(k, k + pat.len())[i] == pat[i] by {
            assert(body.subrange(k, k + bib_field(name, v).len())[i] == bib_field(name, v)[i]);
        }
    }
    let entry = bibtex_entry(item);
    let w = without_trailing_comma(body);
    assert(w.take(body.len() - 2) =~= body.take(body.len() - 2));
    assert(entry.subrange(k, k + pat.len()) =~= pat) by {
        assert forall|i: int| 0 <= i < pat.len() implies entry.subrange(k, k + pat.len())[i] == pat[i] by {
            assert(entry[k + i] == w[k + i]);
            assert(w[k + i] == body[k + i]);
            assert(body[k + i] == body.subrange(k, k + pat.len())[i]);
        }
    }
    assert(matches_at(entry, pat, k));
    lemma_find(entry, pat);
}

/// Appending leaves the characters of a range of the first part as they are.
proof fn lemma_range_of_prefix(a: Seq<char>, b: Seq<char>, k: int, n: int)
    requires
        0 <= k,
        0 <= n,
        k + n <= a.len(),
    ensures
        (a + b).subrange(k, k + n) == a.subrange(k, k + n),
{
    assert((a + b).subrange(k, k + n) =~= a.subrange(k, k + n));
}

/// The characters of the last part of a concatenation.
proof fn lemma_range_of_suffix(a: Seq<char>, b: Seq<char>)
    ensures
        (a + b).subrange(a.len() as int, (a.len() + b.len()) as int) == b,
{
    assert((a + b).subrange(a.len() as int, (a.len() + b.len()) as int) =~= b);
}

proof fn lemma_booktitle_line(item: BibItem)
    ensures
        opt_str_view(item.booktitle_latex) is Some && opt_str_view(item.booktitle_latex)->0.len() > 0
            ==> contains_seq(bibtex_entry(item), "  booktitle = {"@ + opt_str_view(item.booktitle_latex)->0 + "}"@),
{
    if let Some(v) = opt_str_view(item.booktitle_latex) {
        if v.len() > 0 {
            reveal_strlit("  ");
            reveal_strlit(" = {");
            reveal_strlit("booktitle");
            reveal_strlit("  booktitle = {");
            let p_A = "@"@ + entry_type_name(item.entry_type) + "{"@ + item.bibkey@ + ",\n"@;
            let p_T = (if item.title_latex@.len() > 0 { bib_field("title"@, item.title_latex@) } else { Seq::empty() });
            let p_Y = match item.date_year { Some(y) => bib_field("year"@, int_str(y as int)), None => Seq::empty() };
            let p_booktitle = opt_bib_field("booktitle"@, opt_str_view(item.booktitle_latex));
            let p_address = opt_bib_field("address"@, opt_str_view(item.address));
            let p_volume = opt_bib_field("volume"@, opt_str_view(item.volume));
            let p_number = opt_bib_field("number"@, opt_str_view(item.number));
            let p_pages = opt_bib_field("pages"@, opt_str_view(item.pages));
            let p_doi = opt_bib_field("doi"@, opt_str_view(item.doi));
            let p_url = opt_bib_field("url"@, opt_str_view(item.url));
            let p_note = opt_bib_field("note"@, opt_str_view(item.note_latex));
            let p_L = match item.langid { Some(l) => bib_field("langid"@, l.code@), None => Seq::empty() };
            let k = (p_A + p_T + p_Y).len() as int;
            let fl = bib_field("booktitle"@, v);
            assert(p_booktitle == fl);
            let a0 = p_A + p_T + p_Y + p_booktitle;
            lemma_range_of_suffix(p_A + p_T + p_Y, p_booktitle);
            let a1 = a0 + p_address;
            lemma_range_of_prefix(a0, p_address, k, fl.len() as int);
            let a2 = a1 + p_volume;
            lemma_range_of_prefix(a1, p_volume, k, fl.len() as int);
            let a3 = a2 + p_number;
            lemma_range_of_prefix(a2, p_number, k, fl.len() as int);
            let a4 = a3 + p_pages;
            lemma_range_of_prefix(a3, p_pages, k, fl.len() as int);
            let a5 = a4 + p_doi;
            lemma_range_of_prefix(a4, p_doi, k, fl.len() as int);
            let a6 = a5 + p_url;
            lemma_range_of_prefix(a5, p_url, k, fl.len() as int);
            let a7 = a6 + p_note;
            lemma_range_of_prefix(a6, p_note, k, fl.len() as int);
            let a8 = a7 + p_L;
            lemma_range_of_prefix(a7, p_L, k, fl.len() as int);
            assert(bibtex_body(item) == a8);
            lemma_line_in_entry(item, k, "booktitle"@, v);
            assert("  booktitle = {"@ + v + "}"@ =~= "  "@ + "booktitle"@ + " = {"@ + v + "}"@);
        }
    }
}

proof fn lemma_address_line(item: BibItem)
    ensures
        opt_str_view(item.address) is Some && opt_str_view(item.address)->0.len() > 0
            ==> contains_seq(bibtex_entry(item), "  address = {"@ + opt_str_view(item.address)->0 + "}"@),
{
    if let Some(v) = opt_str_view(item.address) {
        if v.len() > 0 {
            reveal_strlit("  ");
            reveal_strlit(" = {");
            reveal_strlit("address");
            reveal_strlit("  address = {");
            let p_A = "@"@ + entry_type_name(item.entry_type) + "{"@ + item.bibkey@ + ",\n"@;
            let p_T = (if item.title_latex@.len() > 0 { bib_field("title"@, item.title_latex@) } else { Seq::empty() });
            let p_Y = match item.date_year { Some(y) => bib_field("year"@, int_str(y as int)), None => Seq::empty() };
            let p_booktitle = opt_bib_field("booktitle"@, opt_str_view(item.booktitle_latex));
            let p_address = opt_bib_field("address"@, opt_str_view(item.address));
            let p_volume = opt_bib_field("volume"@, opt_str_view(item.volume));
            let p_number = opt_bib_field("number"@, opt_str_view(item.number));
            let p_pages = opt_bib_field("pages"@, opt_str_view(item.pages));
            let p_doi = opt_bib_field("doi"@, opt_str_view(item.doi));
            let p_url = opt_bib_field("url"@, opt_str_view(item.url));
            let p_note = opt_bib_field("note"@, opt_str_view(item.note_latex));
            let p_L = match item.langid { Some(l) => bib_field("langid"@, l.code@), None => Seq::empty() };
            let k = (p_A + p_T + p_Y + p_booktitle).len() as int;
            let fl = bib_field("address"@, v);
            assert(p_address == fl);
            let a0 = p_A + p_T + p_Y + p_booktitle + p_address;
            lemma_range_of_suffix(p_A + p_T + p_Y + p_booktitle, p_address);
            let a1 = a0 + p_volume;
            lemma_range_of_prefix(a0, p_volume, k, fl.len() as int);
            let a2 = a1 + p_number;
            lemma_range_of_prefix(a1, p_number, k, fl.len() as int);
            let a3 = a2 + p_pages;
            lemma_range_of_prefix(a2, p_pages, k, fl.len() as int);
            let a4 = a3 + p_doi;
            lemma_range_of_prefix(a3, p_doi, k, fl.len() as int);
            let a5 = a4 + p_url;
            lemma_range_of_prefix(a4, p_url, k, fl.len() as int);
            let a6 = a5 + p_note;
            lemma_range_of_prefix(a5, p_note, k, fl.len() as int);
            let a7 = a6 + p_L;
            lemma_range_of_prefix(a6, p_L, k, fl.len() as int);
            assert(bibtex_body(item) == a7);
            lemma_line_in_entry(item, k, "address"@, v);
            assert("  address = {"@ + v + "}"@ =~= "  "@ + "address"@ + " = {"@ + v + "}"@);
        }
    }
}

proof fn lemma_volume_line(item: BibItem)
    ensures
        opt_str_view(item.volume) is Some && opt_str_view(item.volume)->0.len() > 0
            ==> contains_seq(bibtex_entry(item), "  volume = {"@ + opt_str_view(item.volume)->0 + "}"@),
{
    if let Some(v) = opt_str_view(item.volume) {
        if v.len() > 0 {
            reveal_strlit("  ");
            reveal_strlit(" = {");
            reveal_strlit("volume");
            reveal_strlit("  volume = {");
            let p_A = "@"@ + entry_type_name(item.entry_type) + "{"@ + item.bibkey@ + ",\n"@;
            let p_T = (if item.title_latex@.len() > 0 { bib_field("title"@, item.title_latex@) } else { Seq::empty() });
            let p_Y = match item.date_year { Some(y) => bib_field("year"@, int_str(y as int)), None => Seq::empty() };
            let p_booktitle = opt_bib_field("booktitle"@, opt_str_view(item.booktitle_latex));
            let p_address = opt_bib_field("address"@, opt_str_view(item.address));
            let p_volume = opt_bib_field("volume"@, opt_str_view(item.volume));
            let p_number = opt_bib_field("number"@, opt_str_view(item.number));
            let p_pages = opt_bib_field("pages"@, opt_str_view(item.pages));
            let p_doi = opt_bib_field("doi"@, opt_str_view(item.doi));
            let p_url = opt_bib_field("url"@, opt_str_view(item.url));
            let p_note = opt_bib_field("note"@, opt_str_view(item.note_latex));
            let p_L = match item.langid { Some(l) => bib_field("langid"@, l.code@), None => Seq::empty() };
            let k = (p_A + p_T + p_Y + p_booktitle + p_address).len() as int;
            let fl = bib_field("volume"@, v);
            assert(p_volume == fl);
            let a0 = p_A + p_T + p_Y + p_booktitle + p_address + p_volume;
            lemma_range_of_suffix(p_A + p_T + p_Y + p_booktitle + p_address, p_volume);
            let a1 = a0 + p_number;
            lemma_range_of_prefix(a0, p_number, k, fl.len() as int);
            let a2 = a1 + p_pages;
            lemma_range_of_prefix(a1, p_pages, k, fl.len() as int);
            let a3 = a2 + p_doi;
            lemma_range_of_prefix(a2, p_doi, k, fl.len() as int);
            let a4 = a3 + p_url;
            lemma_range_of_prefix(a3, p_url, k, fl.len() as int);
            let a5 = a4 + p_note;
            lemma_range_of_prefix(a4, p_note, k, fl.len() as int);
            let a6 = a5 + p_L;
            lemma_range_of_prefix(a5, p_L, k, fl.len() as int);
            assert(bibtex_body(item) == a6);
            lemma_line_in_entry(item, k, "volume"@, v);
            assert("  volume = {"@ + v + "}"@ =~= "  "@ + "volume"@ + " = {"@ + v + "}"@);
        }
    }
}

proof fn lemma_number_line(item: BibItem)
    ensures
        opt_str_view(item.number) is Some && opt_str_view(item.number)->0.len() > 0
            ==> contains_seq(bibtex_entry(item), "  number = {"@ + opt_str_view(item.number)->0 + "}"@),
{
    if let Some(v) = opt_str_view(item.number) {
        if v.len() > 0 {
            reveal_strlit("  ");
            reveal_strlit(" = {");
            reveal_strlit("number");
            reveal_strlit("  number = {");
            let p_A = "@"@ + entry_type_name(item.entry_type) + "{"@ + item.bibkey@ + ",\n"@;
            let p_T = (if item.title_latex@.len() > 0 { bib_field("title"@, item.title_latex@) } else { Seq::empty() });
            let p_Y = match item.date_year { Some(y) => bib_field("year"@, int_str(y as int)), None => Seq::empty() };
            let p_booktitle = opt_bib_field("booktitle"@, opt_str_view(item.booktitle_latex));
            let p_address = opt_bib_field("address"@, opt_str_view(item.address));
            let p_volume = opt_bib_field("volume"@, opt_str_view(item.volume));
            let p_number = opt_bib_field("number"@, opt_str_view(item.number));
            let p_pages = opt_bib_field("pages"@, opt_str_view(item.pages));
            let p_doi = opt_bib_field("doi"@, opt_str_view(item.doi));
            let p_url = opt_bib_field("url"@, opt_str_view(item.url));
            let p_note = opt_bib_field("note"@, opt_str_view(item.note_latex));
            let p_L = match item.langid { Some(l) => bib_field("langid"@, l.code@), None => Seq::empty() };
            let k = (p_A + p_T + p_Y + p_booktitle + p_address + p_volume).len() as int;
            let fl = bib_field("number"@, v);
            assert(p_number == fl);
            let a0 = p_A + p_T + p_Y + p_booktitle + p_address + p_volume + p_number;
            lemma_range_of_suffix(p_A + p_T + p_Y + p_booktitle + p_address + p_volume, p_number);
            let a1 = a0 + p_pages;
            lemma_range_of_prefix(a0, p_pages, k, fl.len() as int);
            let a2 = a1 + p_doi;
            lemma_range_of_prefix(a1, p_doi, k, fl.len() as int);
            let a3 = a2 + p_url;
            lemma_range_of_prefix(a2, p_url, k, fl.len() as int);
            let a4 = a3 + p_note;
            lemma_range_of_prefix(a3, p_note, k, fl.len() as int);
            let a5 = a4 + p_L;
            lemma_range_of_prefix(a4, p_L, k, fl.len() as int);
            assert(bibtex_body(item) == a5);
            lemma_line_in_entry(item, k, "number"@, v);
            assert("  number = {"@ + v + "}"@ =~= "  "@ + "number"@ + " = {"@ + v + "}"@);
        }
    }
}

proof fn lemma_pages_line(item: BibItem)
    ensures
        opt_str_view(item.pages) is Some && opt_str_view(item.pages)->0.len() > 0
            ==> contains_seq(bibtex_entry(item), "  pages = {"@ + opt_str_view(item.pages)->0 + "}"@),
{
    if let Some(v) = opt_str_view(item.pages) {
        if v.len() > 0 {
            reveal_strlit("  ");
            reveal_strlit(" = {");
            reveal_strlit("pages");
            reveal_strlit("  pages = {");
            let p_A = "@"@ + entry_type_name(item.entry_type) + "{"@ + item.bibkey@ + ",\n"@;
            let p_T = (if item.title_latex@.len() > 0 { bib_field("title"@, item.title_latex@) } else { Seq::empty() });
            let p_Y = match item.date_year { Some(y) => bib_field("year"@, int_str(y as int)), None => Seq::empty() };
            let p_booktitle = opt_bib_field("booktitle"@, opt_str_view(item.booktitle_latex));
            let p_address = opt_bib_field("address"@, opt_str_view(item.address));
            let p_volume = opt_bib_field("volume"@, opt_str_view(item.volume));
            let p_number = opt_bib_field("number"@, opt_str_view(item.number));
            let p_pages = opt_bib_field("pages"@, opt_str_view(item.pages));
            let p_doi = opt_bib_field("doi"@, opt_str_view(item.doi));
            let p_url = opt_bib_field("url"@, opt_str_view(item.url));
            let p_note = opt_bib_field("note"@, opt_str_view(item.note_latex));
            let p_L = match item.langid { Some(l) => bib_field("langid"@, l.code@), None => Seq::empty() };
            let k = (p_A + p_T + p_Y + p_booktitle + p_address + p_volume + p_number).len() as int;
            let fl = bib_field("pages"@, v);
            assert(p_pages == fl);
            let a0 = p_A + p_T + p_Y + p_booktitle + p_address + p_volume + p_number + p_pages;
            lemma_range_of_suffix(p_A + p_T + p_Y + p_booktitle + p_address + p_volume + p_number, p_pages);
            let a1 = a0 + p_doi;
            lemma_range_of_prefix(a0, p_doi, k, fl.len() as int);
            let a2 = a1 + p_url;
            lemma_range_of_prefix(a1, p_url, k, fl.len() as int);
            let a3 = a2 + p_note;
            lemma_range_of_prefix(a2, p_note, k, fl.len() as int);
            let a4 = a3 + p_L;
            lemma_range_of_prefix(a3, p_L, k, fl.len() as int);
            assert(bibtex_body(item) == a4);
            lemma_line_in_entry(item, k, "pages"@, v);
            assert("  pages = {"@ + v + "}"@ =~= "  "@ + "pages"@ + " = {"@ + v + "}"@);
        }
    }
}

proof fn lemma_doi_line(item: BibItem)
    ensures
        opt_str_view(item.doi) is Some && opt_str_view(item.doi)->0.len() > 0
            ==> contains_seq(bibtex_entry(item), "  doi = {"@ + opt_str_view(item.doi)->0 + "}"@),
{
    if let Some(v) = opt_str_view(item.doi) {
        if v.len() > 0 {
            reveal_strlit("  ");
            reveal_strlit(" = {");
            reveal_strlit("doi");
            reveal_strlit("  doi = {");
            let p_A = "@"@ + entry_type_name(item.entry_type) + "{"@ + item.bibkey@ + ",\n"@;
            let p_T = (if item.title_latex@.len() > 0 { bib_field("title"@, item.title_latex@) } else { Seq::empty() });
            let p_Y = match item.date_year { Some(y) => bib_field("year"@, int_str(y as int)), None => Seq::empty() };
            let p_booktitle = opt_bib_field("booktitle"@, opt_str_view(item.booktitle_latex));
            let p_address = opt_bib_field("address"@, opt_str_view(item.address));
            let p_volume = opt_bib_field("volume"@, opt_str_view(item.volume));
            let p_number = opt_bib_field("number"@, opt_str_view(item.number));
            let p_pages = opt_bib_field("pages"@, opt_str_view(item.pages));
            let p_doi = opt_bib_field("doi"@, opt_str_view(item.doi));
            let p_url = opt_bib_field("url"@, opt_str_view(item.url));
            let p_note = opt_bib_field("note"@, opt_str_view(item.note_latex));
            let p_L = match item.langid { Some(l) => bib_field("langid"@, l.code@), None => Seq::empty() };
            let k = (p_A + p_T + p_Y + p_booktitle + p_address + p_volume + p_number + p_pages).len() as int;
            let fl = bib_field("doi"@, v);
            assert(p_doi == fl);
            let a0 = p_A + p_T + p_Y + p_booktitle + p_address + p_volume + p_number + p_pages + p_doi;
            lemma_range_of_suffix(p_A + p_T + p_Y + p_booktitle + p_address + p_volume + p_number + p_pages, p_doi);
            let a1 = a0 + p_url;
            lemma_range_of_prefix(a0, p_url, k, fl.len() as int);
            let a2 = a1 + p_note;
            lemma_range_of_prefix(a1, p_note, k, fl.len() as int);
            let a3 = a2 + p_L;
            lemma_range_of_prefix(a2, p_L, k, fl.len() as int);
            assert(bibtex_body(item) == a3);
            lemma_line_in_entry(item, k, "doi"@, v);
            assert("  doi = {"@ + v + "}"@ =~= "  "@ + "doi"@ + " = {"@ + v + "}"@);
        }
    }
}

proof fn lemma_url_line(item: BibItem)
    ensures
        opt_str_view(item.url) is Some && opt_str_view(item.url)->0.len() > 0
            ==> contains_seq(bibtex_entry(item), "  url = {"@ + opt_str_view(item.url)->0 + "}"@),
{
    if let Some(v) = opt_str_view(item.url) {
        if v.len() > 0 {
            reveal_strlit("  ");
            reveal_strlit(" = {");
            reveal_strlit("url");
            reveal_strlit("  url = {");
            let p_A = "@"@ + entry_type_name(item.entry_type) + "{"@ + item.bibkey@ + ",\n"@;
            let p_T = (if item.title_latex@.len() > 0 { bib_field("title"@, item.title_latex@) } else { Seq::empty() });
            let p_Y = match item.date_year { Some(y) => bib_field("year"@, int_str(y as int)), None => Seq::empty() };
            let p_booktitle = opt_bib_field("booktitle"@, opt_str_view(item.booktitle_latex));
            let p_address = opt_bib_field("address"@, opt_str_view(item.address));
            let p_volume = opt_bib_field("volume"@, opt_str_view(item.volume));
            let p_number = opt_bib_field("number"@, opt_str_view(item.number));
            let p_pages = opt_bib_field("pages"@, opt_str_view(item.pages));
            let p_doi = opt_bib_field("doi"@, opt_str_view(item.doi));
            let p_url = opt_bib_field("url"@, opt_str_view(item.url));
            let p_note = opt_bib_field("note"@, opt_str_view(item.note_latex));
            let p_L = match item.langid { Some(l) => bib_field("langid"@, l.code@), None => Seq::empty() };
            let k = (p_A + p_T + p_Y + p_booktitle + p_address + p_volume + p_number + p_pages + p_doi).len() as int;
            let fl = bib_field("url"@, v);
            assert(p_url == fl);
            let a0 = p_A + p_T + p_Y + p_booktitle + p_address + p_volume + p_number + p_pages + p_doi + p_url;
            lemma_range_of_suffix(p_A + p_T + p_Y + p_booktitle + p_address + p_volume + p_number + p_pages + p_doi, p_url);
            let a1 = a0 + p_note;
            lemma_range_of_prefix(a0, p_note, k, fl.len() as int);
            let a2 = a1 + p_L;
            lemma_range_of_prefix(a1, p_L, k, fl.len() as int);
            assert(bibtex_body(item) == a2);
            lemma_line_in_entry(item, k, "url"@, v);
            assert("  url = {"@ + v + "}"@ =~= "  "@ + "url"@ + " = {"@ + v + "}"@);
        }
    }
}

proof fn lemma_note_line(item: BibItem)
    ensures
        opt_str_view(item.note_latex) is Some && opt_str_view(item.note_latex)->0.len() > 0
            ==> contains_seq(bibtex_entry(item), "  note = {"@ + opt_str_view(item.note_latex)->0 + "}"@),
{
    if let Some(v) = opt_str_view(item.note_latex) {
        if v.len() > 0 {
            reveal_strlit("  ");
            reveal_strlit(" = {");
            reveal_strlit("note");
            reveal_strlit("  note = {");
            let p_A = "@"@ + entry_type_name(item.entry_type) + "{"@ + item.bibkey@ + ",\n"@;
            let p_T = (if item.title_latex@.len() > 0 { bib_field("title"@, item.title_latex@) } else { Seq::empty() });
            let p_Y = match item.date_year { Some(y) => bib_field("year"@, int_str(y as int)), None => Seq::empty() };
            let p_booktitle = opt_bib_field("booktitle"@, opt_str_view(item.booktitle_latex));
            let p_address = opt_bib_field("address"@, opt_str_view(item.address));
            let p_volume = opt_bib_field("volume"@, opt_str_view(item.volume));
            let p_number = opt_bib_field("number"@, opt_str_view(item.number));
            let p_pages = opt_bib_field("pages"@, opt_str_view(item.pages));
            let p_doi = opt_bib_field("doi"@, opt_str_view(item.doi));
            let p_url = opt_bib_field("url"@, opt_str_view(item.url));
            let p_note = opt_bib_field("note"@, opt_str_view(item.note_latex));
            let p_L = match item.langid { Some(l) => bib_field("langid"@, l.code@), None => Seq::empty() };
            let k = (p_A + p_T + p_Y + p_booktitle + p_address + p_volume + p_number + p_pages + p_doi + p_url).len() as int;
            let fl = bib_field("note"@, v);
            assert(p_note == fl);
            let a0 = p_A + p_T + p_Y + p_booktitle + p_address + p_volume + p_number + p_pages + p_doi + p_url + p_note;
            lemma_range_of_suffix(p_A + p_T + p_Y + p_booktitle + p_address + p_volume + p_number + p_pages + p_doi + p_url, p_note);
            let a1 = a0 + p_L;
            lemma_range_of_prefix(a0, p_L, k, fl.len() as int);
            assert(bibtex_body(item) == a1);
            lemma_line_in_entry(item, k, "note"@, v);
            assert("  note = {"@ + v + "}"@ =~= "  "@ + "note"@ + " = {"@ + v + "}"@);
        }
    }
}

/// Each optional text field of a bibitem that has a non-empty value gives
/// its entry the line `  NAME = {VALUE}` with the field's own value:
/// `volume` the volume, `number` the number, and so on.
pub proof fn lemma_bibtex_field_values(item: BibItem)
    ensures
        opt_str_view(item.booktitle_latex) is Some && opt_str_view(item.booktitle_latex)->0.len() > 0
            ==> contains_seq(bibtex_entry(item), "  booktitle = {"@ + opt_str_view(item.booktitle_latex)->0 + "}"@),
        opt_str_view(item.address) is Some && opt_str_view(item.address)->0.len() > 0
            ==> contains_seq(bibtex_entry(item), "  address = {"@ + opt_str_view(item.address)->0 + "}"@),
        opt_str_view(item.volume) is Some && opt_str_view(item.volume)->0.len() > 0
            ==> contains_seq(bibtex_entry(item), "  volume = {"@ + opt_str_view(item.volume)->0 + "}"@),
        opt_str_view(item.number) is Some && opt_str_view(item.number)->0.len() > 0
            ==> contains_seq(bibtex_entry(item), "  number = {"@ + opt_str_view(item.number)->0 + "}"@),
        opt_str_view(item.pages) is Some && opt_str_view(item.pages)->0.len() > 0
            ==> contains_seq(bibtex_entry(item), "  pages = {"@ + opt_str_view(item.pages)->0 + "}"@),
        opt_str_view(item.doi) is Some && opt_str_view(item.doi)->0.len() > 0
            ==> contains_seq(bibtex_entry(item), "  doi = {"@ + opt_str_view(item.doi)->0 + "}"@),
        opt_str_view(item.url) is Some && opt_str_view(item.url)->0.len() > 0
            ==> contains_seq(bibtex_entry(item), "  url = {"@ + opt_str_view(item.url)->0 + "}"@),
        opt_str_view(item.note_latex) is Some && opt_str_view(item.note_latex)->0.len() > 0
            ==> contains_seq(bibtex_entry(item), "  note = {"@ + opt_str_view(item.note_latex)->0 + "}"@),
{
    lemma_booktitle_line(item);
    lemma_address_line(item);
    lemma_volume_line(item);
    lemma_number_line(item);
    lemma_pages_line(item);
    lemma_doi_line(item);
    lemma_url_line(item);
    lemma_note_line(item);
}

fn push_field(out: &mut Vec<char>, name: &str, value: &Vec<char>)
    ensures
        final(out)@ == old(out)@ + bib_field(name@, value@),
{
    let ghost start = out@;
    extend_str(out, "  ");
    extend_str(out, name);
    extend_str(out, " = {");
    extend(out, value);
    extend_str(out, "},\n");
    assert(out@ =~= start + bib_field(name@, value@));
}

fn push_opt_field(out: &mut Vec<char>, name: &str, o: &Option<String>)
    ensures
        final(out)@ == old(out)@ + opt_bib_field(name@, opt_str_view(*o)),
{
    match o {
        Some(v) => {
            let value = chars_of(v.as_str());
            if value.len() > 0 {
                push_field(out, name, &value);
            } else {
                assert(out@ =~= old(out)@ + Seq::<char>::empty());
            }
        },
        None => {
            assert(out@ =~= old(out)@ + Seq::<char>::empty());
        },
    }
}

/// The BibTeX entry of one bibitem (no newline after the closing brace).
pub fn format_bibtex_entry(item: &BibItem) -> (r: String)
    ensures
        r@ == bibtex_entry(*item),
{
    let mut out: Vec<char> = Vec::new();
    extend_str(&mut out, "@");
    extend_str(&mut out, item.entry_type.as_str());
    extend_str(&mut out, "{");
    extend_str(&mut out, item.bibkey.as_str());
    extend_str(&mut out, ",\n");
    let ghost head = out@;
    assert(head =~= "@"@ + entry_type_name(item.entry_type) + "{"@ + item.bibkey@ + ",\n"@);
    let title = chars_of(item.title_latex.as_str());
    if title.len() > 0 {
        push_field(&mut out, "title", &title);
    }
    let ghost t1 = out@;
    assert(t1 =~= head + (if item.title_latex@.len() > 0 {
        bib_field("title"@, item.title_latex@)
    } else {
        Seq::empty()
    }));
    match item.date_year {
        Some(y) => {
            push_field(&mut out, "year", &int_chars(y as i64));
        },
        None => {},
    }
    let ghost t2 = out@;
    assert(t2 =~= t1 + match item.date_year {
        Some(y) => bib_field("year"@, int_str(y as int)),
        None => Seq::empty(),
    });
    push_opt_field(&mut out, "booktitle", &item.booktitle_latex);
    push_opt_field(&mut out, "address", &item.address);
    push_opt_field(&mut out, "volume", &item.volume);
    push_opt_field(&mut out, "number", &item.number);
    push_opt_field(&mut out, "pages", &item.pages);
    push_opt_field(&mut out, "doi", &item.doi);
    push_opt_field(&mut out, "url", &item.url);
    push_opt_field(&mut out, "note", &item.note_latex);
    let ghost t3 = out@;
    match &item.langid {
        Some(l) => {
            push_field(&mut out, "langid", &chars_of(l.code.as_str()));
        },
        None => {},
    }
    assert(out@ =~= t3 + match item.langid {
        Some(l) => bib_field("langid"@, l.code@),
        None => Seq::empty(),
    });
    assert(out@ =~= bibtex_body(*item));
    let n = out.len();
    if n >= 2 && out[n - 2] == ',' && out[n - 1] == '\n' {
        out.truncate(n - 2);
        out.push('\n');
    }
    out.push('}');
    string_of(&out)
}

/// Every entry followed by a blank line, one after the other.
pub open spec fn bibtex_entries(items: Seq<BibItem>) -> Seq<char>
    decreases items.len(),
{
    if items.len() == 0 {
        Seq::empty()
    } else {
        bibtex_entries(items.drop_last()) + bibtex_entry(items.last()) + "\n\n"@
    }
}

/// A whole BibTeX export: every entry followed by a blank line.
pub fn generate_bibtex(bibitems: &Vec<BibItem>) -> (r: String)
    ensures
        r@ == bibtex_entries(bibitems@),
{
    let mut out: Vec<char> = Vec::new();
    let mut i: usize = 0;
    while i < bibitems.len()
        invariant
            i <= bibitems.len(),
            out@ == bibtex_entries(bibitems@.take(i as int)),
        decreases bibitems.len() - i,
    {
        let entry = format_bibtex_entry(&bibitems[i]);
        extend_str(&mut out, entry.as_str());
        extend_str(&mut out, "\n\n");
        assert(bibitems@.take(i + 1).drop_last() =~= bibitems@.take(i as int));
        assert(out@ =~= bibtex_entries(bibitems@.take(i + 1)));
        i += 1;
    }
    assert(bibitems@.take(bibitems.len() as int) =~= bibitems@);
    string_of(&out)
}

} // verus!

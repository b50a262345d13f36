//! Export requests and the text of exported fields.
use vstd::prelude::*;
use crate::domain::{role_name, Author, AuthorRole, BibitemAuthorsRow, BibitemKeywordsRow, Keyword};
use crate::keymap::StrMap;
use crate::numeric::{int_chars, int_str};
use crate::text::{chars_eq, chars_of, extend_str, join, join_chars, lit, seqs_of, string_of};

verus! {

// ---------------------------------------------------------------------------
// Requests
// ---------------------------------------------------------------------------

/// The format of a bibitem export.
#[derive(Debug, PartialEq, Eq, Structural)]
pub enum ExportFormat {
    Expanded,
    Ids,
}

impl Default for ExportFormat {
    fn default() -> (r: Self)
        ensures
            r == ExportFormat::Expanded,
    {
        ExportFormat::Expanded
    }
}

/// What bibitems to export, and how.
#[derive(Debug)]
pub struct BibitemExportRequest {
    pub format: ExportFormat,
    pub all: bool,
    pub ids: Option<Vec<i64>>,
    pub bibkeys: Option<Vec<String>>,
}

/// What entities to export.
#[derive(Debug)]
pub struct EntityExportRequest {
    pub all: bool,
    pub ids: Option<Vec<i64>>,
    pub keys: Option<Vec<String>>,
}

/// Which records an export request selects: all, by id, or by key.
#[derive(Debug)]
pub enum ExportSelection {
    All,
    Ids(Vec<i64>),
    Keys(Vec<String>),
}

fn copy_ids(ids: &Vec<i64>) -> (v: Vec<i64>)
    ensures
        v@ == ids@,
{
    let mut v: Vec<i64> = Vec::new();
    let mut i: usize = 0;
    while i < ids.len()
        invariant
            i <= ids.len(),
            v@ == ids@.take(i as int),
        decreases ids.len() - i,
    {
        v.push(ids[i]);
        assert(v@ =~= ids@.take(i + 1));
        i += 1;
    }
    assert(ids@.take(ids.len() as int) =~= ids@);
    v
}

fn copy_strings(keys: &Vec<String>) -> (v: Vec<String>)
    ensures
        crate::text::strs_of(v@) == crate::text::strs_of(keys@),
{
    let mut v: Vec<String> = Vec::new();
    let mut i: usize = 0;
    while i < keys.len()
        invariant
            i <= keys.len(),
            crate::text::strs_of(v@) == crate::text::strs_of(keys@).take(i as int),
        decreases keys.len() - i,
    {
        let ghost before = crate::text::strs_of(v@);
        let k = keys[i].clone();
        assert(k@ == keys@[i as int]@);
        v.push(k);
        assert(crate::text::strs_of(v@) =~= before.push(keys@[i as int]@));
        assert(crate::text::strs_of(v@) =~= crate::text::strs_of(keys@).take(i + 1));
        i += 1;
    }
    assert(crate::text::strs_of(keys@).take(keys.len() as int) =~= crate::text::strs_of(keys@));
    v
}

/// The selection of a bibitem export: all when asked, else the ids, else the
/// bibkeys; a request with none of them is refused (`None`).
pub fn export_selection(req: &BibitemExportRequest) -> (r: Option<ExportSelection>)
    ensures
        req.all ==> r matches Some(ExportSelection::All),
        !req.all && req.ids is Some ==> (r matches Some(ExportSelection::Ids(v)) && v@ == req.ids->0@),
        !req.all && req.ids is None && req.bibkeys is Some ==> (r matches Some(ExportSelection::Keys(v))
            && crate::text::strs_of(v@) == crate::text::strs_of(req.bibkeys->0@)),
        !req.all && req.ids is None && req.bibkeys is None ==> r is None,
{
    if req.all {
        Some(ExportSelection::All)
    } else if let Some(ids) = &req.ids {
        Some(ExportSelection::Ids(copy_ids(ids)))
    } else if let Some(keys) = &req.bibkeys {
        Some(ExportSelection::Keys(copy_strings(keys)))
    } else {
        None
    }
}

/// The selection of an entity export: all when asked, else the ids, else the
/// keys; a request with none of them is refused (`None`).
pub fn entity_export_selection(req: &EntityExportRequest) -> (r: Option<ExportSelection>)
    ensures
        req.all ==> r matches Some(ExportSelection::All),
        !req.all && req.ids is Some ==> (r matches Some(ExportSelection::Ids(v)) && v@ == req.ids->0@),
        !req.all && req.ids is None && req.keys is Some ==> (r matches Some(ExportSelection::Keys(v))
            && crate::text::strs_of(v@) == crate::text::strs_of(req.keys->0@)),
        !req.all && req.ids is None && req.keys is None ==> r is None,
{
    if req.all {
        Some(ExportSelection::All)
    } else if let Some(ids) = &req.ids {
        Some(ExportSelection::Ids(copy_ids(ids)))
    } else if let Some(keys) = &req.keys {
        Some(ExportSelection::Keys(copy_strings(keys)))
    } else {
        None
    }
}

// ---------------------------------------------------------------------------
// Optional values as text
// ---------------------------------------------------------------------------

/// The text of an optional string, empty when absent.
pub fn opt_str(v: &Option<String>) -> (r: &str)
    ensures
        r@ == (match v {
            Some(s) => s@,
            None => Seq::empty(),
        }),
{
    match v {
        Some(s) => s.as_str(),
        None => {
            let e = "";
            proof {
                reveal_strlit("");
            }
            e
        },
    }
}

/// The decimal text of an optional integer, empty when absent.
pub open spec fn opt_int_text(v: Option<int>) -> Seq<char> {
    match v {
        Some(n) => int_str(n),
        None => Seq::empty(),
    }
}

/// The decimal text of an optional `i64`, empty when absent.
pub fn opt_i64(v: Option<i64>) -> (r: String)
    ensures
        r@ == opt_int_text(match v {
            Some(n) => Some(n as int),
            None => None,
        }),
{
    match v {
        Some(n) => string_of(&int_chars(n)),
        None => string_of(&Vec::new()),
    }
}

/// The decimal text of an optional `i16`, empty when absent.
pub fn opt_i16(v: Option<i16>) -> (r: String)
    ensures
        r@ == opt_int_text(match v {
            Some(n) => Some(n as int),
            None => None,
        }),
{
    match v {
        Some(n) => string_of(&int_chars(n as i64)),
        None => string_of(&Vec::new()),
    }
}

// ---------------------------------------------------------------------------
// Author links, ordered by position
// ---------------------------------------------------------------------------

/// `x` placed after every element of `s` whose position is not greater
/// (the step of a stable sort by position).
pub open spec fn insert_by_position(s: Seq<BibitemAuthorsRow>, x: BibitemAuthorsRow) -> Seq<BibitemAuthorsRow>
    decreases s.len(),
{
    if s.len() == 0 {
        seq![x]
    } else if s.last().position <= x.position {
        s.push(x)
    } else {
        insert_by_position(s.drop_last(), x).push(s.last())
    }
}

/// The rows stably sorted by position: equal positions keep their order.
pub open spec fn by_position(s: Seq<BibitemAuthorsRow>) -> Seq<BibitemAuthorsRow>
    decreases s.len(),
{
    if s.len() == 0 {
        Seq::empty()
    } else {
        insert_by_position(by_position(s.drop_last()), s.last())
    }
}

/// The rows of a role, in order.
pub open spec fn of_role(s: Seq<BibitemAuthorsRow>, role: AuthorRole) -> Seq<BibitemAuthorsRow>
    decreases s.len(),
{
    if s.len() == 0 {
        Seq::empty()
    } else if s.last().role@ == role_name(role) {
        of_role(s.drop_last(), role).push(s.last())
    } else {
        of_role(s.drop_last(), role)
    }
}

/// The rows of `role`, stably sorted by position.
pub open spec fn role_rows(s: Seq<BibitemAuthorsRow>, role: AuthorRole) -> Seq<BibitemAuthorsRow> {
    by_position(of_role(s, role))
}

/// Non-decreasing positions.
pub open spec fn positions_sorted(s: Seq<BibitemAuthorsRow>) -> bool {
    forall|i: int, j: int| 0 <= i < j < s.len() ==> (#[trigger] s[i]).position <= (#[trigger] s[j]).position
}

proof fn lemma_insert_is_at(s: Seq<BibitemAuthorsRow>, x: BibitemAuthorsRow, k: int)
    requires
        positions_sorted(s),
        0 <= k <= s.len(),
        forall|j: int| 0 <= j < k ==> (#[trigger] s[j]).position <= x.position,
        forall|j: int| k <= j < s.len() ==> (#[trigger] s[j]).position > x.position,
    ensures
        insert_by_position(s, x) == s.insert(k, x),
        positions_sorted(s.insert(k, x)),
    decreases s.len(),
{
    if s.len() == 0 {
        assert(s.insert(k, x) =~= seq![x]);
    } else if s.last().position <= x.position {
        assert(k == s.len());
        assert(s.insert(k, x) =~= s.push(x));
    } else {
        lemma_insert_is_at(s.drop_last(), x, k);
        assert(s.drop_last().insert(k, x).push(s.last()) =~= s.insert(k, x));
    }
    let t = s.insert(k, x);
    assert forall|i: int, j: int| 0 <= i < j < t.len() implies (#[trigger] t[i]).position <= (#[trigger] t[j]).position by {
        if j < k {
        } else if j == k {
        } else if i < k {
            assert(t[j] == s[j - 1]);
        } else if i == k {
            assert(t[j] == s[j - 1]);
        } else {
            assert(t[i] == s[i - 1]);
            assert(t[j] == s[j - 1]);
        }
    }
}

fn copy_row(r: &BibitemAuthorsRow) -> (c: BibitemAuthorsRow)
    ensures
        c == *r,
{
    BibitemAuthorsRow {
        bibkey: r.bibkey.clone(),
        author_key: r.author_key.clone(),
        role: r.role.clone(),
        position: r.position,
        name_variant_latex: crate::dto::clone_opt(&r.name_variant_latex),
        name_variant_unicode: crate::dto::clone_opt(&r.name_variant_unicode),
    }
}

/// The links of `role`, stably sorted by position.
pub(crate) fn sorted_role_rows(rows: &Vec<&BibitemAuthorsRow>, role: AuthorRole) -> (r: Vec<BibitemAuthorsRow>)
    ensures
        r@ == role_rows(Seq::new(rows.len() as nat, |i: int| *rows@[i]), role),
{
    let ghost all = Seq::new(rows.len() as nat, |i: int| *rows@[i]);
    let role_text = lit(role.as_str());
    let mut filtered: Vec<BibitemAuthorsRow> = Vec::new();
    let mut i: usize = 0;
    assert(all.take(0) =~= Seq::<BibitemAuthorsRow>::empty());
    while i < rows.len()
        invariant
            i <= rows.len(),
            all == Seq::new(rows.len() as nat, |i: int| *rows@[i]),
            role_text@ == role_name(role),
            filtered@ == of_role(all.take(i as int), role),
        decreases rows.len() - i,
    {
        assert(all.take(i + 1).drop_last() =~= all.take(i as int));
        assert(all.take(i + 1).last() == *rows@[i as int]);
        if chars_eq(&chars_of(rows[i].role.as_str()), &role_text) {
            filtered.push(copy_row(rows[i]));
        }
        i += 1;
    }
    assert(all.take(rows.len() as int) =~= all);
    let ghost fs = filtered@;
    let mut out: Vec<BibitemAuthorsRow> = Vec::new();
    let mut j: usize = 0;
    assert(fs.take(0) =~= Seq::<BibitemAuthorsRow>::empty());
    while j < filtered.len()
        invariant
            j <= filtered.len(),
            fs == filtered@,
            out@ == by_position(fs.take(j as int)),
            positions_sorted(out@),
        decreases filtered.len() - j,
    {
        let x = copy_row(&filtered[j]);
        let n = out.len();
        let mut k: usize = 0;
        while k < n && out[k].position <= x.position
            invariant
                k <= n,
                n == out.len(),
                forall|q: int| 0 <= q < k ==> (#[trigger] out@[q]).position <= x.position,
            decreases n - k,
        {
            k += 1;
        }
        proof {
            assert forall|q: int| k <= q < out@.len() implies (#[trigger] out@[q]).position > x.position by {
                assert(out@[k as int].position > x.position);
            }
            lemma_insert_is_at(out@, x, k as int);
            assert(fs.take(j + 1).drop_last() =~= fs.take(j as int));
            assert(fs.take(j + 1).last() == x);
        }
        out.insert(k, x);
        j += 1;
    }
    assert(fs.take(filtered.len() as int) =~= fs);
    out
}

/// The author keys of a list of rows.
pub open spec fn author_keys_of(s: Seq<BibitemAuthorsRow>) -> Seq<Seq<char>> {
    Seq::new(s.len(), |i: int| s[i].author_key@)
}

/// The author keys of `role`, by position, joined with `;` (empty without
/// rows).
pub open spec fn role_ids_spec(rows: Option<Seq<BibitemAuthorsRow>>, role: AuthorRole) -> Seq<char> {
    match rows {
        Some(s) => join(author_keys_of(role_rows(s, role)), ";"@),
        None => Seq::empty(),
    }
}

/// The rows behind a list of references.
pub open spec fn deref_rows(rows: Option<&Vec<&BibitemAuthorsRow>>) -> Option<Seq<BibitemAuthorsRow>> {
    match rows {
        Some(v) => Some(Seq::new(v.len() as nat, |i: int| *v@[i])),
        None => None,
    }
}

/// The author keys of a role, ordered by position and joined with `;`.
pub fn format_role_ids(bib_authors: Option<&Vec<&BibitemAuthorsRow>>, role: AuthorRole) -> (r: String)
    ensures
        r@ == role_ids_spec(deref_rows(bib_authors), role),
{
    match bib_authors {
        Some(rows) => {
            let sorted = sorted_role_rows(rows, role);
            let mut keys: Vec<Vec<char>> = Vec::new();
            let mut i: usize = 0;
            while i < sorted.len()
                invariant
                    i <= sorted.len(),
                    seqs_of(keys@) == author_keys_of(sorted@).take(i as int),
                decreases sorted.len() - i,
            {
                let ghost before = seqs_of(keys@);
                let k = chars_of(sorted[i].author_key.as_str());
                keys.push(k);
                assert(seqs_of(keys@) =~= before.push(sorted@[i as int].author_key@));
                assert(seqs_of(keys@) =~= author_keys_of(sorted@).take(i + 1));
                i += 1;
            }
            assert(author_keys_of(sorted@).take(sorted.len() as int) =~= author_keys_of(sorted@));
            let sep = lit(";");
            string_of(&join_chars(&keys, &sep))
        },
        None => string_of(&Vec::new()),
    }
}

/// The text of an optional string, empty when absent.
pub open spec fn text_or_empty(o: Option<String>) -> Seq<char> {
    match o {
        Some(s) => s@,
        None => Seq::empty(),
    }
}

/// The display name of an author: the Unicode mononym, else `family,
/// given` (only the family name when the given name is empty).
pub open spec fn author_display(a: Author) -> Seq<char> {
    match a.mononym_unicode {
        Some(m) => m@,
        None => {
            let family = text_or_empty(a.family_name_unicode);
            let given = text_or_empty(a.given_name_unicode);
            if given.len() == 0 {
                family
            } else {
                family + ", "@ + given
            }
        },
    }
}

/// The names of rows: the LaTeX name variant of the link, else the display
/// name of the author; rows of unknown authors without a variant give none.
pub open spec fn row_names_spec(s: Seq<BibitemAuthorsRow>, m: Map<Seq<char>, Author>) -> Seq<Seq<char>>
    decreases s.len(),
{
    if s.len() == 0 {
        Seq::empty()
    } else {
        let prev = row_names_spec(s.drop_last(), m);
        let r = s.last();
        match r.name_variant_latex {
            Some(v) => prev.push(v@),
            None => if m.contains_key(r.author_key@) {
                prev.push(author_display(m[r.author_key@]))
            } else {
                prev
            },
        }
    }
}

/// The names of `role`, by position, joined with ` and `.
pub open spec fn role_names_spec(rows: Option<Seq<BibitemAuthorsRow>>, role: AuthorRole, m: Map<Seq<char>, Author>) -> Seq<char> {
    match rows {
        Some(s) => join(row_names_spec(role_rows(s, role), m), " and "@),
        None => Seq::empty(),
    }
}

fn display_name_of(a: &Author) -> (r: Vec<char>)
    ensures
        r@ == author_display(*a),
{
    match &a.mononym_unicode {
        Some(m) => chars_of(m.as_str()),
        None => {
            let family = match &a.family_name_unicode {
                Some(f) => chars_of(f.as_str()),
                None => Vec::new(),
            };
            let given = match &a.given_name_unicode {
                Some(g) => chars_of(g.as_str()),
                None => Vec::new(),
            };
            if given.len() == 0 {
                family
            } else {
                let mut v = family;
                extend_str(&mut v, ", ");
                crate::text::extend(&mut v, &given);
                v
            }
        },
    }
}

/// The display names of a role, ordered by position and joined with
/// ` and `; a link's LaTeX name variant is preferred to the author's
/// Unicode name.
pub fn format_role_names(
    bib_authors: Option<&Vec<&BibitemAuthorsRow>>,
    role: AuthorRole,
    authors_map: &StrMap<Author>,
) -> (r: String)
    ensures
        r@ == role_names_spec(deref_rows(bib_authors), role, authors_map@),
{
    match bib_authors {
        Some(rows) => {
            let sorted = sorted_role_rows(rows, role);
            let mut names: Vec<Vec<char>> = Vec::new();
            let mut i: usize = 0;
            assert(sorted@.take(0) =~= Seq::<BibitemAuthorsRow>::empty());
            while i < sorted.len()
                invariant
                    i <= sorted.len(),
                    seqs_of(names@) == row_names_spec(sorted@.take(i as int), authors_map@),
                decreases sorted.len() - i,
            {
                let ghost before = seqs_of(names@);
                assert(sorted@.take(i + 1).drop_last() =~= sorted@.take(i as int));
                assert(sorted@.take(i + 1).last() == sorted@[i as int]);
                let r = &sorted[i];
                match &r.name_variant_latex {
                    Some(v) => {
                        names.push(chars_of(v.as_str()));
                    },
                    None => {
                        match authors_map.get_str(r.author_key.as_str()) {
                            Some(a) => {
                                names.push(display_name_of(a));
                            },
                            None => {},
                        }
                    },
                }
                assert(seqs_of(names@) =~= row_names_spec(sorted@.take(i + 1), authors_map@));
                i += 1;
            }
            assert(sorted@.take(sorted.len() as int) =~= sorted@);
            let sep = lit(" and ");
            string_of(&join_chars(&names, &sep))
        },
        None => string_of(&Vec::new()),
    }
}

/// The names of the keywords of `level` that `m` knows, in order.
pub open spec fn keyword_names_spec(s: Seq<BibitemKeywordsRow>, level: i16, m: Map<Seq<char>, Keyword>) -> Seq<Seq<char>>
    decreases s.len(),
{
    if s.len() == 0 {
        Seq::empty()
    } else {
        let prev = keyword_names_spec(s.drop_last(), level, m);
        let r = s.last();
        if r.keyword_level == level && m.contains_key(r.keyword_key@) {
            prev.push(m[r.keyword_key@].name@)
        } else {
            prev
        }
    }
}

/// The keyword rows behind a list of references.
pub open spec fn deref_keyword_rows(rows: Option<&Vec<&BibitemKeywordsRow>>) -> Option<Seq<BibitemKeywordsRow>> {
    match rows {
        Some(v) => Some(Seq::new(v.len() as nat, |i: int| *v@[i])),
        None => None,
    }
}

/// The names of the keywords of a level, in link order, joined with `;`.
pub fn format_keywords_at_level(
    bib_keywords: Option<&Vec<&BibitemKeywordsRow>>,
    level: i16,
    keywords_map: &StrMap<Keyword>,
) -> (r: String)
    ensures
        r@ == (match deref_keyword_rows(bib_keywords) {
            Some(s) => join(keyword_names_spec(s, level, keywords_map@), ";"@),
            None => Seq::empty(),
        }),
{
    match bib_keywords {
        Some(rows) => {
            let ghost all = Seq::new(rows.len() as nat, |i: int| *rows@[i]);
            let mut names: Vec<Vec<char>> = Vec::new();
            let mut i: usize = 0;
            assert(all.take(0) =~= Seq::<BibitemKeywordsRow>::empty());
            while i < rows.len()
                invariant
                    i <= rows.len(),
                    all == Seq::new(rows.len() as nat, |i: int| *rows@[i]),
                    seqs_of(names@) == keyword_names_spec(all.take(i as int), level, keywords_map@),
                decreases rows.len() - i,
            {
                let ghost before = seqs_of(names@);
                assert(all.take(i + 1).drop_last() =~= all.take(i as int));
                assert(all.take(i + 1).last() == *rows@[i as int]);
                let r = rows[i];
                if r.keyword_level == level {
                    match keywords_map.get_str(r.keyword_key.as_str()) {
                        Some(k) => {
                            names.push(chars_of(k.name.as_str()));
                        },
                        None => {},
                    }
                }
                assert(seqs_of(names@) =~= keyword_names_spec(all.take(i + 1), level, keywords_map@));
                i += 1;
            }
            assert(all.take(rows.len() as int) =~= all);
            let sep = lit(";");
            string_of(&join_chars(&names, &sep))
        },
        None => string_of(&Vec::new()),
    }
}

// ---------------------------------------------------------------------------
// Keys to fetch
// ---------------------------------------------------------------------------

/// The author keys that the rows name.
pub open spec fn author_keys_spec(rows: Seq<BibitemAuthorsRow>) -> Set<Seq<char>> {
    Set::new(|k: Seq<char>| exists|i: int| 0 <= i < rows.len() && rows[i].author_key@ == k)
}

/// The keyword keys that the rows name.
pub open spec fn keyword_keys_spec(rows: Seq<crate::domain::BibitemKeywordsRow>) -> Set<Seq<char>> {
    Set::new(|k: Seq<char>| exists|i: int| 0 <= i < rows.len() && rows[i].keyword_key@ == k)
}

/// Each author key the rows name, once.
pub fn author_keys(rows: &Vec<BibitemAuthorsRow>) -> (r: crate::keymap::StrSet)
    ensures
        r@ == author_keys_spec(rows@),
{
    let mut r = crate::keymap::StrSet::new();
    let mut i: usize = 0;
    while i < rows.len()
        invariant
            i <= rows.len(),
            r@ == author_keys_spec(rows@.take(i as int)),
        decreases rows.len() - i,
    {
        r.insert(rows[i].author_key.as_str());
        proof {
            let pre = rows@.take(i as int);
            let nxt = rows@.take(i + 1);
            assert forall|k: Seq<char>| author_keys_spec(nxt).contains(k) <==> (author_keys_spec(pre).contains(k)
                || k == rows@[i as int].author_key@) by {
                if author_keys_spec(nxt).contains(k) {
                    let j = choose|j: int| 0 <= j < nxt.len() && nxt[j].author_key@ == k;
                    if j < i {
                        assert(pre[j] == nxt[j]);
                    }
                }
                if author_keys_spec(pre).contains(k) {
                    let j = choose|j: int| 0 <= j < pre.len() && pre[j].author_key@ == k;
                    assert(nxt[j] == pre[j]);
                }
                if k == rows@[i as int].author_key@ {
                    assert(nxt[i as int] == rows@[i as int]);
                }
            }
            assert(r@ =~= author_keys_spec(nxt));
        }
        i += 1;
    }
    assert(rows@.take(rows.len() as int) =~= rows@);
    r
}

/// The keys that are present among optional keys.
pub open spec fn present_keys_spec(keys: Seq<Option<String>>) -> Set<Seq<char>> {
    Set::new(|k: Seq<char>| exists|i: int| 0 <= i < keys.len() && #[trigger] keys[i] is Some && keys[i]->0@ == k)
}

/// Each present key once (the journal, publisher, crossref, ... keys of a
/// batch of bibitems, to fetch what they refer to).
pub fn present_keys(keys: &Vec<Option<String>>) -> (r: crate::keymap::StrSet)
    ensures
        r@ == present_keys_spec(keys@),
{
    let mut r = crate::keymap::StrSet::new();
    let mut i: usize = 0;
    while i < keys.len()
        invariant
            i <= keys.len(),
            r@ == present_keys_spec(keys@.take(i as int)),
        decreases keys.len() - i,
    {
        let ghost before = r@;
        match &keys[i] {
            Some(k) => r.insert(k.as_str()),
            None => {},
        }
        proof {
            let pre = keys@.take(i as int);
            let nxt = keys@.take(i + 1);
            assert(nxt[i as int] == keys@[i as int]);
            assert forall|k: Seq<char>| present_keys_spec(nxt).contains(k) <==> (present_keys_spec(pre).contains(k)
                || (keys@[i as int] is Some && k == keys@[i as int]->0@)) by {
                if present_keys_spec(nxt).contains(k) {
                    let j = choose|j: int| 0 <= j < nxt.len() && #[trigger] nxt[j] is Some && nxt[j]->0@ == k;
                    if j < i {
                        assert(pre[j] == nxt[j]);
                    }
                }
                if present_keys_spec(pre).contains(k) {
                    let j = choose|j: int| 0 <= j < pre.len() && #[trigger] pre[j] is Some && pre[j]->0@ == k;
                    assert(nxt[j] == pre[j]);
                }
            }
            assert(r@ =~= present_keys_spec(nxt));
        }
        i += 1;
    }
    assert(keys@.take(keys.len() as int) =~= keys@);
    r
}

/// Each keyword key the rows name, once.
pub fn keyword_keys(rows: &Vec<crate::domain::BibitemKeywordsRow>) -> (r: crate::keymap::StrSet)
    ensures
        r@ == keyword_keys_spec(rows@),
{
    let mut r = crate::keymap::StrSet::new();
    let mut i: usize = 0;
    while i < rows.len()
        invariant
            i <= rows.len(),
            r@ == keyword_keys_spec(rows@.take(i as int)),
        decreases rows.len() - i,
    {
        r.insert(rows[i].keyword_key.as_str());
        proof {
            let pre = rows@.take(i as int);
            let nxt = rows@.take(i + 1);
            assert forall|k: Seq<char>| keyword_keys_spec(nxt).contains(k) <==> (keyword_keys_spec(pre).contains(k)
                || k == rows@[i as int].keyword_key@) by {
                if keyword_keys_spec(nxt).contains(k) {
                    let j = choose|j: int| 0 <= j < nxt.len() && nxt[j].keyword_key@ == k;
                    if j < i {
                        assert(pre[j] == nxt[j]);
                    }
                }
                if keyword_keys_spec(pre).contains(k) {
                    let j = choose|j: int| 0 <= j < pre.len() && pre[j].keyword_key@ == k;
                    assert(nxt[j] == pre[j]);
                }
                if k == rows@[i as int].keyword_key@ {
                    assert(nxt[i as int] == rows@[i as int]);
                }
            }
            assert(r@ =~= keyword_keys_spec(nxt));
        }
        i += 1;
    }
    assert(rows@.take(rows.len() as int) =~= rows@);
    r
}

} // verus!

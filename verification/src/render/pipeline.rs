//! The decisions of a render request: its size, what was not found, which
//! further references are new, and the order of the bibliography.
use vstd::prelude::*;
use crate::domain::BibItem;
use crate::keymap::{lemma_lex_irrefl, lemma_lex_total, lemma_lex_trans, lex_less, lex_lt};
use crate::render::context::{author_sort_key, author_sort_key_spec, RenderContext};
use crate::text::{chars_eq, chars_of, strs_of};
use crate::domain::{Author, AuthorRole, BibitemAuthorsRow};
use crate::export::{deref_rows, role_rows};
use crate::keymap::StrMap;
use crate::render::context::{names_of, ov, AuthorNameView, RenderContextView};
use crate::render::entries::{extract_role_authors, render_bibliography, render_bibliography_spec, role_author_names};

verus! {

/// Which bibitems to render.
pub enum RenderSelection {
    ByIds(Vec<i64>),
    ByBibkeys(Vec<String>),
}

/// The rendered bibliography, and the further references when asked for.
#[derive(Debug)]
pub struct RenderResponse {
    pub main_html: String,
    pub further_refs_html: Option<String>,
}

/// The most items one request may render.
pub const MAX_RENDER_ITEMS: usize = 1000;

/// Why a render request failed.
#[derive(Debug)]
pub enum RenderPipelineError {
    TooManyItems { requested: usize, max: usize },
    MissingIds(Vec<i64>),
    MissingBibkeys(Vec<String>),
    /// A failure of the store, with its message.
    Internal(String),
}

/// The number of items a selection names.
pub open spec fn selection_len(sel: RenderSelection) -> nat {
    match sel {
        RenderSelection::ByIds(ids) => ids@.len(),
        RenderSelection::ByBibkeys(keys) => keys@.len(),
    }
}

/// The size of a selection, refused beyond `MAX_RENDER_ITEMS`.
pub fn check_selection(sel: &RenderSelection) -> (r: Result<usize, RenderPipelineError>)
    ensures
        selection_len(*sel) <= MAX_RENDER_ITEMS ==> r == Ok::<usize, RenderPipelineError>(selection_len(*sel) as usize),
        selection_len(*sel) > MAX_RENDER_ITEMS ==> (r matches Err(RenderPipelineError::TooManyItems { requested, max })
            && requested == selection_len(*sel) && max == MAX_RENDER_ITEMS),
{
    let count = match sel {
        RenderSelection::ByIds(ids) => ids.len(),
        RenderSelection::ByBibkeys(keys) => keys.len(),
    };
    if count > MAX_RENDER_ITEMS {
        Err(RenderPipelineError::TooManyItems { requested: count, max: MAX_RENDER_ITEMS })
    } else {
        Ok(count)
    }
}

/// The ids of the items.
pub open spec fn ids_of(items: Seq<BibItem>) -> Seq<i64> {
    Seq::new(items.len(), |i: int| items[i].id)
}

/// The requested ids that no found item has, in request order.
pub open spec fn missing_ids_spec(requested: Seq<i64>, found: Seq<i64>) -> Seq<i64>
    decreases requested.len(),
{
    if requested.len() == 0 {
        Seq::empty()
    } else if found.contains(requested.last()) {
        missing_ids_spec(requested.drop_last(), found)
    } else {
        missing_ids_spec(requested.drop_last(), found).push(requested.last())
    }
}

fn contains_id(v: &Vec<i64>, x: i64) -> (r: bool)
    ensures
        r == v@.contains(x),
{
    let mut i: usize = 0;
    while i < v.len()
        invariant
            i <= v.len(),
            forall|j: int| 0 <= j < i ==> v@[j] != x,
        decreases v.len() - i,
    {
        if v[i] == x {
            return true;
        }
        i += 1;
    }
    false
}

/// The ids of `candidates` that are not in `known`, in order.
fn ids_not_in(candidates: &Vec<i64>, known: &Vec<i64>) -> (r: Vec<i64>)
    ensures
        r@ == missing_ids_spec(candidates@, known@),
{
    let mut out: Vec<i64> = Vec::new();
    let mut i: usize = 0;
    assert(candidates@.take(0) =~= Seq::<i64>::empty());
    while i < candidates.len()
        invariant
            i <= candidates.len(),
            out@ == missing_ids_spec(candidates@.take(i as int), known@),
        decreases candidates.len() - i,
    {
        assert(candidates@.take(i + 1).drop_last() =~= candidates@.take(i as int));
        assert(candidates@.take(i + 1).last() == candidates@[i as int]);
        if !contains_id(known, candidates[i]) {
            out.push(candidates[i]);
        }
        i += 1;
    }
    assert(candidates@.take(candidates.len() as int) =~= candidates@);
    out
}

/// The requested ids that were not found, in request order.
pub fn missing_ids(requested: &Vec<i64>, found: &Vec<BibItem>) -> (r: Vec<i64>)
    ensures
        r@ == missing_ids_spec(requested@, ids_of(found@)),
{
    let mut found_ids: Vec<i64> = Vec::new();
    let mut i: usize = 0;
    while i < found.len()
        invariant
            i <= found.len(),
            found_ids@ == ids_of(found@).take(i as int),
        decreases found.len() - i,
    {
        found_ids.push(found[i].id);
        assert(found_ids@ =~= ids_of(found@).take(i + 1));
        i += 1;
    }
    assert(ids_of(found@).take(found.len() as int) =~= ids_of(found@));
    ids_not_in(requested, &found_ids)
}

/// The dependency ids that are not among the main ids, in order.
pub fn novel_ids(dep_ids: &Vec<i64>, main_ids: &Vec<i64>) -> (r: Vec<i64>)
    ensures
        r@ == missing_ids_spec(dep_ids@, main_ids@),
{
    ids_not_in(dep_ids, main_ids)
}

/// The bibkeys of the items.
pub open spec fn bibkeys_of(items: Seq<BibItem>) -> Seq<Seq<char>> {
    Seq::new(items.len(), |i: int| items[i].bibkey@)
}

/// The requested bibkeys that no found item has, in request order.
pub open spec fn missing_keys_spec(requested: Seq<Seq<char>>, found: Seq<Seq<char>>) -> Seq<Seq<char>>
    decreases requested.len(),
{
    if requested.len() == 0 {
        Seq::empty()
    } else if found.contains(requested.last()) {
        missing_keys_spec(requested.drop_last(), found)
    } else {
        missing_keys_spec(requested.drop_last(), found).push(requested.last())
    }
}

fn has_bibkey(found: &Vec<BibItem>, k: &Vec<char>) -> (r: bool)
    ensures
        r == bibkeys_of(found@).contains(k@),
{
    let mut i: usize = 0;
    while i < found.len()
        invariant
            i <= found.len(),
            forall|j: int| 0 <= j < i ==> bibkeys_of(found@)[j] != k@,
        decreases found.len() - i,
    {
        if chars_eq(&chars_of(found[i].bibkey.as_str()), k) {
            assert(bibkeys_of(found@)[i as int] == k@);
            return true;
        }
        i += 1;
    }
    false
}

/// The requested bibkeys that were not found, in request order.
pub fn missing_bibkeys(requested: &Vec<String>, found: &Vec<BibItem>) -> (r: Vec<String>)
    ensures
        strs_of(r@) == missing_keys_spec(strs_of(requested@), bibkeys_of(found@)),
{
    let ghost req = strs_of(requested@);
    let mut out: Vec<String> = Vec::new();
    let mut i: usize = 0;
    assert(req.take(0) =~= Seq::<Seq<char>>::empty());
    assert(strs_of(out@) =~= Seq::<Seq<char>>::empty());
    while i < requested.len()
        invariant
            i <= requested.len(),
            req == strs_of(requested@),
            strs_of(out@) == missing_keys_spec(req.take(i as int), bibkeys_of(found@)),
        decreases requested.len() - i,
    {
        assert(req.take(i + 1).drop_last() =~= req.take(i as int));
        assert(req.take(i + 1).last() == requested@[i as int]@);
        if !has_bibkey(found, &chars_of(requested[i].as_str())) {
            let ghost before = strs_of(out@);
            let k = requested[i].clone();
            assert(k@ == requested@[i as int]@);
            out.push(k);
            assert(strs_of(out@) =~= before.push(requested@[i as int]@));
        }
        i += 1;
    }
    assert(req.take(requested.len() as int) =~= req);
    out
}

// ---------------------------------------------------------------------------
// Order of a bibliography
// ---------------------------------------------------------------------------

/// The sort key of an entry: its author key, its year, its bibkey.
pub open spec fn sort_key(it: (BibItem, RenderContext)) -> (Seq<char>, Option<i16>, Seq<char>) {
    (author_sort_key_spec(it.1@.authors), it.0.date_year, it.0.bibkey@)
}

/// The order of optional years: no year first.
pub open spec fn year_lt(a: Option<i16>, b: Option<i16>) -> bool {
    match (a, b) {
        (None, Some(_)) => true,
        (Some(x), Some(y)) => x < y,
        _ => false,
    }
}

/// The order of sort keys: by author key, then year, then bibkey.
pub open spec fn key_lt(a: (Seq<char>, Option<i16>, Seq<char>), b: (Seq<char>, Option<i16>, Seq<char>)) -> bool {
    ||| lex_lt(a.0, b.0)
    ||| (a.0 == b.0 && year_lt(a.1, b.1))
    ||| (a.0 == b.0 && a.1 == b.1 && lex_lt(a.2, b.2))
}

proof fn lemma_key_order(a: (Seq<char>, Option<i16>, Seq<char>), b: (Seq<char>, Option<i16>, Seq<char>), c: (Seq<char>, Option<i16>, Seq<char>))
    ensures
        !key_lt(a, a),
        key_lt(a, b) && key_lt(b, c) ==> key_lt(a, c),
        key_lt(a, b) || key_lt(b, a) || a == b,
{
    lemma_lex_irrefl(a.0);
    lemma_lex_irrefl(a.2);
    lemma_lex_total(a.0, b.0);
    lemma_lex_total(a.2, b.2);
    if key_lt(a, b) && key_lt(b, c) {
        if lex_lt(a.0, b.0) && lex_lt(b.0, c.0) {
            lemma_lex_trans(a.0, b.0, c.0);
        }
        if lex_lt(a.2, b.2) && lex_lt(b.2, c.2) {
            lemma_lex_trans(a.2, b.2, c.2);
        }
    }
    if !key_lt(a, b) && !key_lt(b, a) {
        assert(a.0 == b.0);
        assert(a.1 == b.1);
        assert(a.2 == b.2);
    }
}

/// `x` placed after every entry that does not come after it (the step of
/// a stable sort).
pub open spec fn insert_entry(s: Seq<(BibItem, RenderContext)>, x: (BibItem, RenderContext)) -> Seq<(BibItem, RenderContext)>
    decreases s.len(),
{
    if s.len() == 0 {
        seq![x]
    } else if !key_lt(sort_key(x), sort_key(s.last())) {
        s.push(x)
    } else {
        insert_entry(s.drop_last(), x).push(s.last())
    }
}

/// The entries stably sorted by author key, year and bibkey.
pub open spec fn sorted_entries(s: Seq<(BibItem, RenderContext)>) -> Seq<(BibItem, RenderContext)>
    decreases s.len(),
{
    if s.len() == 0 {
        Seq::empty()
    } else {
        insert_entry(sorted_entries(s.drop_last()), s.last())
    }
}

/// No entry comes after a later one.
pub open spec fn entries_ordered(s: Seq<(BibItem, RenderContext)>) -> bool {
    forall|i: int, j: int| 0 <= i < j < s.len() ==> !key_lt(sort_key(#[trigger] s[j]), sort_key(#[trigger] s[i]))
}

proof fn lemma_insert_entry_at(s: Seq<(BibItem, RenderContext)>, x: (BibItem, RenderContext), k: int)
    requires
        entries_ordered(s),
        0 <= k <= s.len(),
        forall|j: int| 0 <= j < k ==> !key_lt(sort_key(x), sort_key(#[trigger] s[j])),
        forall|j: int| k <= j < s.len() ==> key_lt(sort_key(x), sort_key(#[trigger] s[j])),
    ensures
        insert_entry(s, x) == s.insert(k, x),
        entries_ordered(s.insert(k, x)),
    decreases s.len(),
{
    if s.len() == 0 {
        assert(s.insert(k, x) =~= seq![x]);
    } else if !key_lt(sort_key(x), sort_key(s.last())) {
        assert(k == s.len());
        assert(s.insert(k, x) =~= s.push(x));
    } else {
        lemma_insert_entry_at(s.drop_last(), x, k);
        assert(s.drop_last().insert(k, x).push(s.last()) =~= s.insert(k, x));
    }
    let t = s.insert(k, x);
    assert forall|i: int, j: int| 0 <= i < j < t.len() implies !key_lt(sort_key(#[trigger] t[j]), sort_key(#[trigger] t[i])) by {
        if j < k {
        } else if j == k {
            lemma_key_order(sort_key(x), sort_key(t[i]), sort_key(x));
        } else if i == k {
            assert(t[j] == s[j - 1]);
            lemma_key_order(sort_key(s[j - 1]), sort_key(x), sort_key(s[j - 1]));
        } else if i < k {
            assert(t[j] == s[j - 1]);
        } else {
            assert(t[i] == s[i - 1]);
            assert(t[j] == s[j - 1]);
        }
    }
}

proof fn lemma_insert_entry_ordered(s: Seq<(BibItem, RenderContext)>, x: (BibItem, RenderContext))
    requires
        entries_ordered(s),
    ensures
        entries_ordered(insert_entry(s, x)),
        insert_entry(s, x).len() == s.len() + 1,
        forall|e: (BibItem, RenderContext)| #[trigger] insert_entry(s, x).contains(e) ==> e == x || s.contains(e),
    decreases s.len(),
{
    if s.len() == 0 {
        assert forall|e: (BibItem, RenderContext)| #[trigger] insert_entry(s, x).contains(e) implies e == x || s.contains(e) by {
            let j = choose|j: int| 0 <= j < insert_entry(s, x).len() && insert_entry(s, x)[j] == e;
        }
    } else if !key_lt(sort_key(x), sort_key(s.last())) {
        let t = s.push(x);
        assert forall|i: int, j: int| 0 <= i < j < t.len() implies !key_lt(sort_key(#[trigger] t[j]), sort_key(#[trigger] t[i])) by {
            if j == s.len() {
                let a = sort_key(s[i]);
                let l = sort_key(s.last());
                lemma_key_order(sort_key(x), a, l);
                lemma_key_order(a, l, a);
                if i < s.len() - 1 {
                    assert(!key_lt(l, a));
                }
            } else {
                assert(t[i] == s[i] && t[j] == s[j]);
            }
        }
        assert forall|e: (BibItem, RenderContext)| #[trigger] t.contains(e) implies e == x || s.contains(e) by {
            let j = choose|j: int| 0 <= j < t.len() && t[j] == e;
            if j < s.len() {
                assert(s[j] == e);
            }
        }
    } else {
        let d = s.drop_last();
        let l = s.last();
        assert(entries_ordered(d)) by {
            assert forall|i: int, j: int| 0 <= i < j < d.len() implies !key_lt(sort_key(#[trigger] d[j]), sort_key(#[trigger] d[i])) by {
                assert(d[i] == s[i] && d[j] == s[j]);
            }
        }
        lemma_insert_entry_ordered(d, x);
        let t0 = insert_entry(d, x);
        let t = t0.push(l);
        assert forall|i: int, j: int| 0 <= i < j < t.len() implies !key_lt(sort_key(#[trigger] t[j]), sort_key(#[trigger] t[i])) by {
            if j == t0.len() {
                assert(t0.contains(t0[i]));
                if t0[i] == x {
                    lemma_key_order(sort_key(x), sort_key(l), sort_key(x));
                } else {
                    let m = choose|m: int| 0 <= m < d.len() && d[m] == t0[i];
                    assert(s[m] == d[m]);
                    assert(!key_lt(sort_key(s[s.len() - 1]), sort_key(s[m])));
                }
            } else {
                assert(t[i] == t0[i] && t[j] == t0[j]);
            }
        }
        assert forall|e: (BibItem, RenderContext)| #[trigger] t.contains(e) implies e == x || s.contains(e) by {
            let j = choose|j: int| 0 <= j < t.len() && t[j] == e;
            if j < t0.len() {
                assert(t0[j] == e);
                assert(t0.contains(e));
                if e != x {
                    let m = choose|m: int| 0 <= m < d.len() && d[m] == e;
                    assert(s[m] == e);
                }
            } else {
                assert(s[s.len() - 1] == e);
            }
        }
    }
}

proof fn lemma_sorted_entries_ordered(s: Seq<(BibItem, RenderContext)>)
    ensures
        entries_ordered(sorted_entries(s)),
        sorted_entries(s).len() == s.len(),
    decreases s.len(),
{
    if s.len() > 0 {
        lemma_sorted_entries_ordered(s.drop_last());
        lemma_insert_entry_ordered(sorted_entries(s.drop_last()), s.last());
    }
}

/// The order of a sorted bibliography: of two entries, the one whose
/// authors' sort key comes first in character order comes first; with the
/// same authors, one without a year comes before one with a year, an earlier
/// year before a later one, and with the same year too, the smaller bibkey
/// first.
pub proof fn lemma_bibliography_order(s: Seq<(BibItem, RenderContext)>)
    ensures
        forall|i: int, j: int|
            0 <= i < j < sorted_entries(s).len() ==> {
                let a = #[trigger] sorted_entries(s)[i];
                let b = #[trigger] sorted_entries(s)[j];
                let ka = author_sort_key_spec(a.1@.authors);
                let kb = author_sort_key_spec(b.1@.authors);
                &&& !lex_lt(kb, ka)
                &&& ka == kb && b.0.date_year is None ==> a.0.date_year is None
                &&& ka == kb && a.0.date_year is Some && b.0.date_year is Some
                    ==> a.0.date_year->0 <= b.0.date_year->0
                &&& ka == kb && a.0.date_year == b.0.date_year ==> !lex_lt(b.0.bibkey@, a.0.bibkey@)
            },
{
    lemma_sorted_entries_ordered(s);
    let r = sorted_entries(s);
    assert forall|i: int, j: int| 0 <= i < j < r.len() implies {
        let a = #[trigger] r[i];
        let b = #[trigger] r[j];
        let ka = author_sort_key_spec(a.1@.authors);
        let kb = author_sort_key_spec(b.1@.authors);
        &&& !lex_lt(kb, ka)
        &&& ka == kb && b.0.date_year is None ==> a.0.date_year is None
        &&& ka == kb && a.0.date_year is Some && b.0.date_year is Some
            ==> a.0.date_year->0 <= b.0.date_year->0
        &&& ka == kb && a.0.date_year == b.0.date_year ==> !lex_lt(b.0.bibkey@, a.0.bibkey@)
    } by {
        assert(!key_lt(sort_key(r[j]), sort_key(r[i])));
    }
}

fn year_less(a: Option<i16>, b: Option<i16>) -> (r: bool)
    ensures
        r == year_lt(a, b),
{
    match (a, b) {
        (None, Some(_)) => true,
        (Some(x), Some(y)) => x < y,
        _ => false,
    }
}

fn key_less(a: &(Vec<char>, Option<i16>, Vec<char>), b: &(Vec<char>, Option<i16>, Vec<char>)) -> (r: bool)
    ensures
        r == key_lt((a.0@, a.1, a.2@), (b.0@, b.1, b.2@)),
{
    if lex_less(&a.0, &b.0) {
        return true;
    }
    if !chars_eq(&a.0, &b.0) {
        return false;
    }
    if year_less(a.1, b.1) {
        return true;
    }
    if a.1 != b.1 {
        return false;
    }
    lex_less(&a.2, &b.2)
}

fn key_of_entry(it: &(BibItem, RenderContext)) -> (r: (Vec<char>, Option<i16>, Vec<char>))
    ensures
        (r.0@, r.1, r.2@) == sort_key(*it),
{
    let k = author_sort_key(it.1.authors.as_slice());
    (chars_of(k.as_str()), it.0.date_year, chars_of(it.0.bibkey.as_str()))
}

/// The entries sorted by author key, then year (no year first), then
/// bibkey; entries with equal keys keep their order.
pub fn sort_for_bibliography(items: Vec<(BibItem, RenderContext)>) -> (r: Vec<(BibItem, RenderContext)>)
    ensures
        r@ == sorted_entries(items@),
{
    let ghost orig = items@;
    let n = items.len();
    let mut rest = items;
    let mut out: Vec<(BibItem, RenderContext)> = Vec::new();
    let mut keys: Vec<(Vec<char>, Option<i16>, Vec<char>)> = Vec::new();
    let mut i: usize = 0;
    assert(orig.take(0) =~= Seq::<(BibItem, RenderContext)>::empty());
    assert(rest@ =~= orig.skip(0));
    while i < n
        invariant
            i <= n,
            n == orig.len(),
            rest@ == orig.skip(i as int),
            out@ == sorted_entries(orig.take(i as int)),
            entries_ordered(out@),
            keys.len() == out.len(),
            forall|j: int| 0 <= j < out.len() ==> (#[trigger] keys@[j].0@, keys@[j].1, keys@[j].2@) == sort_key(out@[j]),
        decreases n - i,
    {
        let x = rest.remove(0);
        proof {
            assert(x == orig[i as int]);
            assert(rest@ =~= orig.skip(i + 1));
            assert(orig.take(i + 1).drop_last() =~= orig.take(i as int));
            assert(orig.take(i + 1).last() == x);
        }
        let kx = key_of_entry(&x);
        let m = out.len();
        let mut k: usize = 0;
        while k < m && !key_less(&kx, &keys[k])
            invariant
                k <= m,
                m == out.len(),
                keys.len() == out.len(),
                (kx.0@, kx.1, kx.2@) == sort_key(x),
                forall|j: int| 0 <= j < out.len() ==> (#[trigger] keys@[j].0@, keys@[j].1, keys@[j].2@) == sort_key(out@[j]),
                forall|j: int| 0 <= j < k ==> !key_lt(sort_key(x), sort_key(#[trigger] out@[j])),
            decreases m - k,
        {
            assert((keys@[k as int].0@, keys@[k as int].1, keys@[k as int].2@) == sort_key(out@[k as int]));
            k += 1;
        }
        proof {
            if k < m {
                assert((keys@[k as int].0@, keys@[k as int].1, keys@[k as int].2@) == sort_key(out@[k as int]));
                assert(key_lt(sort_key(x), sort_key(out@[k as int])));
            }
            assert forall|j: int| k <= j < out@.len() implies key_lt(sort_key(x), sort_key(#[trigger] out@[j])) by {
                assert(key_lt(sort_key(x), sort_key(out@[k as int])));
                if j > k {
                    assert(!key_lt(sort_key(out@[j]), sort_key(out@[k as int])));
                    lemma_key_order(sort_key(out@[k as int]), sort_key(out@[j]), sort_key(x));
                    lemma_key_order(sort_key(x), sort_key(out@[k as int]), sort_key(out@[j]));
                }
            }
            lemma_insert_entry_at(out@, x, k as int);
        }
        let ghost old_keys = keys@;
        let ghost old_out = out@;
        out.insert(k, x);
        keys.insert(k, kx);
        assert forall|j: int| 0 <= j < out.len() implies (#[trigger] keys@[j].0@, keys@[j].1, keys@[j].2@) == sort_key(out@[j]) by {
            if j < k {
                assert(keys@[j] == old_keys[j]);
                assert(out@[j] == old_out[j]);
            } else if j > k {
                assert(keys@[j] == old_keys[j - 1]);
                assert(out@[j] == old_out[j - 1]);
            }
        }
        i += 1;
    }
    assert(orig.take(n as int) =~= orig);
    out
}

// ---------------------------------------------------------------------------
// Contexts of the items
// ---------------------------------------------------------------------------

/// The rows of one bibkey, in order.
pub open spec fn key_rows(rows: Seq<BibitemAuthorsRow>, bibkey: Seq<char>) -> Seq<BibitemAuthorsRow>
    decreases rows.len(),
{
    if rows.len() == 0 {
        Seq::empty()
    } else if rows.last().bibkey@ == bibkey {
        key_rows(rows.drop_last(), bibkey).push(rows.last())
    } else {
        key_rows(rows.drop_last(), bibkey)
    }
}

/// The author rows of one bibitem, in the order given; none when it has no
/// rows.
pub fn rows_for_bibkey<'a>(rows: &'a Vec<BibitemAuthorsRow>, bibkey: &str) -> (r: Option<Vec<&'a BibitemAuthorsRow>>)
    ensures
        match r {
            Some(v) => v.len() > 0 && deref_rows(Some(&v)) == Some(key_rows(rows@, bibkey@)),
            None => key_rows(rows@, bibkey@).len() == 0,
        },
{
    let key = chars_of(bibkey);
    let mut out: Vec<&'a BibitemAuthorsRow> = Vec::new();
    let mut i: usize = 0;
    assert(rows@.take(0) =~= Seq::<BibitemAuthorsRow>::empty());
    while i < rows.len()
        invariant
            i <= rows.len(),
            key@ == bibkey@,
            Seq::new(out.len() as nat, |j: int| *out@[j]) == key_rows(rows@.take(i as int), bibkey@),
        decreases rows.len() - i,
    {
        let ghost before = Seq::new(out.len() as nat, |j: int| *out@[j]);
        assert(rows@.take(i + 1).drop_last() =~= rows@.take(i as int));
        assert(rows@.take(i + 1).last() == rows@[i as int]);
        if chars_eq(&chars_of(rows[i].bibkey.as_str()), &key) {
            out.push(&rows[i]);
            assert(Seq::new(out.len() as nat, |j: int| *out@[j]) =~= before.push(rows@[i as int]));
        }
        i += 1;
    }
    assert(rows@.take(rows.len() as int) =~= rows@);
    if out.len() == 0 {
        None
    } else {
        Some(out)
    }
}

/// Display names of the entities a bibitem can refer to, by key.
pub struct EntityNames {
    pub journals: StrMap<String>,
    pub publishers: StrMap<String>,
    pub institutions: StrMap<String>,
    pub schools: StrMap<String>,
    pub series: StrMap<String>,
    /// The bibkey of each crossref, by the key it is referred to with.
    pub crossrefs: StrMap<String>,
}

/// The name of an optional key in a map; none when the key is absent or
/// unknown.
pub open spec fn name_of(m: Map<Seq<char>, String>, key: Option<&str>) -> Option<Seq<char>> {
    match key {
        Some(k) => if m.contains_key(k@) {
            Some(m[k@]@)
        } else {
            None
        },
        None => None,
    }
}

fn lookup_name(m: &StrMap<String>, key: Option<&str>) -> (r: Option<String>)
    ensures
        ov(r) == name_of(m@, key),
{
    match key {
        Some(k) => match m.get_str(k) {
            Some(v) => Some(v.clone()),
            None => None,
        },
        None => None,
    }
}

/// The render context of one bibitem: its people by role, ordered by
/// position and resolved through `authors`, and the names of what it refers
/// to; the author is shown.
pub fn build_render_context(
    bib_authors: Option<&Vec<&BibitemAuthorsRow>>,
    authors: &StrMap<Author>,
    journal_key: Option<&str>,
    publisher_key: Option<&str>,
    series_key: Option<&str>,
    institution_key: Option<&str>,
    school_key: Option<&str>,
    crossref: Option<&str>,
    names: &EntityNames,
) -> (r: RenderContext)
    ensures
        names_of(r.authors@) == (match deref_rows(bib_authors) {
            Some(s) => role_author_names(role_rows(s, AuthorRole::Author), authors@),
            None => Seq::empty(),
        }),
        names_of(r.editors@) == (match deref_rows(bib_authors) {
            Some(s) => role_author_names(role_rows(s, AuthorRole::Editor), authors@),
            None => Seq::empty(),
        }),
        names_of(r.guesteditors@) == (match deref_rows(bib_authors) {
            Some(s) => role_author_names(role_rows(s, AuthorRole::Guesteditor), authors@),
            None => Seq::empty(),
        }),
        ov(r.journal_name) == name_of(names.journals@, journal_key),
        ov(r.publisher_name) == name_of(names.publishers@, publisher_key),
        ov(r.series_name) == name_of(names.series@, series_key),
        ov(r.institution_name) == name_of(names.institutions@, institution_key),
        ov(r.school_name) == name_of(names.schools@, school_key),
        ov(r.crossref_bibkey) == name_of(names.crossrefs@, crossref),
        !r.suppress_author,
{
    RenderContext {
        authors: extract_role_authors(bib_authors, AuthorRole::Author, authors),
        editors: extract_role_authors(bib_authors, AuthorRole::Editor, authors),
        guesteditors: extract_role_authors(bib_authors, AuthorRole::Guesteditor, authors),
        journal_name: lookup_name(&names.journals, journal_key),
        publisher_name: lookup_name(&names.publishers, publisher_key),
        series_name: lookup_name(&names.series, series_key),
        institution_name: lookup_name(&names.institutions, institution_key),
        school_name: lookup_name(&names.schools, school_key),
        crossref_bibkey: lookup_name(&names.crossrefs, crossref),
        suppress_author: false,
    }
}


// ---------------------------------------------------------------------------
// Rendering fetched bibitems
// ---------------------------------------------------------------------------

/// A bibitem with the keys of what it refers to.
pub struct KeyedBibItem {
    pub item: BibItem,
    pub journal_key: Option<String>,
    pub publisher_key: Option<String>,
    pub series_key: Option<String>,
    pub institution_key: Option<String>,
    pub school_key: Option<String>,
    pub crossref: Option<String>,
}

/// The name of an optional owned key in a map; none when the key is absent
/// or unknown.
pub open spec fn name_of_key(m: Map<Seq<char>, String>, key: Option<String>) -> Option<Seq<char>> {
    match key {
        Some(k) => if m.contains_key(k@) {
            Some(m[k@]@)
        } else {
            None
        },
        None => None,
    }
}

/// The render names of a bibitem's people of one role.
pub open spec fn linked_names(
    rows: Seq<BibitemAuthorsRow>,
    bibkey: Seq<char>,
    role: AuthorRole,
    authors: Map<Seq<char>, Author>,
) -> Seq<AuthorNameView> {
    let k = key_rows(rows, bibkey);
    if k.len() > 0 {
        role_author_names(role_rows(k, role), authors)
    } else {
        Seq::empty()
    }
}

/// The render context of a fetched bibitem.
pub open spec fn item_context(
    it: KeyedBibItem,
    rows: Seq<BibitemAuthorsRow>,
    authors: Map<Seq<char>, Author>,
    names: EntityNames,
) -> RenderContextView {
    RenderContextView {
        authors: linked_names(rows, it.item.bibkey@, AuthorRole::Author, authors),
        editors: linked_names(rows, it.item.bibkey@, AuthorRole::Editor, authors),
        guesteditors: linked_names(rows, it.item.bibkey@, AuthorRole::Guesteditor, authors),
        journal_name: name_of_key(names.journals@, it.journal_key),
        publisher_name: name_of_key(names.publishers@, it.publisher_key),
        series_name: name_of_key(names.series@, it.series_key),
        institution_name: name_of_key(names.institutions@, it.institution_key),
        school_name: name_of_key(names.schools@, it.school_key),
        crossref_bibkey: name_of_key(names.crossrefs@, it.crossref),
        suppress_author: false,
    }
}

/// The entries pair each item's bibitem with its render context, in order.
pub open spec fn contexts_of(
    entries: Seq<(BibItem, RenderContext)>,
    items: Seq<KeyedBibItem>,
    rows: Seq<BibitemAuthorsRow>,
    authors: Map<Seq<char>, Author>,
    names: EntityNames,
) -> bool {
    &&& entries.len() == items.len()
    &&& forall|i: int| 0 <= i < entries.len() ==> (#[trigger] entries[i]).0 == items[i].item
        && entries[i].1@ == item_context(items[i], rows, authors, names)
}

/// Two entry lists with the same bibitems and the same context values.
pub open spec fn same_entries(a: Seq<(BibItem, RenderContext)>, b: Seq<(BibItem, RenderContext)>) -> bool {
    &&& a.len() == b.len()
    &&& forall|i: int| 0 <= i < a.len() ==> (#[trigger] a[i]).0 == b[i].0 && a[i].1@ == b[i].1@
}

proof fn lemma_insert_same(a: Seq<(BibItem, RenderContext)>, b: Seq<(BibItem, RenderContext)>, x: (BibItem, RenderContext), y: (BibItem, RenderContext))
    requires
        same_entries(a, b),
        x.0 == y.0 && x.1@ == y.1@,
    ensures
        same_entries(insert_entry(a, x), insert_entry(b, y)),
    decreases a.len(),
{
    assert(sort_key(x) == sort_key(y));
    if a.len() > 0 {
        assert(sort_key(a.last()) == sort_key(b.last()));
        if key_lt(sort_key(x), sort_key(a.last())) {
            lemma_insert_same(a.drop_last(), b.drop_last(), x, y);
        }
    }
}

proof fn lemma_sorted_same(a: Seq<(BibItem, RenderContext)>, b: Seq<(BibItem, RenderContext)>)
    requires
        same_entries(a, b),
    ensures
        same_entries(sorted_entries(a), sorted_entries(b)),
    decreases a.len(),
{
    if a.len() > 0 {
        lemma_sorted_same(a.drop_last(), b.drop_last());
        lemma_insert_same(sorted_entries(a.drop_last()), sorted_entries(b.drop_last()), a.last(), b.last());
    }
}

proof fn lemma_render_same(a: Seq<(BibItem, RenderContext)>, b: Seq<(BibItem, RenderContext)>)
    requires
        same_entries(a, b),
    ensures
        render_bibliography_spec(a) == render_bibliography_spec(b),
{
    assert(crate::render::entries::item_parts(a).0 =~= crate::render::entries::item_parts(b).0);
    assert(crate::render::entries::item_parts(a).1 =~= crate::render::entries::item_parts(b).1);
}

/// Sorting and rendering see only the bibitems and the values of their
/// contexts: two entry lists that agree on those render alike.
pub proof fn lemma_rendering_sees_values(a: Seq<(BibItem, RenderContext)>, b: Seq<(BibItem, RenderContext)>)
    requires
        same_entries(a, b),
    ensures
        render_bibliography_spec(sorted_entries(a)) == render_bibliography_spec(sorted_entries(b)),
{
    lemma_sorted_same(a, b);
    lemma_render_same(sorted_entries(a), sorted_entries(b));
}

fn key_ref(o: &Option<String>) -> (r: Option<&str>)
    ensures
        match r {
            Some(k) => o is Some && k@ == o->0@,
            None => o is None,
        },
{
    match o {
        Some(s) => Some(s.as_str()),
        None => None,
    }
}

/// The fetched bibitems rendered as a bibliography: each with its context
/// (its people from the author rows, the names of what it refers to), the
/// whole sorted by author, year and bibkey, then rendered one per line.
pub fn render_items(
    items: Vec<KeyedBibItem>,
    author_rows: &Vec<BibitemAuthorsRow>,
    authors: &StrMap<Author>,
    names: &EntityNames,
) -> (r: String)
    ensures
        exists|entries: Seq<(BibItem, RenderContext)>| contexts_of(entries, items@, author_rows@, authors@, *names),
        forall|entries: Seq<(BibItem, RenderContext)>|
            contexts_of(entries, items@, author_rows@, authors@, *names)
                ==> r@ == render_bibliography_spec(sorted_entries(entries)),
{
    let ghost all = items@;
    let mut items = items;
    assert(all.len() == items.len());
    let mut with_ctx: Vec<(BibItem, RenderContext)> = Vec::new();
    let mut k: usize = 0;
    while items.len() > 0
        invariant
            all.len() <= usize::MAX,
            k + items@.len() == all.len(),
            items@ == all.skip(k as int),
            contexts_of(with_ctx@, all.take(k as int), author_rows@, authors@, *names),
        decreases items.len(),
    {
        let r = items.remove(0);
        assert(r == all[k as int]);
        let links = rows_for_bibkey(author_rows, r.item.bibkey.as_str());
        let ctx = build_render_context(
            links.as_ref(),
            authors,
            key_ref(&r.journal_key),
            key_ref(&r.publisher_key),
            key_ref(&r.series_key),
            key_ref(&r.institution_key),
            key_ref(&r.school_key),
            key_ref(&r.crossref),
            names,
        );
        assert(ctx@ == item_context(r, author_rows@, authors@, *names));
        with_ctx.push((r.item, ctx));
        k = k + 1;
        assert(items@ =~= all.skip(k as int));
        assert forall|i: int| 0 <= i < with_ctx@.len() implies (#[trigger] with_ctx@[i]).0 == all.take(k as int)[i].item
            && with_ctx@[i].1@ == item_context(all.take(k as int)[i], author_rows@, authors@, *names) by {
            if i < k - 1 {
                assert(all.take(k as int)[i] == all.take(k - 1)[i]);
            }
        }
    }
    assert(all.take(k as int) =~= all);
    let sorted = sort_for_bibliography(with_ctx);
    let r = render_bibliography(&sorted);
    proof {
        assert forall|entries: Seq<(BibItem, RenderContext)>|
            contexts_of(entries, all, author_rows@, authors@, *names) implies r@
                == render_bibliography_spec(sorted_entries(entries)) by {
            lemma_rendering_sees_values(with_ctx@, entries);
        }
    }
    r
}
} // verus!

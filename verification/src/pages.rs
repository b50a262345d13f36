//! Page strings: parsing `pages` fields into entries and deriving the
//! numeric start page, volume and number values used for sorting.
use vstd::prelude::*;
use crate::text::{
    chars_of, contains_chars, contains_seq, find, find_chars, has_char, lit, lower_text, quoted, quoted_msg,
    lowercase_chars, seqs_of, slice_of, split, split_chars, starts_with, string_of, trim,
    trim_chars, trim_start_char, trim_start_char_chars, trimmed,
};
use crate::numeric::{parse_i32, parse_i32_chars};

verus! {

/// One comma-separated entry of a pages field.
#[derive(Debug, Clone, PartialEq, Eq)]
pub enum PageEntry {
    Single(String),
    Range { start: String, end: String },
}

/// The mathematical value of a [`PageEntry`].
pub enum PageEntryView {
    Single(Seq<char>),
    Range { start: Seq<char>, end: Seq<char> },
}

impl View for PageEntry {
    type V = PageEntryView;

    open spec fn view(&self) -> PageEntryView {
        match self {
            PageEntry::Single(s) => PageEntryView::Single(s@),
            PageEntry::Range { start, end } => PageEntryView::Range { start: start@, end: end@ },
        }
    }
}

/// The entries of a parsed pages field, in input order.
#[derive(Debug, Clone, PartialEq, Eq)]
pub struct ParsedPages(pub Vec<PageEntry>);

/// The views of a sequence of page entries.
pub open spec fn entries_of(v: Seq<PageEntry>) -> Seq<PageEntryView> {
    Seq::new(v.len(), |i: int| v[i]@)
}

// ---------------------------------------------------------------------------
// Hyphen runs
// ---------------------------------------------------------------------------

/// What a run of `k` hyphens becomes: `--` for two or more, `-` for one.
pub open spec fn dashes(k: nat) -> Seq<char> {
    if k >= 2 {
        seq!['-', '-']
    } else if k == 1 {
        seq!['-']
    } else {
        Seq::empty()
    }
}

/// Collapsing hyphen runs, having seen `k` hyphens just before `s`
/// (`k` counts up to 2, which stands for "two or more").
pub open spec fn collapse_from(s: Seq<char>, k: nat) -> Seq<char>
    decreases s.len(),
{
    if s.len() == 0 {
        dashes(k)
    } else if s[0] == '-' {
        collapse_from(s.drop_first(), if k >= 2 { 2 } else { k + 1 })
    } else {
        dashes(k) + seq![s[0]] + collapse_from(s.drop_first(), 0)
    }
}

/// `s` with every run of two or more hyphens replaced by exactly `--`.
pub open spec fn collapse_hyphens_spec(s: Seq<char>) -> Seq<char> {
    collapse_from(s, 0)
}

fn push_dashes(out: &mut Vec<char>, k: u32)
    requires
        k <= 2,
    ensures
        final(out)@ == old(out)@ + dashes(k as nat),
{
    if k >= 2 {
        out.push('-');
        out.push('-');
        assert(old(out)@ + dashes(k as nat) =~= old(out)@.push('-').push('-'));
    } else if k == 1 {
        out.push('-');
        assert(old(out)@ + dashes(k as nat) =~= old(out)@.push('-'));
    } else {
        assert(old(out)@ + dashes(k as nat) =~= old(out)@);
    }
}

/// Replaces every run of two or more hyphens with `--`.
fn collapse_hyphens(s: &Vec<char>) -> (r: Vec<char>)
    ensures
        r@ == collapse_hyphens_spec(s@),
{
    let n = s.len();
    let mut out: Vec<char> = Vec::new();
    let mut k: u32 = 0;
    let mut i: usize = 0;
    assert(s@.subrange(0, n as int) =~= s@);
    while i < n
        invariant
            i <= n,
            n == s.len(),
            k <= 2,
            out@ + collapse_from(s@.subrange(i as int, n as int), k as nat) == collapse_from(
                s@,
                0,
            ),
        decreases n - i,
    {
        let ghost rest = s@.subrange(i as int, n as int);
        assert(rest.drop_first() =~= s@.subrange(i + 1, n as int));
        assert(rest[0] == s@[i as int]);
        let ghost k0 = k;
        let ghost before = out@;
        if s[i] == '-' {
            if k < 2 {
                k = k + 1;
            }
        } else {
            push_dashes(&mut out, k);
            out.push(s[i]);
            k = 0;
            assert(out@ + collapse_from(rest.drop_first(), 0) =~= before + collapse_from(rest, k0 as nat));
        }
        i += 1;
    }
    push_dashes(&mut out, k);
    assert(s@.subrange(n as int, n as int) =~= Seq::<char>::empty());
    out
}


// ---------------------------------------------------------------------------
// Entries of a pages field
// ---------------------------------------------------------------------------

/// How one comma-separated entry is read.
pub enum EntryClass {
    /// Blank entry, ignored.
    Skip,
    /// Malformed entry, with the error message the whole field is rejected with.
    Bad(Seq<char>),
    /// A well-formed entry.
    Item(PageEntryView),
}

/// Reads one raw entry; `collapse` says whether runs of three or more
/// hyphens are first normalised to `--`.
pub open spec fn classify_entry(raw: Seq<char>, collapse: bool) -> EntryClass {
    let e = trim(raw);
    if e.len() == 0 {
        EntryClass::Skip
    } else {
        let t = if collapse && contains_seq(e, seq!['-', '-', '-']) {
            collapse_hyphens_spec(e)
        } else {
            e
        };
        if contains_seq(t, seq!['-', '-']) {
            let parts = split(t, seq!['-', '-']);
            if parts.len() != 2 {
                EntryClass::Bad(quoted("invalid page range (expected 'start--end'): '"@, t))
            } else {
                let start = trim(parts[0]);
                let end = trim(parts[1]);
                if start.len() == 0 {
                    EntryClass::Bad(quoted("missing start in page range: '"@, t))
                } else if end.len() == 0 {
                    EntryClass::Item(PageEntryView::Single(start))
                } else {
                    EntryClass::Item(PageEntryView::Range { start, end })
                }
            }
        } else if t.contains('-') {
            EntryClass::Bad(quoted("single hyphen in pages (use '--' for ranges): '"@, t))
        } else {
            EntryClass::Item(PageEntryView::Single(t))
        }
    }
}

/// Reads the entries in order: the first malformed one decides the error,
/// blank ones are dropped.
pub open spec fn parse_entries(es: Seq<Seq<char>>, collapse: bool) -> Result<
    Seq<PageEntryView>,
    Seq<char>,
>
    decreases es.len(),
{
    if es.len() == 0 {
        Ok(Seq::empty())
    } else {
        match parse_entries(es.drop_last(), collapse) {
            Err(m) => Err(m),
            Ok(items) => match classify_entry(es.last(), collapse) {
                EntryClass::Skip => Ok(items),
                EntryClass::Bad(m) => Err(m),
                EntryClass::Item(x) => Ok(items.push(x)),
            },
        }
    }
}

/// What `parse_pages_string` returns for `text`.
pub open spec fn parse_pages_spec(text: Seq<char>) -> Result<Seq<PageEntryView>, Seq<char>> {
    let t = trim(text);
    if t.len() == 0 {
        Ok(Seq::empty())
    } else {
        parse_entries(split(t, seq![',']), true)
    }
}

/// Once a prefix of the entries is rejected, so are all the entries.
pub proof fn lemma_parse_entries_err(es: Seq<Seq<char>>, k: int, collapse: bool)
    requires
        0 <= k <= es.len(),
        parse_entries(es.take(k), collapse) is Err,
    ensures
        parse_entries(es, collapse) == parse_entries(es.take(k), collapse),
    decreases es.len() - k,
{
    if k < es.len() {
        assert(es.take(k + 1).drop_last() =~= es.take(k));
        lemma_parse_entries_err(es, k + 1, collapse);
    } else {
        assert(es.take(k) =~= es);
    }
}

/// Exec [`classify_entry`]: `Ok(None)` for a blank entry, `Ok(Some(..))` for
/// a well-formed one, `Err(message)` for a malformed one.
pub(crate) fn classify_entry_exec(raw: &Vec<char>, collapse: bool) -> (r: Result<Option<PageEntry>, Vec<char>>)
    ensures
        match r {
            Ok(None) => classify_entry(raw@, collapse) == EntryClass::Skip,
            Ok(Some(x)) => classify_entry(raw@, collapse) == EntryClass::Item(x@),
            Err(m) => classify_entry(raw@, collapse) == EntryClass::Bad(m@),
        },
{
    let e = trim_chars(raw);
    if e.len() == 0 {
        return Ok(None);
    }
    let triple: Vec<char> = vec!['-', '-', '-'];
    let double: Vec<char> = vec!['-', '-'];
    assert(triple@ =~= seq!['-', '-', '-']);
    assert(double@ =~= seq!['-', '-']);
    let t = if collapse && contains_chars(&e, &triple) {
        collapse_hyphens(&e)
    } else {
        e
    };
    if contains_chars(&t, &double) {
        let parts = split_chars(&t, &double);
        if parts.len() != 2 {
            return Err(quoted_msg("invalid page range (expected 'start--end'): '", &t));
        }
        let start = trim_chars(&parts[0]);
        let end = trim_chars(&parts[1]);
        assert(seqs_of(parts@)[0] == parts@[0]@);
        assert(seqs_of(parts@)[1] == parts@[1]@);
        if start.len() == 0 {
            return Err(quoted_msg("missing start in page range: '", &t));
        }
        if end.len() == 0 {
            Ok(Some(PageEntry::Single(string_of(&start))))
        } else {
            Ok(Some(PageEntry::Range { start: string_of(&start), end: string_of(&end) }))
        }
    } else if has_char(&t, '-') {
        Err(quoted_msg("single hyphen in pages (use '--' for ranges): '", &t))
    } else {
        Ok(Some(PageEntry::Single(string_of(&t))))
    }
}

/// Parses a pages field into its entries.
///
/// Entries are separated by commas; each is a single page or a `start--end`
/// range (runs of three or more hyphens count as `--`). An open range
/// `start--` is a single page. A single hyphen, a range with more than two
/// parts, or a range without a start rejects the whole field.
pub fn parse_pages_string(text: &str) -> (r: Result<ParsedPages, String>)
    ensures
        match r {
            Ok(p) => parse_pages_spec(text@) == Ok::<Seq<PageEntryView>, Seq<char>>(entries_of(p.0@)),
            Err(m) => parse_pages_spec(text@) == Err::<Seq<PageEntryView>, Seq<char>>(m@),
        },
{
    let t = trimmed(text);
    if t.len() == 0 {
        let empty: Vec<PageEntry> = Vec::new();
        assert(entries_of(empty@) =~= Seq::<PageEntryView>::empty());
        return Ok(ParsedPages(empty));
    }
    let comma: Vec<char> = vec![','];
    assert(comma@ =~= seq![',']);
    let entries = split_chars(&t, &comma);
    let ghost es = seqs_of(entries@);
    let mut result: Vec<PageEntry> = Vec::new();
    let mut i: usize = 0;
    assert(es.take(0) =~= Seq::<Seq<char>>::empty());
    assert(entries_of(result@) =~= Seq::<PageEntryView>::empty());
    while i < entries.len()
        invariant
            i <= entries.len(),
            es == seqs_of(entries@),
            es == split(t@, seq![',']),
            t@ == trim(text@),
            t@.len() > 0,
            parse_entries(es.take(i as int), true) == Ok::<Seq<PageEntryView>, Seq<char>>(
                entries_of(result@),
            ),
        decreases entries.len() - i,
    {
        assert(es.take(i + 1).drop_last() =~= es.take(i as int));
        assert(es.take(i + 1).last() == entries@[i as int]@);
        match classify_entry_exec(&entries[i], true) {
            Ok(None) => {},
            Ok(Some(x)) => {
                let ghost before = entries_of(result@);
                result.push(x);
                assert(entries_of(result@) =~= before.push(x@));
            },
            Err(m) => {
                proof {
                    assert(parse_entries(es.take(i + 1), true) == Err::<Seq<PageEntryView>, Seq<char>>(m@));
                    lemma_parse_entries_err(es, i + 1, true);
                    assert(parse_entries(es, true) == Err::<Seq<PageEntryView>, Seq<char>>(m@));
                    assert(es == split(t@, seq![',']));
                    assert(parse_pages_spec(text@) == parse_entries(es, true));
                }
                let ms = string_of(&m);
                assert(ms@ == m@);
                return Err(ms);
            },
        }
        i += 1;
    }
    assert(es.take(entries.len() as int) =~= es);
    Ok(ParsedPages(result))
}


// ---------------------------------------------------------------------------
// Roman numerals
// ---------------------------------------------------------------------------

/// The value of a lowercase Roman digit.
pub open spec fn roman_digit(c: char) -> Option<int> {
    if c == 'i' {
        Some(1)
    } else if c == 'v' {
        Some(5)
    } else if c == 'x' {
        Some(10)
    } else if c == 'l' {
        Some(50)
    } else if c == 'c' {
        Some(100)
    } else if c == 'd' {
        Some(500)
    } else if c == 'm' {
        Some(1000)
    } else {
        None
    }
}

/// Reads Roman digits left to right: a digit smaller than the one after it
/// is subtracted from that one and both are consumed; otherwise the digit is
/// added. Any non-digit makes the whole reading fail.
pub open spec fn roman_total(cs: Seq<char>) -> Option<int>
    decreases cs.len(),
{
    if cs.len() == 0 {
        Some(0)
    } else {
        match roman_digit(cs[0]) {
            None => None,
            Some(curr) => if cs.len() == 1 {
                Some(curr)
            } else {
                match roman_digit(cs[1]) {
                    None => None,
                    Some(next) => if curr < next {
                        match roman_total(cs.subrange(2, cs.len() as int)) {
                            Some(t) => Some(t + next - curr),
                            None => None,
                        }
                    } else {
                        match roman_total(cs.drop_first()) {
                            Some(t) => Some(t + curr),
                            None => None,
                        }
                    },
                }
            },
        }
    }
}

/// The value of an already lowercased Roman numeral: `None` for an empty
/// text, a non-numeral, a zero total, or a total beyond `i32`.
pub open spec fn roman_spec(lowered: Seq<char>) -> Option<int> {
    if lowered.len() == 0 {
        None
    } else {
        match roman_total(lowered) {
            Some(t) => if t != 0 && t <= i32::MAX {
                Some(t)
            } else {
                None
            },
            None => None,
        }
    }
}

/// `r` is the optional integer `o`.
pub open spec fn is_opt(r: Option<i32>, o: Option<int>) -> bool {
    match r {
        Some(x) => o == Some(x as int),
        None => o is None,
    }
}

/// `o` shifted by `k`.
pub open spec fn add_opt(o: Option<int>, k: int) -> Option<int> {
    match o {
        Some(t) => Some(t + k),
        None => None,
    }
}

proof fn lemma_roman_total_nonneg(cs: Seq<char>)
    ensures
        roman_total(cs) matches Some(t) ==> t >= 0,
    decreases cs.len(),
{
    if cs.len() >= 2 {
        lemma_roman_total_nonneg(cs.subrange(2, cs.len() as int));
        lemma_roman_total_nonneg(cs.drop_first());
    }
}

fn roman_digit_exec(c: char) -> (r: Option<i64>)
    ensures
        r matches Some(v) ==> roman_digit(c) == Some(v as int),
        r is None ==> roman_digit(c) is None,
{
    if c == 'i' {
        Some(1)
    } else if c == 'v' {
        Some(5)
    } else if c == 'x' {
        Some(10)
    } else if c == 'l' {
        Some(50)
    } else if c == 'c' {
        Some(100)
    } else if c == 'd' {
        Some(500)
    } else if c == 'm' {
        Some(1000)
    } else {
        None
    }
}

/// The value of an already lowercased Roman numeral.
pub fn roman_value(lowered: &str) -> (r: Option<i32>)
    ensures
        is_opt(r, roman_spec(lowered@)),
{
    let cs = chars_of(lowered);
    let n = cs.len();
    if n == 0 {
        return None;
    }
    let mut total: i64 = 0;
    let mut i: usize = 0;
    assert(cs@.subrange(0, n as int) =~= cs@);
    while i < n
        invariant
            i <= n,
            n == cs.len(),
            n > 0,
            cs@ == lowered@,
            0 <= total <= i32::MAX,
            roman_total(cs@) == add_opt(roman_total(cs@.subrange(i as int, n as int)), total as int),
        decreases n - i,
    {
        let ghost rest = cs@.subrange(i as int, n as int);
        assert(rest[0] == cs@[i as int]);
        let curr = match roman_digit_exec(cs[i]) {
            Some(v) => v,
            None => {
                assert(rest.len() > 0);
                assert(roman_total(rest) is None);
                return None;
            },
        };
        let next = if i + 1 < n {
            assert(rest[1] == cs@[i + 1]);
            match roman_digit_exec(cs[i + 1]) {
                Some(v) => v,
                None => {
                    assert(rest.len() > 1);
                    assert(roman_total(rest) is None);
                    return None;
                },
            }
        } else {
            0
        };
        if curr < next {
            assert(rest.subrange(2, rest.len() as int) =~= cs@.subrange(i + 2, n as int));
            total = total + next - curr;
            i = i + 2;
        } else {
            assert(rest.drop_first() =~= cs@.subrange(i + 1, n as int));
            total = total + curr;
            i = i + 1;
        }
        if total > i32::MAX as i64 {
            proof {
                lemma_roman_total_nonneg(cs@.subrange(i as int, n as int));
            }
            return None;
        }
    }
    assert(cs@.subrange(n as int, n as int) =~= Seq::<char>::empty());
    if total == 0 {
        None
    } else {
        Some(total as i32)
    }
}

/// Reads a Roman numeral, ignoring surrounding whitespace and letter case.
pub fn roman_to_arabic(s: &str) -> (r: Option<i32>)
    ensures
        is_opt(r, roman_spec(lower_text(trim(s@)))),
{
    let t = trimmed(s);
    let ts = string_of(&t);
    let lowered = crate::text::to_lowercase(ts.as_str());
    roman_value(lowered.as_str())
}

// ---------------------------------------------------------------------------
// Start page
// ---------------------------------------------------------------------------

/// An ASCII uppercase letter.
pub open spec fn is_ascii_upper(c: char) -> bool {
    'A' <= c && c <= 'Z'
}

/// The number a page label stands for: an integer, a Roman numeral, or an
/// integer behind one uppercase ASCII letter (`S339`).
pub open spec fn page_value(s: Seq<char>) -> Option<int> {
    let t = trim(s);
    match parse_i32(t) {
        Some(v) => Some(v),
        None => match roman_spec(lower_text(trim(t))) {
            Some(v) => Some(v),
            None => if t.len() >= 2 && is_ascii_upper(t[0]) {
                parse_i32(t.drop_first())
            } else {
                None
            },
        },
    }
}

fn page_value_to_int(s: &Vec<char>) -> (r: Option<i32>)
    ensures
        is_opt(r, page_value(s@)),
{
    let t = trim_chars(s);
    if let Some(v) = parse_i32_chars(&t) {
        return Some(v);
    }
    let ts = string_of(&t);
    if let Some(v) = roman_to_arabic(ts.as_str()) {
        return Some(v);
    }
    if t.len() >= 2 && 'A' <= t[0] && t[0] <= 'Z' {
        let tail = slice_of(&t, 1, t.len());
        assert(tail@ =~= t@.drop_first());
        parse_i32_chars(&tail)
    } else {
        None
    }
}

/// The number an entry stands for: a range gives the smaller of its ends
/// that have a number.
pub open spec fn entry_value(e: PageEntryView) -> Option<int> {
    match e {
        PageEntryView::Single(s) => page_value(s),
        PageEntryView::Range { start, end } => match (page_value(start), page_value(end)) {
            (Some(a), Some(b)) => Some(if a <= b { a } else { b }),
            (Some(a), None) => Some(a),
            (None, Some(b)) => Some(b),
            (None, None) => None,
        },
    }
}

/// The smaller of a running minimum and a new optional value.
pub open spec fn min_with(acc: Option<int>, v: Option<int>) -> Option<int> {
    match v {
        Some(x) => Some(
            match acc {
                Some(m) => if m <= x {
                    m
                } else {
                    x
                },
                None => x,
            },
        ),
        None => acc,
    }
}

/// The least value among the entries that have one.
pub open spec fn min_entry_value(es: Seq<PageEntryView>) -> Option<int>
    decreases es.len(),
{
    if es.len() == 0 {
        None
    } else {
        min_with(min_entry_value(es.drop_last()), entry_value(es.last()))
    }
}

/// The start page is the least page number of the entries: it is the number
/// of one of them and at most the number of each; there is none exactly
/// when no entry has a number.
pub proof fn lemma_start_page_is_least(es: Seq<PageEntryView>)
    ensures
        min_entry_value(es) is None <==> forall|i: int| 0 <= i < es.len() ==> entry_value(#[trigger] es[i]) is None,
        min_entry_value(es) matches Some(m) ==> (exists|i: int| 0 <= i < es.len() && entry_value(#[trigger] es[i]) == Some(m)),
        min_entry_value(es) matches Some(m) ==> (forall|i: int| 0 <= i < es.len() && (#[trigger] entry_value(es[i])) is Some
            ==> m <= entry_value(es[i])->0),
    decreases es.len(),
{
    if es.len() > 0 {
        let init = es.drop_last();
        lemma_start_page_is_least(init);
        assert forall|i: int| 0 <= i < init.len() implies init[i] == es[i] by {}
        let last = es.len() - 1;
        if min_entry_value(es) is None {
            assert forall|i: int| 0 <= i < es.len() implies entry_value(#[trigger] es[i]) is None by {
                if i < last {
                    assert(init[i] == es[i]);
                }
            }
        }
        if min_entry_value(es) is Some {
            let m = min_entry_value(es)->0;
            if entry_value(es[last]) == Some(m) {
            } else {
                let j = choose|j: int| 0 <= j < init.len() && entry_value(#[trigger] init[j]) == Some(m);
                assert(es[j] == init[j]);
            }
            assert forall|i: int| 0 <= i < es.len() && (#[trigger] entry_value(es[i])) is Some implies m <= entry_value(es[i])->0 by {
                if i < last {
                    assert(init[i] == es[i]);
                }
            }
        }
    }
}

/// The start page of a pages field: the least page number among its
/// entries; `None` when there is no field, it does not parse, or no entry
/// has a number.
pub open spec fn start_page_spec(pages: Option<Seq<char>>) -> Option<int> {
    match pages {
        None => None,
        Some(t) => match parse_pages_spec(t) {
            Err(_) => None,
            Ok(es) => min_entry_value(es),
        },
    }
}

/// The view of an optional string slice.
pub open spec fn opt_view(o: Option<&str>) -> Option<Seq<char>> {
    match o {
        Some(s) => Some(s@),
        None => None,
    }
}

fn entry_value_exec(e: &PageEntry) -> (r: Option<i32>)
    ensures
        is_opt(r, entry_value(e@)),
{
    match e {
        PageEntry::Single(s) => page_value_to_int(&chars_of(s.as_str())),
        PageEntry::Range { start, end } => {
            let a = page_value_to_int(&chars_of(start.as_str()));
            let b = page_value_to_int(&chars_of(end.as_str()));
            match (a, b) {
                (Some(x), Some(y)) => Some(if x <= y { x } else { y }),
                (Some(x), None) => Some(x),
                (None, Some(y)) => Some(y),
                (None, None) => None,
            }
        },
    }
}

/// The first page of a pages field (see [`start_page_spec`]).
pub fn compute_start_page(pages: Option<&str>) -> (r: Option<i32>)
    ensures
        is_opt(r, start_page_spec(opt_view(pages))),
{
    let text = match pages {
        Some(t) => t,
        None => return None,
    };
    let parsed = match parse_pages_string(text) {
        Ok(p) => p,
        Err(_) => return None,
    };
    let entries = &parsed.0;
    let ghost es = entries_of(entries@);
    let mut min_page: Option<i32> = None;
    let mut i: usize = 0;
    assert(es.take(0) =~= Seq::<PageEntryView>::empty());
    while i < entries.len()
        invariant
            i <= entries.len(),
            es == entries_of(entries@),
            is_opt(min_page, min_entry_value(es.take(i as int))),
        decreases entries.len() - i,
    {
        assert(es.take(i + 1).drop_last() =~= es.take(i as int));
        let v = entry_value_exec(&entries[i]);
        if let Some(x) = v {
            min_page = Some(
                match min_page {
                    Some(m) => if m <= x {
                        m
                    } else {
                        x
                    },
                    None => x,
                },
            );
        }
        i += 1;
    }
    assert(es.take(entries.len() as int) =~= es);
    min_page
}


// ---------------------------------------------------------------------------
// Leading integer of a volume or number field
// ---------------------------------------------------------------------------

/// `s` up to the first `-`, or all of `s` when there is none.
pub open spec fn before_hyphen(s: Seq<char>) -> Seq<char> {
    match find(s, seq!['-']) {
        Some(j) => s.take(j),
        None => s,
    }
}

/// The `sN-M` series/volume notation, read as `N * 1000 + M`; a second
/// `-M2` after the volume is ignored. `None` when the text does not have this
/// shape or the value does not fit in `i32`.
pub open spec fn series_volume(text: Seq<char>) -> Option<int> {
    if text.len() == 0 || text[0] != 's' {
        None
    } else {
        let rest = text.drop_first();
        match find(rest, seq!['-']) {
            None => None,
            Some(k) => {
                let series = parse_i32(rest.take(k));
                let volume = parse_i32(before_hyphen(rest.skip(k + 1)));
                match (series, volume) {
                    (Some(a), Some(b)) => if i32::MIN <= a * 1000 + b <= i32::MAX {
                        Some(a * 1000 + b)
                    } else {
                        None
                    },
                    _ => None,
                }
            },
        }
    }
}

/// The number before the first occurrence of `sep`, if that prefix is a page
/// label with a number.
pub open spec fn value_before(raw: Seq<char>, sep: Seq<char>) -> Option<int> {
    match find(raw, sep) {
        Some(k) => page_value(trim(raw.take(k))),
        None => None,
    }
}

/// The `suppl.` prefix.
pub open spec fn suppl() -> Seq<char> {
    seq!['s', 'u', 'p', 'p', 'l', '.']
}

/// The leading integer of a volume or number field, tried in this order: the
/// whole text as an integer, as a Roman numeral, as `sN-M` series notation;
/// after a `suppl.` prefix (and commas) the rest as an integer, and nothing
/// else; otherwise the number before the first `--`, `/`, `,` or `.`.
pub open spec fn leading_integer_spec(text: Option<Seq<char>>) -> Option<int> {
    match text {
        None => None,
        Some(t0) => {
            let raw = trim(t0);
            if raw.len() == 0 {
                None
            } else if parse_i32(raw) is Some {
                parse_i32(raw)
            } else if roman_spec(lower_text(trim(raw))) is Some {
                roman_spec(lower_text(trim(raw)))
            } else if raw[0] == 's' && raw.contains('-') && series_volume(raw) is Some {
                series_volume(raw)
            } else if starts_with(raw, suppl()) {
                parse_i32(trim(trim_start_char(raw.skip(6), ',')))
            } else if value_before(raw, seq!['-', '-']) is Some {
                value_before(raw, seq!['-', '-'])
            } else if value_before(raw, seq!['/']) is Some {
                value_before(raw, seq!['/'])
            } else if value_before(raw, seq![',']) is Some {
                value_before(raw, seq![','])
            } else {
                value_before(raw, seq!['.'])
            }
        },
    }
}

fn before_hyphen_exec(s: &Vec<char>) -> (r: Vec<char>)
    ensures
        r@ == before_hyphen(s@),
{
    let hy: Vec<char> = vec!['-'];
    assert(hy@ =~= seq!['-']);
    match find_chars(s, &hy) {
        Some(j) => {
            proof {
                crate::text::lemma_find(s@, hy@);
            }
            slice_of(s, 0, j)
        },
        None => slice_of(s, 0, s.len()),
    }
}

fn parse_series_volume(text: &Vec<char>) -> (r: Option<i32>)
    ensures
        is_opt(r, series_volume(text@)),
{
    if text.len() == 0 || text[0] != 's' {
        return None;
    }
    let rest = slice_of(text, 1, text.len());
    assert(rest@ =~= text@.drop_first());
    let hy: Vec<char> = vec!['-'];
    assert(hy@ =~= seq!['-']);
    let k = match find_chars(&rest, &hy) {
        Some(k) => k,
        None => return None,
    };
    proof {
        crate::text::lemma_find(rest@, hy@);
    }
    let series_str = slice_of(&rest, 0, k);
    let after = slice_of(&rest, k + 1, rest.len());
    assert(after@ =~= rest@.skip(k + 1));
    let volume_str = before_hyphen_exec(&after);
    let series = match parse_i32_chars(&series_str) {
        Some(a) => a,
        None => return None,
    };
    let volume = match parse_i32_chars(&volume_str) {
        Some(b) => b,
        None => return None,
    };
    let v: i64 = series as i64 * 1000 + volume as i64;
    if v < i32::MIN as i64 || v > i32::MAX as i64 {
        None
    } else {
        Some(v as i32)
    }
}

fn value_before_exec(raw: &Vec<char>, sep: &Vec<char>) -> (r: Option<i32>)
    ensures
        is_opt(r, value_before(raw@, sep@)),
{
    match find_chars(raw, sep) {
        Some(k) => {
            proof {
                crate::text::lemma_find(raw@, sep@);
            }
            let before = slice_of(raw, 0, k);
            page_value_to_int(&trim_chars(&before))
        },
        None => None,
    }
}

/// The leading integer of a volume or number field (see
/// [`leading_integer_spec`]).
pub fn extract_leading_integer(text: Option<&str>) -> (r: Option<i32>)
    ensures
        is_opt(r, leading_integer_spec(opt_view(text))),
{
    let t0 = match text {
        Some(t) => t,
        None => return None,
    };
    let raw = trimmed(t0);
    if raw.len() == 0 {
        return None;
    }
    if let Some(n) = parse_i32_chars(&raw) {
        return Some(n);
    }
    let raw_s = string_of(&raw);
    if let Some(n) = roman_to_arabic(raw_s.as_str()) {
        return Some(n);
    }
    if raw[0] == 's' && has_char(&raw, '-') {
        if let Some(n) = parse_series_volume(&raw) {
            return Some(n);
        }
    }
    let prefix: Vec<char> = vec!['s', 'u', 'p', 'p', 'l', '.'];
    assert(prefix@ =~= suppl());
    if crate::text::starts_with_chars(&raw, &prefix) {
        let after = slice_of(&raw, 6, raw.len());
        assert(after@ =~= raw@.skip(6));
        let remainder = trim_chars(&trim_start_char_chars(&after, ','));
        return parse_i32_chars(&remainder);
    }
    let s1: Vec<char> = vec!['-', '-'];
    let s2: Vec<char> = vec!['/'];
    let s3: Vec<char> = vec![','];
    let s4: Vec<char> = vec!['.'];
    assert(s1@ =~= seq!['-', '-']);
    assert(s2@ =~= seq!['/']);
    assert(s3@ =~= seq![',']);
    assert(s4@ =~= seq!['.']);
    if let Some(n) = value_before_exec(&raw, &s1) {
        return Some(n);
    }
    if let Some(n) = value_before_exec(&raw, &s2) {
        return Some(n);
    }
    if let Some(n) = value_before_exec(&raw, &s3) {
        return Some(n);
    }
    value_before_exec(&raw, &s4)
}

} // verus!

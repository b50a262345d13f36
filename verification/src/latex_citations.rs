//! `\cite*{...}` commands in LaTeX text: finding the cited keys, and
//! replacing the commands with readable author/year text.
use vstd::prelude::*;
use crate::numeric::{int_chars, int_str};
use crate::text::{
    chars_eq, chars_of, contains_seq, extend, extend_str, find, find_chars, find_from, join, join_chars, lemma_find, lit,
    matches_at, seqs_of, slice_of, split, split_chars, string_of, trim, trim_chars,
};

verus! {

// ---------------------------------------------------------------------------
// Resolved citation data
// ---------------------------------------------------------------------------

/// Resolved data for a single bibitem used in citation substitution.
#[derive(Debug, Clone, PartialEq, Eq)]
pub struct CitationData {
    /// Display name (family name or mononym of first author; editor as fallback).
    pub author: Option<String>,
    pub year: Option<i16>,
}

/// The mathematical value of a [`CitationData`].
pub struct CitationView {
    pub author: Option<Seq<char>>,
    pub year: Option<i16>,
}

impl View for CitationData {
    type V = CitationView;

    open spec fn view(&self) -> CitationView {
        CitationView {
            author: match self.author {
                Some(a) => Some(a@),
                None => None,
            },
            year: self.year,
        }
    }
}

/// Citation data by bibkey.
pub struct CitationMap {
    entries: Vec<(Vec<char>, CitationData)>,
}

/// The map that a list of (key, data) entries stands for; later entries win.
pub open spec fn map_of(es: Seq<(Vec<char>, CitationData)>) -> Map<Seq<char>, CitationView>
    decreases es.len(),
{
    if es.len() == 0 {
        Map::empty()
    } else {
        map_of(es.drop_last()).insert(es.last().0@, es.last().1@)
    }
}

impl View for CitationMap {
    type V = Map<Seq<char>, CitationView>;

    closed spec fn view(&self) -> Map<Seq<char>, CitationView> {
        map_of(self.entries@)
    }
}

impl CitationMap {
    /// An empty map.
    pub fn new() -> (m: Self)
        ensures
            m@ == Map::<Seq<char>, CitationView>::empty(),
    {
        CitationMap { entries: Vec::new() }
    }

    /// Sets the data of `key`.
    pub fn insert(&mut self, key: &str, data: CitationData)
        ensures
            final(self)@ == old(self)@.insert(key@, data@),
    {
        let k = chars_of(key);
        self.entries.push((k, data));
        assert(self.entries@.drop_last() =~= old(self).entries@);
    }

    /// The data of `key`, if any.
    pub fn get(&self, key: &Vec<char>) -> (r: Option<&CitationData>)
        ensures
            match r {
                Some(d) => self@.contains_key(key@) && self@[key@] == d@,
                None => !self@.contains_key(key@),
            },
    {
        let ghost es = self.entries@;
        let mut i = self.entries.len();
        assert(es.take(i as int) =~= es);
        while i > 0
            invariant
                i <= es.len(),
                es == self.entries@,
                map_of(es.take(i as int)).contains_key(key@) == map_of(es).contains_key(key@),
                map_of(es).contains_key(key@) ==> map_of(es.take(i as int))[key@] == map_of(
                    es,
                )[key@],
            decreases i,
        {
            assert(es.take(i as int).drop_last() =~= es.take(i - 1));
            if chars_eq(&self.entries[i - 1].0, key) {
                return Some(&self.entries[i - 1].1);
            }
            i -= 1;
        }
        None
    }
}

// ---------------------------------------------------------------------------
// Scanning a `\cite` command
// ---------------------------------------------------------------------------

/// The characters `\cite`.
pub open spec fn cite_marker() -> Seq<char> {
    seq!['\\', 'c', 'i', 't', 'e']
}

/// An ASCII letter.
pub open spec fn is_ascii_alpha(c: char) -> bool {
    ('a' <= c && c <= 'z') || ('A' <= c && c <= 'Z')
}

/// The number of leading ASCII letters of `s`.
pub open spec fn alpha_prefix_len(s: Seq<char>) -> nat
    decreases s.len(),
{
    if s.len() > 0 && is_ascii_alpha(s[0]) {
        1 + alpha_prefix_len(s.drop_first())
    } else {
        0
    }
}

/// `s` after its leading `[...]` groups; an unclosed `[` stops the skipping.
pub open spec fn skip_opts(s: Seq<char>) -> Seq<char>
    decreases s.len(),
{
    if s.len() > 0 && s[0] == '[' {
        match find(s.drop_first(), seq![']']) {
            Some(i) => if 0 <= i < s.len() - 1 {
                skip_opts(s.skip(i + 2))
            } else {
                s
            },
            None => s,
        }
    } else {
        s
    }
}

/// What follows the command name (after the backslash), an optional star
/// and the optional arguments.
pub open spec fn cite_scan(after_bs: Seq<char>) -> Seq<char> {
    let s0 = after_bs.skip(alpha_prefix_len(after_bs) as int);
    let s1 = if s0.len() > 0 && s0[0] == '*' {
        s0.drop_first()
    } else {
        s0
    };
    skip_opts(s1)
}

/// The required `{arg}` of a command and the number of characters of
/// `after_bs` the command takes, up to and including `}`.
pub open spec fn cite_parse(after_bs: Seq<char>) -> Option<(Seq<char>, int)> {
    let scan = cite_scan(after_bs);
    if scan.len() > 0 && scan[0] == '{' {
        match find(scan.drop_first(), seq!['}']) {
            Some(c) => Some((scan.drop_first().take(c), after_bs.len() - scan.len() + c + 2)),
            None => None,
        }
    } else {
        None
    }
}

/// The trimmed non-empty pieces of a comma-separated argument.
pub open spec fn nonempty_trimmed(parts: Seq<Seq<char>>) -> Seq<Seq<char>>
    decreases parts.len(),
{
    if parts.len() == 0 {
        Seq::empty()
    } else {
        let r = nonempty_trimmed(parts.drop_last());
        let t = trim(parts.last());
        if t.len() > 0 {
            r.push(t)
        } else {
            r
        }
    }
}

/// The keys of a cite argument.
pub open spec fn arg_keys(arg: Seq<char>) -> Seq<Seq<char>> {
    nonempty_trimmed(split(arg, seq![',']))
}

proof fn lemma_skip_opts_suffix(s: Seq<char>)
    ensures
        skip_opts(s).len() <= s.len(),
        skip_opts(s) == s.skip(s.len() - skip_opts(s).len()),
    decreases s.len(),
{
    if s.len() > 0 && s[0] == '[' {
        match find(s.drop_first(), seq![']']) {
            Some(i) => if 0 <= i < s.len() - 1 {
                lemma_skip_opts_suffix(s.skip(i + 2));
                assert(s.skip(i + 2).skip(s.skip(i + 2).len() - skip_opts(s.skip(i + 2)).len())
                    =~= s.skip(s.len() - skip_opts(s).len()));
            } else {
                assert(s.skip(0) =~= s);
            },
            None => {
                assert(s.skip(0) =~= s);
            },
        }
    } else {
        assert(s.skip(0) =~= s);
    }
}

proof fn lemma_cite_scan_suffix(a: Seq<char>)
    ensures
        cite_scan(a).len() <= a.len(),
        cite_scan(a) == a.skip(a.len() - cite_scan(a).len()),
{
    lemma_alpha_prefix_le(a);
    let s0 = a.skip(alpha_prefix_len(a) as int);
    let s1 = if s0.len() > 0 && s0[0] == '*' {
        s0.drop_first()
    } else {
        s0
    };
    lemma_skip_opts_suffix(s1);
    assert(s1.skip(s1.len() - skip_opts(s1).len()) =~= a.skip(a.len() - cite_scan(a).len()));
}

proof fn lemma_alpha_prefix_le(s: Seq<char>)
    ensures
        alpha_prefix_len(s) <= s.len(),
    decreases s.len(),
{
    if s.len() > 0 && is_ascii_alpha(s[0]) {
        lemma_alpha_prefix_le(s.drop_first());
    }
}

fn alpha_prefix_len_exec(s: &Vec<char>) -> (n: usize)
    ensures
        n as nat == alpha_prefix_len(s@),
        n <= s.len(),
{
    let len = s.len();
    let mut i: usize = 0;
    assert(s@.subrange(0, len as int) =~= s@);
    while i < len && (('a' <= s[i] && s[i] <= 'z') || ('A' <= s[i] && s[i] <= 'Z'))
        invariant
            i <= len,
            len == s.len(),
            alpha_prefix_len(s@) == i + alpha_prefix_len(s@.subrange(i as int, len as int)),
        decreases len - i,
    {
        assert(s@.subrange(i as int, len as int).drop_first() =~= s@.subrange(i + 1, len as int));
        i += 1;
    }
    i
}

fn skip_opts_exec(s: &Vec<char>) -> (r: Vec<char>)
    ensures
        r@ == skip_opts(s@),
    decreases s.len(),
{
    if s.len() > 0 && s[0] == '[' {
        let inner = slice_of(s, 1, s.len());
        assert(inner@ =~= s@.drop_first());
        let close: Vec<char> = vec![']'];
        assert(close@ =~= seq![']']);
        match find_chars(&inner, &close) {
            Some(i) => {
                proof {
                    lemma_find(inner@, close@);
                }
                let after = slice_of(s, i + 2, s.len());
                assert(after@ =~= s@.skip(i + 2));
                skip_opts_exec(&after)
            },
            None => slice_of(s, 0, s.len()),
        }
    } else {
        let r = slice_of(s, 0, s.len());
        assert(r@ =~= s@);
        r
    }
}

fn cite_parse_exec(after_bs: &Vec<char>) -> (r: Option<(Vec<char>, usize)>)
    ensures
        match r {
            Some((arg, n)) => cite_parse(after_bs@) == Some((arg@, n as int)),
            None => cite_parse(after_bs@) is None,
        },
{
    let name_end = alpha_prefix_len_exec(after_bs);
    let s0 = slice_of(after_bs, name_end, after_bs.len());
    assert(s0@ =~= after_bs@.skip(name_end as int));
    let s1 = if s0.len() > 0 && s0[0] == '*' {
        let t = slice_of(&s0, 1, s0.len());
        assert(t@ =~= s0@.drop_first());
        t
    } else {
        s0
    };
    let scan = skip_opts_exec(&s1);
    assert(scan@ == cite_scan(after_bs@));
    proof {
        lemma_cite_scan_suffix(after_bs@);
    }
    if scan.len() > 0 && scan[0] == '{' {
        let body = slice_of(&scan, 1, scan.len());
        assert(body@ =~= scan@.drop_first());
        let close: Vec<char> = vec!['}'];
        assert(close@ =~= seq!['}']);
        match find_chars(&body, &close) {
            Some(c) => {
                proof {
                    lemma_find(body@, close@);
                }
                let arg = slice_of(&body, 0, c);
                Some((arg, after_bs.len() - scan.len() + c + 2))
            },
            None => None,
        }
    } else {
        None
    }
}

fn arg_keys_exec(arg: &Vec<char>) -> (r: Vec<Vec<char>>)
    ensures
        seqs_of(r@) == arg_keys(arg@),
{
    let comma: Vec<char> = vec![','];
    assert(comma@ =~= seq![',']);
    let parts = split_chars(arg, &comma);
    let ghost ps = seqs_of(parts@);
    let mut keys: Vec<Vec<char>> = Vec::new();
    let mut i: usize = 0;
    assert(ps.take(0) =~= Seq::<Seq<char>>::empty());
    assert(seqs_of(keys@) =~= Seq::<Seq<char>>::empty());
    while i < parts.len()
        invariant
            i <= parts.len(),
            ps == seqs_of(parts@),
            seqs_of(keys@) == nonempty_trimmed(ps.take(i as int)),
        decreases parts.len() - i,
    {
        assert(ps.take(i + 1).drop_last() =~= ps.take(i as int));
        assert(ps.take(i + 1).last() == parts@[i as int]@);
        let t = trim_chars(&parts[i]);
        if t.len() > 0 {
            let ghost before = seqs_of(keys@);
            keys.push(t);
            assert(seqs_of(keys@) =~= before.push(t@));
        }
        i += 1;
    }
    assert(ps.take(parts.len() as int) =~= ps);
    keys
}

// ---------------------------------------------------------------------------
// extract_cite_keys
// ---------------------------------------------------------------------------

/// The keys of every `\cite*{...}` command in `rest`, in order, repeats
/// included. The search resumes right after each backslash.
pub open spec fn cite_keys_from(rest: Seq<char>) -> Seq<Seq<char>>
    decreases rest.len(),
{
    match find(rest, cite_marker()) {
        None => Seq::empty(),
        Some(pos) => if 0 <= pos < rest.len() {
            let r2 = rest.skip(pos + 1);
            let here = match cite_parse(r2) {
                Some((arg, _)) => arg_keys(arg),
                None => Seq::empty(),
            };
            here + cite_keys_from(r2)
        } else {
            Seq::empty()
        },
    }
}

/// `s` appended to `seen`, dropping every element already present.
pub open spec fn dedup_onto(seen: Seq<Seq<char>>, s: Seq<Seq<char>>) -> Seq<Seq<char>>
    decreases s.len(),
{
    if s.len() == 0 {
        seen
    } else {
        let d = dedup_onto(seen, s.drop_last());
        if d.contains(s.last()) {
            d
        } else {
            d.push(s.last())
        }
    }
}

proof fn lemma_dedup_onto_append(seen: Seq<Seq<char>>, a: Seq<Seq<char>>, b: Seq<Seq<char>>)
    ensures
        dedup_onto(seen, a + b) == dedup_onto(dedup_onto(seen, a), b),
    decreases b.len(),
{
    if b.len() == 0 {
        assert(a + b =~= a);
    } else {
        lemma_dedup_onto_append(seen, a, b.drop_last());
        assert((a + b).drop_last() =~= a + b.drop_last());
        assert((a + b).last() == b.last());
    }
}

fn contains_key(v: &Vec<Vec<char>>, k: &Vec<char>) -> (r: bool)
    ensures
        r == seqs_of(v@).contains(k@),
{
    let mut i: usize = 0;
    while i < v.len()
        invariant
            i <= v.len(),
            forall|j: int| 0 <= j < i ==> seqs_of(v@)[j] != k@,
        decreases v.len() - i,
    {
        if chars_eq(&v[i], k) {
            assert(seqs_of(v@)[i as int] == k@);
            return true;
        }
        i += 1;
    }
    false
}

proof fn lemma_dedup_onto_distinct(seen: Seq<Seq<char>>, s: Seq<Seq<char>>)
    requires
        seen.no_duplicates(),
    ensures
        dedup_onto(seen, s).no_duplicates(),
    decreases s.len(),
{
    if s.len() > 0 {
        lemma_dedup_onto_distinct(seen, s.drop_last());
    }
}

/// The keys found in a text are distinct.
pub proof fn lemma_cite_keys_distinct(latex: Seq<char>)
    ensures
        cite_keys_spec(latex).no_duplicates(),
{
    lemma_dedup_onto_distinct(Seq::empty(), cite_keys_from(latex));
}

/// Every distinct key cited in `latex`, in order of first appearance.
pub open spec fn cite_keys_spec(latex: Seq<char>) -> Seq<Seq<char>> {
    dedup_onto(Seq::empty(), cite_keys_from(latex))
}

/// Extract all unique bibkeys referenced by `\cite*{...}` commands.
///
/// Handles `\citet`, `\citep`, `\cite`, `\citeauthor`, `\citeyear` and any
/// other `\cite`-prefixed command, with an optional `*` and optional `[...]`
/// arguments. Multi-key arguments are split on commas. Returns the keys
/// deduplicated, in order of first appearance.
pub fn extract_cite_keys(latex: &str) -> (r: Vec<String>)
    ensures
        crate::text::strs_of(r@) == cite_keys_spec(latex@),
{
    let text = chars_of(latex);
    let marker: Vec<char> = vec!['\\', 'c', 'i', 't', 'e'];
    assert(marker@ =~= cite_marker());
    let mut keys: Vec<Vec<char>> = Vec::new();
    let mut rest = slice_of(&text, 0, text.len());
    assert(rest@ =~= latex@);
    assert(seqs_of(keys@) =~= Seq::<Seq<char>>::empty());
    loop
        invariant
            marker@ == cite_marker(),
            dedup_onto(seqs_of(keys@), cite_keys_from(rest@)) == cite_keys_spec(latex@),
        ensures
            seqs_of(keys@) == cite_keys_spec(latex@),
        decreases rest.len(),
    {
        let pos = match find_chars(&rest, &marker) {
            Some(p) => p,
            None => {
                assert(cite_keys_from(rest@) =~= Seq::<Seq<char>>::empty());
                assert(dedup_onto(seqs_of(keys@), Seq::<Seq<char>>::empty()) == seqs_of(keys@));
                break ;
            },
        };
        proof {
            lemma_find(rest@, marker@);
        }
        let r2 = slice_of(&rest, pos + 1, rest.len());
        assert(r2@ =~= rest@.skip(pos + 1));
        let ghost keys0 = seqs_of(keys@);
        let ghost here = match cite_parse(r2@) {
            Some((arg, _)) => arg_keys(arg),
            None => Seq::<Seq<char>>::empty(),
        };
        if let Some((arg, _n)) = cite_parse_exec(&r2) {
            let found = arg_keys_exec(&arg);
            let ghost fs = seqs_of(found@);
            let mut j: usize = 0;
            assert(fs.take(0) =~= Seq::<Seq<char>>::empty());
            while j < found.len()
                invariant
                    j <= found.len(),
                    fs == seqs_of(found@),
                    seqs_of(keys@) == dedup_onto(keys0, fs.take(j as int)),
                decreases found.len() - j,
            {
                assert(fs.take(j + 1).drop_last() =~= fs.take(j as int));
                assert(fs.take(j + 1).last() == found@[j as int]@);
                if !contains_key(&keys, &found[j]) {
                    let k = slice_of(&found[j], 0, found[j].len());
                    assert(k@ =~= found@[j as int]@);
                    let ghost before = seqs_of(keys@);
                    keys.push(k);
                    assert(seqs_of(keys@) =~= before.push(k@));
                }
                j += 1;
            }
            assert(fs.take(found.len() as int) =~= fs);
        } else {
            assert(dedup_onto(keys0, here) == keys0);
        }
        proof {
            lemma_dedup_onto_append(keys0, here, cite_keys_from(r2@));
        }
        rest = r2;
    }
    let mut out: Vec<String> = Vec::new();
    let mut i: usize = 0;
    while i < keys.len()
        invariant
            i <= keys.len(),
            crate::text::strs_of(out@) == seqs_of(keys@).take(i as int),
        decreases keys.len() - i,
    {
        let ghost before = crate::text::strs_of(out@);
        let sk = string_of(&keys[i]);
        assert(sk@ == seqs_of(keys@)[i as int]);
        out.push(sk);
        assert(crate::text::strs_of(out@) =~= before.push(sk@));
        assert(seqs_of(keys@).take(i + 1) =~= seqs_of(keys@).take(i as int).push(sk@));
        i += 1;
    }
    assert(seqs_of(keys@).take(keys.len() as int) =~= seqs_of(keys@));
    out
}


// ---------------------------------------------------------------------------
// Formatting resolved citations
// ---------------------------------------------------------------------------

/// The data of `k`, if the map has it.
pub open spec fn lookup(m: Map<Seq<char>, CitationView>, k: Seq<char>) -> Option<CitationView> {
    if m.contains_key(k) {
        Some(m[k])
    } else {
        None
    }
}

/// `Author (Year)`, or empty when either is missing.
pub open spec fn author_year_text(d: Option<CitationView>) -> Seq<char> {
    match d {
        Some(v) => match (v.author, v.year) {
            (Some(a), Some(y)) => a + " ("@ + int_str(y as int) + ")"@,
            _ => Seq::empty(),
        },
        None => Seq::empty(),
    }
}

/// `Author, Year`, or empty when either is missing.
pub open spec fn author_comma_year_text(d: Option<CitationView>) -> Seq<char> {
    match d {
        Some(v) => match (v.author, v.year) {
            (Some(a), Some(y)) => a + ", "@ + int_str(y as int),
            _ => Seq::empty(),
        },
        None => Seq::empty(),
    }
}

/// The author of resolved data.
pub open spec fn author_of(d: Option<CitationView>) -> Option<Seq<char>> {
    match d {
        Some(v) => v.author,
        None => None,
    }
}

/// The year of resolved data.
pub open spec fn year_of(d: Option<CitationView>) -> Option<i16> {
    match d {
        Some(v) => v.year,
        None => None,
    }
}

/// `a`, `a and b`, or `a, b, and c` (serial comma).
pub open spec fn join_and_spec(items: Seq<Seq<char>>) -> Seq<char> {
    if items.len() == 0 {
        Seq::empty()
    } else if items.len() == 1 {
        items[0]
    } else if items.len() == 2 {
        items[0] + " and "@ + items[1]
    } else {
        join(items.drop_last(), ", "@) + ", and "@ + items.last()
    }
}

/// The text a cite command with the given name and keys becomes. Any key
/// without the data the command needs makes the whole command empty.
pub open spec fn format_cite_spec(
    name: Seq<char>,
    keys: Seq<Seq<char>>,
    m: Map<Seq<char>, CitationView>,
) -> Seq<char> {
    if name == "citep"@ || name == "cite"@ {
        let items = keys.map_values(|k: Seq<char>| author_comma_year_text(lookup(m, k)));
        if exists|i: int| 0 <= i < items.len() && (#[trigger] items[i]).len() == 0 {
            Seq::empty()
        } else {
            "("@ + join(items, "; "@) + ")"@
        }
    } else if name == "citeauthor"@ {
        if exists|i: int| 0 <= i < keys.len() && author_of(lookup(m, #[trigger] keys[i])) is None {
            Seq::empty()
        } else {
            join_and_spec(keys.map_values(|k: Seq<char>| author_of(lookup(m, k))->0))
        }
    } else if name == "citeyear"@ {
        if exists|i: int| 0 <= i < keys.len() && year_of(lookup(m, #[trigger] keys[i])) is None {
            Seq::empty()
        } else {
            join(keys.map_values(|k: Seq<char>| int_str(year_of(lookup(m, k))->0 as int)), "; "@)
        }
    } else {
        let items = keys.map_values(|k: Seq<char>| author_year_text(lookup(m, k)));
        if exists|i: int| 0 <= i < items.len() && (#[trigger] items[i]).len() == 0 {
            Seq::empty()
        } else {
            join_and_spec(items)
        }
    }
}

proof fn lemma_cite_names_differ()
    ensures
        "citeyear"@ != "citep"@,
        "citeyear"@ != "cite"@,
        "citeyear"@ != "citeauthor"@,
        "citep"@ != "citeauthor"@,
        "cite"@ != "citeauthor"@,
        "citet"@ != "citep"@,
        "citet"@ != "cite"@,
        "citet"@ != "citeauthor"@,
        "citet"@ != "citeyear"@,
        "citeauthor"@ != "citeyear"@,
{
    reveal_strlit("citeyear");
    reveal_strlit("citep");
    reveal_strlit("cite");
    reveal_strlit("citeauthor");
    reveal_strlit("citet");
    assert("citeyear"@.len() != "citep"@.len());
    assert("citeyear"@.len() != "cite"@.len());
    assert("citeyear"@.len() != "citeauthor"@.len());
    assert("citep"@.len() != "citeauthor"@.len());
    assert("cite"@.len() != "citeauthor"@.len());
    assert("citet"@[4] != "citep"@[4]);
    assert("citet"@.len() != "cite"@.len());
    assert("citet"@.len() != "citeauthor"@.len());
    assert("citet"@.len() != "citeyear"@.len());
}

/// The year of a key in decimal.
pub open spec fn year_text(m: Map<Seq<char>, CitationView>, k: Seq<char>) -> Seq<char> {
    int_str(year_of(lookup(m, k))->0 as int)
}

/// `\citeyear` gives the cited years in decimal, separated by `; `: one key
/// gives its year, and one more key adds `; ` and that key's year; a key
/// without a year empties the whole text.
pub proof fn lemma_citeyear_text(keys: Seq<Seq<char>>, k: Seq<char>, m: Map<Seq<char>, CitationView>)
    requires
        forall|i: int| 0 <= i < keys.len() ==> year_of(lookup(m, #[trigger] keys[i])) is Some,
    ensures
        year_of(lookup(m, k)) is Some ==> format_cite_spec("citeyear"@, seq![k], m) == year_text(m, k),
        year_of(lookup(m, k)) is Some && keys.len() > 0 ==> format_cite_spec("citeyear"@, keys.push(k), m)
            == format_cite_spec("citeyear"@, keys, m) + "; "@ + year_text(m, k),
        year_of(lookup(m, k)) is None ==> format_cite_spec("citeyear"@, keys.push(k), m) == Seq::<char>::empty(),
{
    lemma_cite_names_differ();
    let f = |x: Seq<char>| int_str(year_of(lookup(m, x))->0 as int);
    let ks = keys.push(k);
    assert(ks[keys.len() as int] == k);
    if year_of(lookup(m, k)) is Some {
        assert(seq![k].map_values(f) =~= seq![year_text(m, k)]);
        assert(!(exists|i: int| 0 <= i < seq![k].len() && year_of(lookup(m, #[trigger] seq![k][i])) is None));
        assert(!(exists|i: int| 0 <= i < ks.len() && year_of(lookup(m, #[trigger] ks[i])) is None)) by {
            assert forall|i: int| 0 <= i < ks.len() implies year_of(lookup(m, #[trigger] ks[i])) is Some by {
                if i < keys.len() {
                    assert(ks[i] == keys[i]);
                }
            }
        }
        assert(!(exists|i: int| 0 <= i < keys.len() && year_of(lookup(m, #[trigger] keys[i])) is None));
        if keys.len() > 0 {
            assert(ks.map_values(f).drop_last() =~= keys.map_values(f));
            assert(ks.map_values(f).last() == year_text(m, k));
        }
    }
}

/// `\citep` (and `\cite`) gives `(Author, Year)` for one key, and one more
/// key puts `; Author, Year` before the closing parenthesis; a key without
/// an author or a year empties the whole text.
pub proof fn lemma_citep_text(keys: Seq<Seq<char>>, k: Seq<char>, m: Map<Seq<char>, CitationView>, a: Seq<char>, y: i16)
    requires
        forall|i: int| 0 <= i < keys.len() ==> author_of(lookup(m, #[trigger] keys[i])) is Some
            && year_of(lookup(m, keys[i])) is Some,
        author_of(lookup(m, k)) == Some(a),
        year_of(lookup(m, k)) == Some(y),
    ensures
        format_cite_spec("citep"@, seq![k], m) == "("@ + a + ", "@ + int_str(y as int) + ")"@,
        keys.len() > 0 ==> format_cite_spec("citep"@, keys.push(k), m)
            == format_cite_spec("citep"@, keys, m).drop_last() + "; "@ + a + ", "@ + int_str(y as int) + ")"@,
{
    lemma_cite_names_differ();
    reveal_strlit("(");
    reveal_strlit(")");
    let f = |x: Seq<char>| author_comma_year_text(lookup(m, x));
    let t = a + ", "@ + int_str(y as int);
    assert(f(k) == t);
    assert(t.len() > 0) by {
        reveal_strlit(", ");
    }
    let one = seq![k].map_values(f);
    assert(one =~= seq![t]);
    assert(!(exists|i: int| 0 <= i < one.len() && (#[trigger] one[i]).len() == 0));
    let ks = keys.push(k);
    let items = ks.map_values(f);
    let before = keys.map_values(f);
    assert forall|i: int| 0 <= i < keys.len() implies (#[trigger] before[i]).len() > 0 by {
        reveal_strlit(", ");
    }
    assert forall|i: int| 0 <= i < ks.len() implies (#[trigger] items[i]).len() > 0 by {
        reveal_strlit(", ");
        if i < keys.len() {
            assert(ks[i] == keys[i]);
            assert(items[i] == before[i]);
        }
    }
    if keys.len() > 0 {
        assert(items.drop_last() =~= before);
        assert(items.last() == t);
        let jb = join(before, "; "@);
        let whole = "("@ + jb + ")"@;
        assert(whole.drop_last() =~= "("@ + jb);
        assert("("@ + join(items, "; "@) + ")"@ =~= ("("@ + jb) + "; "@ + a + ", "@ + int_str(y as int) + ")"@);
    }
    assert("("@ + join(one, "; "@) + ")"@ =~= "("@ + a + ", "@ + int_str(y as int) + ")"@);
}

/// The author of a key.
pub open spec fn author_text(m: Map<Seq<char>, CitationView>, k: Seq<char>) -> Seq<char> {
    author_of(lookup(m, k))->0
}

/// `\citeauthor` names the cited authors: one key gives its author, two give
/// `A and B`, more give the authors separated by `, ` with `, and` before
/// the last; a key without an author empties the whole text.
pub proof fn lemma_citeauthor_text(keys: Seq<Seq<char>>, m: Map<Seq<char>, CitationView>)
    ensures
        (forall|i: int| 0 <= i < keys.len() ==> author_of(lookup(m, #[trigger] keys[i])) is Some) ==> {
            &&& keys.len() == 1 ==> format_cite_spec("citeauthor"@, keys, m) == author_text(m, keys[0])
            &&& keys.len() == 2 ==> format_cite_spec("citeauthor"@, keys, m)
                == author_text(m, keys[0]) + " and "@ + author_text(m, keys[1])
            &&& keys.len() >= 3 ==> format_cite_spec("citeauthor"@, keys, m)
                == join(Seq::new((keys.len() - 1) as nat, |i: int| author_text(m, keys[i])), ", "@) + ", and "@
                    + author_text(m, keys.last())
        },
        (exists|i: int| 0 <= i < keys.len() && author_of(lookup(m, #[trigger] keys[i])) is None)
            ==> format_cite_spec("citeauthor"@, keys, m) == Seq::<char>::empty(),
{
    lemma_cite_names_differ();
    let items = keys.map_values(|k: Seq<char>| author_of(lookup(m, k))->0);
    if keys.len() >= 3 {
        assert(items.drop_last() =~= Seq::new((keys.len() - 1) as nat, |i: int| author_text(m, keys[i])));
    }
}

/// The `Author (Year)` text of a key.
pub open spec fn author_year_of(m: Map<Seq<char>, CitationView>, k: Seq<char>) -> Seq<char> {
    author_of(lookup(m, k))->0 + " ("@ + int_str(year_of(lookup(m, k))->0 as int) + ")"@
}

/// `\citet` gives `Author (Year)` for each key: one key gives its text, two
/// give `A (Y) and B (Z)`, more are separated by `, ` with `, and` before
/// the last; a key without an author or a year empties the whole text.
pub proof fn lemma_citet_text(keys: Seq<Seq<char>>, m: Map<Seq<char>, CitationView>)
    ensures
        (forall|i: int| 0 <= i < keys.len() ==> author_of(lookup(m, #[trigger] keys[i])) is Some
            && year_of(lookup(m, keys[i])) is Some) ==> {
            &&& keys.len() == 1 ==> format_cite_spec("citet"@, keys, m) == author_year_of(m, keys[0])
            &&& keys.len() == 2 ==> format_cite_spec("citet"@, keys, m)
                == author_year_of(m, keys[0]) + " and "@ + author_year_of(m, keys[1])
            &&& keys.len() >= 3 ==> format_cite_spec("citet"@, keys, m)
                == join(Seq::new((keys.len() - 1) as nat, |i: int| author_year_of(m, keys[i])), ", "@) + ", and "@
                    + author_year_of(m, keys.last())
        },
        (exists|i: int| 0 <= i < keys.len() && (author_of(lookup(m, #[trigger] keys[i])) is None
            || year_of(lookup(m, keys[i])) is None))
            ==> format_cite_spec("citet"@, keys, m) == Seq::<char>::empty(),
{
    lemma_cite_names_differ();
    reveal_strlit(" (");
    let items = keys.map_values(|k: Seq<char>| author_year_text(lookup(m, k)));
    if forall|i: int| 0 <= i < keys.len() ==> author_of(lookup(m, #[trigger] keys[i])) is Some
        && year_of(lookup(m, keys[i])) is Some {
        assert forall|i: int| 0 <= i < keys.len() implies items[i] == author_year_of(m, keys[i]) && (#[trigger] items[i]).len() > 0 by {
            assert(author_of(lookup(m, keys[i])) is Some);
        }
        if keys.len() >= 3 {
            assert(items.drop_last() =~= Seq::new((keys.len() - 1) as nat, |i: int| author_year_of(m, keys[i])));
        }
    }
    if exists|i: int| 0 <= i < keys.len() && (author_of(lookup(m, #[trigger] keys[i])) is None
        || year_of(lookup(m, keys[i])) is None) {
        let i = choose|i: int| 0 <= i < keys.len() && (author_of(lookup(m, #[trigger] keys[i])) is None
            || year_of(lookup(m, keys[i])) is None);
        assert(items[i].len() == 0);
    }
}

fn join_and(items: &Vec<Vec<char>>) -> (r: Vec<char>)
    ensures
        r@ == join_and_spec(seqs_of(items@)),
{
    let n = items.len();
    if n == 0 {
        Vec::new()
    } else if n == 1 {
        slice_of(&items[0], 0, items[0].len())
    } else if n == 2 {
        let mut r = slice_of(&items[0], 0, items[0].len());
        extend_str(&mut r, " and ");
        extend(&mut r, &items[1]);
        r
    } else {
        let mut head: Vec<Vec<char>> = Vec::new();
        let mut i: usize = 0;
        while i < n - 1
            invariant
                i <= n - 1,
                n == items.len(),
                seqs_of(head@) == seqs_of(items@).take(i as int),
            decreases n - 1 - i,
        {
            let c = slice_of(&items[i], 0, items[i].len());
            assert(c@ =~= items@[i as int]@);
            let ghost before = seqs_of(head@);
            head.push(c);
            assert(seqs_of(head@) =~= before.push(c@));
            assert(seqs_of(head@) =~= seqs_of(items@).take(i + 1));
            i += 1;
        }
        assert(seqs_of(items@).take(n - 1) =~= seqs_of(items@).drop_last());
        let sep = lit(", ");
        let mut r = join_chars(&head, &sep);
        extend_str(&mut r, ", and ");
        extend(&mut r, &items[n - 1]);
        r
    }
}

fn author_year_exec(d: Option<&CitationData>, comma: bool) -> (r: Vec<char>)
    ensures
        r@ == (if comma {
            author_comma_year_text(opt_data_view(d))
        } else {
            author_year_text(opt_data_view(d))
        }),
{
    match d {
        Some(v) => match (&v.author, v.year) {
            (Some(a), Some(y)) => {
                let mut r = lit(a.as_str());
                if comma {
                    extend_str(&mut r, ", ");
                    extend(&mut r, &int_chars(y as i64));
                } else {
                    extend_str(&mut r, " (");
                    extend(&mut r, &int_chars(y as i64));
                    extend_str(&mut r, ")");
                }
                r
            },
            _ => Vec::new(),
        },
        None => Vec::new(),
    }
}

/// The view of optional borrowed data.
pub open spec fn opt_data_view(d: Option<&CitationData>) -> Option<CitationView> {
    match d {
        Some(v) => Some(v@),
        None => None,
    }
}

#[verifier::loop_isolation(false)]
fn format_cite(name: &Vec<char>, keys: &Vec<Vec<char>>, resolved: &CitationMap) -> (r: Vec<char>)
    ensures
        r@ == format_cite_spec(name@, seqs_of(keys@), resolved@),
{
    let ghost ks = seqs_of(keys@);
    let ghost m = resolved@;
    let n = keys.len();
    if chars_eq(name, &lit("citep")) || chars_eq(name, &lit("cite")) {
        let ghost items = ks.map_values(|k: Seq<char>| author_comma_year_text(lookup(m, k)));
        let mut parts: Vec<Vec<char>> = Vec::new();
        let mut i: usize = 0;
        while i < n
            invariant
                i <= n,
                n == keys.len(),
                ks == seqs_of(keys@),
                m == resolved@,
                items == ks.map_values(|k: Seq<char>| author_comma_year_text(lookup(m, k))),
                seqs_of(parts@) == items.take(i as int),
                forall|j: int| 0 <= j < i ==> (#[trigger] items[j]).len() > 0,
            decreases n - i,
        {
            let d = resolved.get(&keys[i]);
            let t = author_year_exec(d, true);
            assert(t@ == items[i as int]);
            if t.len() == 0 {
                assert(items[i as int].len() == 0);
                return Vec::new();
            }
            let ghost before = seqs_of(parts@);
            parts.push(t);
            assert(seqs_of(parts@) =~= before.push(t@));
            assert(seqs_of(parts@) =~= items.take(i + 1));
            i += 1;
        }
        assert(items.take(n as int) =~= items);
        let mut r = lit("(");
        extend(&mut r, &join_chars(&parts, &lit("; ")));
        extend_str(&mut r, ")");
        r
    } else if chars_eq(name, &lit("citeauthor")) {
        let ghost items = ks.map_values(|k: Seq<char>| author_of(lookup(m, k))->0);
        let mut parts: Vec<Vec<char>> = Vec::new();
        let mut i: usize = 0;
        while i < n
            invariant
                i <= n,
                n == keys.len(),
                ks == seqs_of(keys@),
                m == resolved@,
                items == ks.map_values(|k: Seq<char>| author_of(lookup(m, k))->0),
                seqs_of(parts@) == items.take(i as int),
                forall|j: int| 0 <= j < i ==> author_of(lookup(m, #[trigger] ks[j])) is Some,
            decreases n - i,
        {
            match resolved.get(&keys[i]) {
                Some(d) => match &d.author {
                    Some(a) => {
                        let t = lit(a.as_str());
                        let ghost before = seqs_of(parts@);
                        assert(t@ == items[i as int]);
                        parts.push(t);
                        assert(seqs_of(parts@) =~= before.push(t@));
                        assert(seqs_of(parts@) =~= items.take(i + 1));
                    },
                    None => {
                        assert(author_of(lookup(m, ks[i as int])) is None);
                        return Vec::new();
                    },
                },
                None => {
                    assert(author_of(lookup(m, ks[i as int])) is None);
                    return Vec::new();
                },
            }
            i += 1;
        }
        assert(items.take(n as int) =~= items);
        join_and(&parts)
    } else if chars_eq(name, &lit("citeyear")) {
        let ghost items = ks.map_values(|k: Seq<char>| int_str(year_of(lookup(m, k))->0 as int));
        let mut parts: Vec<Vec<char>> = Vec::new();
        let mut i: usize = 0;
        while i < n
            invariant
                i <= n,
                n == keys.len(),
                ks == seqs_of(keys@),
                m == resolved@,
                items == ks.map_values(|k: Seq<char>| int_str(year_of(lookup(m, k))->0 as int)),
                seqs_of(parts@) == items.take(i as int),
                forall|j: int| 0 <= j < i ==> year_of(lookup(m, #[trigger] ks[j])) is Some,
            decreases n - i,
        {
            match resolved.get(&keys[i]) {
                Some(d) => match d.year {
                    Some(y) => {
                        let t = int_chars(y as i64);
                        let ghost before = seqs_of(parts@);
                        assert(t@ == items[i as int]);
                        parts.push(t);
                        assert(seqs_of(parts@) =~= before.push(t@));
                        assert(seqs_of(parts@) =~= items.take(i + 1));
                    },
                    None => {
                        assert(year_of(lookup(m, ks[i as int])) is None);
                        return Vec::new();
                    },
                },
                None => {
                    assert(year_of(lookup(m, ks[i as int])) is None);
                    return Vec::new();
                },
            }
            i += 1;
        }
        assert(items.take(n as int) =~= items);
        join_chars(&parts, &lit("; "))
    } else {
        let ghost items = ks.map_values(|k: Seq<char>| author_year_text(lookup(m, k)));
        let mut parts: Vec<Vec<char>> = Vec::new();
        let mut i: usize = 0;
        while i < n
            invariant
                i <= n,
                n == keys.len(),
                ks == seqs_of(keys@),
                m == resolved@,
                items == ks.map_values(|k: Seq<char>| author_year_text(lookup(m, k))),
                seqs_of(parts@) == items.take(i as int),
                forall|j: int| 0 <= j < i ==> (#[trigger] items[j]).len() > 0,
            decreases n - i,
        {
            let d = resolved.get(&keys[i]);
            let t = author_year_exec(d, false);
            assert(t@ == items[i as int]);
            if t.len() == 0 {
                assert(items[i as int].len() == 0);
                return Vec::new();
            }
            let ghost before = seqs_of(parts@);
            parts.push(t);
            assert(seqs_of(parts@) =~= before.push(t@));
            assert(seqs_of(parts@) =~= items.take(i + 1));
            i += 1;
        }
        assert(items.take(n as int) =~= items);
        join_and(&parts)
    }
}


// ---------------------------------------------------------------------------
// substitute_citations
// ---------------------------------------------------------------------------

/// The text with every complete cite command replaced, and whether any
/// complete cite command was met, with keys or without. A `\cite` that is not followed by
/// a complete command stays as written and the scan resumes after it; a
/// command whose argument has no keys stays as written.
pub open spec fn subst_spec(rest: Seq<char>, m: Map<Seq<char>, CitationView>) -> (Seq<char>, bool)
    decreases rest.len(),
{
    match find(rest, cite_marker()) {
        None => (rest, false),
        Some(p) => if 0 <= p && p + 5 <= rest.len() {
            let prefix = rest.take(p);
            let after_bs = rest.skip(p + 1);
            match cite_parse(after_bs) {
                None => {
                    let (r, h) = subst_spec(rest.skip(p + 5), m);
                    (prefix + cite_marker() + r, h)
                },
                Some((arg, n)) => if 0 < n && p + 1 + n <= rest.len() {
                    let keys = arg_keys(arg);
                    let name = after_bs.take(alpha_prefix_len(after_bs) as int);
                    let piece = if keys.len() == 0 {
                        rest.subrange(p, p + 1 + n)
                    } else {
                        format_cite_spec(name, keys, m)
                    };
                    let (r, _) = subst_spec(rest.skip(p + 1 + n), m);
                    (prefix + piece + r, true)
                } else {
                    (rest, false)
                },
            }
        } else {
            (rest, false)
        },
    }
}

proof fn lemma_cite_parse_bounds(after_bs: Seq<char>)
    ensures
        cite_parse(after_bs) matches Some((arg, n)) ==> 0 < n <= after_bs.len(),
{
    lemma_cite_scan_suffix(after_bs);
    let scan = cite_scan(after_bs);
    if scan.len() > 0 && scan[0] == '{' {
        lemma_find(scan.drop_first(), seq!['}']);
    }
}

fn do_substitute(latex: &str, resolved: &CitationMap) -> (r: (Vec<char>, bool))
    ensures
        r.0@ == subst_spec(latex@, resolved@).0,
        r.1 == subst_spec(latex@, resolved@).1,
{
    let text = chars_of(latex);
    let marker: Vec<char> = vec!['\\', 'c', 'i', 't', 'e'];
    assert(marker@ =~= cite_marker());
    let mut result: Vec<char> = Vec::new();
    let mut had = false;
    let mut rest = slice_of(&text, 0, text.len());
    assert(rest@ =~= latex@);
    assert(result@ + subst_spec(rest@, resolved@).0 =~= subst_spec(latex@, resolved@).0);
    loop
        invariant_except_break
            result@ + subst_spec(rest@, resolved@).0 == subst_spec(latex@, resolved@).0,
            (had || subst_spec(rest@, resolved@).1) == subst_spec(latex@, resolved@).1,
        invariant
            marker@ == cite_marker(),
        ensures
            result@ == subst_spec(latex@, resolved@).0,
            had == subst_spec(latex@, resolved@).1,
        decreases rest.len(),
    {
        let ghost m = resolved@;
        let ghost before = result@;
        let pos = match find_chars(&rest, &marker) {
            Some(p) => p,
            None => {
                extend(&mut result, &rest);
                break ;
            },
        };
        proof {
            lemma_find(rest@, marker@);
        }
        let prefix = slice_of(&rest, 0, pos);
        assert(prefix@ =~= rest@.take(pos as int));
        let after_bs = slice_of(&rest, pos + 1, rest.len());
        assert(after_bs@ =~= rest@.skip(pos + 1));
        extend(&mut result, &prefix);
        proof {
            lemma_cite_parse_bounds(after_bs@);
        }
        match cite_parse_exec(&after_bs) {
            None => {
                extend(&mut result, &marker);
                let next = slice_of(&rest, pos + 5, rest.len());
                assert(next@ =~= rest@.skip(pos + 5));
                assert(result@ + subst_spec(next@, m).0 =~= before + subst_spec(rest@, m).0);
                rest = next;
            },
            Some((arg, n)) => {
                let keys = arg_keys_exec(&arg);
                let name_end = alpha_prefix_len_exec(&after_bs);
                let name = slice_of(&after_bs, 0, name_end);
                assert(name@ =~= after_bs@.take(name_end as int));
                had = true;
                if keys.len() == 0 {
                    let piece = slice_of(&rest, pos, pos + 1 + n);
                    extend(&mut result, &piece);
                } else {
                    let piece = format_cite(&name, &keys, resolved);
                    extend(&mut result, &piece);
                }
                let next = slice_of(&rest, pos + 1 + n, rest.len());
                assert(next@ =~= rest@.skip(pos + 1 + n));
                assert(result@ + subst_spec(next@, m).0 =~= before + subst_spec(rest@, m).0);
                rest = next;
            },
        }
    }
    (result, had)
}

/// Replace `\cite*{...}` commands in a LaTeX string with human-readable text.
///
/// - `\citet{key}` → `Author (Year)` (or `A and B (Y)` for multi-key)
/// - `\citep{key}` / `\cite{key}` → `(Author, Year)`
/// - `\citeauthor{key}` → `Author`
/// - `\citeyear{key}` → `Year`
/// - Any unresolvable or incomplete cite → empty string (nothing rendered)
pub fn substitute_citations(latex: &str, resolved: &CitationMap) -> (r: String)
    ensures
        r@ == subst_spec(latex@, resolved@).0,
{
    let (v, _had) = do_substitute(latex, resolved);
    string_of(&v)
}

/// Like [`substitute_citations`], and also whether the text held any
/// complete `\cite*{...}` command, resolved or not, with keys or without.
pub fn substitute_citations_checked(latex: &str, resolved: &CitationMap) -> (r: (String, bool))
    ensures
        r.0@ == subst_spec(latex@, resolved@).0,
        r.1 == subst_spec(latex@, resolved@).1,
{
    let (v, had) = do_substitute(latex, resolved);
    (string_of(&v), had)
}

// ---------------------------------------------------------------------------
// What the flag of a substitution says
// ---------------------------------------------------------------------------

proof fn lemma_find_from_shift(s: Seq<char>, pat: Seq<char>, i: int, k: int)
    requires
        0 <= i,
        0 <= k <= s.len(),
    ensures
        find_from(s, pat, i + k) == (match find_from(s.skip(k), pat, i) {
            Some(q) => Some(q + k),
            None => None::<int>,
        }),
    decreases s.len() + 1 - (i + k),
{
    if i + k + pat.len() <= s.len() {
        assert(s.subrange(i + k, i + k + pat.len()) =~= s.skip(k).subrange(i, i + pat.len()));
        if !matches_at(s, pat, i + k) {
            lemma_find_from_shift(s, pat, i + 1, k);
        }
    }
}

/// After the backslash of `\cite`, the next `\cite` is found where it is
/// found after the whole marker.
proof fn lemma_find_after_marker(a: Seq<char>)
    requires
        a.len() >= 4,
        a[0] == 'c' && a[1] == 'i' && a[2] == 't' && a[3] == 'e',
    ensures
        find(a, cite_marker()) == (match find(a.skip(4), cite_marker()) {
            Some(q) => Some(q + 4),
            None => None::<int>,
        }),
{
    let m = cite_marker();
    assert(!matches_at(a, m, 0)) by {
        if matches_at(a, m, 0) {
            assert(a.subrange(0, 5)[0] == m[0]);
        }
    }
    assert(!matches_at(a, m, 1)) by {
        if matches_at(a, m, 1) {
            assert(a.subrange(1, 6)[0] == m[0]);
        }
    }
    assert(!matches_at(a, m, 2)) by {
        if matches_at(a, m, 2) {
            assert(a.subrange(2, 7)[0] == m[0]);
        }
    }
    assert(!matches_at(a, m, 3)) by {
        if matches_at(a, m, 3) {
            assert(a.subrange(3, 8)[0] == m[0]);
        }
    }
    assert(find_from(a, m, 0) == find_from(a, m, 1));
    assert(find_from(a, m, 1) == find_from(a, m, 2));
    assert(find_from(a, m, 2) == find_from(a, m, 3));
    assert(find_from(a, m, 3) == find_from(a, m, 4));
    lemma_find_from_shift(a, m, 0, 4);
}

/// The keys found after the backslash of a `\cite` are those found after
/// the whole marker.
proof fn lemma_keys_after_marker(rest: Seq<char>, p: int)
    requires
        matches_at(rest, cite_marker(), p),
    ensures
        cite_keys_from(rest.skip(p + 1)) == cite_keys_from(rest.skip(p + 5)),
{
    let a = rest.skip(p + 1);
    let b = rest.skip(p + 5);
    assert(rest.subrange(p, p + 5) == cite_marker());
    assert(rest.subrange(p, p + 5)[1] == 'c');
    assert(rest.subrange(p, p + 5)[2] == 'i');
    assert(rest.subrange(p, p + 5)[3] == 't');
    assert(rest.subrange(p, p + 5)[4] == 'e');
    assert(a.skip(4) =~= b);
    lemma_find_after_marker(a);
    lemma_find(b, cite_marker());
    match find(b, cite_marker()) {
        Some(q) => {
            assert(a.skip(q + 5) =~= b.skip(q + 1));
        },
        None => {},
    }
}

proof fn lemma_keys_give_flag(rest: Seq<char>, m: Map<Seq<char>, CitationView>)
    requires
        cite_keys_from(rest).len() > 0,
    ensures
        subst_spec(rest, m).1,
    decreases rest.len(),
{
    lemma_find(rest, cite_marker());
    let p = find(rest, cite_marker())->0;
    let after_bs = rest.skip(p + 1);
    lemma_cite_parse_bounds(after_bs);
    if cite_parse(after_bs) is None {
        lemma_keys_after_marker(rest, p);
        assert(cite_keys_from(rest) =~= cite_keys_from(rest.skip(p + 5)));
        lemma_keys_give_flag(rest.skip(p + 5), m);
    }
}

proof fn lemma_flag_ignores_resolution(rest: Seq<char>, m1: Map<Seq<char>, CitationView>, m2: Map<Seq<char>, CitationView>)
    ensures
        subst_spec(rest, m1).1 == subst_spec(rest, m2).1,
    decreases rest.len(),
{
    match find(rest, cite_marker()) {
        None => {},
        Some(p) => if 0 <= p && p + 5 <= rest.len() {
            if cite_parse(rest.skip(p + 1)) is None {
                lemma_flag_ignores_resolution(rest.skip(p + 5), m1, m2);
            }
        },
    }
}

/// What the flag of `substitute_citations_checked` says: a text without
/// `\cite` comes back unchanged and unflagged; a text from which
/// `extract_cite_keys` takes any key is flagged; and whether a text is
/// flagged does not depend on which keys are resolved.
pub proof fn lemma_cite_flag(latex: Seq<char>, m1: Map<Seq<char>, CitationView>, m2: Map<Seq<char>, CitationView>)
    ensures
        !contains_seq(latex, cite_marker()) ==> subst_spec(latex, m1) == (latex, false),
        cite_keys_spec(latex).len() > 0 ==> subst_spec(latex, m1).1,
        subst_spec(latex, m1).1 == subst_spec(latex, m2).1,
{
    if cite_keys_spec(latex).len() > 0 {
        if cite_keys_from(latex).len() == 0 {
            assert(cite_keys_spec(latex) == Seq::<Seq<char>>::empty());
        }
        lemma_keys_give_flag(latex, m1);
    }
    lemma_flag_ignores_resolution(latex, m1, m2);
}

// ---------------------------------------------------------------------------
// Resolving the citations of many texts at once
// ---------------------------------------------------------------------------

/// Every distinct key cited in the texts, in order of first appearance.
pub open spec fn texts_cite_keys(texts: Seq<String>) -> Seq<Seq<char>>
    decreases texts.len(),
{
    if texts.len() == 0 {
        Seq::empty()
    } else {
        dedup_onto(texts_cite_keys(texts.drop_last()), cite_keys_spec(texts.last()@))
    }
}

/// The keys that `m` has no data for, in order.
pub open spec fn unresolved_keys(keys: Seq<Seq<char>>, m: Map<Seq<char>, CitationView>) -> Seq<Seq<char>>
    decreases keys.len(),
{
    if keys.len() == 0 {
        Seq::empty()
    } else if m.contains_key(keys.last()) {
        unresolved_keys(keys.drop_last(), m)
    } else {
        unresolved_keys(keys.drop_last(), m).push(keys.last())
    }
}

/// Every distinct key cited in the texts, in order of first appearance
/// (the keys to resolve in one batch).
pub fn collect_cite_keys(texts: &[String]) -> (r: Vec<String>)
    ensures
        crate::text::strs_of(r@) == texts_cite_keys(texts@),
{
    let mut keys: Vec<Vec<char>> = Vec::new();
    let mut i: usize = 0;
    assert(texts@.take(0) =~= Seq::<String>::empty());
    assert(seqs_of(keys@) =~= texts_cite_keys(texts@.take(0)));
    while i < texts.len()
        invariant
            i <= texts.len(),
            seqs_of(keys@) == texts_cite_keys(texts@.take(i as int)),
        decreases texts.len() - i,
    {
        let ghost keys0 = seqs_of(keys@);
        let found = extract_cite_keys(texts[i].as_str());
        let ghost fs = crate::text::strs_of(found@);
        let mut j: usize = 0;
        assert(fs.take(0) =~= Seq::<Seq<char>>::empty());
        while j < found.len()
            invariant
                j <= found.len(),
                fs == crate::text::strs_of(found@),
                seqs_of(keys@) == dedup_onto(keys0, fs.take(j as int)),
            decreases found.len() - j,
        {
            assert(fs.take(j + 1).drop_last() =~= fs.take(j as int));
            assert(fs.take(j + 1).last() == found@[j as int]@);
            let k = chars_of(found[j].as_str());
            if !contains_key(&keys, &k) {
                let ghost before = seqs_of(keys@);
                keys.push(k);
                assert(seqs_of(keys@) =~= before.push(found@[j as int]@));
            }
            j += 1;
        }
        assert(fs.take(found.len() as int) =~= fs);
        proof {
            let nxt = texts@.take(i + 1);
            assert(nxt.drop_last() =~= texts@.take(i as int));
            assert(nxt.last() == texts@[i as int]);
        }
        i += 1;
    }
    assert(texts@.take(texts.len() as int) =~= texts@);
    let mut out: Vec<String> = Vec::new();
    let mut k: usize = 0;
    while k < keys.len()
        invariant
            k <= keys.len(),
            crate::text::strs_of(out@) == seqs_of(keys@).take(k as int),
        decreases keys.len() - k,
    {
        let ghost before = crate::text::strs_of(out@);
        let sk = string_of(&keys[k]);
        assert(sk@ == seqs_of(keys@)[k as int]);
        out.push(sk);
        assert(crate::text::strs_of(out@) =~= before.push(seqs_of(keys@)[k as int]));
        assert(crate::text::strs_of(out@) =~= seqs_of(keys@).take(k + 1));
        k += 1;
    }
    assert(seqs_of(keys@).take(keys.len() as int) =~= seqs_of(keys@));
    out
}

/// The texts with their citations substituted, and the keys that could not
/// be resolved; texts without citation keys come back unchanged.
pub open spec fn pre_compiled(texts: Seq<String>, keys: Seq<Seq<char>>, m: Map<Seq<char>, CitationView>) -> (Seq<Seq<char>>, Seq<Seq<char>>) {
    if keys.len() == 0 {
        (crate::text::strs_of(texts), Seq::empty())
    } else {
        (Seq::new(texts.len(), |i: int| subst_spec(texts[i]@, m).0), unresolved_keys(keys, m))
    }
}

/// Substitutes the resolved citations into every text (see `pre_compiled`);
/// `all_keys` are the keys of `collect_cite_keys`, `resolved` what was
/// found for them.
pub fn finish_pre_compile(texts: &[String], all_keys: &Vec<String>, resolved: &CitationMap) -> (r: (Vec<String>, Vec<String>))
    ensures
        crate::text::strs_of(r.0@) == pre_compiled(texts@, crate::text::strs_of(all_keys@), resolved@).0,
        crate::text::strs_of(r.1@) == pre_compiled(texts@, crate::text::strs_of(all_keys@), resolved@).1,
{
    let mut processed: Vec<String> = Vec::new();
    let mut missing: Vec<String> = Vec::new();
    if all_keys.len() == 0 {
        let mut i: usize = 0;
        while i < texts.len()
            invariant
                i <= texts.len(),
                crate::text::strs_of(processed@) == crate::text::strs_of(texts@).take(i as int),
            decreases texts.len() - i,
        {
            let ghost before = crate::text::strs_of(processed@);
            let t = texts[i].clone();
            assert(t@ == texts@[i as int]@);
            processed.push(t);
            assert(crate::text::strs_of(processed@) =~= before.push(texts@[i as int]@));
            assert(crate::text::strs_of(processed@) =~= crate::text::strs_of(texts@).take(i + 1));
            i += 1;
        }
        assert(crate::text::strs_of(texts@).take(texts.len() as int) =~= crate::text::strs_of(texts@));
        assert(crate::text::strs_of(missing@) =~= Seq::<Seq<char>>::empty());
        return (processed, missing);
    }
    let ghost ks = crate::text::strs_of(all_keys@);
    let mut k: usize = 0;
    assert(ks.take(0) =~= Seq::<Seq<char>>::empty());
    assert(crate::text::strs_of(missing@) =~= unresolved_keys(ks.take(0), resolved@));
    while k < all_keys.len()
        invariant
            k <= all_keys.len(),
            ks == crate::text::strs_of(all_keys@),
            crate::text::strs_of(missing@) == unresolved_keys(ks.take(k as int), resolved@),
        decreases all_keys.len() - k,
    {
        assert(ks.take(k + 1).drop_last() =~= ks.take(k as int));
        assert(ks.take(k + 1).last() == all_keys@[k as int]@);
        let key = chars_of(all_keys[k].as_str());
        if resolved.get(&key).is_none() {
            let ghost before = crate::text::strs_of(missing@);
            missing.push(all_keys[k].clone());
            assert(crate::text::strs_of(missing@) =~= before.push(all_keys@[k as int]@));
        }
        k += 1;
    }
    assert(ks.take(all_keys.len() as int) =~= ks);
    let ghost outs = Seq::new(texts@.len(), |i: int| subst_spec(texts@[i]@, resolved@).0);
    let mut i: usize = 0;
    while i < texts.len()
        invariant
            i <= texts.len(),
            outs == Seq::new(texts@.len(), |i: int| subst_spec(texts@[i]@, resolved@).0),
            crate::text::strs_of(processed@) == outs.take(i as int),
        decreases texts.len() - i,
    {
        let t = substitute_citations(texts[i].as_str(), resolved);
        let ghost before = crate::text::strs_of(processed@);
        let ghost tv = t@;
        processed.push(t);
        assert(crate::text::strs_of(processed@) =~= before.push(tv));
        assert(crate::text::strs_of(processed@) =~= outs.take(i + 1));
        i += 1;
    }
    assert(outs.take(texts.len() as int) =~= outs);
    (processed, missing)
}

} // verus!

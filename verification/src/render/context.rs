//! Names and pre-resolved data the renderer works from.
use vstd::prelude::*;
use crate::text::{extend, lit, lower_text, lowercase_chars, join, join_chars, seqs_of, string_of};

verus! {

/// An author name for rendering purposes.
///
/// For mononyms, only `mononym` is set; for regular names, `family` and
/// `given`. A `variant_unicode` overrides everything (the bibitem refers to
/// the author by an alternative name).
#[derive(Debug, Clone, PartialEq, Eq)]
pub struct AuthorName {
    pub author_key: String,
    pub family: Option<String>,
    pub given: Option<String>,
    pub mononym: Option<String>,
    pub variant_unicode: Option<String>,
}

/// The mathematical value of an [`AuthorName`].
pub struct AuthorNameView {
    pub author_key: Seq<char>,
    pub family: Option<Seq<char>>,
    pub given: Option<Seq<char>>,
    pub mononym: Option<Seq<char>>,
    pub variant_unicode: Option<Seq<char>>,
}

/// The view of an optional string.
pub open spec fn ov(o: Option<String>) -> Option<Seq<char>> {
    match o {
        Some(s) => Some(s@),
        None => None,
    }
}

impl View for AuthorName {
    type V = AuthorNameView;

    open spec fn view(&self) -> AuthorNameView {
        AuthorNameView {
            author_key: self.author_key@,
            family: ov(self.family),
            given: ov(self.given),
            mononym: ov(self.mononym),
            variant_unicode: ov(self.variant_unicode),
        }
    }
}

/// The views of a sequence of names.
pub open spec fn names_of(v: Seq<AuthorName>) -> Seq<AuthorNameView> {
    Seq::new(v.len(), |i: int| v[i]@)
}

/// A copy of an optional string.
pub fn copy_opt(o: &Option<String>) -> (r: Option<String>)
    ensures
        ov(r) == ov(*o),
{
    match o {
        Some(s) => Some(s.clone()),
        None => None,
    }
}

impl AuthorName {
    /// A copy of this name.
    pub fn copy(&self) -> (r: AuthorName)
        ensures
            r@ == self@,
    {
        AuthorName {
            author_key: self.author_key.clone(),
            family: copy_opt(&self.family),
            given: copy_opt(&self.given),
            mononym: copy_opt(&self.mononym),
            variant_unicode: copy_opt(&self.variant_unicode),
        }
    }
}

/// A copy of a list of names.
pub fn copy_names(v: &Vec<AuthorName>) -> (r: Vec<AuthorName>)
    ensures
        names_of(r@) == names_of(v@),
{
    let mut r: Vec<AuthorName> = Vec::new();
    let mut i: usize = 0;
    while i < v.len()
        invariant
            i <= v.len(),
            names_of(r@) == names_of(v@).take(i as int),
        decreases v.len() - i,
    {
        let c = v[i].copy();
        let ghost before = names_of(r@);
        r.push(c);
        assert(names_of(r@) =~= before.push(c@));
        assert(names_of(r@) =~= names_of(v@).take(i + 1));
        i += 1;
    }
    assert(names_of(v@).take(v.len() as int) =~= names_of(v@));
    r
}

/// Pre-resolved data the renderer needs but cannot fetch itself.
#[derive(Debug, Clone, Default)]
pub struct RenderContext {
    /// Authors linked to the bibitem, ordered by position.
    pub authors: Vec<AuthorName>,
    /// Editors linked to the bibitem, ordered by position.
    pub editors: Vec<AuthorName>,
    /// Guest editors linked to the bibitem, ordered by position.
    pub guesteditors: Vec<AuthorName>,
    pub journal_name: Option<String>,
    pub publisher_name: Option<String>,
    pub series_name: Option<String>,
    pub institution_name: Option<String>,
    pub school_name: Option<String>,
    pub crossref_bibkey: Option<String>,
    /// If true, the author is replaced with an em-dash (consecutive same-author).
    pub suppress_author: bool,
}

/// The mathematical value of a [`RenderContext`].
pub struct RenderContextView {
    pub authors: Seq<AuthorNameView>,
    pub editors: Seq<AuthorNameView>,
    pub guesteditors: Seq<AuthorNameView>,
    pub journal_name: Option<Seq<char>>,
    pub publisher_name: Option<Seq<char>>,
    pub series_name: Option<Seq<char>>,
    pub institution_name: Option<Seq<char>>,
    pub school_name: Option<Seq<char>>,
    pub crossref_bibkey: Option<Seq<char>>,
    pub suppress_author: bool,
}

impl View for RenderContext {
    type V = RenderContextView;

    open spec fn view(&self) -> RenderContextView {
        RenderContextView {
            authors: names_of(self.authors@),
            editors: names_of(self.editors@),
            guesteditors: names_of(self.guesteditors@),
            journal_name: ov(self.journal_name),
            publisher_name: ov(self.publisher_name),
            series_name: ov(self.series_name),
            institution_name: ov(self.institution_name),
            school_name: ov(self.school_name),
            crossref_bibkey: ov(self.crossref_bibkey),
            suppress_author: self.suppress_author,
        }
    }
}

impl RenderContext {
    /// A copy of the context.
    pub fn copy(&self) -> (r: Self)
        ensures
            r@ == self@,
    {
        RenderContext {
            authors: copy_names(&self.authors),
            editors: copy_names(&self.editors),
            guesteditors: copy_names(&self.guesteditors),
            journal_name: copy_opt(&self.journal_name),
            publisher_name: copy_opt(&self.publisher_name),
            series_name: copy_opt(&self.series_name),
            institution_name: copy_opt(&self.institution_name),
            school_name: copy_opt(&self.school_name),
            crossref_bibkey: copy_opt(&self.crossref_bibkey),
            suppress_author: self.suppress_author,
        }
    }

    /// A copy with `suppress_author` set to true.
    pub fn with_suppress_author(&self) -> (r: Self)
        ensures
            r@ == (RenderContextView { suppress_author: true, ..self@ }),
    {
        RenderContext {
            authors: copy_names(&self.authors),
            editors: copy_names(&self.editors),
            guesteditors: copy_names(&self.guesteditors),
            journal_name: copy_opt(&self.journal_name),
            publisher_name: copy_opt(&self.publisher_name),
            series_name: copy_opt(&self.series_name),
            institution_name: copy_opt(&self.institution_name),
            school_name: copy_opt(&self.school_name),
            crossref_bibkey: copy_opt(&self.crossref_bibkey),
            suppress_author: true,
        }
    }
}

/// The text of an optional name, empty when absent.
pub open spec fn or_empty(o: Option<Seq<char>>) -> Seq<char> {
    match o {
        Some(s) => s,
        None => Seq::empty(),
    }
}

/// The comparison key of one author: the lowercased variant, else the
/// lowercased mononym, else `family,given` lowercased piecewise.
pub open spec fn author_key_part(a: AuthorNameView) -> Seq<char> {
    match a.variant_unicode {
        Some(v) => lower_text(v),
        None => match a.mononym {
            Some(m) => lower_text(m),
            None => lower_text(or_empty(a.family)) + seq![','] + lower_text(or_empty(a.given)),
        },
    }
}

/// The comparison key of an author list: the authors' keys joined by `|`.
pub open spec fn author_sort_key_spec(authors: Seq<AuthorNameView>) -> Seq<char> {
    join(authors.map_values(|a: AuthorNameView| author_key_part(a)), seq!['|'])
}

fn opt_chars(o: &Option<String>) -> (r: Vec<char>)
    ensures
        r@ == or_empty(ov(*o)),
{
    match o {
        Some(s) => lit(s.as_str()),
        None => Vec::new(),
    }
}

/// Compute a sort key from the author list, used to detect consecutive
/// same-author entries.
pub fn author_sort_key(authors: &[AuthorName]) -> (r: String)
    ensures
        r@ == author_sort_key_spec(names_of(authors@)),
{
    let ghost items = names_of(authors@).map_values(|a: AuthorNameView| author_key_part(a));
    let mut parts: Vec<Vec<char>> = Vec::new();
    let mut i: usize = 0;
    while i < authors.len()
        invariant
            i <= authors.len(),
            items == names_of(authors@).map_values(|a: AuthorNameView| author_key_part(a)),
            seqs_of(parts@) == items.take(i as int),
        decreases authors.len() - i,
    {
        let a = &authors[i];
        let part = match &a.variant_unicode {
            Some(v) => lowercase_chars(&lit(v.as_str())),
            None => match &a.mononym {
                Some(m) => lowercase_chars(&lit(m.as_str())),
                None => {
                    let mut p = lowercase_chars(&opt_chars(&a.family));
                    p.push(',');
                    extend(&mut p, &lowercase_chars(&opt_chars(&a.given)));
                    p
                },
            },
        };
        assert(part@ =~= items[i as int]);
        let ghost before = seqs_of(parts@);
        parts.push(part);
        assert(seqs_of(parts@) =~= before.push(part@));
        assert(seqs_of(parts@) =~= items.take(i + 1));
        i += 1;
    }
    assert(items.take(authors.len() as int) =~= items);
    let bar: Vec<char> = vec!['|'];
    assert(bar@ =~= seq!['|']);
    string_of(&join_chars(&parts, &bar))
}

} // verus!

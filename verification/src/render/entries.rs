//! Whole bibliography entries, by entry type, and lists of entries.
use vstd::prelude::*;
use crate::domain::{entry_type_name, Author, AuthorRole, BibItem, BibitemAuthorsRow, EntryType};
use crate::export::{deref_rows, role_rows, sorted_role_rows};
use crate::keymap::StrMap;
use crate::numeric::{int_chars, int_str};
use crate::render::components::{
    esc, esc_spec, join_names, join_names_spec, nonempty, opt_seq, push_esc, render_access,
    render_access_spec, render_booktitle, render_edition, render_people, render_people_spec,
    render_edition_spec, render_eid, render_journal, render_journal_spec, render_note,
    render_pages, render_pages_spec, render_publisher, render_publisher_spec, render_series,
    render_series_spec, render_title, render_title_spec, render_volume_number,
    render_volume_number_spec,
};
use crate::render::context::{
    author_sort_key, author_sort_key_spec, names_of, or_empty, ov, AuthorName, AuthorNameView,
    RenderContext, RenderContextView,
};
use crate::text::{chars_of, extend, extend_str, join, join_chars, lit, seqs_of, string_of};

verus! {

// ---------------------------------------------------------------------------
// Segments
// ---------------------------------------------------------------------------

/// An optional text, kept only when non-empty.
pub open spec fn nzs(o: Option<Seq<char>>) -> Option<Seq<char>> {
    match o {
        Some(s) => if s.len() > 0 {
            Some(s)
        } else {
            None
        },
        None => None,
    }
}

/// An optional string, kept only when non-empty.
pub open spec fn nz(o: Option<String>) -> Option<Seq<char>> {
    nzs(ov(o))
}

/// `parts` with `s` added when it is not empty.
pub open spec fn seg(parts: Seq<Seq<char>>, s: Seq<char>) -> Seq<Seq<char>> {
    if s.len() > 0 {
        parts.push(s)
    } else {
        parts
    }
}

/// The parts joined by `. `, ending with a period; nothing for no parts.
pub open spec fn periods(parts: Seq<Seq<char>>) -> Seq<char> {
    if parts.len() == 0 {
        Seq::empty()
    } else {
        let r = join(parts, ". "@);
        if r.len() > 0 && r.last() == '.' {
            r
        } else {
            r.push('.')
        }
    }
}

/// The title, then `. ` and `rest` when `rest` is not empty.
pub open spec fn titled(title: Seq<char>, rest: Seq<char>) -> Seq<char> {
    if rest.len() > 0 {
        title + ". "@ + rest
    } else {
        title
    }
}

fn os(o: &Option<String>) -> (r: Option<&str>)
    ensures
        opt_seq(r) == ov(*o),
        nonempty(r) == nz(*o),
{
    match o {
        Some(s) => Some(s.as_str()),
        None => None,
    }
}

fn push_segment(parts: &mut Vec<Vec<char>>, segment: Vec<char>)
    ensures
        seqs_of(final(parts)@) == seg(seqs_of(old(parts)@), segment@),
{
    if segment.len() > 0 {
        let ghost before = seqs_of(parts@);
        let ghost s = segment@;
        parts.push(segment);
        assert(seqs_of(parts@) =~= before.push(s));
    }
}

fn join_with_periods(parts: &Vec<Vec<char>>) -> (r: Vec<char>)
    ensures
        r@ == periods(seqs_of(parts@)),
{
    if parts.len() == 0 {
        return Vec::new();
    }
    let mut r = join_chars(parts, &lit(". "));
    if !(r.len() > 0 && r[r.len() - 1] == '.') {
        r.push('.');
    }
    r
}

fn titled_exec(title: Vec<char>, rest: &Vec<char>) -> (r: Vec<char>)
    ensures
        r@ == titled(title@, rest@),
{
    if rest.len() > 0 {
        let mut t = title;
        extend_str(&mut t, ". ");
        extend(&mut t, rest);
        t
    } else {
        title
    }
}

fn chars_string(s: String) -> (r: Vec<char>)
    ensures
        r@ == s@,
{
    chars_of(s.as_str())
}

// ---------------------------------------------------------------------------
// Date
// ---------------------------------------------------------------------------

/// The year in a date span, `n.d.` without a year.
pub open spec fn date_spec(year: Option<i16>) -> Seq<char> {
    "<span data-field=\"date\">"@ + (match year {
        Some(y) => int_str(y as int),
        None => "n.d."@,
    }) + "</span>"@
}

/// Render the year as `<span data-field="date">YEAR</span>`, or `n.d.`.
pub fn render_date(item: &BibItem) -> (r: String)
    ensures
        r@ == date_spec(item.date_year),
{
    let mut r = lit("<span data-field=\"date\">");
    match item.date_year {
        Some(y) => extend(&mut r, &int_chars(y as i64)),
        None => extend_str(&mut r, "n.d."),
    }
    extend_str(&mut r, "</span>");
    string_of(&r)
}

/// The leading author and date parts shared by most entry types.
pub open spec fn head_parts(item: BibItem, ctx: RenderContextView) -> Seq<Seq<char>> {
    seg(
        seg(Seq::empty(), render_people_spec(ctx.authors, AuthorRole::Author, ctx.suppress_author, false)),
        date_spec(item.date_year),
    )
}

fn head(item: &BibItem, ctx: &RenderContext) -> (r: Vec<Vec<char>>)
    ensures
        seqs_of(r@) == head_parts(*item, ctx@),
{
    let mut parts: Vec<Vec<char>> = Vec::new();
    assert(seqs_of(parts@) =~= Seq::<Seq<char>>::empty());
    push_segment(&mut parts, chars_string(render_people(ctx.authors.as_slice(), AuthorRole::Author, ctx.suppress_author, false)));
    push_segment(&mut parts, chars_string(render_date(item)));
    parts
}

/// The EID in a span, or nothing.
pub open spec fn eid_spec(e: Option<Seq<char>>) -> Seq<char> {
    match e {
        Some(x) => "<span data-field=\"eid\">"@ + esc_spec(x) + "</span>"@,
        None => Seq::empty(),
    }
}

// ---------------------------------------------------------------------------
// Article
// ---------------------------------------------------------------------------

/// `JOURNAL VOLUME(NUMBER): PAGES`, each part only when present.
pub open spec fn article_container(journal: Seq<char>, vol_num: Seq<char>, pages: Seq<char>) -> Seq<char> {
    let c = if vol_num.len() > 0 {
        (if journal.len() > 0 {
            journal + " "@
        } else {
            journal
        }) + vol_num
    } else {
        journal
    };
    if pages.len() > 0 {
        c + (if vol_num.len() > 0 {
            ": "@
        } else if c.len() > 0 {
            " "@
        } else {
            Seq::empty()
        }) + pages
    } else {
        c
    }
}

/// The pages of an article, or its EID when the pages are absent or empty.
pub open spec fn article_pages(item: BibItem) -> Seq<char> {
    match ov(item.pages) {
        Some(p) => if p.len() == 0 {
            eid_spec(nz(item.eid))
        } else {
            render_pages_spec(p)
        },
        None => eid_spec(nz(item.eid)),
    }
}

/// `AUTHOR. YEAR. "TITLE." JOURNAL VOLUME(NUMBER): PAGES. doi:DOI`
pub open spec fn render_article_spec(item: BibItem, ctx: RenderContextView) -> Seq<char> {
    let container = article_container(
        render_journal_spec(nzs(ctx.journal_name), None),
        render_volume_number_spec(nz(item.volume), nz(item.number)),
        article_pages(item),
    );
    let p = seg(head_parts(item, ctx), titled(render_title_spec(item.title_unicode@, true), container));
    periods(seg(p, render_access_spec(nz(item.doi), nz(item.url))))
}

/// Render an article entry.
pub fn render_article(item: &BibItem, ctx: &RenderContext) -> (r: String)
    ensures
        r@ == render_article_spec(*item, ctx@),
{
    let mut parts = head(item, ctx);
    let title = chars_string(render_title(item.title_unicode.as_str(), true));
    let journal = chars_string(render_journal(os(&ctx.journal_name), None));
    let vol_num = chars_string(render_volume_number(os(&item.volume), os(&item.number)));
    let pages_or_eid = match &item.pages {
        Some(p) => if p.as_str().is_empty() {
            chars_string(render_eid(os(&item.eid)))
        } else {
            chars_string(render_pages(p.as_str()))
        },
        None => chars_string(render_eid(os(&item.eid))),
    };
    proof {
        reveal_strlit(" ");
    }
    let mut container: Vec<char> = Vec::new();
    assert(journal@.len() == 0 ==> container@ =~= journal@);
    if journal.len() > 0 {
        extend(&mut container, &journal);
    }
    if vol_num.len() > 0 {
        if container.len() > 0 {
            container.push(' ');
        }
        extend(&mut container, &vol_num);
    }
    let ghost c = container@;
    assert(c =~= (if vol_num@.len() > 0 {
        (if journal@.len() > 0 {
            journal@ + " "@
        } else {
            journal@
        }) + vol_num@
    } else {
        journal@
    }));
    if pages_or_eid.len() > 0 {
        if vol_num.len() > 0 {
            extend_str(&mut container, ": ");
        } else if container.len() > 0 {
            container.push(' ');
        }
        extend(&mut container, &pages_or_eid);
    }
    assert(container@ =~= article_container(journal@, vol_num@, pages_or_eid@));
    push_segment(&mut parts, titled_exec(title, &container));
    push_segment(&mut parts, chars_string(render_access(os(&item.doi), os(&item.url))));
    string_of(&join_with_periods(&parts))
}

// ---------------------------------------------------------------------------
// Book
// ---------------------------------------------------------------------------

/// With authors: `AUTHOR. YEAR. TITLE. [EDITION.] [SERIES.] ADDRESS:
/// PUBLISHER. doi:DOI`; edited: `EDITOR, ed[s]. YEAR. TITLE. [SERIES.] ...`
pub open spec fn render_book_spec(item: BibItem, ctx: RenderContextView) -> Seq<char> {
    let has_authors = ctx.authors.len() > 0;
    let p1 = if has_authors {
        seg(Seq::empty(), render_people_spec(ctx.authors, AuthorRole::Author, ctx.suppress_author, false))
    } else if ctx.editors.len() > 0 {
        seg(Seq::empty(), render_people_spec(ctx.editors, AuthorRole::Editor, false, false))
    } else {
        Seq::empty()
    };
    let p2 = seg(seg(p1, date_spec(item.date_year)), render_title_spec(item.title_unicode@, false));
    let p3 = if has_authors {
        seg(p2, render_edition_spec(nz(item.edition)))
    } else {
        p2
    };
    let p4 = seg(p3, render_series_spec(nzs(ctx.series_name), None, None));
    let p5 = seg(p4, render_publisher_spec(nz(item.address), nzs(ctx.publisher_name), None));
    periods(seg(p5, render_access_spec(nz(item.doi), nz(item.url))))
}

/// Render a book entry.
pub fn render_book(item: &BibItem, ctx: &RenderContext) -> (r: String)
    ensures
        r@ == render_book_spec(*item, ctx@),
{
    let mut parts: Vec<Vec<char>> = Vec::new();
    assert(seqs_of(parts@) =~= Seq::<Seq<char>>::empty());
    let has_authors = ctx.authors.len() > 0;
    if has_authors {
        push_segment(&mut parts, chars_string(render_people(ctx.authors.as_slice(), AuthorRole::Author, ctx.suppress_author, false)));
    } else if ctx.editors.len() > 0 {
        push_segment(&mut parts, chars_string(render_people(ctx.editors.as_slice(), AuthorRole::Editor, false, false)));
    }
    push_segment(&mut parts, chars_string(render_date(item)));
    push_segment(&mut parts, chars_string(render_title(item.title_unicode.as_str(), false)));
    if has_authors {
        push_segment(&mut parts, chars_string(render_edition(os(&item.edition))));
    }
    push_segment(&mut parts, chars_string(render_series(os(&ctx.series_name), None, None)));
    push_segment(&mut parts, chars_string(render_publisher(os(&item.address), os(&ctx.publisher_name), None)));
    push_segment(&mut parts, chars_string(render_access(os(&item.doi), os(&item.url))));
    string_of(&join_with_periods(&parts))
}

// ---------------------------------------------------------------------------
// Chapters
// ---------------------------------------------------------------------------

/// An editor named inline: the mononym, else `Given Family` (the family
/// name alone without a given name), escaped.
pub open spec fn inline_name(a: AuthorNameView) -> Seq<char> {
    match a.mononym {
        Some(m) => esc_spec(m),
        None => {
            let given = or_empty(a.given);
            let family = or_empty(a.family);
            if given.len() == 0 {
                esc_spec(family)
            } else {
                esc_spec(given) + " "@ + esc_spec(family)
            }
        },
    }
}

/// Editors named inline: `A`, `A and B`, `A, B and C`.
pub open spec fn editor_inline_spec(editors: Seq<AuthorNameView>) -> Seq<char> {
    join_names_spec(Seq::new(editors.len(), |i: int| inline_name(editors[i])))
}

fn opt_chars(o: &Option<String>) -> (r: Vec<char>)
    ensures
        r@ == or_empty(ov(*o)),
{
    match o {
        Some(s) => chars_of(s.as_str()),
        None => Vec::new(),
    }
}

fn render_editor_inline(editors: &Vec<AuthorName>) -> (r: Vec<char>)
    ensures
        r@ == editor_inline_spec(names_of(editors@)),
{
    let ghost names = names_of(editors@);
    let ghost items = Seq::new(names.len(), |i: int| inline_name(names[i]));
    let mut parts: Vec<Vec<char>> = Vec::new();
    let mut i: usize = 0;
    proof {
        reveal_strlit(" ");
    }
    while i < editors.len()
        invariant
            i <= editors.len(),
            " "@ == seq![' '],
            names == names_of(editors@),
            items == Seq::new(names.len(), |i: int| inline_name(names[i])),
            seqs_of(parts@) == items.take(i as int),
        decreases editors.len() - i,
    {
        let a = &editors[i];
        let p = match &a.mononym {
            Some(m) => chars_string(esc(m.as_str())),
            None => {
                let given = opt_chars(&a.given);
                let family = opt_chars(&a.family);
                if given.len() == 0 {
                    chars_string(esc(string_of(&family).as_str()))
                } else {
                    let mut v: Vec<char> = Vec::new();
                    push_esc(&mut v, string_of(&given).as_str());
                    v.push(' ');
                    push_esc(&mut v, string_of(&family).as_str());
                    v
                }
            },
        };
        assert(names[i as int] == a@);
        assert(p@ =~= items[i as int]);
        let ghost before = seqs_of(parts@);
        let ghost pv = p@;
        parts.push(p);
        assert(seqs_of(parts@) =~= before.push(pv));
        assert(seqs_of(parts@) =~= items.take(i + 1));
        i += 1;
    }
    assert(items.take(editors.len() as int) =~= items);
    join_names(&parts)
}

/// The booktitle in italics, or nothing.
pub open spec fn booktitle_html(b: Option<Seq<char>>) -> Seq<char> {
    match b {
        Some(x) => "<span data-field=\"booktitle\"><em>"@ + esc_spec(x) + "</em></span>"@,
        None => Seq::empty(),
    }
}

/// The pages of a chapter as `pp. PAGES`, else its EID.
pub open spec fn chapter_pages(item: BibItem) -> Seq<char> {
    match nz(item.pages) {
        Some(p) => {
            let ph = render_pages_spec(p);
            if ph.len() > 0 {
                "pp. "@ + ph
            } else {
                Seq::empty()
            }
        },
        None => eid_spec(nz(item.eid)),
    }
}

/// `In BOOKTITLE`, `volume VOL`, `edited by EDITORS`, the pages and
/// `ADDRESS: PUBLISHER`, each only when present.
pub open spec fn chapter_parts(item: BibItem, ctx: RenderContextView) -> Seq<Seq<char>> {
    let b = booktitle_html(nz(item.booktitle_unicode));
    let c1 = if b.len() > 0 {
        seq!["In "@ + b]
    } else {
        Seq::empty()
    };
    let c2 = match nz(item.volume) {
        Some(v) => c1.push("volume <span data-field=\"volume\">"@ + esc_spec(v) + "</span>"@),
        None => c1,
    };
    let c3 = if ctx.editors.len() > 0 {
        c2.push("edited by "@ + editor_inline_spec(ctx.editors))
    } else {
        c2
    };
    seg(seg(c3, chapter_pages(item)), render_publisher_spec(nz(item.address), nzs(ctx.publisher_name), None))
}

/// `AUTHOR. YEAR. "TITLE." In BOOKTITLE, [volume VOL,] [edited by EDITOR,]
/// pp. PAGES, ADDRESS: PUBLISHER. doi:DOI`
pub open spec fn render_chapter_spec(item: BibItem, ctx: RenderContextView) -> Seq<char> {
    let container = join(chapter_parts(item, ctx), ", "@);
    let p = seg(head_parts(item, ctx), titled(render_title_spec(item.title_unicode@, true), container));
    periods(seg(p, render_access_spec(nz(item.doi), nz(item.url))))
}

/// Render an incollection or inproceedings entry.
pub fn render_chapter(item: &BibItem, ctx: &RenderContext) -> (r: String)
    ensures
        r@ == render_chapter_spec(*item, ctx@),
{
    let mut parts = head(item, ctx);
    let title = chars_string(render_title(item.title_unicode.as_str(), true));
    let booktitle = chars_string(render_booktitle(os(&item.booktitle_unicode)));
    let mut cparts: Vec<Vec<char>> = Vec::new();
    if booktitle.len() > 0 {
        let mut b = lit("In ");
        extend(&mut b, &booktitle);
        cparts.push(b);
    }
    let ghost c1 = seqs_of(cparts@);
    assert(c1 =~= (if booktitle@.len() > 0 {
        seq!["In "@ + booktitle@]
    } else {
        Seq::<Seq<char>>::empty()
    }));
    match &item.volume {
        Some(vol) => {
            if !vol.as_str().is_empty() {
                let mut v = lit("volume <span data-field=\"volume\">");
                push_esc(&mut v, vol.as_str());
                extend_str(&mut v, "</span>");
                let ghost vv = v@;
                cparts.push(v);
                assert(seqs_of(cparts@) =~= c1.push(vv));
            }
        },
        None => {},
    }
    let ghost c2 = seqs_of(cparts@);
    if ctx.editors.len() > 0 {
        let mut e = lit("edited by ");
        extend(&mut e, &render_editor_inline(&ctx.editors));
        let ghost ev = e@;
        cparts.push(e);
        assert(seqs_of(cparts@) =~= c2.push(ev));
    }
    let pages_or_eid = match &item.pages {
        Some(p) => if !p.as_str().is_empty() {
            let ph = chars_string(render_pages(p.as_str()));
            if ph.len() > 0 {
                let mut v = lit("pp. ");
                extend(&mut v, &ph);
                v
            } else {
                Vec::new()
            }
        } else {
            chars_string(render_eid(os(&item.eid)))
        },
        None => chars_string(render_eid(os(&item.eid))),
    };
    assert(pages_or_eid@ =~= chapter_pages(*item));
    push_segment(&mut cparts, pages_or_eid);
    push_segment(&mut cparts, chars_string(render_publisher(os(&item.address), os(&ctx.publisher_name), None)));
    assert(seqs_of(cparts@) =~= chapter_parts(*item, ctx@));
    let container = join_chars(&cparts, &lit(", "));
    push_segment(&mut parts, titled_exec(title, &container));
    push_segment(&mut parts, chars_string(render_access(os(&item.doi), os(&item.url))));
    string_of(&join_with_periods(&parts))
}

// ---------------------------------------------------------------------------
// Thesis, unpublished, generic
// ---------------------------------------------------------------------------

/// The type of a thesis: its type field, else by entry type.
pub open spec fn thesis_type(item: BibItem) -> Seq<char> {
    match ov(item.type_field) {
        Some(t) => t,
        None => match item.entry_type {
            EntryType::Phdthesis => "PhD thesis"@,
            EntryType::Mastersthesis => "Master\u{2019}s thesis"@,
            _ => "Thesis"@,
        },
    }
}

/// `AUTHOR. YEAR. "TITLE." TYPE, SCHOOL.`
pub open spec fn render_thesis_spec(item: BibItem, ctx: RenderContextView) -> Seq<char> {
    let suffix_parts = seq![thesis_type(item)] + (match nzs(ctx.school_name) {
        Some(s) => seq![esc_spec(s)],
        None => Seq::empty(),
    });
    let suffix = join(suffix_parts, ", "@);
    periods(seg(head_parts(item, ctx), titled(render_title_spec(item.title_unicode@, true), suffix)))
}

/// Render a thesis entry (mastersthesis or phdthesis).
pub fn render_thesis(item: &BibItem, ctx: &RenderContext) -> (r: String)
    ensures
        r@ == render_thesis_spec(*item, ctx@),
{
    let mut parts = head(item, ctx);
    let title = chars_string(render_title(item.title_unicode.as_str(), true));
    let kind: Vec<char> = match &item.type_field {
        Some(t) => chars_of(t.as_str()),
        None => match item.entry_type {
            EntryType::Phdthesis => lit("PhD thesis"),
            EntryType::Mastersthesis => lit("Master\u{2019}s thesis"),
            _ => lit("Thesis"),
        },
    };
    let mut suffix_parts: Vec<Vec<char>> = Vec::new();
    suffix_parts.push(kind);
    match &ctx.school_name {
        Some(school) => {
            if !school.as_str().is_empty() {
                suffix_parts.push(chars_string(esc(school.as_str())));
            }
        },
        None => {},
    }
    assert(seqs_of(suffix_parts@) =~= seq![thesis_type(*item)] + (match nzs(ctx@.school_name) {
        Some(s) => seq![esc_spec(s)],
        None => Seq::<Seq<char>>::empty(),
    }));
    let suffix = join_chars(&suffix_parts, &lit(", "));
    push_segment(&mut parts, titled_exec(title, &suffix));
    string_of(&join_with_periods(&parts))
}

/// `AUTHOR. YEAR. "TITLE." NOTE.`
pub open spec fn render_unpublished_spec(item: BibItem, ctx: RenderContextView) -> Seq<char> {
    let note = match nz(item.note_unicode) {
        Some(n) => esc_spec(n),
        None => Seq::empty(),
    };
    periods(seg(head_parts(item, ctx), titled(render_title_spec(item.title_unicode@, true), note)))
}

/// Render an unpublished entry.
pub fn render_unpublished(item: &BibItem, ctx: &RenderContext) -> (r: String)
    ensures
        r@ == render_unpublished_spec(*item, ctx@),
{
    let mut parts = head(item, ctx);
    let title = chars_string(render_title(item.title_unicode.as_str(), true));
    let note = chars_string(render_note(os(&item.note_unicode)));
    push_segment(&mut parts, titled_exec(title, &note));
    string_of(&join_with_periods(&parts))
}

/// `AUTHOR. YEAR. TITLE. [NOTE.] [INSTITUTION.] [doi:DOI]`
pub open spec fn render_generic_spec(item: BibItem, ctx: RenderContextView) -> Seq<char> {
    let p1 = seg(head_parts(item, ctx), render_title_spec(item.title_unicode@, false));
    let p2 = seg(p1, match nz(item.note_unicode) {
        Some(n) => esc_spec(n),
        None => Seq::empty(),
    });
    let p3 = match nzs(ctx.institution_name) {
        Some(i) => seg(p2, esc_spec(i)),
        None => p2,
    };
    periods(seg(p3, render_access_spec(nz(item.doi), nz(item.url))))
}

/// Render a generic entry (misc, techreport, proceedings, ...).
pub fn render_generic(item: &BibItem, ctx: &RenderContext) -> (r: String)
    ensures
        r@ == render_generic_spec(*item, ctx@),
{
    let mut parts = head(item, ctx);
    push_segment(&mut parts, chars_string(render_title(item.title_unicode.as_str(), false)));
    push_segment(&mut parts, chars_string(render_note(os(&item.note_unicode))));
    match &ctx.institution_name {
        Some(inst) => {
            if !inst.as_str().is_empty() {
                push_segment(&mut parts, chars_string(esc(inst.as_str())));
            }
        },
        None => {},
    }
    push_segment(&mut parts, chars_string(render_access(os(&item.doi), os(&item.url))));
    string_of(&join_with_periods(&parts))
}

// ---------------------------------------------------------------------------
// Entries and bibliographies
// ---------------------------------------------------------------------------

/// The inner rendering of an item, by entry type.
pub open spec fn render_inner_spec(item: BibItem, ctx: RenderContextView) -> Seq<char> {
    match item.entry_type {
        EntryType::Article => render_article_spec(item, ctx),
        EntryType::Book => render_book_spec(item, ctx),
        EntryType::Incollection | EntryType::Inproceedings => render_chapter_spec(item, ctx),
        EntryType::Mastersthesis | EntryType::Phdthesis => render_thesis_spec(item, ctx),
        EntryType::Unpublished => render_unpublished_spec(item, ctx),
        _ => render_generic_spec(item, ctx),
    }
}

/// A `csl-entry` division with the entry type and bibkey around the inner
/// rendering.
pub open spec fn render_bibitem_spec(item: BibItem, ctx: RenderContextView) -> Seq<char> {
    "<div class=\"csl-entry\" data-type=\""@ + entry_type_name(item.entry_type) + "\" data-bibkey=\""@
        + esc_spec(item.bibkey@) + "\">"@ + render_inner_spec(item, ctx) + "</div>"@
}

/// Render a single bibitem to structured HTML.
pub fn render_bibitem(item: &BibItem, ctx: &RenderContext) -> (r: String)
    ensures
        r@ == render_bibitem_spec(*item, ctx@),
{
    let inner = match item.entry_type {
        EntryType::Article => render_article(item, ctx),
        EntryType::Book => render_book(item, ctx),
        EntryType::Incollection | EntryType::Inproceedings => render_chapter(item, ctx),
        EntryType::Mastersthesis | EntryType::Phdthesis => render_thesis(item, ctx),
        EntryType::Unpublished => render_unpublished(item, ctx),
        _ => render_generic(item, ctx),
    };
    let mut r = lit("<div class=\"csl-entry\" data-type=\"");
    extend_str(&mut r, item.entry_type.as_str());
    extend_str(&mut r, "\" data-bibkey=\"");
    push_esc(&mut r, item.bibkey.as_str());
    extend_str(&mut r, "\">");
    extend_str(&mut r, inner.as_str());
    extend_str(&mut r, "</div>");
    string_of(&r)
}

/// The author comparison key of the `i`-th context.
pub open spec fn key_at(ctxs: Seq<RenderContextView>, i: int) -> Seq<char> {
    author_sort_key_spec(ctxs[i].authors)
}

/// The context the `i`-th entry is rendered with: the author is suppressed
/// when its author key is not empty and equals that of the entry before.
pub open spec fn effective_ctx(ctxs: Seq<RenderContextView>, i: int) -> RenderContextView {
    if i > 0 && key_at(ctxs, i - 1) == key_at(ctxs, i) && key_at(ctxs, i).len() > 0 {
        RenderContextView { suppress_author: true, ..ctxs[i] }
    } else {
        ctxs[i]
    }
}

/// The items and the views of their contexts.
pub open spec fn item_parts(items: Seq<(BibItem, RenderContext)>) -> (Seq<BibItem>, Seq<RenderContextView>) {
    (Seq::new(items.len(), |i: int| items[i].0), Seq::new(items.len(), |i: int| items[i].1@))
}

/// The entries of a bibliography, one line each.
pub open spec fn render_bibliography_spec(items: Seq<(BibItem, RenderContext)>) -> Seq<char> {
    let (bs, cs) = item_parts(items);
    join(Seq::new(items.len(), |i: int| render_bibitem_spec(bs[i], effective_ctx(cs, i))), "\n"@)
}

/// Render a sorted bibliography, one entry per line; consecutive entries
/// with the same authors show an em-dash in place of the authors.
pub fn render_bibliography(items: &[(BibItem, RenderContext)]) -> (r: String)
    ensures
        r@ == render_bibliography_spec(items@),
{
    let ghost bs = item_parts(items@).0;
    let ghost cs = item_parts(items@).1;
    let ghost lines = Seq::new(items@.len(), |i: int| render_bibitem_spec(bs[i], effective_ctx(cs, i)));
    let mut rendered: Vec<Vec<char>> = Vec::new();
    let mut prev: Option<String> = None;
    let mut i: usize = 0;
    while i < items.len()
        invariant
            i <= items.len(),
            bs == item_parts(items@).0,
            cs == item_parts(items@).1,
            lines == Seq::new(items@.len(), |i: int| render_bibitem_spec(bs[i], effective_ctx(cs, i))),
            seqs_of(rendered@) == lines.take(i as int),
            i == 0 ==> prev is None,
            i > 0 ==> (prev matches Some(p) && p@ == key_at(cs, i - 1)),
        decreases items.len() - i,
    {
        let item = &items[i].0;
        let ctx = &items[i].1;
        let current = author_sort_key(ctx.authors.as_slice());
        assert(current@ == key_at(cs, i as int));
        let same = match &prev {
            Some(p) => crate::text::chars_eq(&chars_of(p.as_str()), &chars_of(current.as_str())),
            None => false,
        };
        let suppress = same && !current.as_str().is_empty();
        let html = if suppress {
            let eff = ctx.with_suppress_author();
            render_bibitem(item, &eff)
        } else {
            let eff = ctx.copy();
            render_bibitem(item, &eff)
        };
        proof {
            assert(ctx@ == cs[i as int]);
            assert(*item == bs[i as int]);
            assert(suppress == (i > 0 && key_at(cs, i - 1) == key_at(cs, i as int) && key_at(cs, i as int).len() > 0));
        }
        assert(html@ == lines[i as int]);
        let ghost before = seqs_of(rendered@);
        let hv = chars_string(html);
        let ghost hvv = hv@;
        rendered.push(hv);
        assert(seqs_of(rendered@) =~= before.push(hvv));
        assert(seqs_of(rendered@) =~= lines.take(i + 1));
        prev = Some(current);
        i += 1;
    }
    assert(lines.take(items.len() as int) =~= lines);
    let nl: Vec<char> = vec!['\n'];
    proof {
        reveal_strlit("\n");
    }
    assert(nl@ =~= "\n"@);
    string_of(&join_chars(&rendered, &nl))
}

// ---------------------------------------------------------------------------
// Names of a role
// ---------------------------------------------------------------------------

/// The render names of rows whose author `m` knows: its Unicode names and
/// the link's Unicode variant.
pub open spec fn role_author_names(s: Seq<BibitemAuthorsRow>, m: Map<Seq<char>, Author>) -> Seq<AuthorNameView>
    decreases s.len(),
{
    if s.len() == 0 {
        Seq::empty()
    } else {
        let prev = role_author_names(s.drop_last(), m);
        let r = s.last();
        if m.contains_key(r.author_key@) {
            let a = m[r.author_key@];
            prev.push(
                AuthorNameView {
                    author_key: r.author_key@,
                    family: ov(a.family_name_unicode),
                    given: ov(a.given_name_unicode),
                    mononym: ov(a.mononym_unicode),
                    variant_unicode: ov(r.name_variant_unicode),
                },
            )
        } else {
            prev
        }
    }
}

/// The names of a role, ordered by position; links to unknown authors are
/// skipped.
pub fn extract_role_authors(
    bib_authors: Option<&Vec<&BibitemAuthorsRow>>,
    role: AuthorRole,
    authors_map: &StrMap<Author>,
) -> (r: Vec<AuthorName>)
    ensures
        names_of(r@) == (match deref_rows(bib_authors) {
            Some(s) => role_author_names(role_rows(s, role), authors_map@),
            None => Seq::empty(),
        }),
{
    match bib_authors {
        Some(rows) => {
            let sorted = sorted_role_rows(rows, role);
            let mut out: Vec<AuthorName> = Vec::new();
            let mut i: usize = 0;
            assert(sorted@.take(0) =~= Seq::<BibitemAuthorsRow>::empty());
            assert(names_of(out@) =~= Seq::<AuthorNameView>::empty());
            while i < sorted.len()
                invariant
                    i <= sorted.len(),
                    names_of(out@) == role_author_names(sorted@.take(i as int), authors_map@),
                decreases sorted.len() - i,
            {
                assert(sorted@.take(i + 1).drop_last() =~= sorted@.take(i as int));
                assert(sorted@.take(i + 1).last() == sorted@[i as int]);
                let r = &sorted[i];
                let ghost before = names_of(out@);
                match authors_map.get_str(r.author_key.as_str()) {
                    Some(a) => {
                        let n = AuthorName {
                            author_key: r.author_key.clone(),
                            family: crate::dto::clone_opt(&a.family_name_unicode),
                            given: crate::dto::clone_opt(&a.given_name_unicode),
                            mononym: crate::dto::clone_opt(&a.mononym_unicode),
                            variant_unicode: crate::dto::clone_opt(&r.name_variant_unicode),
                        };
                        out.push(n);
                        assert(names_of(out@) =~= before.push(n@));
                    },
                    None => {},
                }
                assert(names_of(out@) =~= role_author_names(sorted@.take(i + 1), authors_map@));
                i += 1;
            }
            assert(sorted@.take(sorted.len() as int) =~= sorted@);
            out
        },
        None => {
            let out: Vec<AuthorName> = Vec::new();
            assert(names_of(out@) =~= Seq::<AuthorNameView>::empty());
            out
        },
    }
}

} // verus!

//! Reusable rendering components for bibliography HTML output.
//!
//! Each function formats one field into HTML with `data-field` markup.
use vstd::prelude::*;
use crate::domain::{role_name, AuthorRole};
use crate::numeric::{nat_str, parse_u32, parse_u32_chars, push_nat};
use crate::render::context::{names_of, or_empty, AuthorName, AuthorNameView};
use crate::text::{chars_of, extend, extend_str, has_char, join, join_chars, lit, seqs_of, string_of};

verus! {

// ---------------------------------------------------------------------------
// HTML escaping
// ---------------------------------------------------------------------------

/// The escape of one character.
pub open spec fn esc_char(c: char) -> Seq<char> {
    if c == '&' {
        "&amp;"@
    } else if c == '<' {
        "&lt;"@
    } else if c == '>' {
        "&gt;"@
    } else if c == '"' {
        "&quot;"@
    } else {
        seq![c]
    }
}

/// `s` with `&`, `<`, `>` and `"` replaced by their HTML entities.
pub open spec fn esc_spec(s: Seq<char>) -> Seq<char>
    decreases s.len(),
{
    if s.len() == 0 {
        Seq::empty()
    } else {
        esc_spec(s.drop_last()) + esc_char(s.last())
    }
}

/// Escaped text holds no `<`, `>` or `"`, and is at least as long as the
/// text.
pub proof fn lemma_esc_safe(s: Seq<char>)
    ensures
        forall|i: int| 0 <= i < esc_spec(s).len() ==> #[trigger] esc_spec(s)[i] != '<' && esc_spec(s)[i] != '>' && esc_spec(s)[i] != '"',
        esc_spec(s).len() >= s.len(),
    decreases s.len(),
{
    reveal_strlit("&amp;");
    reveal_strlit("&lt;");
    reveal_strlit("&gt;");
    reveal_strlit("&quot;");
    if s.len() > 0 {
        lemma_esc_safe(s.drop_last());
        let a = esc_spec(s.drop_last());
        let b = esc_char(s.last());
        assert forall|i: int| 0 <= i < esc_spec(s).len() implies #[trigger] esc_spec(s)[i] != '<' && esc_spec(s)[i] != '>' && esc_spec(s)[i] != '"' by {
            if i < a.len() {
                assert(esc_spec(s)[i] == a[i]);
            } else {
                assert(esc_spec(s)[i] == b[i - a.len()]);
            }
        }
    }
}

/// Appends the escape of `s` to `out`.
pub fn push_esc(out: &mut Vec<char>, s: &str)
    ensures
        final(out)@ == old(out)@ + esc_spec(s@),
{
    let v = chars_of(s);
    let mut i: usize = 0;
    assert(v@.take(0) =~= Seq::<char>::empty());
    assert(old(out)@ + esc_spec(v@.take(0)) =~= old(out)@);
    while i < v.len()
        invariant
            i <= v.len(),
            v@ == s@,
            out@ == old(out)@ + esc_spec(v@.take(i as int)),
        decreases v.len() - i,
    {
        assert(v@.take(i + 1).drop_last() =~= v@.take(i as int));
        let c = v[i];
        let ghost before = out@;
        if c == '&' {
            extend_str(out, "&amp;");
        } else if c == '<' {
            extend_str(out, "&lt;");
        } else if c == '>' {
            extend_str(out, "&gt;");
        } else if c == '"' {
            extend_str(out, "&quot;");
        } else {
            out.push(c);
        }
        assert(out@ =~= before + esc_char(c));
        i += 1;
    }
    assert(v@.take(v.len() as int) =~= v@);
}

/// Escape special HTML characters in text content.
pub fn esc(text: &str) -> (r: String)
    ensures
        r@ == esc_spec(text@),
{
    let mut v: Vec<char> = Vec::new();
    push_esc(&mut v, text);
    string_of(&v)
}

// ---------------------------------------------------------------------------
// Authors and editors
// ---------------------------------------------------------------------------

/// `a`, or `a and b`, or `a, b and c` (no serial comma).
pub open spec fn join_names_spec(parts: Seq<Seq<char>>) -> Seq<char> {
    if parts.len() == 0 {
        Seq::empty()
    } else if parts.len() == 1 {
        parts[0]
    } else {
        join(parts.drop_last(), ", "@) + " and "@ + parts.last()
    }
}

/// The attribute naming an author's key, when keys are shown.
pub open spec fn author_key_attr(key: Seq<char>, keyed: bool) -> Seq<char> {
    if keyed {
        " data-author-key=\""@ + esc_spec(key) + "\""@
    } else {
        Seq::empty()
    }
}

/// The span of one author name, with its key when `keyed`.
pub open spec fn author_span(a: AuthorNameView, keyed: bool) -> Seq<char> {
    let attr = author_key_attr(a.author_key, keyed);
    match a.variant_unicode {
        Some(v) => "<span data-field=\"author-name\""@ + attr + ">"@ + esc_spec(v) + "</span>"@,
        None => match a.mononym {
            Some(m) => "<span data-field=\"author-name\""@ + attr + ">"@ + esc_spec(m) + "</span>"@,
            None => {
                let family = or_empty(a.family);
                let given = or_empty(a.given);
                let fam = "<span data-field=\"family\" class=\"smallcaps\""@ + attr + ">"@ + esc_spec(family)
                    + "</span>"@;
                if given.len() == 0 {
                    fam
                } else {
                    fam + ", <span data-field=\"given\">"@ + esc_spec(given) + "</span>"@
                }
            },
        },
    }
}

/// The authors shown: the first 7 of 11 or more, else all.
pub open spec fn shown_authors(authors: Seq<AuthorNameView>) -> Seq<AuthorNameView> {
    if authors.len() >= 11 {
        authors.take(7)
    } else {
        authors
    }
}

/// The rendering of a list of people of a role, with their keys when
/// `keyed`.
pub open spec fn render_people_spec(
    authors: Seq<AuthorNameView>,
    role: AuthorRole,
    suppress: bool,
    keyed: bool,
) -> Seq<char> {
    if suppress {
        let keys = join(authors.map_values(|a: AuthorNameView| esc_spec(a.author_key)), seq![',']);
        "<span data-field=\""@ + role_name(role) + "\""@ + (if keyed {
            " data-author-key=\""@ + keys + "\""@
        } else {
            Seq::empty()
        }) + ">\u{2014}</span>"@
    } else if authors.len() == 0 {
        Seq::empty()
    } else {
        let parts = shown_authors(authors).map_values(|a: AuthorNameView| author_span(a, keyed));
        let joined = join_names_spec(parts) + (if authors.len() >= 11 {
            " et al."@
        } else {
            Seq::empty()
        });
        let base = "<span data-field=\""@ + role_name(role) + "\">"@ + joined + "</span>"@;
        if role == AuthorRole::Editor {
            base + (if authors.len() == 1 {
                ", ed."@
            } else {
                ", eds."@
            })
        } else {
            base
        }
    }
}

/// The rendering of an author list for a role, without author keys.
pub open spec fn render_authors_spec(authors: Seq<AuthorNameView>, role: AuthorRole, suppress: bool) -> Seq<char> {
    render_people_spec(authors, role, suppress, false)
}

pub(crate) fn join_names(parts: &Vec<Vec<char>>) -> (r: Vec<char>)
    ensures
        r@ == join_names_spec(seqs_of(parts@)),
{
    let n = parts.len();
    if n == 0 {
        Vec::new()
    } else if n == 1 {
        let mut r: Vec<char> = Vec::new();
        extend(&mut r, &parts[0]);
        r
    } else {
        let mut head: Vec<Vec<char>> = Vec::new();
        let mut i: usize = 0;
        while i < n - 1
            invariant
                i <= n - 1,
                n == parts.len(),
                seqs_of(head@) == seqs_of(parts@).take(i as int),
            decreases n - 1 - i,
        {
            let mut c: Vec<char> = Vec::new();
            extend(&mut c, &parts[i]);
            let ghost before = seqs_of(head@);
            head.push(c);
            assert(seqs_of(head@) =~= before.push(c@));
            assert(seqs_of(head@) =~= seqs_of(parts@).take(i + 1));
            i += 1;
        }
        assert(seqs_of(parts@).take(n - 1) =~= seqs_of(parts@).drop_last());
        let mut r = join_chars(&head, &lit(", "));
        extend_str(&mut r, " and ");
        extend(&mut r, &parts[n - 1]);
        r
    }
}

fn push_key_attr(r: &mut Vec<char>, key: &str, keyed: bool)
    ensures
        final(r)@ == old(r)@ + author_key_attr(key@, keyed),
{
    if keyed {
        extend_str(r, " data-author-key=\"");
        push_esc(r, key);
        extend_str(r, "\"");
    }
    assert(r@ =~= old(r)@ + author_key_attr(key@, keyed));
}

fn author_span_exec(a: &AuthorName, keyed: bool) -> (r: Vec<char>)
    ensures
        r@ == author_span(a@, keyed),
{
    match &a.variant_unicode {
        Some(v) => {
            let mut r = lit("<span data-field=\"author-name\"");
            push_key_attr(&mut r, a.author_key.as_str(), keyed);
            extend_str(&mut r, ">");
            push_esc(&mut r, v.as_str());
            extend_str(&mut r, "</span>");
            r
        },
        None => match &a.mononym {
            Some(m) => {
                let mut r = lit("<span data-field=\"author-name\"");
                push_key_attr(&mut r, a.author_key.as_str(), keyed);
                extend_str(&mut r, ">");
                push_esc(&mut r, m.as_str());
                extend_str(&mut r, "</span>");
                r
            },
            None => {
                let family: &str = match &a.family {
                    Some(f) => f.as_str(),
                    None => "",
                };
                let given: &str = match &a.given {
                    Some(g) => g.as_str(),
                    None => "",
                };
                proof {
                    reveal_strlit("");
                }
                let mut r = lit("<span data-field=\"family\" class=\"smallcaps\"");
                push_key_attr(&mut r, a.author_key.as_str(), keyed);
                extend_str(&mut r, ">");
                push_esc(&mut r, family);
                extend_str(&mut r, "</span>");
                let gv = chars_of(given);
                if gv.len() > 0 {
                    extend_str(&mut r, ", <span data-field=\"given\">");
                    push_esc(&mut r, given);
                    extend_str(&mut r, "</span>");
                }
                r
            },
        },
    }
}

/// Render a list of authors with `data-field` markup.
///
/// - Family names are wrapped in `<span class="smallcaps">`.
/// - 11+ authors: first 7 then "et al."
/// - If `suppress` is true, renders an em-dash instead (for consecutive
///   same-author entries).
/// - No author keys are written (`render_people` can add them).
pub fn render_authors(authors: &[AuthorName], role: AuthorRole, suppress: bool) -> (r: String)
    ensures
        r@ == render_authors_spec(names_of(authors@), role, suppress),
{
    render_people(authors, role, suppress, false)
}

/// The people of a role as `render_authors` shows them, with their keys
/// only when `keyed`.
pub fn render_people(authors: &[AuthorName], role: AuthorRole, suppress: bool, keyed: bool) -> (r: String)
    ensures
        r@ == render_people_spec(names_of(authors@), role, suppress, keyed),
{
    let ghost names = names_of(authors@);
    let role_str = role.as_str();
    if suppress {
        let ghost items = names.map_values(|a: AuthorNameView| esc_spec(a.author_key));
        let mut keys: Vec<Vec<char>> = Vec::new();
        let mut i: usize = 0;
        while i < authors.len()
            invariant
                i <= authors.len(),
                names == names_of(authors@),
                items == names.map_values(|a: AuthorNameView| esc_spec(a.author_key)),
                seqs_of(keys@) == items.take(i as int),
            decreases authors.len() - i,
        {
            let mut k: Vec<char> = Vec::new();
            push_esc(&mut k, authors[i].author_key.as_str());
            assert(k@ =~= items[i as int]);
            let ghost before = seqs_of(keys@);
            keys.push(k);
            assert(seqs_of(keys@) =~= before.push(k@));
            assert(seqs_of(keys@) =~= items.take(i + 1));
            i += 1;
        }
        assert(items.take(authors.len() as int) =~= items);
        let comma: Vec<char> = vec![','];
        assert(comma@ =~= seq![',']);
        let mut r = lit("<span data-field=\"");
        extend_str(&mut r, role_str);
        extend_str(&mut r, "\"");
        if keyed {
            extend_str(&mut r, " data-author-key=\"");
            extend(&mut r, &join_chars(&keys, &comma));
            extend_str(&mut r, "\"");
        }
        extend_str(&mut r, ">\u{2014}</span>");
        return string_of(&r);
    }
    if authors.len() == 0 {
        return String::new();
    }
    let truncated = authors.len() >= 11;
    let shown: usize = if truncated {
        7
    } else {
        authors.len()
    };
    let ghost shown_seq = shown_authors(names);
    let ghost items = shown_seq.map_values(|a: AuthorNameView| author_span(a, keyed));
    assert(shown_seq.len() == shown);
    let mut parts: Vec<Vec<char>> = Vec::new();
    let mut i: usize = 0;
    while i < shown
        invariant
            i <= shown,
            shown <= authors.len(),
            shown_seq.len() == shown,
            names == names_of(authors@),
            forall|j: int| 0 <= j < shown ==> #[trigger] shown_seq[j] == names[j],
            items == shown_seq.map_values(|a: AuthorNameView| author_span(a, keyed)),
            seqs_of(parts@) == items.take(i as int),
        decreases shown - i,
    {
        let p = author_span_exec(&authors[i], keyed);
        assert(p@ == items[i as int]);
        let ghost before = seqs_of(parts@);
        parts.push(p);
        assert(seqs_of(parts@) =~= before.push(p@));
        assert(seqs_of(parts@) =~= items.take(i + 1));
        i += 1;
    }
    assert(items.take(shown as int) =~= items);
    let mut joined = join_names(&parts);
    if truncated {
        extend_str(&mut joined, " et al.");
    }
    let mut r = lit("<span data-field=\"");
    extend_str(&mut r, role_str);
    extend_str(&mut r, "\">");
    extend(&mut r, &joined);
    extend_str(&mut r, "</span>");
    match role {
        AuthorRole::Editor => {
            if authors.len() == 1 {
                extend_str(&mut r, ", ed.");
            } else {
                extend_str(&mut r, ", eds.");
            }
        },
        _ => {},
    }
    string_of(&r)
}


// ---------------------------------------------------------------------------
// Single fields
// ---------------------------------------------------------------------------

/// The view of an optional string slice, kept only when non-empty.
pub open spec fn nonempty(o: Option<&str>) -> Option<Seq<char>> {
    match o {
        Some(s) => if s@.len() > 0 {
            Some(s@)
        } else {
            None
        },
        None => None,
    }
}

/// The view of an optional string slice.
pub open spec fn opt_seq(o: Option<&str>) -> Option<Seq<char>> {
    match o {
        Some(s) => Some(s@),
        None => None,
    }
}

/// The title, quoted (articles, chapters, unpublished) or italic.
pub open spec fn render_title_spec(title: Seq<char>, quoted: bool) -> Seq<char> {
    let formatted = if quoted {
        "\u{201c}"@ + esc_spec(title) + "\u{201d}"@
    } else {
        "<em>"@ + esc_spec(title) + "</em>"@
    };
    "<span data-field=\"title\">"@ + formatted + "</span>"@
}

/// Render the title: quoted `"Title"` or `<em>Title</em>`.
pub fn render_title(title_unicode: &str, quoted: bool) -> (r: String)
    ensures
        r@ == render_title_spec(title_unicode@, quoted),
{
    let mut r = lit("<span data-field=\"title\">");
    if quoted {
        extend_str(&mut r, "\u{201c}");
        push_esc(&mut r, title_unicode);
        extend_str(&mut r, "\u{201d}");
    } else {
        extend_str(&mut r, "<em>");
        push_esc(&mut r, title_unicode);
        extend_str(&mut r, "</em>");
    }
    extend_str(&mut r, "</span>");
    string_of(&r)
}

/// `pp.` for a text holding a hyphen or an en-dash, `p.` otherwise.
pub open spec fn pages_prefix_spec(pages: Seq<char>) -> Seq<char> {
    if pages.contains('-') || pages.contains('\u{2013}') {
        "pp."@
    } else {
        "p."@
    }
}

/// Returns "pp." for a page range (contains a dash), "p." for a single page.
pub fn pages_prefix(pages: &str) -> (r: &'static str)
    ensures
        r@ == pages_prefix_spec(pages@),
{
    let v = chars_of(pages);
    if has_char(&v, '-') || has_char(&v, '\u{2013}') {
        "pp."
    } else {
        "p."
    }
}

/// `s` with every `--` and then every remaining `-` turned into an en-dash.
pub open spec fn dash_norm(s: Seq<char>) -> Seq<char>
    decreases s.len(),
{
    if s.len() == 0 {
        Seq::empty()
    } else if s.len() >= 2 && s[0] == '-' && s[1] == '-' {
        seq!['\u{2013}'] + dash_norm(s.skip(2))
    } else if s[0] == '-' {
        seq!['\u{2013}'] + dash_norm(s.drop_first())
    } else {
        seq![s[0]] + dash_norm(s.drop_first())
    }
}

/// The pages field with dashes as en-dashes.
pub open spec fn render_pages_spec(pages: Seq<char>) -> Seq<char> {
    if pages.len() == 0 {
        Seq::empty()
    } else {
        "<span data-field=\"pages\">"@ + esc_spec(dash_norm(pages)) + "</span>"@
    }
}

fn dash_norm_exec(s: &Vec<char>) -> (r: Vec<char>)
    ensures
        r@ == dash_norm(s@),
{
    let n = s.len();
    let mut out: Vec<char> = Vec::new();
    let mut i: usize = 0;
    assert(s@.skip(0) =~= s@);
    while i < n
        invariant
            i <= n,
            n == s.len(),
            out@ + dash_norm(s@.skip(i as int)) == dash_norm(s@),
        decreases n - i,
    {
        let ghost rest = s@.skip(i as int);
        let ghost before = out@;
        if i + 1 < n && s[i] == '-' && s[i + 1] == '-' {
            out.push('\u{2013}');
            assert(rest.skip(2) =~= s@.skip(i + 2));
            assert(out@ + dash_norm(s@.skip(i + 2)) =~= before + dash_norm(rest));
            i += 2;
        } else {
            if s[i] == '-' {
                out.push('\u{2013}');
            } else {
                out.push(s[i]);
            }
            assert(rest.drop_first() =~= s@.skip(i + 1));
            assert(out@ + dash_norm(s@.skip(i + 1)) =~= before + dash_norm(rest));
            i += 1;
        }
    }
    assert(s@.skip(n as int) =~= Seq::<char>::empty());
    assert(out@ =~= dash_norm(s@));
    out
}

/// Render pages, normalising `--` and `-` to en-dashes.
pub fn render_pages(pages: &str) -> (r: String)
    ensures
        r@ == render_pages_spec(pages@),
{
    if pages.is_empty() {
        return String::new();
    }
    let norm = string_of(&dash_norm_exec(&chars_of(pages)));
    let mut r = lit("<span data-field=\"pages\">");
    push_esc(&mut r, norm.as_str());
    extend_str(&mut r, "</span>");
    string_of(&r)
}

/// A DOI link, else a URL link, else nothing.
pub open spec fn render_access_spec(doi: Option<Seq<char>>, url: Option<Seq<char>>) -> Seq<char> {
    match doi {
        Some(d) => "<span data-field=\"doi\">doi:<a href=\"https://doi.org/"@ + esc_spec(d)
            + "\">"@ + esc_spec(d) + "</a></span>"@,
        None => match url {
            Some(u) => "<span data-field=\"url\"><a href=\""@ + esc_spec(u) + "\">"@ + esc_spec(u)
                + "</a></span>"@,
            None => Seq::empty(),
        },
    }
}

/// Render DOI as a clickable link, or fall back to URL; empty values count
/// as absent.
pub fn render_access(doi: Option<&str>, url: Option<&str>) -> (r: String)
    ensures
        r@ == render_access_spec(nonempty(doi), nonempty(url)),
{
    if let Some(d) = doi {
        if !d.is_empty() {
            let mut r = lit("<span data-field=\"doi\">doi:<a href=\"https://doi.org/");
            push_esc(&mut r, d);
            extend_str(&mut r, "\">");
            push_esc(&mut r, d);
            extend_str(&mut r, "</a></span>");
            return string_of(&r);
        }
    }
    if let Some(u) = url {
        if !u.is_empty() {
            let mut r = lit("<span data-field=\"url\"><a href=\"");
            push_esc(&mut r, u);
            extend_str(&mut r, "\">");
            push_esc(&mut r, u);
            extend_str(&mut r, "</a></span>");
            return string_of(&r);
        }
    }
    String::new()
}

/// ` data-NAME-key="KEY"` for a present key, empty otherwise.
pub open spec fn key_attr(name: Seq<char>, key: Option<Seq<char>>) -> Seq<char> {
    match key {
        Some(k) => " data-"@ + name + "-key=\""@ + esc_spec(k) + "\""@,
        None => Seq::empty(),
    }
}

fn key_attr_exec(name: &str, key: Option<&str>) -> (r: Vec<char>)
    ensures
        r@ == key_attr(name@, opt_seq(key)),
{
    match key {
        Some(k) => {
            let mut r = lit(" data-");
            extend_str(&mut r, name);
            extend_str(&mut r, "-key=\"");
            push_esc(&mut r, k);
            extend_str(&mut r, "\"");
            r
        },
        None => Vec::new(),
    }
}

/// `ADDRESS: PUBLISHER`, either part alone, or nothing.
pub open spec fn render_publisher_spec(
    address: Option<Seq<char>>,
    publisher: Option<Seq<char>>,
    key: Option<Seq<char>>,
) -> Seq<char> {
    let ka = key_attr("publisher"@, key);
    match (address, publisher) {
        (Some(a), Some(p)) => esc_spec(a) + ": <span data-field=\"publisher\""@ + ka + ">"@
            + esc_spec(p) + "</span>"@,
        (None, Some(p)) => "<span data-field=\"publisher\""@ + ka + ">"@ + esc_spec(p)
            + "</span>"@,
        (Some(a), None) => esc_spec(a),
        (None, None) => Seq::empty(),
    }
}

/// Render publisher with optional address: `ADDRESS: PUBLISHER`.
pub fn render_publisher(
    address: Option<&str>,
    publisher_name: Option<&str>,
    publisher_key: Option<&str>,
) -> (r: String)
    ensures
        r@ == render_publisher_spec(nonempty(address), nonempty(publisher_name), opt_seq(publisher_key)),
{
    let ka = key_attr_exec("publisher", publisher_key);
    let addr = match address {
        Some(a) => if a.is_empty() {
            None
        } else {
            Some(a)
        },
        None => None,
    };
    let pubn = match publisher_name {
        Some(p) => if p.is_empty() {
            None
        } else {
            Some(p)
        },
        None => None,
    };
    let mut r: Vec<char> = Vec::new();
    match (addr, pubn) {
        (Some(a), Some(p)) => {
            push_esc(&mut r, a);
            extend_str(&mut r, ": <span data-field=\"publisher\"");
            extend(&mut r, &ka);
            extend_str(&mut r, ">");
            push_esc(&mut r, p);
            extend_str(&mut r, "</span>");
        },
        (None, Some(p)) => {
            extend_str(&mut r, "<span data-field=\"publisher\"");
            extend(&mut r, &ka);
            extend_str(&mut r, ">");
            push_esc(&mut r, p);
            extend_str(&mut r, "</span>");
        },
        (Some(a), None) => {
            push_esc(&mut r, a);
        },
        (None, None) => {},
    }
    assert(r@ =~= render_publisher_spec(nonempty(address), nonempty(publisher_name), opt_seq(publisher_key)));
    string_of(&r)
}

/// The journal name in italics, or nothing.
pub open spec fn render_journal_spec(name: Option<Seq<char>>, key: Option<Seq<char>>) -> Seq<char> {
    match name {
        Some(n) => "<span data-field=\"journal\"><em"@ + key_attr("journal"@, key) + ">"@
            + esc_spec(n) + "</em></span>"@,
        None => Seq::empty(),
    }
}

/// Render journal name in italics: `<em>JOURNAL</em>`.
pub fn render_journal(journal_name: Option<&str>, journal_key: Option<&str>) -> (r: String)
    ensures
        r@ == render_journal_spec(nonempty(journal_name), opt_seq(journal_key)),
{
    match journal_name {
        Some(n) => {
            if n.is_empty() {
                return String::new();
            }
            let mut r = lit("<span data-field=\"journal\"><em");
            extend(&mut r, &key_attr_exec("journal", journal_key));
            extend_str(&mut r, ">");
            push_esc(&mut r, n);
            extend_str(&mut r, "</em></span>");
            string_of(&r)
        },
        None => String::new(),
    }
}

/// `VOLUME(NUMBER)`, either part alone, or nothing.
pub open spec fn render_volume_number_spec(vol: Option<Seq<char>>, num: Option<Seq<char>>) -> Seq<char> {
    match (vol, num) {
        (Some(v), Some(n)) => "<span data-field=\"volume\">"@ + esc_spec(v)
            + "</span>(<span data-field=\"number\">"@ + esc_spec(n) + "</span>)"@,
        (Some(v), None) => "<span data-field=\"volume\">"@ + esc_spec(v) + "</span>"@,
        (None, Some(n)) => "(<span data-field=\"number\">"@ + esc_spec(n) + "</span>)"@,
        (None, None) => Seq::empty(),
    }
}

/// The volume span of a rendered volume and number.
pub open spec fn volume_span(v: Seq<char>) -> Seq<char> {
    "<span data-field=\"volume\">"@ + esc_spec(v) + "</span>"@
}

/// The number span, in parentheses, of a rendered volume and number.
pub open spec fn number_span(n: Seq<char>) -> Seq<char> {
    "(<span data-field=\"number\">"@ + esc_spec(n) + "</span>)"@
}

/// A rendered volume and number starts with the volume's span holding the
/// volume, ends with the number's span in parentheses holding the number,
/// and holds nothing else.
pub proof fn lemma_volume_number_parts(vol: Option<Seq<char>>, num: Option<Seq<char>>)
    ensures
        render_volume_number_spec(vol, num) == (match vol {
            Some(v) => volume_span(v),
            None => Seq::empty(),
        }) + (match num {
            Some(n) => number_span(n),
            None => Seq::empty(),
        }),
{
    reveal_strlit("<span data-field=\"volume\">");
    reveal_strlit("</span>");
    reveal_strlit("</span>(<span data-field=\"number\">");
    reveal_strlit("(<span data-field=\"number\">");
    reveal_strlit("</span>)");
    match (vol, num) {
        (Some(v), Some(n)) => {
            assert("</span>"@ + "(<span data-field=\"number\">"@ =~= "</span>(<span data-field=\"number\">"@);
            assert(render_volume_number_spec(vol, num) =~= volume_span(v) + number_span(n));
        },
        (Some(v), None) => {
            assert(render_volume_number_spec(vol, num) =~= volume_span(v) + Seq::<char>::empty());
        },
        (None, Some(n)) => {
            assert(render_volume_number_spec(vol, num) =~= Seq::<char>::empty() + number_span(n));
        },
        (None, None) => {
            assert(render_volume_number_spec(vol, num) =~= Seq::<char>::empty() + Seq::<char>::empty());
        },
    }
}

/// Render volume and number: `VOLUME(NUMBER)`.
pub fn render_volume_number(volume: Option<&str>, number: Option<&str>) -> (r: String)
    ensures
        r@ == render_volume_number_spec(nonempty(volume), nonempty(number)),
{
    let vol = match volume {
        Some(v) => if v.is_empty() {
            None
        } else {
            Some(v)
        },
        None => None,
    };
    let num = match number {
        Some(n) => if n.is_empty() {
            None
        } else {
            Some(n)
        },
        None => None,
    };
    let mut r: Vec<char> = Vec::new();
    match (vol, num) {
        (Some(v), Some(n)) => {
            extend_str(&mut r, "<span data-field=\"volume\">");
            push_esc(&mut r, v);
            extend_str(&mut r, "</span>(<span data-field=\"number\">");
            push_esc(&mut r, n);
            extend_str(&mut r, "</span>)");
        },
        (Some(v), None) => {
            extend_str(&mut r, "<span data-field=\"volume\">");
            push_esc(&mut r, v);
            extend_str(&mut r, "</span>");
        },
        (None, Some(n)) => {
            extend_str(&mut r, "(<span data-field=\"number\">");
            push_esc(&mut r, n);
            extend_str(&mut r, "</span>)");
        },
        (None, None) => {},
    }
    assert(r@ =~= render_volume_number_spec(nonempty(volume), nonempty(number)));
    string_of(&r)
}

/// The English ordinal suffix of `n`.
pub open spec fn ordinal_suffix_spec(n: int) -> Seq<char> {
    if 11 <= n % 100 <= 13 {
        "th"@
    } else if n % 10 == 1 {
        "st"@
    } else if n % 10 == 2 {
        "nd"@
    } else if n % 10 == 3 {
        "rd"@
    } else {
        "th"@
    }
}

fn ordinal_suffix(n: u32) -> (r: &'static str)
    ensures
        r@ == ordinal_suffix_spec(n as int),
{
    let h = n % 100;
    if 11 <= h && h <= 13 {
        "th"
    } else {
        let d = n % 10;
        if d == 1 {
            "st"
        } else if d == 2 {
            "nd"
        } else if d == 3 {
            "rd"
        } else {
            "th"
        }
    }
}

/// `Nth ed.` for an edition that reads as a `u32`, `EDITION.` otherwise,
/// nothing when absent.
pub open spec fn render_edition_spec(edition: Option<Seq<char>>) -> Seq<char> {
    match edition {
        Some(ed) => match parse_u32(ed) {
            Some(n) => nat_str(n as nat) + ordinal_suffix_spec(n) + " ed."@,
            None => ed + "."@,
        },
        None => Seq::empty(),
    }
}

/// Render edition as ordinal: `2` -> `2nd ed.`
pub fn render_edition(edition: Option<&str>) -> (r: String)
    ensures
        r@ == render_edition_spec(nonempty(edition)),
{
    match edition {
        Some(ed) => {
            if ed.is_empty() {
                return String::new();
            }
            let v = chars_of(ed);
            match parse_u32_chars(&v) {
                Some(n) => {
                    let mut r: Vec<char> = Vec::new();
                    push_nat(&mut r, n as u64);
                    extend_str(&mut r, ordinal_suffix(n));
                    extend_str(&mut r, " ed.");
                    string_of(&r)
                },
                None => {
                    let mut r = lit(ed);
                    extend_str(&mut r, ".");
                    string_of(&r)
                },
            }
        },
        None => String::new(),
    }
}

/// The edition text of a numeric edition `n` is `n` in decimal, its English
/// ordinal suffix and ` ed.`: `st` after a last digit 1, `nd` after 2, `rd`
/// after 3 (but `th` for 11, 12 and 13 and their like), `th` otherwise.
pub proof fn lemma_edition_ordinal(ed: Seq<char>, n: int)
    requires
        parse_u32(ed) == Some(n),
    ensures
        n % 10 == 1 && n % 100 != 11 ==> render_edition_spec(Some(ed)) == nat_str(n as nat) + "st ed."@,
        n % 10 == 2 && n % 100 != 12 ==> render_edition_spec(Some(ed)) == nat_str(n as nat) + "nd ed."@,
        n % 10 == 3 && n % 100 != 13 ==> render_edition_spec(Some(ed)) == nat_str(n as nat) + "rd ed."@,
        !(n % 10 == 1 && n % 100 != 11) && !(n % 10 == 2 && n % 100 != 12) && !(n % 10 == 3 && n % 100 != 13)
            ==> render_edition_spec(Some(ed)) == nat_str(n as nat) + "th ed."@,
{
    reveal_strlit("st");
    reveal_strlit("nd");
    reveal_strlit("rd");
    reveal_strlit("th");
    reveal_strlit(" ed.");
    reveal_strlit("st ed.");
    reveal_strlit("nd ed.");
    reveal_strlit("rd ed.");
    reveal_strlit("th ed.");
    assert(0 <= n);
    assert((n % 100) % 10 == n % 10) by (nonlinear_arith)
        requires
            0 <= n,
    {
        vstd::arithmetic::div_mod::lemma_mod_mod(n, 10, 10);
    }
    let t = nat_str(n as nat);
    assert(t + "st"@ + " ed."@ =~= t + "st ed."@);
    assert(t + "nd"@ + " ed."@ =~= t + "nd ed."@);
    assert(t + "rd"@ + " ed."@ =~= t + "rd ed."@);
    assert(t + "th"@ + " ed."@ =~= t + "th ed."@);
}

/// Render a note field.
pub fn render_note(note_unicode: Option<&str>) -> (r: String)
    ensures
        r@ == (match nonempty(note_unicode) {
            Some(n) => esc_spec(n),
            None => Seq::empty(),
        }),
{
    match note_unicode {
        Some(n) => if n.is_empty() {
            String::new()
        } else {
            esc(n)
        },
        None => String::new(),
    }
}

/// A series name with an optional series number, or nothing.
pub open spec fn render_series_spec(
    name: Option<Seq<char>>,
    key: Option<Seq<char>>,
    number: Option<Seq<char>>,
) -> Seq<char> {
    match name {
        Some(n) => {
            let span = "<span data-field=\"series\""@ + key_attr("series"@, key) + ">"@
                + esc_spec(n) + "</span>"@;
            match number {
                Some(num) => span + " n.\u{00a0}<span data-field=\"number\">"@ + esc_spec(num)
                    + "</span>"@,
                None => span,
            }
        },
        None => Seq::empty(),
    }
}

/// Render a series name with optional series number.
pub fn render_series(
    series_name: Option<&str>,
    series_key: Option<&str>,
    series_number: Option<&str>,
) -> (r: String)
    ensures
        r@ == render_series_spec(nonempty(series_name), opt_seq(series_key), nonempty(series_number)),
{
    match series_name {
        Some(n) => {
            if n.is_empty() {
                return String::new();
            }
            let mut r = lit("<span data-field=\"series\"");
            extend(&mut r, &key_attr_exec("series", series_key));
            extend_str(&mut r, ">");
            push_esc(&mut r, n);
            extend_str(&mut r, "</span>");
            match series_number {
                Some(num) => if !num.is_empty() {
                    extend_str(&mut r, " n.\u{00a0}<span data-field=\"number\">");
                    push_esc(&mut r, num);
                    extend_str(&mut r, "</span>");
                },
                None => {},
            }
            string_of(&r)
        },
        None => String::new(),
    }
}

/// A named span `<span data-field="FIELD" data-FIELD-key="KEY">NAME</span>`,
/// or nothing without a name.
pub open spec fn render_named_spec(field: Seq<char>, name: Option<Seq<char>>, key: Option<Seq<char>>) -> Seq<char> {
    match name {
        Some(n) => "<span data-field=\""@ + field + "\""@ + key_attr(field, key) + ">"@ + esc_spec(n)
            + "</span>"@,
        None => Seq::empty(),
    }
}

fn render_named(field: &str, name: Option<&str>, key: Option<&str>) -> (r: String)
    ensures
        r@ == render_named_spec(field@, nonempty(name), opt_seq(key)),
{
    match name {
        Some(n) => {
            if n.is_empty() {
                return String::new();
            }
            let mut r = lit("<span data-field=\"");
            extend_str(&mut r, field);
            extend_str(&mut r, "\"");
            extend(&mut r, &key_attr_exec(field, key));
            extend_str(&mut r, ">");
            push_esc(&mut r, n);
            extend_str(&mut r, "</span>");
            string_of(&r)
        },
        None => String::new(),
    }
}

/// Render a school name.
pub fn render_school(school_name: Option<&str>, school_key: Option<&str>) -> (r: String)
    ensures
        r@ == render_named_spec("school"@, nonempty(school_name), opt_seq(school_key)),
{
    render_named("school", school_name, school_key)
}

/// Render an institution name.
pub fn render_institution(institution_name: Option<&str>, institution_key: Option<&str>) -> (r: String)
    ensures
        r@ == render_named_spec("institution"@, nonempty(institution_name), opt_seq(institution_key)),
{
    render_named("institution", institution_name, institution_key)
}

/// Render an electronic identifier (used when no pages are present).
pub fn render_eid(eid: Option<&str>) -> (r: String)
    ensures
        r@ == (match nonempty(eid) {
            Some(e) => "<span data-field=\"eid\">"@ + esc_spec(e) + "</span>"@,
            None => Seq::empty(),
        }),
{
    match eid {
        Some(e) => {
            if e.is_empty() {
                return String::new();
            }
            let mut r = lit("<span data-field=\"eid\">");
            push_esc(&mut r, e);
            extend_str(&mut r, "</span>");
            string_of(&r)
        },
        None => String::new(),
    }
}

/// Render a booktitle (for incollection/inproceedings) in italics.
pub fn render_booktitle(booktitle_unicode: Option<&str>) -> (r: String)
    ensures
        r@ == (match nonempty(booktitle_unicode) {
            Some(b) => "<span data-field=\"booktitle\"><em>"@ + esc_spec(b) + "</em></span>"@,
            None => Seq::empty(),
        }),
{
    match booktitle_unicode {
        Some(b) => {
            if b.is_empty() {
                return String::new();
            }
            let mut r = lit("<span data-field=\"booktitle\"><em>");
            push_esc(&mut r, b);
            extend_str(&mut r, "</em></span>");
            string_of(&r)
        },
        None => String::new(),
    }
}

} // verus!

//! Enumerations shared across the library.
use vstd::prelude::*;

verus! {

/// The role of a person linked to a bibitem.
#[derive(Debug, Clone, Copy, PartialEq, Eq, Hash)]
pub enum AuthorRole {
    Author,
    Editor,
    Guesteditor,
}

/// The name of a role, as stored and shown.
pub open spec fn role_name(r: AuthorRole) -> Seq<char> {
    match r {
        AuthorRole::Author => "author"@,
        AuthorRole::Editor => "editor"@,
        AuthorRole::Guesteditor => "guesteditor"@,
    }
}

impl AuthorRole {
    /// The name of the role (`author`, `editor`, `guesteditor`).
    pub fn as_str(&self) -> (r: &'static str)
        ensures
            r@ == role_name(*self),
    {
        match self {
            AuthorRole::Author => "author",
            AuthorRole::Editor => "editor",
            AuthorRole::Guesteditor => "guesteditor",
        }
    }
}

/// The kind of a bibliography entry.
#[derive(Debug, Clone, Copy, PartialEq, Eq, Hash)]
pub enum EntryType {
    Article,
    Book,
    Incollection,
    Inproceedings,
    Mastersthesis,
    Phdthesis,
    Unpublished,
    Misc,
}

/// The name of an entry type, as stored and shown.
pub open spec fn entry_type_name(t: EntryType) -> Seq<char> {
    match t {
        EntryType::Article => "article"@,
        EntryType::Book => "book"@,
        EntryType::Incollection => "incollection"@,
        EntryType::Inproceedings => "inproceedings"@,
        EntryType::Mastersthesis => "mastersthesis"@,
        EntryType::Phdthesis => "phdthesis"@,
        EntryType::Unpublished => "unpublished"@,
        EntryType::Misc => "misc"@,
    }
}

impl EntryType {
    /// The name of the entry type (`article`, `book`, ...).
    pub fn as_str(&self) -> (r: &'static str)
        ensures
            r@ == entry_type_name(*self),
    {
        match self {
            EntryType::Article => "article",
            EntryType::Book => "book",
            EntryType::Incollection => "incollection",
            EntryType::Inproceedings => "inproceedings",
            EntryType::Mastersthesis => "mastersthesis",
            EntryType::Phdthesis => "phdthesis",
            EntryType::Unpublished => "unpublished",
            EntryType::Misc => "misc",
        }
    }
}

/// The entry type named `s`, if any.
pub open spec fn entry_type_of(s: Seq<char>) -> Option<EntryType> {
    if s == "article"@ {
        Some(EntryType::Article)
    } else if s == "book"@ {
        Some(EntryType::Book)
    } else if s == "incollection"@ {
        Some(EntryType::Incollection)
    } else if s == "inproceedings"@ {
        Some(EntryType::Inproceedings)
    } else if s == "mastersthesis"@ {
        Some(EntryType::Mastersthesis)
    } else if s == "phdthesis"@ {
        Some(EntryType::Phdthesis)
    } else if s == "unpublished"@ {
        Some(EntryType::Unpublished)
    } else if s == "misc"@ {
        Some(EntryType::Misc)
    } else {
        None
    }
}

impl EntryType {
    /// The entry type with the stored name `s` (`article`, `book`, ...).
    pub fn parse(s: &str) -> (r: Option<EntryType>)
        ensures
            r == entry_type_of(s@),
    {
        let c = crate::text::chars_of(s);
        if crate::text::chars_eq(&c, &crate::text::lit("article")) {
            Some(EntryType::Article)
        } else if crate::text::chars_eq(&c, &crate::text::lit("book")) {
            Some(EntryType::Book)
        } else if crate::text::chars_eq(&c, &crate::text::lit("incollection")) {
            Some(EntryType::Incollection)
        } else if crate::text::chars_eq(&c, &crate::text::lit("inproceedings")) {
            Some(EntryType::Inproceedings)
        } else if crate::text::chars_eq(&c, &crate::text::lit("mastersthesis")) {
            Some(EntryType::Mastersthesis)
        } else if crate::text::chars_eq(&c, &crate::text::lit("phdthesis")) {
            Some(EntryType::Phdthesis)
        } else if crate::text::chars_eq(&c, &crate::text::lit("unpublished")) {
            Some(EntryType::Unpublished)
        } else if crate::text::chars_eq(&c, &crate::text::lit("misc")) {
            Some(EntryType::Misc)
        } else {
            None
        }
    }
}

/// Reading the name of an entry type gives the entry type back.
pub proof fn lemma_entry_type_name_parses_back(t: EntryType)
    ensures
        entry_type_of(entry_type_name(t)) == Some(t),
{
    reveal_strlit("article");
    reveal_strlit("book");
    reveal_strlit("incollection");
    reveal_strlit("inproceedings");
    reveal_strlit("mastersthesis");
    reveal_strlit("phdthesis");
    reveal_strlit("unpublished");
    reveal_strlit("misc");
    let names = seq!["article"@, "book"@, "incollection"@, "inproceedings"@, "mastersthesis"@, "phdthesis"@, "unpublished"@, "misc"@];
    assert(names[0].len() == 7 && names[0][0] == 'a');
    assert(names[1].len() == 4 && names[1][0] == 'b');
    assert(names[2].len() == 12 && names[2][2] == 'c');
    assert(names[3].len() == 13 && names[3][2] == 'p');
    assert(names[4].len() == 13 && names[4][0] == 'm');
    assert(names[5].len() == 9 && names[5][0] == 'p');
    assert(names[6].len() == 11 && names[6][0] == 'u');
    assert(names[7].len() == 4 && names[7][0] == 'm');
}

/// The kind of a reference between two bibitems.
#[derive(Debug, Clone, Copy, PartialEq, Eq, Hash)]
pub enum RefType {
    FurtherRef,
    DependsOn,
}


/// Publication state of an entry (forthcoming, in press, ...), by its code.
#[derive(Debug, Clone, PartialEq, Eq, Hash)]
pub struct PubState {
    pub code: String,
}

/// Historical epoch an entry is filed under, by its code.
#[derive(Debug, Clone, PartialEq, Eq, Hash)]
pub struct Epoch {
    pub code: String,
}

/// Language of an entry, by its code.
#[derive(Debug, Clone, PartialEq, Eq, Hash)]
pub struct LangId {
    pub code: String,
}

/// A copy of an optional code.
pub fn copy_pubstate(o: &Option<PubState>) -> (r: Option<PubState>)
    ensures
        r == *o,
{
    match o {
        Some(p) => Some(PubState { code: p.code.clone() }),
        None => None,
    }
}

/// A copy of an optional epoch.
pub fn copy_epoch(o: &Option<Epoch>) -> (r: Option<Epoch>)
    ensures
        r == *o,
{
    match o {
        Some(p) => Some(Epoch { code: p.code.clone() }),
        None => None,
    }
}

/// A copy of an optional language.
pub fn copy_langid(o: &Option<LangId>) -> (r: Option<LangId>)
    ensures
        r == *o,
{
    match o {
        Some(p) => Some(LangId { code: p.code.clone() }),
        None => None,
    }
}

/// One author/editor link of a bibitem, as stored.
#[derive(Debug, Clone, PartialEq, Eq)]
pub struct BibitemAuthorsRow {
    pub bibkey: String,
    pub author_key: String,
    pub role: String,
    pub position: i16,
    pub name_variant_latex: Option<String>,
    pub name_variant_unicode: Option<String>,
}

/// One keyword link of a bibitem, as stored.
#[derive(Debug, Clone, PartialEq, Eq)]
pub struct BibitemKeywordsRow {
    pub bibkey: String,
    pub keyword_key: String,
    pub keyword_level: i16,
}

/// An author as stored (its timestamps are not held here).
#[derive(Debug)]
pub struct Author {
    pub id: i64,
    pub author_key: String,
    pub family_name_latex: Option<String>,
    pub family_name_unicode: Option<String>,
    pub famous_name_latex: Option<String>,
    pub famous_name_unicode: Option<String>,
    pub famous: bool,
    pub given_name_latex: Option<String>,
    pub given_name_unicode: Option<String>,
    pub mononym_latex: Option<String>,
    pub mononym_unicode: Option<String>,
    pub name_variants_latex: Option<Vec<String>>,
    pub name_variants_unicode: Option<Vec<String>>,
    pub shorthand_latex: Option<String>,
    pub shorthand_unicode: Option<String>,
}

/// A keyword as stored (its timestamps are not held here).
#[derive(Debug)]
pub struct Keyword {
    pub id: i64,
    pub name: String,
    pub level: i16,
}

/// A bibliography item as stored (its timestamps are not held here).
#[derive(Debug)]
pub struct BibItem {
    pub id: i64,
    pub bibkey: String,
    pub entry_type: EntryType,
    pub date_year: Option<i16>,
    pub date_year_2_hyphen: Option<i16>,
    pub date_year_2_slash: Option<i16>,
    pub date_month: Option<i16>,
    pub date_day: Option<i16>,
    pub date_is_no_date: bool,
    pub pubstate: Option<PubState>,
    pub title_latex: String,
    pub title_unicode: String,
    pub title_simplified: String,
    pub booktitle_latex: Option<String>,
    pub booktitle_unicode: Option<String>,
    pub booktitle_simplified: Option<String>,
    pub journal_id: Option<i64>,
    pub publisher_id: Option<i64>,
    pub address: Option<String>,
    pub volume: Option<String>,
    pub number: Option<String>,
    pub pages: Option<String>,
    pub eid: Option<String>,
    pub series_id: Option<i64>,
    pub edition: Option<String>,
    pub institution_id: Option<i64>,
    pub school_id: Option<i64>,
    pub type_field: Option<String>,
    pub doi: Option<String>,
    pub url: Option<String>,
    pub eprint: Option<String>,
    pub urn: Option<String>,
    pub crossref_id: Option<i64>,
    pub issuetitle_latex: Option<String>,
    pub issuetitle_unicode: Option<String>,
    pub note_latex: Option<String>,
    pub note_unicode: Option<String>,
    pub extra_note_latex: Option<String>,
    pub extra_note_unicode: Option<String>,
    pub langid: Option<LangId>,
    pub is_translation: bool,
    pub epoch: Option<Epoch>,
    pub options: Option<String>,
    pub shorthand: Option<String>,
    pub person_id: Option<i64>,
    pub has_fulltext: bool,
    pub fulltext_path: Option<String>,
}

/// The editorial notes kept for one bibitem.
#[derive(Debug, Clone, PartialEq, Eq)]
pub struct BibitemNotes {
    pub note_perso: Option<String>,
    pub note_stock: Option<String>,
    pub note_missing: Option<String>,
    pub change_request: Option<String>,
    pub dltc_copyediting_note: Option<String>,
    pub todo_general: Option<String>,
}

} // verus!

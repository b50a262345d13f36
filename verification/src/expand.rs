//! Expanding a bibitem with the records it links to.
use vstd::prelude::*;
use crate::domain::{Author, AuthorRole, Keyword};

verus! {

/// The fields a bibitem can be expanded with.
pub const EXPANDABLE_FIELDS: [&'static str; 6] = ["authors", "editors", "guesteditors", "journal", "keywords", "crossref"];

/// An author linked to a bibitem, with the role and position of the link.
#[derive(Debug)]
pub struct LinkedAuthor {
    pub author: Author,
    pub role: AuthorRole,
    pub position: i16,
}

/// The keywords linked to a bibitem, one per level.
#[derive(Debug)]
pub struct LinkedKeywords {
    pub level_1: Option<Keyword>,
    pub level_2: Option<Keyword>,
    pub level_3: Option<Keyword>,
}

/// The id of the last link at `level` among `links` (keyword id, level).
pub open spec fn last_at_level(links: Seq<(i64, i16)>, level: i16) -> Option<i64>
    decreases links.len(),
{
    if links.len() == 0 {
        None
    } else if links.last().1 == level {
        Some(links.last().0)
    } else {
        last_at_level(links.drop_last(), level)
    }
}

/// The keyword to show at each of the levels 1, 2 and 3: the last link of
/// that level wins; links at other levels are ignored.
pub fn keyword_ids_by_level(links: &Vec<(i64, i16)>) -> (r: (Option<i64>, Option<i64>, Option<i64>))
    ensures
        r.0 == last_at_level(links@, 1),
        r.1 == last_at_level(links@, 2),
        r.2 == last_at_level(links@, 3),
{
    let mut l1: Option<i64> = None;
    let mut l2: Option<i64> = None;
    let mut l3: Option<i64> = None;
    let mut i: usize = 0;
    assert(links@.take(0) =~= Seq::<(i64, i16)>::empty());
    while i < links.len()
        invariant
            i <= links.len(),
            l1 == last_at_level(links@.take(i as int), 1),
            l2 == last_at_level(links@.take(i as int), 2),
            l3 == last_at_level(links@.take(i as int), 3),
        decreases links.len() - i,
    {
        assert(links@.take(i + 1).drop_last() =~= links@.take(i as int));
        assert(links@.take(i + 1).last() == links@[i as int]);
        let (id, level) = links[i];
        if level == 1 {
            l1 = Some(id);
        } else if level == 2 {
            l2 = Some(id);
        } else if level == 3 {
            l3 = Some(id);
        }
        i += 1;
    }
    assert(links@.take(links.len() as int) =~= links@);
    (l1, l2, l3)
}

} // verus!

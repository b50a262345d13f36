//! The `pages` field of an import row, validated and normalised.
use vstd::prelude::*;
use crate::pages::{
    classify_entry, classify_entry_exec, lemma_parse_entries_err, parse_entries, EntryClass,
    PageEntry, PageEntryView,
};
use crate::text::{extend, extend_str, join, join_chars, lit, seqs_of, split, split_chars, string_of, trim, trimmed};

verus! {

/// How an entry is written back: `start--end` or the single page.
pub open spec fn normalize_entry(e: PageEntryView) -> Seq<char> {
    match e {
        PageEntryView::Single(s) => s,
        PageEntryView::Range { start, end } => start + seq!['-', '-'] + end,
    }
}

/// What `parse_pages` returns for `text`: the entries (hyphen runs kept as
/// written) normalised and joined with `, `, or `None` when there are none.
pub open spec fn pages_field_spec(text: Seq<char>) -> Result<Option<Seq<char>>, Seq<char>> {
    let t = trim(text);
    if t.len() == 0 {
        Ok(None)
    } else {
        match parse_entries(split(t, seq![',']), false) {
            Err(m) => Err(m),
            Ok(items) => if items.len() == 0 {
                Ok(None)
            } else {
                Ok(Some(join(items.map_values(|e: PageEntryView| normalize_entry(e)), ", "@)))
            },
        }
    }
}

fn normalize_exec(e: &PageEntry) -> (r: Vec<char>)
    ensures
        r@ == normalize_entry(e@),
{
    match e {
        PageEntry::Single(s) => lit(s.as_str()),
        PageEntry::Range { start, end } => {
            let mut v = lit(start.as_str());
            v.push('-');
            v.push('-');
            extend_str(&mut v, end.as_str());
            assert(v@ =~= start@ + seq!['-', '-'] + end@);
            v
        },
    }
}

/// Validates and normalises a pages field (see [`pages_field_spec`]).
pub fn parse_pages(text: &str) -> (r: Result<Option<String>, String>)
    ensures
        match r {
            Ok(Some(s)) => pages_field_spec(text@) == Ok::<Option<Seq<char>>, Seq<char>>(Some(s@)),
            Ok(None) => pages_field_spec(text@) == Ok::<Option<Seq<char>>, Seq<char>>(None),
            Err(m) => pages_field_spec(text@) == Err::<Option<Seq<char>>, Seq<char>>(m@),
        },
{
    let t = trimmed(text);
    if t.len() == 0 {
        return Ok(None);
    }
    let comma: Vec<char> = vec![','];
    assert(comma@ =~= seq![',']);
    let entries = split_chars(&t, &comma);
    let ghost es = seqs_of(entries@);
    let mut normalized: Vec<Vec<char>> = Vec::new();
    let ghost mut items: Seq<PageEntryView> = Seq::empty();
    let mut i: usize = 0;
    assert(es.take(0) =~= Seq::<Seq<char>>::empty());
    while i < entries.len()
        invariant
            i <= entries.len(),
            es == seqs_of(entries@),
            es == split(t@, seq![',']),
            t@ == trim(text@),
            t@.len() > 0,
            parse_entries(es.take(i as int), false) == Ok::<Seq<PageEntryView>, Seq<char>>(items),
            seqs_of(normalized@) == items.map_values(|e: PageEntryView| normalize_entry(e)),
        decreases entries.len() - i,
    {
        assert(es.take(i + 1).drop_last() =~= es.take(i as int));
        assert(es.take(i + 1).last() == entries@[i as int]@);
        match classify_entry_exec(&entries[i], false) {
            Ok(None) => {},
            Ok(Some(x)) => {
                let n = normalize_exec(&x);
                let ghost before = seqs_of(normalized@);
                let ghost old_items = items;
                normalized.push(n);
                proof {
                    items = items.push(x@);
                    assert(items.map_values(|e: PageEntryView| normalize_entry(e)) =~= old_items.map_values(
                        |e: PageEntryView| normalize_entry(e),
                    ).push(normalize_entry(x@)));
                    assert(seqs_of(normalized@) =~= before.push(n@));
                }
                assert(seqs_of(normalized@) =~= items.map_values(
                    |e: PageEntryView| normalize_entry(e),
                ));
            },
            Err(m) => {
                proof {
                    assert(parse_entries(es.take(i + 1), false) == Err::<Seq<PageEntryView>, Seq<char>>(m@));
                    lemma_parse_entries_err(es, i + 1, false);
                }
                return Err(string_of(&m));
            },
        }
        i += 1;
    }
    assert(es.take(entries.len() as int) =~= es);
    if normalized.len() == 0 {
        Ok(None)
    } else {
        let sep = lit(", ");
        let joined = join_chars(&normalized, &sep);
        Ok(Some(string_of(&joined)))
    }
}

} // verus!

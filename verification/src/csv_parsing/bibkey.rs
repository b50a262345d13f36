//! Bibkeys: `author[-others]:date[suffix]`.
use vstd::prelude::*;
use crate::csv_parsing::types::{BibkeyDate, ParsedBibkey, ParsedBibkeyView};
use crate::numeric::{int_chars, int_str, is_digit, parse_i64, parse_i64_chars};
use crate::text::{
    chars_eq, find, find_chars, lemma_find, lit, quoted, quoted_msg, slice_of, string_of, trim,
    trimmed,
};

verus! {

/// The author part: `first` or `first-other`, with at most one hyphen and
/// both sides of it non-empty.
pub open spec fn bibkey_author_spec(a: Seq<char>, full: Seq<char>) -> Result<
    (Seq<char>, Option<Seq<char>>),
    Seq<char>,
> {
    match find(a, seq!['-']) {
        None => Ok((a, None)),
        Some(k) => {
            let first = a.take(k);
            let other = a.skip(k + 1);
            if find(other, seq!['-']) is Some {
                Err(quoted("more than one hyphen in author part of bibkey: '"@, full))
            } else if first.len() == 0 || other.len() == 0 {
                Err(quoted("empty author component in bibkey: '"@, full))
            } else {
                Ok((first, Some(other)))
            }
        },
    }
}

/// The number of leading ASCII digits of `s`.
pub open spec fn digit_prefix_len(s: Seq<char>) -> nat
    decreases s.len(),
{
    if s.len() > 0 && is_digit(s[0]) {
        1 + digit_prefix_len(s.drop_first())
    } else {
        0
    }
}

/// The date part: an optionally negative year followed by a free suffix, or
/// `unpub` / `forthcoming`, optionally followed by `-suffix`.
pub open spec fn bibkey_date_spec(d: Seq<char>) -> Result<(BibkeyDate, Seq<char>), Seq<char>> {
    let neg = d.len() > 0 && d[0] == '-';
    let rest = if neg {
        d.drop_first()
    } else {
        d
    };
    let n = digit_prefix_len(rest);
    if n > 0 {
        match parse_i64(rest.take(n as int)) {
            None => Err(quoted("invalid year in bibkey date: '"@, d)),
            Some(y0) => {
                let y = if neg {
                    -y0
                } else {
                    y0
                };
                if i16::MIN <= y <= i16::MAX {
                    Ok((BibkeyDate::Year(y as i16), rest.skip(n as int)))
                } else {
                    Err("year out of range in bibkey: "@ + int_str(y))
                }
            },
        }
    } else if neg {
        Err(quoted("invalid bibkey date: '"@, d))
    } else {
        match find(rest, seq!['-']) {
            Some(p) => {
                let word = rest.take(p);
                let suffix = rest.skip(p + 1);
                if suffix.len() == 0 {
                    Err(quoted("empty suffix after '-' in bibkey date: '"@, d))
                } else if word == "unpub"@ {
                    Ok((BibkeyDate::Unpub, suffix))
                } else if word == "forthcoming"@ {
                    Ok((BibkeyDate::Forthcoming, suffix))
                } else {
                    Err(quoted("invalid bibkey date: '"@, d))
                }
            },
            None => if rest == "unpub"@ {
                Ok((BibkeyDate::Unpub, Seq::empty()))
            } else if rest == "forthcoming"@ {
                Ok((BibkeyDate::Forthcoming, Seq::empty()))
            } else {
                Err(quoted("invalid bibkey date: '"@, d))
            },
        }
    }
}

/// What `parse_bibkey` returns for `text`.
pub open spec fn bibkey_spec(text: Seq<char>) -> Result<ParsedBibkeyView, Seq<char>> {
    let t = trim(text);
    if t.len() == 0 {
        Err("empty bibkey"@)
    } else {
        match find(t, seq![':']) {
            None => Err(quoted("bibkey must contain exactly one colon: '"@, t)),
            Some(k) => if find(t.skip(k + 1), seq![':']) is Some {
                Err(quoted("bibkey must contain exactly one colon: '"@, t))
            } else {
                let a = t.take(k);
                let d = t.skip(k + 1);
                if a.len() == 0 {
                    Err(quoted("empty author part in bibkey: '"@, t))
                } else if d.len() == 0 {
                    Err(quoted("empty date part in bibkey: '"@, t))
                } else {
                    match bibkey_author_spec(a, t) {
                        Err(m) => Err(m),
                        Ok((first, other)) => match bibkey_date_spec(d) {
                            Err(m) => Err(m),
                            Ok((date, suffix)) => Ok(
                                ParsedBibkeyView {
                                    full: t,
                                    first_author: first,
                                    other_authors: other,
                                    date,
                                    suffix,
                                },
                            ),
                        },
                    }
                }
            },
        }
    }
}

/// Parses a bibkey (see [`bibkey_spec`]).
pub fn parse_bibkey(text: &str) -> (r: Result<ParsedBibkey, String>)
    ensures
        match r {
            Ok(b) => bibkey_spec(text@) == Ok::<ParsedBibkeyView, Seq<char>>(b@),
            Err(m) => bibkey_spec(text@) == Err::<ParsedBibkeyView, Seq<char>>(m@),
        },
{
    let t = trimmed(text);
    if t.len() == 0 {
        return Err("empty bibkey".to_string());
    }
    let colon: Vec<char> = vec![':'];
    assert(colon@ =~= seq![':']);
    let k = match find_chars(&t, &colon) {
        Some(k) => k,
        None => return Err(string_of(&quoted_msg("bibkey must contain exactly one colon: '", &t))),
    };
    proof {
        lemma_find(t@, colon@);
    }
    let d = slice_of(&t, k + 1, t.len());
    assert(d@ =~= t@.skip(k + 1));
    if find_chars(&d, &colon).is_some() {
        return Err(string_of(&quoted_msg("bibkey must contain exactly one colon: '", &t)));
    }
    let a = slice_of(&t, 0, k);
    assert(a@ =~= t@.take(k as int));
    if a.len() == 0 {
        return Err(string_of(&quoted_msg("empty author part in bibkey: '", &t)));
    }
    if d.len() == 0 {
        return Err(string_of(&quoted_msg("empty date part in bibkey: '", &t)));
    }
    let (first, other) = match parse_bibkey_author(&a, &t) {
        Ok(p) => p,
        Err(m) => return Err(string_of(&m)),
    };
    let (date, suffix) = match parse_bibkey_date(&d) {
        Ok(p) => p,
        Err(m) => return Err(string_of(&m)),
    };
    Ok(
        ParsedBibkey {
            full: string_of(&t),
            first_author: string_of(&first),
            other_authors: match other {
                Some(o) => Some(string_of(&o)),
                None => None,
            },
            date,
            suffix: string_of(&suffix),
        },
    )
}

fn parse_bibkey_author(a: &Vec<char>, full: &Vec<char>) -> (r: Result<
    (Vec<char>, Option<Vec<char>>),
    Vec<char>,
>)
    ensures
        match r {
            Ok((f, o)) => bibkey_author_spec(a@, full@) == Ok::<
                (Seq<char>, Option<Seq<char>>),
                Seq<char>,
            >((
                f@,
                match o {
                    Some(x) => Some(x@),
                    None => None,
                },
            )),
            Err(m) => bibkey_author_spec(a@, full@) == Err::<
                (Seq<char>, Option<Seq<char>>),
                Seq<char>,
            >(m@),
        },
{
    let hy: Vec<char> = vec!['-'];
    assert(hy@ =~= seq!['-']);
    match find_chars(a, &hy) {
        None => {
            let whole = slice_of(a, 0, a.len());
            assert(whole@ =~= a@);
            Ok((whole, None))
        },
        Some(k) => {
            proof {
                lemma_find(a@, hy@);
            }
            let first = slice_of(a, 0, k);
            let other = slice_of(a, k + 1, a.len());
            assert(first@ =~= a@.take(k as int));
            assert(other@ =~= a@.skip(k + 1));
            if find_chars(&other, &hy).is_some() {
                Err(quoted_msg("more than one hyphen in author part of bibkey: '", full))
            } else if first.len() == 0 || other.len() == 0 {
                Err(quoted_msg("empty author component in bibkey: '", full))
            } else {
                Ok((first, Some(other)))
            }
        },
    }
}

fn digit_prefix_len_exec(s: &Vec<char>) -> (n: usize)
    ensures
        n as nat == digit_prefix_len(s@),
        n <= s.len(),
{
    let len = s.len();
    let mut i: usize = 0;
    assert(s@.subrange(0, len as int) =~= s@);
    while i < len && '0' <= s[i] && s[i] <= '9'
        invariant
            i <= len,
            len == s.len(),
            digit_prefix_len(s@) == i + digit_prefix_len(s@.subrange(i as int, len as int)),
        decreases len - i,
    {
        assert(s@.subrange(i as int, len as int).drop_first() =~= s@.subrange(i + 1, len as int));
        i += 1;
    }
    i
}

fn parse_bibkey_date(d: &Vec<char>) -> (r: Result<(BibkeyDate, Vec<char>), Vec<char>>)
    ensures
        match r {
            Ok((date, suffix)) => bibkey_date_spec(d@) == Ok::<(BibkeyDate, Seq<char>), Seq<char>>(
                (date, suffix@),
            ),
            Err(m) => bibkey_date_spec(d@) == Err::<(BibkeyDate, Seq<char>), Seq<char>>(m@),
        },
{
    let neg = d.len() > 0 && d[0] == '-';
    let rest = if neg {
        slice_of(d, 1, d.len())
    } else {
        slice_of(d, 0, d.len())
    };
    assert(rest@ =~= (if neg {
        d@.drop_first()
    } else {
        d@
    }));
    let n = digit_prefix_len_exec(&rest);
    if n > 0 {
        let digits = slice_of(&rest, 0, n);
        let suffix = slice_of(&rest, n, rest.len());
        assert(digits@ =~= rest@.take(n as int));
        assert(suffix@ =~= rest@.skip(n as int));
        match parse_i64_chars(&digits) {
            None => Err(quoted_msg("invalid year in bibkey date: '", d)),
            Some(y0) => {
                // `digits` has no sign, so y0 >= 0 and its negation fits
                proof {
                    assert(is_digit(digits@[0]));
                    crate::numeric::lemma_parse_unsigned_text(digits@, true);
                }
                if y0 < 0 {
                    return Err(quoted_msg("invalid year in bibkey date: '", d));
                }
                let y: i64 = if neg {
                    -y0
                } else {
                    y0
                };
                if y < i16::MIN as i64 || y > i16::MAX as i64 {
                    let mut m = lit("year out of range in bibkey: ");
                    let ys = int_chars(y);
                    crate::text::extend(&mut m, &ys);
                    Err(m)
                } else {
                    Ok((BibkeyDate::Year(y as i16), suffix))
                }
            },
        }
    } else if neg {
        Err(quoted_msg("invalid bibkey date: '", d))
    } else {
        let hy: Vec<char> = vec!['-'];
        assert(hy@ =~= seq!['-']);
        let unpub = lit("unpub");
        let forthcoming = lit("forthcoming");
        match find_chars(&rest, &hy) {
            Some(p) => {
                proof {
                    lemma_find(rest@, hy@);
                }
                let word = slice_of(&rest, 0, p);
                let suffix = slice_of(&rest, p + 1, rest.len());
                assert(word@ =~= rest@.take(p as int));
                assert(suffix@ =~= rest@.skip(p + 1));
                if suffix.len() == 0 {
                    Err(quoted_msg("empty suffix after '-' in bibkey date: '", d))
                } else if chars_eq(&word, &unpub) {
                    Ok((BibkeyDate::Unpub, suffix))
                } else if chars_eq(&word, &forthcoming) {
                    Ok((BibkeyDate::Forthcoming, suffix))
                } else {
                    Err(quoted_msg("invalid bibkey date: '", d))
                }
            },
            None => {
                let empty: Vec<char> = Vec::new();
                if chars_eq(&rest, &unpub) {
                    Ok((BibkeyDate::Unpub, empty))
                } else if chars_eq(&rest, &forthcoming) {
                    Ok((BibkeyDate::Forthcoming, empty))
                } else {
                    Err(quoted_msg("invalid bibkey date: '", d))
                }
            },
        }
    }
}

} // verus!

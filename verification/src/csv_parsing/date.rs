//! The `date` field: no date, a year, a year range, or a full date.
use vstd::prelude::*;
use crate::csv_parsing::types::{DateRangeSeparator, ParsedDate};
use crate::numeric::{int_chars, int_str, parse_i16, parse_i16_chars, parse_i64, parse_i64_chars};
use crate::text::{
    extend, find, has_char, join, join_chars, lit, quoted, quoted_msg, seqs_of, slice_of, split,
    split_chars, string_of, trim, trim_chars, trimmed,
};

verus! {

/// `a` and `b` are equal up to ASCII case.
pub open spec fn ascii_eq_ci(a: char, b: char) -> bool {
    ||| a == b
    ||| ('A' <= a <= 'Z' && (a as u32) + 32 == b as u32)
    ||| ('A' <= b <= 'Z' && (b as u32) + 32 == a as u32)
}

/// `s` spells `no date` in any ASCII case.
pub open spec fn is_no_date(s: Seq<char>) -> bool {
    let target = seq!['n', 'o', ' ', 'd', 'a', 't', 'e'];
    s.len() == 7 && forall|i: int| 0 <= i < 7 ==> ascii_eq_ci(#[trigger] s[i], target[i])
}

/// The number of bytes `c` takes in UTF-8.
pub open spec fn char_utf8_len(c: char) -> nat {
    let n = c as u32;
    if n < 0x80 {
        1
    } else if n < 0x800 {
        2
    } else if n < 0x10000 {
        3
    } else {
        4
    }
}

/// The number of bytes `s` takes in UTF-8 (`str::len`).
pub open spec fn utf8_len(s: Seq<char>) -> nat
    decreases s.len(),
{
    if s.len() == 0 {
        0
    } else {
        utf8_len(s.drop_last()) + char_utf8_len(s.last())
    }
}

/// A year written without surrounding whitespace: an `i64` of at most four
/// digits in absolute value.
pub open spec fn year_raw_spec(s: Seq<char>) -> Result<i16, Seq<char>> {
    match parse_i64(s) {
        None => Err(quoted("invalid year: '"@, s)),
        Some(v) => if -9999 <= v <= 9999 {
            Ok(v as i16)
        } else {
            Err("year out of range: "@ + int_str(v))
        },
    }
}

/// A year, surrounding whitespace ignored.
pub open spec fn year_spec(s: Seq<char>) -> Result<i16, Seq<char>> {
    let t = trim(s);
    if t.len() == 0 {
        Err("empty year"@)
    } else {
        year_raw_spec(t)
    }
}

/// The negation of a year.
pub open spec fn negate_year_spec(y: i16) -> Result<i16, Seq<char>> {
    if y == i16::MIN {
        Err("year out of range: -"@ + int_str(y as int))
    } else {
        Ok((-y) as i16)
    }
}

/// Two years with the given separator.
pub open spec fn year_range(
    a: Result<i16, Seq<char>>,
    b: Result<i16, Seq<char>>,
    sep: DateRangeSeparator,
) -> Result<ParsedDate, Seq<char>> {
    match a {
        Err(m) => Err(m),
        Ok(year) => match b {
            Err(m) => Err(m),
            Ok(year2) => Ok(ParsedDate::YearRange { year, year2, separator: sep }),
        },
    }
}

/// A negated raw year.
pub open spec fn negated_raw_year(s: Seq<char>) -> Result<i16, Seq<char>> {
    match year_raw_spec(s) {
        Err(m) => Err(m),
        Ok(y) => negate_year_spec(y),
    }
}

/// Month and day of a full date, each at most two bytes.
pub open spec fn month_day_spec(year: i16, m: Seq<char>, d: Seq<char>) -> Result<ParsedDate, Seq<char>> {
    match parse_i16(m) {
        None => Err(quoted("invalid month: '"@, m)),
        Some(month) => match parse_i16(d) {
            None => Err(quoted("invalid day: '"@, d)),
            Some(day) => if !(1 <= month <= 12) {
                Err("month out of range (1-12): "@ + int_str(month))
            } else if !(1 <= day <= 31) {
                Err("day out of range (1-31): "@ + int_str(day))
            } else {
                Ok(ParsedDate::FullDate { year, month: month as i16, day: day as i16 })
            },
        },
    }
}

/// A date containing hyphens: a negative year, a year range, or `Y-M-D`.
pub open spec fn hyphenated_spec(text: Seq<char>) -> Result<ParsedDate, Seq<char>> {
    let neg = text.len() > 0 && text[0] == '-';
    let rest = if neg {
        text.drop_first()
    } else {
        text
    };
    let parts = split(rest, seq!['-']);
    if parts.len() == 1 {
        if neg {
            match negated_raw_year(parts[0]) {
                Err(m) => Err(m),
                Ok(y) => Ok(ParsedDate::Year(y)),
            }
        } else {
            Err(quoted("invalid date format: '"@, text))
        }
    } else if parts.len() == 2 {
        if neg {
            year_range(negated_raw_year(parts[0]), year_spec(parts[1]), DateRangeSeparator::Hyphen)
        } else {
            year_range(year_spec(parts[0]), year_spec(parts[1]), DateRangeSeparator::Hyphen)
        }
    } else if parts.len() == 3 {
        let year_str = if neg {
            seq!['-'] + parts[0]
        } else {
            parts[0]
        };
        match year_spec(year_str) {
            Err(m) => Err(m),
            Ok(year) => if utf8_len(parts[1]) <= 2 && utf8_len(parts[2]) <= 2 {
                month_day_spec(year, parts[1], parts[2])
            } else {
                Err(
                    quoted(
                        "invalid date format: '"@,
                        if neg {
                            seq!['-'] + join(parts, seq!['-'])
                        } else {
                            join(parts, seq!['-'])
                        },
                    ),
                )
            },
        }
    } else {
        Err(quoted("invalid date format: '"@, text))
    }
}

/// What `parse_date` returns for `text`.
pub open spec fn date_spec(text: Seq<char>) -> Result<ParsedDate, Seq<char>> {
    let t = trim(text);
    if t.len() == 0 || is_no_date(t) {
        Ok(ParsedDate::NoDate)
    } else if t.contains('/') {
        let parts = split(t, seq!['/']);
        if parts.len() != 2 {
            Err(quoted("invalid date format: '"@, t))
        } else {
            year_range(year_spec(parts[0]), year_spec(parts[1]), DateRangeSeparator::Slash)
        }
    } else if t.contains('-') {
        hyphenated_spec(t)
    } else {
        match year_spec(t) {
            Err(m) => Err(m),
            Ok(y) => Ok(ParsedDate::Year(y)),
        }
    }
}

/// A date result as a view.
pub open spec fn date_result_view(r: Result<ParsedDate, Vec<char>>) -> Result<ParsedDate, Seq<char>> {
    match r {
        Ok(d) => Ok(d),
        Err(m) => Err(m@),
    }
}

/// A year result as a view.
pub open spec fn year_result_view(r: Result<i16, Vec<char>>) -> Result<i16, Seq<char>> {
    match r {
        Ok(y) => Ok(y),
        Err(m) => Err(m@),
    }
}

fn is_no_date_exec(s: &Vec<char>) -> (r: bool)
    ensures
        r == is_no_date(s@),
{
    let target: Vec<char> = vec!['n', 'o', ' ', 'd', 'a', 't', 'e'];
    assert(target@ =~= seq!['n', 'o', ' ', 'd', 'a', 't', 'e']);
    if s.len() != 7 {
        return false;
    }
    let mut i: usize = 0;
    while i < 7
        invariant
            i <= 7,
            s.len() == 7,
            target@ == seq!['n', 'o', ' ', 'd', 'a', 't', 'e'],
            forall|j: int| 0 <= j < i ==> ascii_eq_ci(#[trigger] s@[j], target@[j]),
        decreases 7 - i,
    {
        let a = s[i];
        let b = target[i];
        let ok = a == b || ('A' <= a && a <= 'Z' && (a as u32) + 32 == b as u32) || ('A' <= b && b
            <= 'Z' && (b as u32) + 32 == a as u32);
        if !ok {
            return false;
        }
        i += 1;
    }
    true
}

fn utf8_len_exec(s: &Vec<char>) -> (r: usize)
    requires
        s.len() <= 1000,
    ensures
        r as nat == utf8_len(s@),
{
    let mut total: usize = 0;
    let mut i: usize = 0;
    assert(s@.take(0) =~= Seq::<char>::empty());
    while i < s.len()
        invariant
            i <= s.len(),
            s.len() <= 1000,
            total as nat == utf8_len(s@.take(i as int)),
            total <= 4 * i,
        decreases s.len() - i,
    {
        assert(s@.take(i + 1).drop_last() =~= s@.take(i as int));
        let n = s[i] as u32;
        let w: usize = if n < 0x80 {
            1
        } else if n < 0x800 {
            2
        } else if n < 0x10000 {
            3
        } else {
            4
        };
        total = total + w;
        i += 1;
    }
    assert(s@.take(s.len() as int) =~= s@);
    total
}

/// At most two bytes in UTF-8.
fn at_most_two_bytes(s: &Vec<char>) -> (r: bool)
    ensures
        r == (utf8_len(s@) <= 2),
{
    if s.len() > 2 {
        proof {
            lemma_utf8_len_ge_len(s@);
        }
        return false;
    }
    utf8_len_exec(s) <= 2
}

proof fn lemma_utf8_len_ge_len(s: Seq<char>)
    ensures
        utf8_len(s) >= s.len(),
    decreases s.len(),
{
    if s.len() > 0 {
        lemma_utf8_len_ge_len(s.drop_last());
    }
}

fn year_raw(s: &Vec<char>) -> (r: Result<i16, Vec<char>>)
    ensures
        year_result_view(r) == year_raw_spec(s@),
{
    match parse_i64_chars(s) {
        None => Err(quoted_msg("invalid year: '", s)),
        Some(v) => if -9999 <= v && v <= 9999 {
            Ok(v as i16)
        } else {
            let mut m = lit("year out of range: ");
            extend(&mut m, &int_chars(v));
            Err(m)
        },
    }
}

fn parse_year(s: &Vec<char>) -> (r: Result<i16, Vec<char>>)
    ensures
        year_result_view(r) == year_spec(s@),
{
    let t = trim_chars(s);
    if t.len() == 0 {
        return Err(lit("empty year"));
    }
    year_raw(&t)
}

fn negate_year(y: i16) -> (r: Result<i16, Vec<char>>)
    ensures
        year_result_view(r) == negate_year_spec(y),
{
    if y == i16::MIN {
        let mut m = lit("year out of range: -");
        extend(&mut m, &int_chars(y as i64));
        Err(m)
    } else {
        Ok(-y)
    }
}

fn negated_raw(s: &Vec<char>) -> (r: Result<i16, Vec<char>>)
    ensures
        year_result_view(r) == negated_raw_year(s@),
{
    match year_raw(s) {
        Err(m) => Err(m),
        Ok(y) => negate_year(y),
    }
}

fn range_of(a: Result<i16, Vec<char>>, b: Result<i16, Vec<char>>, sep: DateRangeSeparator) -> (r:
    Result<ParsedDate, Vec<char>>)
    ensures
        date_result_view(r) == year_range(year_result_view(a), year_result_view(b), sep),
{
    match a {
        Err(m) => Err(m),
        Ok(year) => match b {
            Err(m) => Err(m),
            Ok(year2) => Ok(ParsedDate::YearRange { year, year2, separator: sep }),
        },
    }
}

fn month_day(year: i16, m: &Vec<char>, d: &Vec<char>) -> (r: Result<ParsedDate, Vec<char>>)
    ensures
        date_result_view(r) == month_day_spec(year, m@, d@),
{
    let month = match parse_i16_chars(m) {
        None => return Err(quoted_msg("invalid month: '", m)),
        Some(v) => v,
    };
    let day = match parse_i16_chars(d) {
        None => return Err(quoted_msg("invalid day: '", d)),
        Some(v) => v,
    };
    if !(1 <= month && month <= 12) {
        let mut msg = lit("month out of range (1-12): ");
        extend(&mut msg, &int_chars(month as i64));
        return Err(msg);
    }
    if !(1 <= day && day <= 31) {
        let mut msg = lit("day out of range (1-31): ");
        extend(&mut msg, &int_chars(day as i64));
        return Err(msg);
    }
    Ok(ParsedDate::FullDate { year, month, day })
}

fn parse_hyphenated(text: &Vec<char>) -> (r: Result<ParsedDate, Vec<char>>)
    ensures
        date_result_view(r) == hyphenated_spec(text@),
{
    let neg = text.len() > 0 && text[0] == '-';
    let rest = if neg {
        slice_of(text, 1, text.len())
    } else {
        slice_of(text, 0, text.len())
    };
    assert(rest@ =~= (if neg {
        text@.drop_first()
    } else {
        text@
    }));
    let hy: Vec<char> = vec!['-'];
    assert(hy@ =~= seq!['-']);
    let parts = split_chars(&rest, &hy);
    let ghost ps = seqs_of(parts@);
    assert(ps[0] == parts@[0]@);
    if parts.len() == 1 {
        if neg {
            match negated_raw(&parts[0]) {
                Err(m) => Err(m),
                Ok(y) => Ok(ParsedDate::Year(y)),
            }
        } else {
            Err(quoted_msg("invalid date format: '", text))
        }
    } else if parts.len() == 2 {
        assert(ps[1] == parts@[1]@);
        if neg {
            range_of(negated_raw(&parts[0]), parse_year(&parts[1]), DateRangeSeparator::Hyphen)
        } else {
            range_of(parse_year(&parts[0]), parse_year(&parts[1]), DateRangeSeparator::Hyphen)
        }
    } else if parts.len() == 3 {
        assert(ps[1] == parts@[1]@);
        assert(ps[2] == parts@[2]@);
        let mut year_str: Vec<char> = Vec::new();
        if neg {
            year_str.push('-');
        }
        extend(&mut year_str, &parts[0]);
        assert(year_str@ =~= (if neg {
            seq!['-'] + ps[0]
        } else {
            ps[0]
        }));
        let year = match parse_year(&year_str) {
            Err(m) => return Err(m),
            Ok(y) => y,
        };
        if at_most_two_bytes(&parts[1]) && at_most_two_bytes(&parts[2]) {
            month_day(year, &parts[1], &parts[2])
        } else {
            let joined = join_chars(&parts, &hy);
            let mut shown: Vec<char> = Vec::new();
            if neg {
                shown.push('-');
            }
            extend(&mut shown, &joined);
            assert(shown@ =~= (if neg {
                seq!['-'] + join(ps, seq!['-'])
            } else {
                join(ps, seq!['-'])
            }));
            Err(quoted_msg("invalid date format: '", &shown))
        }
    } else {
        Err(quoted_msg("invalid date format: '", text))
    }
}

/// Parses a `date` field (see [`date_spec`]).
///
/// Accepted: empty or `no date` (any case), `YYYY`, `YYYY-YYYY`,
/// `YYYY/YYYY`, `YYYY-MM-DD`, each year possibly negative; years are at most
/// 9999 in absolute value, months 1–12, days 1–31.
pub fn parse_date(text: &str) -> (r: Result<ParsedDate, String>)
    ensures
        match r {
            Ok(d) => date_spec(text@) == Ok::<ParsedDate, Seq<char>>(d),
            Err(m) => date_spec(text@) == Err::<ParsedDate, Seq<char>>(m@),
        },
{
    let t = trimmed(text);
    if t.len() == 0 || is_no_date_exec(&t) {
        return Ok(ParsedDate::NoDate);
    }
    let r = if has_char(&t, '/') {
        let sl: Vec<char> = vec!['/'];
        assert(sl@ =~= seq!['/']);
        let parts = split_chars(&t, &sl);
        if parts.len() != 2 {
            Err(quoted_msg("invalid date format: '", &t))
        } else {
            assert(seqs_of(parts@)[0] == parts@[0]@);
            assert(seqs_of(parts@)[1] == parts@[1]@);
            range_of(parse_year(&parts[0]), parse_year(&parts[1]), DateRangeSeparator::Slash)
        }
    } else if has_char(&t, '-') {
        parse_hyphenated(&t)
    } else {
        match parse_year(&t) {
            Err(m) => Err(m),
            Ok(y) => Ok(ParsedDate::Year(y)),
        }
    };
    match r {
        Ok(d) => Ok(d),
        Err(m) => Err(string_of(&m)),
    }
}

} // verus!

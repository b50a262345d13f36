//! Decimal integers: reading them the way `str::parse` does, and writing them
//! the way `Display` does.
use vstd::prelude::*;

verus! {

/// An ASCII decimal digit.
pub open spec fn is_digit(c: char) -> bool {
    '0' <= c && c <= '9'
}

/// The value of a decimal digit.
pub open spec fn digit_val(c: char) -> int {
    (c as u32) as int - 48
}

/// Every character of `s` is a decimal digit.
pub open spec fn all_digits(s: Seq<char>) -> bool {
    forall|i: int| 0 <= i < s.len() ==> is_digit(#[trigger] s[i])
}

/// The value of a run of decimal digits (leading zeros allowed).
pub open spec fn digits_value(s: Seq<char>) -> int
    decreases s.len(),
{
    if s.len() == 0 {
        0
    } else {
        digits_value(s.drop_last()) * 10 + digit_val(s.last())
    }
}

/// The integer that `str::parse` reads from `s`, before the range check of the
/// target type: an optional `+` (or `-` when the type is signed) followed by
/// one or more decimal digits.
pub open spec fn parse_int(s: Seq<char>, signed: bool) -> Option<int> {
    if s.len() > 0 && (s[0] == '+' || (signed && s[0] == '-')) {
        let d = s.drop_first();
        if d.len() > 0 && all_digits(d) {
            Some(if s[0] == '-' { -digits_value(d) } else { digits_value(d) })
        } else {
            None
        }
    } else if s.len() > 0 && all_digits(s) {
        Some(digits_value(s))
    } else {
        None
    }
}

/// `str::parse` into an integer type whose values are `lo..=hi`.
pub open spec fn parse_in(s: Seq<char>, signed: bool, lo: int, hi: int) -> Option<int> {
    match parse_int(s, signed) {
        Some(v) => if lo <= v && v <= hi {
            Some(v)
        } else {
            None
        },
        None => None,
    }
}

/// `s.parse::<i32>()`, as an optional value.
pub open spec fn parse_i32(s: Seq<char>) -> Option<int> {
    parse_in(s, true, i32::MIN as int, i32::MAX as int)
}

/// `s.parse::<i64>()`, as an optional value.
pub open spec fn parse_i64(s: Seq<char>) -> Option<int> {
    parse_in(s, true, i64::MIN as int, i64::MAX as int)
}

/// `s.parse::<i16>()`, as an optional value.
pub open spec fn parse_i16(s: Seq<char>) -> Option<int> {
    parse_in(s, true, i16::MIN as int, i16::MAX as int)
}

/// `s.parse::<u32>()`, as an optional value.
pub open spec fn parse_u32(s: Seq<char>) -> Option<int> {
    parse_in(s, false, 0, u32::MAX as int)
}

pub proof fn lemma_digits_value_nonneg(s: Seq<char>)
    requires
        all_digits(s),
    ensures
        digits_value(s) >= 0,
    decreases s.len(),
{
    if s.len() > 0 {
        assert(all_digits(s.drop_last())) by {
            assert forall|i: int| 0 <= i < s.drop_last().len() implies is_digit(
                #[trigger] s.drop_last()[i],
            ) by {
                assert(s.drop_last()[i] == s[i]);
            }
        }
        lemma_digits_value_nonneg(s.drop_last());
        assert(is_digit(s[s.len() - 1]));
    }
}

/// A text starting with a digit reads as a non-negative integer.
pub proof fn lemma_parse_unsigned_text(s: Seq<char>, signed: bool)
    requires
        s.len() > 0,
        is_digit(s[0]),
    ensures
        parse_int(s, signed) matches Some(v) ==> v >= 0,
{
    if all_digits(s) {
        lemma_digits_value_nonneg(s);
    }
}

/// The value of a prefix of a digit run is at most the value of the run.
proof fn lemma_digits_prefix_le(s: Seq<char>, k: int)
    requires
        all_digits(s),
        0 <= k <= s.len(),
    ensures
        digits_value(s.take(k)) <= digits_value(s),
    decreases s.len(),
{
    if k < s.len() {
        let t = s.drop_last();
        assert(all_digits(t)) by {
            assert forall|i: int| 0 <= i < t.len() implies is_digit(#[trigger] t[i]) by {
                assert(t[i] == s[i]);
            }
        }
        lemma_digits_prefix_le(t, k);
        assert(t.take(k) =~= s.take(k));
        lemma_digits_value_nonneg(t);
        assert(is_digit(s[s.len() - 1]));
    } else {
        assert(s.take(k) =~= s);
    }
}

proof fn lemma_digits_step(s: Seq<char>, k: int)
    requires
        0 <= k < s.len(),
    ensures
        digits_value(s.take(k + 1)) == digits_value(s.take(k)) * 10 + digit_val(s[k]),
{
    assert(s.take(k + 1).drop_last() =~= s.take(k));
}

/// Exec `str::parse` into the range `lo..=hi`.
pub fn parse_in_range(s: &Vec<char>, signed: bool, lo: i128, hi: i128) -> (r: Option<i128>)
    requires
        lo <= 0 <= hi,
        hi <= u64::MAX,
        -lo <= u64::MAX,
    ensures
        r matches Some(x) ==> parse_in(s@, signed, lo as int, hi as int) == Some(x as int),
        r is None ==> parse_in(s@, signed, lo as int, hi as int) is None,
{
    let n = s.len();
    if n == 0 {
        return None;
    }
    let mut start: usize = 0;
    let mut neg = false;
    if s[0] == '+' {
        start = 1;
    } else if signed && s[0] == '-' {
        start = 1;
        neg = true;
    }
    if start == n {
        return None;
    }
    let ghost d = s@.subrange(start as int, n as int);
    proof {
        if start == 1 {
            assert(d =~= s@.drop_first());
        } else {
            assert(d =~= s@);
        }
    }
    let limit: u128 = if neg {
        (-lo) as u128
    } else {
        hi as u128
    };
    let mut mag: u128 = 0;
    let mut i: usize = start;
    assert(d.take(0) =~= Seq::<char>::empty());
    while i < n
        invariant
            start <= i <= n,
            n == s.len(),
            start < n,
            start == 0 || start == 1,
            start == 1 <==> (s@[0] == '+' || (signed && s@[0] == '-')),
            neg <==> (start == 1 && s@[0] == '-'),
            limit == (if neg { -lo } else { hi as int }),
            d == s@.subrange(start as int, n as int),
            mag as int == digits_value(d.take(i - start)),
            mag <= limit,
            limit <= u64::MAX,
            forall|j: int| 0 <= j < i - start ==> is_digit(#[trigger] d[j]),
        decreases n - i,
    {
        let c = s[i];
        assert(d[i - start] == c);
        if !('0' <= c && c <= '9') {
            assert(!is_digit(d[i - start]));
            assert(!all_digits(d));
            proof {
                if start == 1 {
                    assert(d =~= s@.drop_first());
                } else {
                    assert(d =~= s@);
                }
            }
            return None;
        }
        let dv = (c as u32 - 48) as u128;
        proof {
            lemma_digits_step(d, i - start);
        }
        let next = mag * 10 + dv;
        if next > limit {
            proof {
                if all_digits(d) {
                    lemma_digits_prefix_le(d, i - start + 1);
                    assert(digits_value(d) > limit);
                    if start == 1 {
                        assert(d =~= s@.drop_first());
                    } else {
                        assert(d =~= s@);
                    }
                }
            }
            return None;
        }
        mag = next;
        i += 1;
    }
    assert(d.take(n - start) =~= d);
    assert(all_digits(d));
    if neg {
        Some(-(mag as i128))
    } else {
        Some(mag as i128)
    }
}

/// `s.parse::<i32>().ok()`.
pub fn parse_i32_chars(s: &Vec<char>) -> (r: Option<i32>)
    ensures
        r matches Some(x) ==> parse_i32(s@) == Some(x as int),
        r is None ==> parse_i32(s@) is None,
{
    match parse_in_range(s, true, i32::MIN as i128, i32::MAX as i128) {
        Some(x) => Some(x as i32),
        None => None,
    }
}

/// `s.parse::<i64>().ok()`.
pub fn parse_i64_chars(s: &Vec<char>) -> (r: Option<i64>)
    ensures
        r matches Some(x) ==> parse_i64(s@) == Some(x as int),
        r is None ==> parse_i64(s@) is None,
{
    match parse_in_range(s, true, i64::MIN as i128, i64::MAX as i128) {
        Some(x) => Some(x as i64),
        None => None,
    }
}

/// `s.parse::<i16>().ok()`.
pub fn parse_i16_chars(s: &Vec<char>) -> (r: Option<i16>)
    ensures
        r matches Some(x) ==> parse_i16(s@) == Some(x as int),
        r is None ==> parse_i16(s@) is None,
{
    match parse_in_range(s, true, i16::MIN as i128, i16::MAX as i128) {
        Some(x) => Some(x as i16),
        None => None,
    }
}

/// `s.parse::<u32>().ok()`.
pub fn parse_u32_chars(s: &Vec<char>) -> (r: Option<u32>)
    ensures
        r matches Some(x) ==> parse_u32(s@) == Some(x as int),
        r is None ==> parse_u32(s@) is None,
{
    match parse_in_range(s, false, 0, u32::MAX as i128) {
        Some(x) => Some(x as u32),
        None => None,
    }
}

// ---------------------------------------------------------------------------
// Writing
// ---------------------------------------------------------------------------

/// The character of a decimal digit value.
pub open spec fn digit_char(d: int) -> char {
    ((d + 48) as u8) as char
}

/// The decimal representation of a natural number, without leading zeros.
pub open spec fn nat_str(n: nat) -> Seq<char>
    decreases n,
{
    if n < 10 {
        seq![digit_char(n as int)]
    } else {
        nat_str(n / 10).push(digit_char((n % 10) as int))
    }
}

/// The decimal representation of an integer, as `Display` writes it.
pub open spec fn int_str(i: int) -> Seq<char> {
    if i < 0 {
        seq!['-'] + nat_str((-i) as nat)
    } else {
        nat_str(i as nat)
    }
}

/// Appends the decimal digits of `n`.
pub fn push_nat(out: &mut Vec<char>, n: u64)
    ensures
        final(out)@ == old(out)@ + nat_str(n as nat),
    decreases n,
{
    if n >= 10 {
        push_nat(out, n / 10);
    }
    let d = (n % 10) as u8;
    out.push((d + 48) as char);
    proof {
        if n >= 10 {
            assert(old(out)@ + nat_str((n / 10) as nat) + seq![digit_char((n % 10) as int)]
                =~= old(out)@ + nat_str(n as nat));
        } else {
            assert(old(out)@ + seq![digit_char(n as int)] =~= old(out)@ + nat_str(n as nat));
        }
    }
}

/// The decimal representation of `i` (`i.to_string()`).
pub fn int_chars(i: i64) -> (r: Vec<char>)
    ensures
        r@ == int_str(i as int),
{
    let mut r: Vec<char> = Vec::new();
    if i < 0 {
        r.push('-');
        let m: u64 = (-(i as i128)) as u64;
        push_nat(&mut r, m);
    } else {
        push_nat(&mut r, i as u64);
        assert(r@ =~= nat_str(i as nat));
    }
    r
}

/// A digit value maps to the digit character.
pub proof fn lemma_digit_char(d: int)
    requires
        0 <= d < 10,
    ensures
        digit_char(d) as u32 == d + 48,
        is_digit(digit_char(d)),
        digit_val(digit_char(d)) == d,
{
}

/// The digit characters write back to the digits read.
pub proof fn lemma_nat_str_digits(n: nat)
    ensures
        all_digits(nat_str(n)),
        nat_str(n).len() > 0,
        digits_value(nat_str(n)) == n,
    decreases n,
{
    if n >= 10 {
        lemma_nat_str_digits(n / 10);
        let s = nat_str(n);
        assert(s.drop_last() =~= nat_str(n / 10));
        lemma_digit_char((n % 10) as int);
        assert(digits_value(s) == digits_value(s.drop_last()) * 10 + digit_val(s.last()));
        assert((n / 10) * 10 + n % 10 == n);
        assert forall|i: int| 0 <= i < s.len() implies is_digit(#[trigger] s[i]) by {
            if i < s.len() - 1 {
                assert(s[i] == nat_str(n / 10)[i]);
            }
        }
    } else {
        lemma_digit_char(n as int);
        let s = nat_str(n);
        assert(s == seq![digit_char(n as int)]);
        assert(s.drop_last() =~= Seq::<char>::empty());
        assert(digits_value(s) == digits_value(s.drop_last()) * 10 + digit_val(s.last()));
    }
}

/// An integer written in decimal reads back as itself (`to_string`, then
/// `parse::<i64>`).
pub proof fn lemma_int_text_parses_back(i: int)
    requires
        i64::MIN <= i <= i64::MAX,
    ensures
        parse_i64(int_str(i)) == Some(i),
{
    if i < 0 {
        let n = (-i) as nat;
        lemma_nat_str_digits(n);
        let s = int_str(i);
        assert(s.drop_first() =~= nat_str(n));
        assert(s[0] == '-');
    } else {
        let n = i as nat;
        lemma_nat_str_digits(n);
        let s = nat_str(n);
        assert(is_digit(s[0]));
    }
}

} // verus!

//! Lexical helpers of the query API: EXPLAIN prefixes and numeric identifiers.
use crate::query::error::{ErrorView, Error, Result};
use crate::text::{ascii_lower, ascii_lower_char, decimal, digit_char, eq_ignore_ascii_case_spec};
use vstd::prelude::*;

verus! {

/// `char::is_whitespace`: the Unicode `White_Space` characters.
pub open spec fn is_ws(c: char) -> bool {
    ('\u{9}' <= c && c <= '\u{d}') || c == ' ' || c == '\u{85}' || c == '\u{a0}' || c == '\u{1680}'
        || ('\u{2000}' <= c && c <= '\u{200a}') || c == '\u{2028}' || c == '\u{2029}' || c == '\u{202f}'
        || c == '\u{205f}' || c == '\u{3000}'
}

pub fn is_whitespace(c: char) -> (r: bool)
    ensures
        r == is_ws(c),
{
    ('\u{9}' <= c && c <= '\u{d}') || c == ' ' || c == '\u{85}' || c == '\u{a0}' || c == '\u{1680}'
        || ('\u{2000}' <= c && c <= '\u{200a}') || c == '\u{2028}' || c == '\u{2029}' || c == '\u{202f}'
        || c == '\u{205f}' || c == '\u{3000}'
}

/// The number of whitespace characters that `s` starts with.
pub open spec fn leading_ws(s: Seq<char>) -> nat
    decreases s.len(),
{
    if s.len() > 0 && is_ws(s[0]) {
        1 + leading_ws(s.drop_first())
    } else {
        0
    }
}

/// `str::trim_start`.
pub open spec fn trim_start_spec(s: Seq<char>) -> Seq<char> {
    s.skip(leading_ws(s) as int)
}

/// The query after an `EXPLAIN` keyword (any case) that starts the input, with the
/// whitespace around the keyword removed; none when the input does not start with the
/// keyword followed by whitespace or the end.
pub open spec fn explain_rest(input: Seq<char>) -> Option<Seq<char>> {
    let t = trim_start_spec(input);
    if t.len() >= 7 && eq_ignore_ascii_case_spec(t.take(7), "EXPLAIN"@) && (t.len() == 7 || is_ws(t[7])) {
        Some(trim_start_spec(t.skip(7)))
    } else {
        None
    }
}

pub(crate) fn skip_ws(s: &str, n: usize, from: usize) -> (r: usize)
    requires
        n == s@.len(),
        from <= n,
    ensures
        from <= r <= n,
        r - from == leading_ws(s@.skip(from as int)),
{
    let mut i = from;
    while i < n && is_whitespace(s.get_char(i))
        invariant
            n == s@.len(),
            from <= i <= n,
            leading_ws(s@.skip(from as int)) == (i - from) + leading_ws(s@.skip(i as int)),
        decreases n - i,
    {
        proof {
            assert(s@.skip(i as int).drop_first() =~= s@.skip(i + 1));
        }
        i = i + 1;
    }
    i
}

/// The query that follows a leading `EXPLAIN` keyword (see `explain_rest`).
pub fn strip_explain_prefix(input: &str) -> (r: Option<&str>)
    ensures
        match r {
            Some(rest) => explain_rest(input@) == Some(rest@),
            None => explain_rest(input@) is None,
        },
{
    let n = input.unicode_len();
    let start = skip_ws(input, n, 0);
    proof {
        assert(input@.skip(0) =~= input@);
        assert(trim_start_spec(input@) =~= input@.skip(start as int));
    }
    let ghost t = input@.skip(start as int);
    if n - start < 7 {
        return None;
    }
    let keyword = "EXPLAIN";
    proof {
        reveal_strlit("EXPLAIN");
    }
    let mut k: usize = 0;
    while k < 7
        invariant
            n == input@.len(),
            start + 7 <= n,
            t == input@.skip(start as int),
            keyword@ == "EXPLAIN"@,
            keyword@.len() == 7,
            trim_start_spec(input@) == t,
            k <= 7,
            forall|j: int| 0 <= j < k ==> ascii_lower(#[trigger] t[j]) == ascii_lower(keyword@[j]),
        decreases 7 - k,
    {
        let c = input.get_char(start + k);
        if ascii_lower_char(c) != ascii_lower_char(keyword.get_char(k)) {
            proof {
                assert(t.take(7)[k as int] == t[k as int]);
                assert(t[k as int] == input@[start + k]);
                assert(ascii_lower(t.take(7)[k as int]) != ascii_lower("EXPLAIN"@[k as int]));
                assert(!eq_ignore_ascii_case_spec(t.take(7), "EXPLAIN"@));
                assert(trim_start_spec(input@) == t);
                assert(explain_rest(input@) is None);
            }
            return None;
        }
        k = k + 1;
    }
    proof {
        assert forall|j: int| 0 <= j < 7 implies ascii_lower(#[trigger] t.take(7)[j]) == ascii_lower("EXPLAIN"@[j]) by {
            assert(t.take(7)[j] == t[j]);
        }
        assert(eq_ignore_ascii_case_spec(t.take(7), "EXPLAIN"@));
    }
    if start + 7 < n && !is_whitespace(input.get_char(start + 7)) {
        return None;
    }
    let rest_start = skip_ws(input, n, start + 7);
    proof {
        assert(t.skip(7) =~= input@.skip(start + 7));
        assert(trim_start_spec(t.skip(7)) =~= input@.skip(rest_start as int));
        assert(input@.skip(rest_start as int) =~= input@.subrange(rest_start as int, n as int));
    }
    Some(input.substring_char(rest_start, n))
}

/// The value of a string of decimal digits.
pub open spec fn digits_value(s: Seq<char>) -> int
    decreases s.len(),
{
    if s.len() == 0 {
        0
    } else {
        digits_value(s.drop_last()) * 10 + (s.last() as int - '0' as int)
    }
}

pub open spec fn all_digits(s: Seq<char>) -> bool {
    forall|i: int| 0 <= i < s.len() ==> '0' <= #[trigger] s[i] && s[i] <= '9'
}

/// The text after an optional leading `+`.
pub open spec fn unsigned_part(s: Seq<char>) -> Seq<char> {
    if s.len() > 0 && s[0] == '+' { s.drop_first() } else { s }
}

/// `str::parse::<u32>`: an optional `+`, then one or more decimal digits whose value fits.
pub open spec fn parse_u32_spec(s: Seq<char>) -> Option<u32> {
    let d = unsigned_part(s);
    if d.len() > 0 && all_digits(d) && digits_value(d) <= u32::MAX {
        Some(digits_value(d) as u32)
    } else {
        None
    }
}

proof fn lemma_digits_value_nonneg(s: Seq<char>)
    requires
        all_digits(s),
    ensures
        digits_value(s) >= 0,
    decreases s.len(),
{
    if s.len() > 0 {
        assert(all_digits(s.drop_last())) by {
            assert forall|i: int| 0 <= i < s.drop_last().len() implies '0' <= #[trigger] s.drop_last()[i] && s.drop_last()[i] <= '9' by {
                assert(s.drop_last()[i] == s[i]);
            }
        }
        lemma_digits_value_nonneg(s.drop_last());
    }
}

proof fn lemma_digits_value_grows(s: Seq<char>, k: int)
    requires
        all_digits(s),
        0 <= k <= s.len(),
    ensures
        digits_value(s.take(k)) <= digits_value(s),
    decreases s.len() - k,
{
    if k < s.len() {
        lemma_digits_value_grows(s, k + 1);
        assert(s.take(k + 1).drop_last() =~= s.take(k));
        assert(all_digits(s.take(k))) by {
            assert forall|i: int| 0 <= i < s.take(k).len() implies '0' <= #[trigger] s.take(k)[i] && s.take(k)[i] <= '9' by {
                assert(s.take(k)[i] == s[i]);
            }
        }
        lemma_digits_value_nonneg(s.take(k));
        assert(s.take(k + 1).last() == s[k]);
    } else {
        assert(s.take(k) =~= s);
    }
}

/// A label or relationship-type identifier given as a decimal number; any other text is
/// not supported ("non-numeric label/rel identifiers in M3").
pub fn parse_u32_identifier(name: &str) -> (r: Result<u32>)
    ensures
        match parse_u32_spec(name@) {
            Some(v) => r matches Ok(x) && x == v,
            None => r matches Err(e) && e@ == ErrorView::NotImplemented("non-numeric label/rel identifiers in M3"@),
        },
{
    let n = name.unicode_len();
    let mut start: usize = 0;
    if n > 0 && name.get_char(0) == '+' {
        start = 1;
    }
    let ghost d = unsigned_part(name@);
    proof {
        assert(d =~= name@.skip(start as int));
    }
    if start == n {
        return Err(Error::not_implemented("non-numeric label/rel identifiers in M3"));
    }
    let mut value: u64 = 0;
    let mut i: usize = start;
    while i < n
        invariant
            n == name@.len(),
            start <= i <= n,
            start < n,
            d == name@.skip(start as int),
            d == unsigned_part(name@),
            all_digits(d.take(i - start)),
            value == digits_value(d.take(i - start)),
            value <= u32::MAX,
        decreases n - i,
    {
        let c = name.get_char(i);
        proof {
            assert(d[i - start] == c);
        }
        if c < '0' || c > '9' {
            proof {
                assert(!all_digits(d));
                assert(parse_u32_spec(name@) is None);
            }
            return Err(Error::not_implemented("non-numeric label/rel identifiers in M3"));
        }
        let digit: u64 = (c as u32 - '0' as u32) as u64;
        proof {
            assert(d.take(i - start + 1).drop_last() =~= d.take(i - start));
            assert(d.take(i - start + 1).last() == c);
            assert(all_digits(d.take(i - start + 1))) by {
                assert forall|j: int| 0 <= j < d.take(i - start + 1).len() implies '0' <= #[trigger] d.take(i - start + 1)[j] && d.take(i - start + 1)[j] <= '9' by {
                    if j < i - start {
                        assert(d.take(i - start + 1)[j] == d.take(i - start)[j]);
                    }
                }
            }
        }
        value = value * 10 + digit;
        if value > 4294967295u64 {
            proof {
                if all_digits(d) {
                    lemma_digits_value_grows(d, i - start + 1);
                }
                assert(parse_u32_spec(name@) is None);
            }
            return Err(Error::not_implemented("non-numeric label/rel identifiers in M3"));
        }
        i = i + 1;
    }
    proof {
        assert(d.take(i - start) =~= d);
    }
    Ok(value as u32)
}

proof fn lemma_decimal_digits(n: nat)
    ensures
        decimal(n).len() > 0,
        all_digits(decimal(n)),
        digits_value(decimal(n)) == n,
    decreases n,
{
    let c = digit_char(n % 10);
    assert('0' <= c && c <= '9');
    assert(c as int - '0' as int == n % 10);
    if n < 10 {
        let d = decimal(n);
        assert(d == seq![c]);
        assert(d.drop_last() =~= Seq::<char>::empty());
        assert(digits_value(Seq::<char>::empty()) == 0);
        assert(d.last() == c);
        assert(digits_value(d) == digits_value(d.drop_last()) * 10 + (c as int - '0' as int));
        assert(n % 10 == n);
    } else {
        lemma_decimal_digits(n / 10);
        let p = decimal(n / 10);
        let d = decimal(n);
        assert(d == p.push(c));
        assert(d.drop_last() =~= p);
        assert(d.last() == c);
        assert(all_digits(d)) by {
            assert forall|i: int| 0 <= i < d.len() implies '0' <= #[trigger] d[i] && d[i] <= '9' by {
                if i < p.len() {
                    assert(d[i] == p[i]);
                }
            }
        }
        assert(digits_value(d) == digits_value(p) * 10 + (c as int - '0' as int));
        assert((n / 10) * 10 + n % 10 == n) by (nonlinear_arith);
    }
}

/// Every `u32` written in decimal, as `u32::to_string` writes it, reads back as itself: the
/// text is accepted as an identifier with that value.
pub proof fn law_u32_identifier_round_trip(n: u32)
    ensures
        parse_u32_spec(decimal(n as nat)) == Some(n),
{
    let d = decimal(n as nat);
    lemma_decimal_digits(n as nat);
    assert(d[0] != '+');
    assert(unsigned_part(d) == d);
}

} // verus!

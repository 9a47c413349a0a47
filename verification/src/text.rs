//! Text helpers with the meaning that the standard library gives them:
//! trimming white space or a quote character, and reading an unsigned decimal.

use vstd::prelude::*;

verus! {

/// The characters with the Unicode `White_Space` property, which is what
/// `char::is_white_space` and `str::trim` go by.
pub open spec fn is_white_space(c: char) -> bool {
    let n = c as u32;
    ||| 0x09 <= n <= 0x0d
    ||| n == 0x20
    ||| n == 0x85
    ||| n == 0xa0
    ||| n == 0x1680
    ||| 0x2000 <= n <= 0x200a
    ||| n == 0x2028
    ||| n == 0x2029
    ||| n == 0x202f
    ||| n == 0x205f
    ||| n == 0x3000
}

/// The characters that a trim removes: white space, or the double quote.
pub open spec fn is_trimmed_char(c: char, quotes: bool) -> bool {
    if quotes {
        c == '"'
    } else {
        is_white_space(c)
    }
}

/// `s` without the trimmed characters at its start.
pub open spec fn strip_start(s: Seq<char>, quotes: bool) -> Seq<char>
    decreases s.len(),
{
    if s.len() > 0 && is_trimmed_char(s[0], quotes) {
        strip_start(s.drop_first(), quotes)
    } else {
        s
    }
}

/// `s` without the trimmed characters at its end.
pub open spec fn strip_end(s: Seq<char>, quotes: bool) -> Seq<char>
    decreases s.len(),
{
    if s.len() > 0 && is_trimmed_char(s.last(), quotes) {
        strip_end(s.drop_last(), quotes)
    } else {
        s
    }
}

/// What `str::trim` leaves of `s`.
pub open spec fn trimmed(s: Seq<char>) -> Seq<char> {
    strip_end(strip_start(s, false), false)
}

/// What `str::trim_matches('"')` leaves of `s`.
pub open spec fn quotes_trimmed(s: Seq<char>) -> Seq<char> {
    strip_end(strip_start(s, true), true)
}

pub open spec fn is_decimal_digit(c: char) -> bool {
    '0' <= c <= '9'
}

pub open spec fn digit_value(c: char) -> int {
    c as int - '0' as int
}

/// The number that a string of decimal digits denotes.
pub open spec fn decimal_value(s: Seq<char>) -> int
    decreases s.len(),
{
    if s.len() == 0 {
        0
    } else {
        decimal_value(s.drop_last()) * 10 + digit_value(s.last())
    }
}

/// The digits of an unsigned number, after an optional leading `+`.
pub open spec fn unsigned_digits(s: Seq<char>) -> Seq<char> {
    if s.len() > 0 && s[0] == '+' {
        s.drop_first()
    } else {
        s
    }
}

/// What `str::parse::<usize>` gives: an optional `+`, then at least one
/// decimal digit and nothing else, denoting a number that fits.
pub open spec fn parsed_usize(s: Seq<char>) -> Option<usize> {
    let d = unsigned_digits(s);
    if d.len() > 0 && (forall|i: int| 0 <= i < d.len() ==> is_decimal_digit(#[trigger] d[i]))
        && decimal_value(d) <= usize::MAX {
        Some(decimal_value(d) as usize)
    } else {
        None
    }
}

/// Whether `c` has the Unicode `White_Space` property.
pub fn is_white_space_char(c: char) -> (r: bool)
    ensures
        r == is_white_space(c),
{
    let n = c as u32;
    (0x09 <= n && n <= 0x0d) || n == 0x20 || n == 0x85 || n == 0xa0 || n == 0x1680 || (0x2000 <= n
        && n <= 0x200a) || n == 0x2028 || n == 0x2029 || n == 0x202f || n == 0x205f || n == 0x3000
}

fn is_trimmed(c: char, quotes: bool) -> (r: bool)
    ensures
        r == is_trimmed_char(c, quotes),
{
    if quotes {
        c == '"'
    } else {
        is_white_space_char(c)
    }
}

proof fn lemma_strip_start_step(s: Seq<char>, i: int, quotes: bool)
    requires
        0 <= i < s.len(),
        is_trimmed_char(s[i], quotes),
    ensures
        strip_start(s.subrange(i, s.len() as int), quotes) == strip_start(
            s.subrange(i + 1, s.len() as int),
            quotes,
        ),
{
    assert(s.subrange(i, s.len() as int).drop_first() =~= s.subrange(i + 1, s.len() as int));
}

proof fn lemma_strip_end_step(s: Seq<char>, j: int, quotes: bool)
    requires
        0 < j <= s.len(),
        is_trimmed_char(s[j - 1], quotes),
    ensures
        strip_end(s.subrange(0, j), quotes) == strip_end(s.subrange(0, j - 1), quotes),
{
    assert(s.subrange(0, j).drop_last() =~= s.subrange(0, j - 1));
}

/// `s` with the trimmed characters removed at both ends.
fn strip<'a>(s: &'a str, quotes: bool) -> (r: &'a str)
    ensures
        r@ == strip_end(strip_start(s@, quotes), quotes),
{
    let n = s.unicode_len();
    let mut i: usize = 0;
    assert(s@.subrange(0, n as int) =~= s@);
    while i < n && is_trimmed(s.get_char(i), quotes)
        invariant
            i <= n,
            n == s@.len(),
            strip_start(s@, quotes) == strip_start(s@.subrange(i as int, n as int), quotes),
        decreases n - i,
    {
        proof {
            lemma_strip_start_step(s@, i as int, quotes);
        }
        i = i + 1;
    }
    let rest = s.substring_char(i, n);
    assert(strip_start(s@, quotes) == rest@);
    let m = rest.unicode_len();
    let mut j: usize = m;
    assert(rest@.subrange(0, m as int) =~= rest@);
    while j > 0 && is_trimmed(rest.get_char(j - 1), quotes)
        invariant
            j <= m,
            m == rest@.len(),
            strip_end(rest@, quotes) == strip_end(rest@.subrange(0, j as int), quotes),
        decreases j,
    {
        proof {
            lemma_strip_end_step(rest@, j as int, quotes);
        }
        j = j - 1;
    }
    rest.substring_char(0, j)
}

/// `s` without white space at either end, as `str::trim` gives it.
pub fn trim_white_space(s: &str) -> (r: &str)
    ensures
        r@ == trimmed(s@),
{
    strip(s, false)
}

/// `s` without double quotes at either end, as `str::trim_matches('"')`
/// gives it.
pub fn trim_quotes(s: &str) -> (r: &str)
    ensures
        r@ == quotes_trimmed(s@),
{
    strip(s, true)
}

proof fn lemma_decimal_value_grows(s: Seq<char>, k: int)
    requires
        0 <= k <= s.len(),
        forall|i: int| 0 <= i < s.len() ==> is_decimal_digit(#[trigger] s[i]),
    ensures
        decimal_value(s) >= decimal_value(s.subrange(0, k)),
        decimal_value(s) >= 0,
    decreases s.len(),
{
    if s.len() == 0 {
        assert(s.subrange(0, k) =~= s);
    } else if k == s.len() {
        assert(s.subrange(0, k) =~= s);
        lemma_decimal_value_grows(s.drop_last(), 0);
    } else {
        lemma_decimal_value_grows(s.drop_last(), k);
        assert(s.drop_last().subrange(0, k) =~= s.subrange(0, k));
        assert(is_decimal_digit(s[s.len() - 1]));
    }
}

/// Reads an unsigned decimal number as `str::parse::<usize>` does.
pub fn parse_usize(s: &str) -> (r: Option<usize>)
    ensures
        r == parsed_usize(s@),
{
    let n = s.unicode_len();
    let mut start: usize = 0;
    if n > 0 && s.get_char(0) == '+' {
        start = 1;
    }
    let ghost d = unsigned_digits(s@);
    assert(d =~= s@.subrange(start as int, n as int));
    if start == n {
        return None;
    }
    let mut acc: usize = 0;
    let mut i: usize = start;
    assert(d.subrange(0, 0) =~= Seq::<char>::empty());
    while i < n
        invariant
            start <= i <= n,
            start < n,
            n == s@.len(),
            d == s@.subrange(start as int, n as int),
            d == unsigned_digits(s@),
            acc == decimal_value(d.subrange(0, i - start)),
            forall|k: int| 0 <= k < i - start ==> is_decimal_digit(#[trigger] d[k]),
        decreases n - i,
    {
        let c = s.get_char(i);
        assert(c == d[i - start]);
        if !('0' <= c && c <= '9') {
            assert(!is_decimal_digit(d[i - start]));
            return None;
        }
        let dv = (c as u32 - '0' as u32) as usize;
        assert(dv == digit_value(c));
        let ghost next = d.subrange(0, i - start + 1);
        assert(next.drop_last() =~= d.subrange(0, i - start));
        assert(decimal_value(next) == acc * 10 + dv);
        if acc > (usize::MAX - dv) / 10 {
            proof {
                assert(acc * 10 + dv > usize::MAX) by (nonlinear_arith)
                    requires
                        acc > (usize::MAX - dv) / 10,
                        dv <= 9,
                ;
                if forall|k: int| 0 <= k < d.len() ==> is_decimal_digit(#[trigger] d[k]) {
                    lemma_decimal_value_grows(d, i - start + 1);
                }
            }
            return None;
        }
        assert(acc * 10 + dv <= usize::MAX) by (nonlinear_arith)
            requires
                acc <= (usize::MAX - dv) / 10,
                dv <= 9,
        ;
        acc = acc * 10 + dv;
        i = i + 1;
    }
    assert(d.subrange(0, n - start) =~= d);
    Some(acc)
}

} // verus!

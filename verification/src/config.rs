//! How many imports may run at once: the `IMPORT_MAX_CONCURRENCY` setting,
//! read from a `.env` file or from the environment.

use vstd::prelude::*;

use crate::text::{
    parse_usize, parsed_usize, quotes_trimmed, trim_quotes, trim_white_space, trimmed,
};

verus! {

/// The concurrency used when no valid positive setting is found.
pub const DEFAULT_IMPORT_MAX_CONCURRENCY: usize = 5;

/// The text that introduces the setting on a line of a `.env` file.
pub open spec fn setting_key() -> Seq<char> {
    "IMPORT_MAX_CONCURRENCY="@
}

/// The index of the line break that ends the line starting at `i`, or the
/// length of the text where the last line has none.
pub open spec fn line_end(text: Seq<char>, i: int) -> int
    decreases text.len() - i,
{
    if i >= text.len() || text[i] == '\n' {
        i
    } else {
        line_end(text, i + 1)
    }
}

pub proof fn lemma_line_end_bounds(text: Seq<char>, i: int)
    requires
        0 <= i <= text.len(),
    ensures
        i <= line_end(text, i) <= text.len(),
        line_end(text, i) < text.len() ==> text[line_end(text, i)] == '\n',
        forall|k: int| i <= k < line_end(text, i) ==> text[k] != '\n',
    decreases text.len() - i,
{
    if i < text.len() && text[i] != '\n' {
        lemma_line_end_bounds(text, i + 1);
    }
}

/// The value a single line sets, if it sets one: the line is trimmed, blank
/// lines and comments are skipped, and the value after the key is trimmed of
/// white space and then of double quotes.
pub open spec fn setting_in_line(line: Seq<char>) -> Option<Seq<char>> {
    let t = trimmed(line);
    let k = setting_key();
    if t.len() > 0 && t[0] != '#' && t.len() >= k.len() && t.subrange(0, k.len() as int) == k {
        Some(quotes_trimmed(trimmed(t.subrange(k.len() as int, t.len() as int))))
    } else {
        None
    }
}

/// The value set by the first line, at or after the line starting at `i`,
/// that sets one.
pub open spec fn setting_from(text: Seq<char>, i: int) -> Option<Seq<char>>
    decreases text.len() - i,
{
    if i < 0 || i > text.len() {
        None
    } else {
        let e = line_end(text, i);
        proof {
            lemma_line_end_bounds(text, i);
        }
        match setting_in_line(text.subrange(i, e)) {
            Some(v) => Some(v),
            None => if e < text.len() {
                setting_from(text, e + 1)
            } else {
                None
            },
        }
    }
}

/// The value that a `.env` file's text gives the setting.
pub open spec fn dotenv_setting(text: Seq<char>) -> Option<Seq<char>> {
    setting_from(text, 0)
}

/// The concurrency chosen from the `.env` value, or else the environment's
/// value: a positive number that the chosen value denotes, or the default.
pub open spec fn max_concurrency_setting(
    dotenv: Option<Seq<char>>,
    env: Option<Seq<char>>,
) -> usize {
    let raw = match dotenv {
        Some(v) => Some(v),
        None => env,
    };
    match raw {
        Some(r) => match parsed_usize(r) {
            Some(v) => if v > 0 {
                v
            } else {
                DEFAULT_IMPORT_MAX_CONCURRENCY
            },
            None => DEFAULT_IMPORT_MAX_CONCURRENCY,
        },
        None => DEFAULT_IMPORT_MAX_CONCURRENCY,
    }
}

/// A value from the `.env` file decides the setting whatever the environment
/// holds, even when it is not a valid number; the environment is consulted
/// only without one; and the setting is never zero.
pub proof fn lemma_setting_precedence(
    dotenv: Option<Seq<char>>,
    env: Option<Seq<char>>,
    other_env: Option<Seq<char>>,
)
    ensures
        dotenv is Some ==> max_concurrency_setting(dotenv, env) == max_concurrency_setting(
            dotenv,
            other_env,
        ),
        dotenv is None ==> max_concurrency_setting(dotenv, env) == max_concurrency_setting(
            env,
            None,
        ),
        max_concurrency_setting(dotenv, env) > 0,
        max_concurrency_setting(None, None) == DEFAULT_IMPORT_MAX_CONCURRENCY,
{
}

/// The text made of `lines`, each followed by a line break.
pub open spec fn joined_lines(lines: Seq<Seq<char>>) -> Seq<char>
    decreases lines.len(),
{
    if lines.len() == 0 {
        Seq::empty()
    } else {
        lines[0] + seq!['\n'] + joined_lines(lines.drop_first())
    }
}

/// Whether `line` holds no line break.
pub open spec fn is_single_line(line: Seq<char>) -> bool {
    forall|k: int| 0 <= k < line.len() ==> line[k] != '\n'
}

proof fn lemma_line_end_at(text: Seq<char>, i: int, m: int)
    requires
        0 <= i <= m <= text.len(),
        forall|k: int| i <= k < m ==> text[k] != '\n',
        m == text.len() || text[m] == '\n',
    ensures
        line_end(text, i) == m,
    decreases m - i,
{
    if i < m {
        lemma_line_end_at(text, i + 1, m);
    }
}

proof fn lemma_line_end_shift(a: Seq<char>, t: Seq<char>, k: int)
    requires
        0 <= k <= t.len(),
    ensures
        line_end(a + t, a.len() + k) == a.len() + line_end(t, k),
    decreases t.len() - k,
{
    let text = a + t;
    if k < t.len() {
        assert(text[a.len() + k] == t[k]);
        if t[k] != '\n' {
            lemma_line_end_shift(a, t, k + 1);
        }
    }
}

/// Reading the lines of `t` from `k` on gives the same whether or not some
/// text `a` stands before `t`.
proof fn lemma_setting_from_shift(a: Seq<char>, t: Seq<char>, k: int)
    requires
        0 <= k <= t.len(),
    ensures
        setting_from(a + t, a.len() + k) == setting_from(t, k),
    decreases t.len() - k,
{
    let text = a + t;
    lemma_line_end_shift(a, t, k);
    lemma_line_end_bounds(t, k);
    lemma_line_end_bounds(text, a.len() + k);
    let e = line_end(t, k);
    assert(text.subrange(a.len() + k, a.len() + e) =~= t.subrange(k, e));
    if e < t.len() {
        lemma_setting_from_shift(a, t, e + 1);
    }
}

/// Lines that set nothing are passed over: reading from the start of such
/// lines gives what reading after them gives.
proof fn lemma_skip_lines(text: Seq<char>, i: int, lines: Seq<Seq<char>>)
    requires
        0 <= i,
        i + joined_lines(lines).len() <= text.len(),
        text.subrange(i, i + joined_lines(lines).len()) == joined_lines(lines),
        forall|j: int|
            0 <= j < lines.len() ==> is_single_line(#[trigger] lines[j]) && setting_in_line(
                lines[j],
            ) is None,
    ensures
        setting_from(text, i) == setting_from(text, i + joined_lines(lines).len()),
    decreases lines.len(),
{
    if lines.len() > 0 {
        let l0 = lines[0];
        let rest = lines.drop_first();
        let whole = joined_lines(lines);
        let jl = whole.len();
        let e = i + l0.len();
        assert(whole == l0 + seq!['\n'] + joined_lines(rest));
        assert(is_single_line(l0) && setting_in_line(l0) is None);
        assert forall|k: int| i <= k < e implies text[k] != '\n' by {
            assert(text[k] == text.subrange(i, i + jl)[k - i]);
            assert(whole[k - i] == l0[k - i]);
        }
        assert(text[e] == '\n') by {
            assert(text[e] == text.subrange(i, i + jl)[e - i]);
            assert(whole[e - i] == '\n');
        }
        lemma_line_end_at(text, i, e);
        assert(text.subrange(i, e) =~= l0) by {
            assert forall|k: int| 0 <= k < l0.len() implies text.subrange(i, e)[k] == l0[k] by {
                assert(text[i + k] == text.subrange(i, i + jl)[k]);
                assert(whole[k] == l0[k]);
            }
        }
        assert(text.subrange(e + 1, e + 1 + joined_lines(rest).len()) =~= joined_lines(rest))
            by {
            assert forall|k: int| 0 <= k < joined_lines(rest).len() implies text.subrange(
                e + 1,
                e + 1 + joined_lines(rest).len(),
            )[k] == joined_lines(rest)[k] by {
                assert(text[e + 1 + k] == text.subrange(i, i + jl)[e + 1 + k - i]);
                assert(whole[l0.len() + 1 + k] == joined_lines(rest)[k]);
            }
        }
        assert forall|j: int| 0 <= j < rest.len() implies is_single_line(#[trigger] rest[j])
            && setting_in_line(rest[j]) is None by {
            assert(rest[j] == lines[j + 1]);
        }
        lemma_skip_lines(text, e + 1, rest);
    }
}

/// The setting comes from the first line that sets one, however far down the
/// text it stands: lines before it that set nothing never change the result,
/// and a line that sets the value decides it whatever follows.
pub proof fn lemma_first_setting_line_wins(
    lines: Seq<Seq<char>>,
    line: Seq<char>,
    rest: Seq<char>,
    tail: Seq<char>,
)
    requires
        forall|j: int|
            0 <= j < lines.len() ==> is_single_line(#[trigger] lines[j]) && setting_in_line(
                lines[j],
            ) is None,
        is_single_line(line),
        rest.len() == 0 || rest[0] == '\n',
    ensures
        dotenv_setting(joined_lines(lines) + tail) == dotenv_setting(tail),
        setting_in_line(line) is Some ==> dotenv_setting(joined_lines(lines) + (line + rest))
            == setting_in_line(line),
        dotenv_setting(joined_lines(lines) + line) == setting_in_line(line),
{
    let a = joined_lines(lines);
    lemma_first_lines_skipped(a, lines, tail);
    lemma_first_lines_skipped(a, lines, line + rest);
    lemma_first_lines_skipped(a, lines, line);
    let t = line + rest;
    lemma_line_end_at(t, 0, line.len() as int);
    assert(t.subrange(0, line.len() as int) =~= line);
    let u = line;
    lemma_line_end_at(u, 0, line.len() as int);
    assert(u.subrange(0, line.len() as int) =~= line);
}

proof fn lemma_first_lines_skipped(a: Seq<char>, lines: Seq<Seq<char>>, tail: Seq<char>)
    requires
        a == joined_lines(lines),
        forall|j: int|
            0 <= j < lines.len() ==> is_single_line(#[trigger] lines[j]) && setting_in_line(
                lines[j],
            ) is None,
    ensures
        dotenv_setting(a + tail) == dotenv_setting(tail),
{
    let text = a + tail;
    assert(text.subrange(0, a.len() as int) =~= a);
    lemma_skip_lines(text, 0, lines);
    lemma_setting_from_shift(a, tail, 0);
}

/// Whether `text` denotes a number above zero.
pub open spec fn denotes_positive(text: Seq<char>) -> bool {
    parsed_usize(text) is Some && parsed_usize(text).unwrap() > 0
}

/// Every positive number that the chosen text (the `.env` value where there
/// is one, the environment's value otherwise) denotes is used as it is, one
/// included; the default stands in only for a missing text, a text that is
/// not a number, or zero.
pub proof fn lemma_positive_setting_is_used(
    dotenv: Option<Seq<char>>,
    env: Option<Seq<char>>,
    chosen: Seq<char>,
)
    requires
        dotenv == Some(chosen) || (dotenv is None && env == Some(chosen)),
    ensures
        denotes_positive(chosen) ==> max_concurrency_setting(dotenv, env) == parsed_usize(
            chosen,
        ).unwrap(),
        !denotes_positive(chosen) ==> max_concurrency_setting(dotenv, env)
            == DEFAULT_IMPORT_MAX_CONCURRENCY,
        parsed_usize(chosen) == Some(1usize) ==> max_concurrency_setting(dotenv, env) == 1,
{
}

fn same_text(a: &str, b: &str) -> (r: bool)
    ensures
        r == (a@ == b@),
{
    a.to_owned() == b.to_owned()
}

/// The value one line of a `.env` file sets, if it sets one.
fn setting_of_line(line: &str) -> (r: Option<String>)
    ensures
        r.deep_view() == setting_in_line(line@),
{
    let t = trim_white_space(line);
    let tl = t.unicode_len();
    let key = "IMPORT_MAX_CONCURRENCY=";
    let kl = key.unicode_len();
    if tl == 0 || t.get_char(0) == '#' || tl < kl {
        return None;
    }
    if !same_text(t.substring_char(0, kl), key) {
        return None;
    }
    let value = trim_quotes(trim_white_space(t.substring_char(kl, tl)));
    Some(value.to_owned())
}

/// Finds the setting in the text of a `.env` file.
pub fn dotenv_max_concurrency(text: &str) -> (r: Option<String>)
    ensures
        r.deep_view() == dotenv_setting(text@),
{
    let n = text.unicode_len();
    let mut i: usize = 0;
    loop
        invariant
            i <= n,
            n == text@.len(),
            setting_from(text@, 0) == setting_from(text@, i as int),
        decreases n - i,
    {
        let mut e: usize = i;
        while e < n && text.get_char(e) != '\n'
            invariant
                i <= e <= n,
                n == text@.len(),
                line_end(text@, i as int) == line_end(text@, e as int),
            decreases n - e,
        {
            e = e + 1;
        }
        proof {
            lemma_line_end_bounds(text@, i as int);
        }
        let found = setting_of_line(text.substring_char(i, e));
        if found.is_some() {
            return found;
        }
        if e >= n {
            return None;
        }
        i = e + 1;
    }
}

/// Chooses the concurrency from the `.env` value and the environment's
/// value, in that order of precedence.
pub fn import_max_concurrency(dotenv_value: Option<String>, env_value: Option<String>) -> (r:
    usize)
    ensures
        r == max_concurrency_setting(dotenv_value.deep_view(), env_value.deep_view()),
        r > 0,
        dotenv_value is Some && denotes_positive(dotenv_value.deep_view().unwrap()) ==> r
            == parsed_usize(dotenv_value.deep_view().unwrap()).unwrap(),
        dotenv_value is Some && !denotes_positive(dotenv_value.deep_view().unwrap()) ==> r
            == DEFAULT_IMPORT_MAX_CONCURRENCY,
        dotenv_value is None && env_value is Some && denotes_positive(
            env_value.deep_view().unwrap(),
        ) ==> r == parsed_usize(env_value.deep_view().unwrap()).unwrap(),
        dotenv_value is None && env_value is Some && !denotes_positive(
            env_value.deep_view().unwrap(),
        ) ==> r == DEFAULT_IMPORT_MAX_CONCURRENCY,
        dotenv_value is None && env_value is None ==> r == DEFAULT_IMPORT_MAX_CONCURRENCY,
{
    let raw = match dotenv_value {
        Some(v) => Some(v),
        None => env_value,
    };
    match raw {
        Some(r) => match parse_usize(r.as_str()) {
            Some(v) => if v > 0 {
                v
            } else {
                DEFAULT_IMPORT_MAX_CONCURRENCY
            },
            None => DEFAULT_IMPORT_MAX_CONCURRENCY,
        },
        None => DEFAULT_IMPORT_MAX_CONCURRENCY,
    }
}

} // verus!

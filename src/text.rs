use vstd::prelude::*;
use vstd::string::*;

use crate::error::ProbeError;

verus! {

/// The characters that separate tokens.
pub open spec fn is_blank(c: char) -> bool {
    c == ' ' || c == '\t' || c == '\n' || c == '\r' || c == '\x0B' || c == '\x0C'
}

/// Where the run of non-blank characters that starts at `i` ends.
pub open spec fn word_end(s: Seq<char>, i: int) -> int
    decreases s.len() - i,
{
    if i < 0 || i >= s.len() || is_blank(s[i]) {
        i
    } else {
        word_end(s, i + 1)
    }
}

proof fn lemma_word_end_bounds(s: Seq<char>, i: int)
    requires
        0 <= i <= s.len(),
    ensures
        i <= word_end(s, i) <= s.len(),
        i < s.len() && !is_blank(s[i]) ==> i < word_end(s, i),
    decreases s.len() - i,
{
    if i < s.len() && !is_blank(s[i]) {
        lemma_word_end_bounds(s, i + 1);
    }
}

/// The maximal runs of non-blank characters of `s` from position `i` on.
pub open spec fn tokens_from(s: Seq<char>, i: int) -> Seq<Seq<char>>
    decreases s.len() - i,
    via tokens_from_decreases
{
    if i < 0 || i >= s.len() {
        seq![]
    } else if is_blank(s[i]) {
        tokens_from(s, i + 1)
    } else {
        seq![s.subrange(i, word_end(s, i))] + tokens_from(s, word_end(s, i))
    }
}

#[via_fn]
proof fn tokens_from_decreases(s: Seq<char>, i: int) {
    if 0 <= i < s.len() {
        lemma_word_end_bounds(s, i);
    }
}

/// The blank-separated tokens of `s`, in order.
pub open spec fn tokens(s: Seq<char>) -> Seq<Seq<char>> {
    tokens_from(s, 0)
}

fn is_blank_char(c: char) -> (r: bool)
    ensures
        r == is_blank(c),
{
    c == ' ' || c == '\t' || c == '\n' || c == '\r' || c == '\x0B' || c == '\x0C'
}

/// Splits `s` into its blank-separated tokens.
pub fn split_tokens(s: &str) -> (r: Vec<String>)
    ensures
        r@.map_values(|t: String| t@) == tokens(s@),
{
    let n = s.unicode_len();
    let mut out: Vec<String> = Vec::new();
    let mut i: usize = 0;
    while i < n
        invariant
            n == s@.len(),
            i <= n,
            out@.map_values(|t: String| t@) + tokens_from(s@, i as int) == tokens(s@),
        decreases n - i,
    {
        if is_blank_char(s.get_char(i)) {
            i += 1;
        } else {
            let mut j: usize = i + 1;
            while j < n
                invariant
                    n == s@.len(),
                    i < j <= n,
                    word_end(s@, i as int) == word_end(s@, j as int),
                ensures
                    i < j <= n,
                    word_end(s@, i as int) == j,
                decreases n - j,
            {
                if is_blank_char(s.get_char(j)) {
                    break;
                }
                j += 1;
            }
            let ghost before = out@.map_values(|t: String| t@);
            let word = String::from_str(s.substring_char(i, j));
            out.push(word);
            assert(out@.map_values(|t: String| t@) =~= before.push(s@.subrange(i as int, j as int)));
            assert(tokens_from(s@, i as int) == seq![s@.subrange(i as int, j as int)] + tokens_from(s@, j as int));
            assert(before + tokens_from(s@, i as int) =~= before.push(s@.subrange(i as int, j as int))
                + tokens_from(s@, j as int));
            i = j;
        }
    }
    assert(out@.map_values(|t: String| t@) =~= tokens(s@));
    out
}

/// Where the line that starts at `i` ends: the next newline, or the end.
pub open spec fn line_end(s: Seq<char>, i: int) -> int
    decreases s.len() - i,
{
    if i < 0 || i >= s.len() || s[i] == '\n' {
        i
    } else {
        line_end(s, i + 1)
    }
}

proof fn lemma_line_end_bounds(s: Seq<char>, i: int)
    requires
        0 <= i <= s.len(),
    ensures
        i <= line_end(s, i) <= s.len(),
    decreases s.len() - i,
{
    if i < s.len() && s[i] != '\n' {
        lemma_line_end_bounds(s, i + 1);
    }
}

/// The newline-terminated lines of `s` from position `i` on, without their
/// newlines; a last line without a newline counts too.
pub open spec fn lines_from(s: Seq<char>, i: int) -> Seq<Seq<char>>
    decreases s.len() + 1 - i,
    via lines_from_decreases
{
    if i < 0 || i >= s.len() {
        seq![]
    } else {
        seq![s.subrange(i, line_end(s, i))] + lines_from(s, line_end(s, i) + 1)
    }
}

#[via_fn]
proof fn lines_from_decreases(s: Seq<char>, i: int) {
    if 0 <= i < s.len() {
        lemma_line_end_bounds(s, i);
    }
}

/// The lines of `s`, in order.
pub open spec fn lines(s: Seq<char>) -> Seq<Seq<char>> {
    lines_from(s, 0)
}

/// Splits `s` into its lines.
pub fn split_lines(s: &str) -> (r: Vec<String>)
    ensures
        r@.map_values(|t: String| t@) == lines(s@),
{
    let n = s.unicode_len();
    let mut out: Vec<String> = Vec::new();
    let mut i: usize = 0;
    while i < n
        invariant
            n == s@.len(),
            i <= n,
            out@.map_values(|t: String| t@) + lines_from(s@, i as int) == lines(s@),
        decreases n - i,
    {
        let mut j: usize = i;
        while j < n
            invariant
                n == s@.len(),
                i <= j <= n,
                line_end(s@, i as int) == line_end(s@, j as int),
            ensures
                i <= j <= n,
                line_end(s@, i as int) == j,
            decreases n - j,
        {
            if s.get_char(j) == '\n' {
                break;
            }
            j += 1;
        }
        let ghost before = out@.map_values(|t: String| t@);
        let line = String::from_str(s.substring_char(i, j));
        out.push(line);
        assert(out@.map_values(|t: String| t@) =~= before.push(s@.subrange(i as int, j as int)));
        assert(before + lines_from(s@, i as int) =~= before.push(s@.subrange(i as int, j as int))
            + lines_from(s@, j + 1));
        if j < n {
            i = j + 1;
        } else {
            i = n;
        }
    }
    assert(out@.map_values(|t: String| t@) =~= lines(s@));
    out
}

/// A decimal digit.
pub open spec fn is_digit(c: char) -> bool {
    '0' <= c <= '9'
}

/// The value of the decimal digit `c`.
pub open spec fn digit_value(c: char) -> int {
    c as int - '0' as int
}

/// The number that the decimal digits `t` write.
pub open spec fn decimal_value(t: Seq<char>) -> int
    decreases t.len(),
{
    if t.len() == 0 {
        0
    } else {
        decimal_value(t.drop_last()) * 10 + digit_value(t.last())
    }
}

/// `t` is a non-empty run of decimal digits.
pub open spec fn is_decimal(t: Seq<char>) -> bool {
    t.len() > 0 && forall|i: int| 0 <= i < t.len() ==> is_digit(#[trigger] t[i])
}

/// `t` writes an unsigned 64-bit integer in decimal.
pub open spec fn is_u64_text(t: Seq<char>) -> bool {
    is_decimal(t) && decimal_value(t) <= u64::MAX
}

proof fn lemma_prefix_value_le(t: Seq<char>, k: int)
    requires
        0 <= k <= t.len(),
        forall|i: int| 0 <= i < t.len() ==> is_digit(#[trigger] t[i]),
    ensures
        0 <= decimal_value(t.take(k)) <= decimal_value(t),
    decreases t.len(),
{
    if k < t.len() {
        let u = t.drop_last();
        assert(forall|i: int| 0 <= i < u.len() ==> u[i] == t[i]);
        lemma_prefix_value_le(u, k);
        assert(u.take(k) =~= t.take(k));
        lemma_prefix_value_le(u, u.len() as int);
        assert(u.take(u.len() as int) =~= u);
        assert(is_digit(t[t.len() - 1]));
    } else {
        assert(t.take(k) =~= t);
        if t.len() > 0 {
            let u = t.drop_last();
            assert(forall|i: int| 0 <= i < u.len() ==> u[i] == t[i]);
            lemma_prefix_value_le(u, u.len() as int);
            assert(u.take(u.len() as int) =~= u);
            assert(is_digit(t[t.len() - 1]));
        }
    }
}

/// Reads `t` as an unsigned decimal integer; the error carries `t`.
pub fn parse_u64(t: &str) -> (r: Result<u64, ProbeError>)
    ensures
        is_u64_text(t@) ==> r is Ok && r->Ok_0 == decimal_value(t@),
        !is_u64_text(t@) ==> r is Err && r->Err_0 is ParseFailure && r->Err_0->ParseFailure_0@ == t@,
{
    let n = t.unicode_len();
    if n == 0 {
        return Err(ProbeError::ParseFailure(String::from_str(t)));
    }
    let mut v: u64 = 0;
    let mut i: usize = 0;
    while i < n
        invariant
            n == t@.len(),
            i <= n,
            forall|j: int| 0 <= j < i ==> is_digit(#[trigger] t@[j]),
            v == decimal_value(t@.take(i as int)),
        decreases n - i,
    {
        let c = t.get_char(i);
        if !('0' <= c && c <= '9') {
            return Err(ProbeError::ParseFailure(String::from_str(t)));
        }
        let d: u64 = (c as u32 - '0' as u32) as u64;
        assert(t@.take(i + 1).drop_last() =~= t@.take(i as int));
        if v > (u64::MAX - d) / 10 {
            proof {
                if is_decimal(t@) {
                    lemma_prefix_value_le(t@, i + 1);
                }
            }
            return Err(ProbeError::ParseFailure(String::from_str(t)));
        }
        v = v * 10 + d;
        i += 1;
    }
    assert(t@.take(n as int) =~= t@);
    Ok(v)
}

} // verus!

use vstd::prelude::*;
use vstd::string::*;

use crate::cpu::CpuStat;
use crate::error::ProbeError;
use crate::text::{decimal_value, is_u64_text, lines, parse_u64, split_lines, split_tokens, tokens};

verus! {

/// Nanoseconds in one clock tick, the unit of every counter.
pub const NANOS_PER_TICK: u64 = 10_000_000;

/// What reading a total-usage text gives: `UnexpectedContent` unless it holds
/// exactly one token; `ParseFailure` with that token where it is no unsigned
/// 64-bit integer; else the nanoseconds it writes, in whole ticks.
pub open spec fn usage_outcome(text: Seq<char>, r: Result<u64, ProbeError>) -> bool {
    let t = tokens(text);
    if t.len() != 1 {
        r is Err && r->Err_0 is UnexpectedContent
    } else if !is_u64_text(t[0]) {
        r is Err && r->Err_0 is ParseFailure && r->Err_0->ParseFailure_0@ == t[0]
    } else {
        r == Ok::<u64, ProbeError>((decimal_value(t[0]) / NANOS_PER_TICK as int) as u64)
    }
}

/// Reads the total CPU usage of an accounting group, given in nanoseconds,
/// as a number of ticks.
pub fn parse_cpuacct_usage(text: &str) -> (r: Result<u64, ProbeError>)
    ensures
        usage_outcome(text@, r),
{
    let words = split_tokens(text);
    if words.len() != 1 {
        return Err(ProbeError::UnexpectedContent(String::from_str("usage is not a single number")));
    }
    assert(words@.map_values(|w: String| w@)[0] == words@[0]@);
    let nanos = parse_u64(words[0].as_str())?;
    Ok(nanos / NANOS_PER_TICK)
}

/// The first token of `line` is `key`.
pub open spec fn has_key(line: Seq<char>, key: Seq<char>) -> bool {
    tokens(line).len() > 0 && tokens(line)[0] == key
}

/// The value of a key-value line: its second token, empty where it has none.
pub open spec fn value_text(line: Seq<char>) -> Seq<char> {
    if tokens(line).len() > 1 {
        tokens(line)[1]
    } else {
        seq![]
    }
}

/// The first line from `i` on whose key is `key`; the number of lines where
/// there is none.
pub open spec fn first_with_key(ls: Seq<Seq<char>>, key: Seq<char>, i: int) -> int
    decreases ls.len() - i,
{
    if i < 0 || i >= ls.len() {
        ls.len() as int
    } else if has_key(ls[i], key) {
        i
    } else {
        first_with_key(ls, key, i + 1)
    }
}

proof fn lemma_first_with_key_bounds(ls: Seq<Seq<char>>, key: Seq<char>, i: int)
    requires
        0 <= i <= ls.len(),
    ensures
        i <= first_with_key(ls, key, i) <= ls.len(),
        first_with_key(ls, key, i) < ls.len() ==> has_key(ls[first_with_key(ls, key, i)], key),
    decreases ls.len() - i,
{
    if i < ls.len() && !has_key(ls[i], key) {
        lemma_first_with_key_bounds(ls, key, i + 1);
    }
}

/// What reading an accounting stat text gives. Its lines are scanned in order
/// for the first `user` line and the first `system` line, and the scan stops
/// once both are seen: `ParseFailure` with the value of the first of them
/// whose value is no unsigned 64-bit integer; else `UnexpectedContent` where
/// one of them is missing; else the user and system counters, all others zero.
pub open spec fn cpuacct_stat_outcome(text: Seq<char>, r: Result<CpuStat, ProbeError>) -> bool {
    let ls = lines(text);
    let u = first_with_key(ls, "user"@, 0);
    let s = first_with_key(ls, "system"@, 0);
    let a = if u < s { u } else { s };
    let b = if u < s { s } else { u };
    if a < ls.len() && !is_u64_text(value_text(ls[a])) {
        r is Err && r->Err_0 is ParseFailure && r->Err_0->ParseFailure_0@ == value_text(ls[a])
    } else if b < ls.len() && !is_u64_text(value_text(ls[b])) {
        r is Err && r->Err_0 is ParseFailure && r->Err_0->ParseFailure_0@ == value_text(ls[b])
    } else if b >= ls.len() {
        r is Err && r->Err_0 is UnexpectedContent
    } else {
        r == Ok::<CpuStat, ProbeError>(
            CpuStat {
                user: decimal_value(value_text(ls[u])) as u64,
                nice: 0,
                system: decimal_value(value_text(ls[s])) as u64,
                idle: 0,
                iowait: 0,
                irq: 0,
                softirq: 0,
                steal: 0,
                guest: 0,
                guestnice: 0,
            },
        )
    }
}

/// Reads the value token of a key-value line.
fn parse_value(words: &Vec<String>) -> (r: Result<u64, ProbeError>)
    ensures
        is_u64_text(if words@.len() > 1 { words@[1]@ } else { seq![] }) ==> r is Ok && r->Ok_0
            == decimal_value(if words@.len() > 1 { words@[1]@ } else { seq![] }),
        !is_u64_text(if words@.len() > 1 { words@[1]@ } else { seq![] }) ==> r is Err && r->Err_0 is ParseFailure
            && r->Err_0->ParseFailure_0@ == (if words@.len() > 1 { words@[1]@ } else { seq![] }),
{
    if words.len() > 1 {
        parse_u64(words[1].as_str())
    } else {
        proof {
            reveal_strlit("");
        }
        assert(""@ =~= Seq::<char>::empty());
        parse_u64("")
    }
}

/// Reads the user and system counters of an accounting group from its
/// key-value stat text; every other counter is zero.
pub fn parse_cpuacct_stat(text: &str) -> (r: Result<CpuStat, ProbeError>)
    ensures
        cpuacct_stat_outcome(text@, r),
{
    let ls = split_lines(text);
    let ghost g = lines(text@);
    let ghost (gu, gs) = (first_with_key(g, "user"@, 0), first_with_key(g, "system"@, 0));
    let user_key = String::from_str("user");
    let system_key = String::from_str("system");
    proof {
        reveal_strlit("user");
        reveal_strlit("system");
        assert("user"@.len() != "system"@.len());
        assert(forall|i: int| 0 <= i < ls@.len() ==> ls@.map_values(|t: String| t@)[i] == ls@[i]@);
        lemma_first_with_key_bounds(g, "user"@, 0);
        lemma_first_with_key_bounds(g, "system"@, 0);
    }
    let mut user: Option<u64> = None;
    let mut system: Option<u64> = None;
    let mut i: usize = 0;
    while i < ls.len() && !(user.is_some() && system.is_some())
        invariant
            g == lines(text@),
            gu == first_with_key(g, "user"@, 0),
            gs == first_with_key(g, "system"@, 0),
            user_key@ == "user"@,
            system_key@ == "system"@,
            "user"@ != "system"@,
            ls@.len() == g.len(),
            forall|j: int| 0 <= j < g.len() ==> ls@[j]@ == g[j],
            i <= g.len(),
            user is None ==> gu == first_with_key(g, "user"@, i as int),
            user is Some ==> 0 <= gu < i && is_u64_text(value_text(g[gu])) && user->0 == decimal_value(value_text(g[gu])),
            system is None ==> gs == first_with_key(g, "system"@, i as int),
            system is Some ==> 0 <= gs < i && is_u64_text(value_text(g[gs])) && system->0 == decimal_value(
                value_text(g[gs]),
            ),
        decreases g.len() - i,
    {
        let words = split_tokens(ls[i].as_str());
        proof {
            assert(forall|j: int| 0 <= j < words@.len() ==> words@.map_values(|t: String| t@)[j] == words@[j]@);
            lemma_first_with_key_bounds(g, "user"@, i as int);
            lemma_first_with_key_bounds(g, "system"@, i as int);
        }
        if words.len() > 0 && user.is_none() && words[0] == user_key {
            assert(gu == i);
            user = Some(parse_value(&words)?);
        } else if words.len() > 0 && system.is_none() && words[0] == system_key {
            assert(gs == i);
            system = Some(parse_value(&words)?);
        }
        i += 1;
    }
    match (user, system) {
        (Some(u), Some(s)) => Ok(
            CpuStat {
                user: u,
                nice: 0,
                system: s,
                idle: 0,
                iowait: 0,
                irq: 0,
                softirq: 0,
                steal: 0,
                guest: 0,
                guestnice: 0,
            },
        ),
        _ => Err(ProbeError::UnexpectedContent(String::from_str("user or system time missing"))),
    }
}

} // verus!

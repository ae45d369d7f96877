use vstd::prelude::*;
use vstd::string::*;

use crate::cpu::CpuStat;
use crate::error::ProbeError;
use crate::text::{decimal_value, is_u64_text, parse_u64, split_tokens, tokens};

verus! {

/// The numeric fields of a host stat line: every token after the label.
pub open spec fn stat_fields(line: Seq<char>) -> Seq<Seq<char>> {
    let t = tokens(line);
    if t.len() == 0 {
        seq![]
    } else {
        t.drop_first()
    }
}

/// How many fields are read: at most ten, the rest is ignored.
pub open spec fn fields_read(f: Seq<Seq<char>>) -> int {
    if f.len() < 10 {
        f.len() as int
    } else {
        10
    }
}

/// Every field that is read writes an unsigned 64-bit integer.
pub open spec fn fields_parse(f: Seq<Seq<char>>) -> bool {
    forall|k: int| 0 <= k < fields_read(f) ==> is_u64_text(#[trigger] f[k])
}

/// The value of field `k`, zero where the line stops before it.
pub open spec fn field_value(f: Seq<Seq<char>>, k: int) -> int {
    if k < f.len() {
        decimal_value(f[k])
    } else {
        0
    }
}

/// Guest time is no more than the user time that includes it, and guest
/// nice time no more than the nice time.
pub open spec fn guest_within_user(f: Seq<Seq<char>>) -> bool {
    field_value(f, 8) <= field_value(f, 0) && field_value(f, 9) <= field_value(f, 1)
}

/// The counters that the fields give, with guest time taken out of user time
/// and guest nice time out of nice time.
pub open spec fn stat_from_fields(f: Seq<Seq<char>>) -> CpuStat {
    CpuStat {
        user: (field_value(f, 0) - field_value(f, 8)) as u64,
        nice: (field_value(f, 1) - field_value(f, 9)) as u64,
        system: field_value(f, 2) as u64,
        idle: field_value(f, 3) as u64,
        iowait: field_value(f, 4) as u64,
        irq: field_value(f, 5) as u64,
        softirq: field_value(f, 6) as u64,
        steal: field_value(f, 7) as u64,
        guest: field_value(f, 8) as u64,
        guestnice: field_value(f, 9) as u64,
    }
}

/// What reading a host stat line gives: `UnexpectedContent` with fewer than
/// five fields; else `ParseFailure` with the first of the fields read that is
/// no unsigned 64-bit integer; else `UnexpectedContent` where guest time
/// exceeds user time or guest nice time exceeds nice time; else the counters.
pub open spec fn stat_line_outcome(line: Seq<char>, r: Result<CpuStat, ProbeError>) -> bool {
    let f = stat_fields(line);
    if f.len() < 5 {
        r is Err && r->Err_0 is UnexpectedContent
    } else if !fields_parse(f) {
        exists|k: int|
            {
                &&& 0 <= k < fields_read(f)
                &&& !is_u64_text(#[trigger] f[k])
                &&& forall|j: int| 0 <= j < k ==> is_u64_text(#[trigger] f[j])
                &&& r is Err && r->Err_0 is ParseFailure
                &&& r->Err_0->ParseFailure_0@ == f[k]
            }
    } else if !guest_within_user(f) {
        r is Err && r->Err_0 is UnexpectedContent
    } else {
        r == Ok::<CpuStat, ProbeError>(stat_from_fields(f))
    }
}

/// Reads the counters from a host stat line: a label, then user, nice,
/// system, idle, iowait and optionally irq, softirq, steal, guest and
/// guestnice, separated by blanks.
pub fn parse_proc_stat(line: &str) -> (r: Result<CpuStat, ProbeError>)
    ensures
        stat_line_outcome(line@, r),
{
    let words = split_tokens(line);
    let ghost t = tokens(line@);
    let ghost f = stat_fields(line@);
    assert(forall|i: int| 0 <= i < words@.len() ==> words@[i]@ == t[i]) by {
        assert(forall|i: int| 0 <= i < words@.len() ==> words@.map_values(|w: String| w@)[i] == words@[i]@);
    }
    if words.len() < 6 {
        return Err(ProbeError::UnexpectedContent(String::from_str("incorrect number of stats")));
    }
    let read: usize = if words.len() - 1 < 10 { words.len() - 1 } else { 10 };
    let mut values: Vec<u64> = Vec::new();
    let mut k: usize = 0;
    while k < 10
        invariant
            words@.len() >= 6,
            f == stat_fields(line@),
            f.len() == words@.len() - 1,
            forall|i: int| 0 <= i < f.len() ==> f[i] == words@[i + 1]@,
            read == fields_read(f),
            k <= 10,
            values@.len() == k,
            forall|j: int| 0 <= j < k && j < read ==> is_u64_text(#[trigger] f[j]),
            forall|j: int| 0 <= j < k ==> values@[j] == field_value(f, j),
        decreases 10 - k,
    {
        if k < read {
            match parse_u64(words[k + 1].as_str()) {
                Ok(v) => values.push(v),
                Err(e) => {
                    assert(!is_u64_text(f[k as int]));
                    assert(e->ParseFailure_0@ == f[k as int]);
                    assert(!fields_parse(f));
                    return Err(e);
                },
            }
        } else {
            values.push(0);
        }
        k += 1;
    }
    if values[8] > values[0] || values[9] > values[1] {
        return Err(ProbeError::UnexpectedContent(String::from_str("guest time exceeds user time")));
    }
    Ok(
        CpuStat {
            user: values[0] - values[8],
            nice: values[1] - values[9],
            system: values[2],
            idle: values[3],
            iowait: values[4],
            irq: values[5],
            softirq: values[6],
            steal: values[7],
            guest: values[8],
            guestnice: values[9],
        },
    )
}

} // verus!

use probes::cpuacct::{parse_cpuacct_stat, parse_cpuacct_usage};
use probes::text::split_lines;
use probes::{CpuStat, ProbeError};

fn user_system(user: u64, system: u64) -> CpuStat {
    CpuStat {
        user,
        nice: 0,
        system,
        idle: 0,
        iowait: 0,
        irq: 0,
        softirq: 0,
        steal: 0,
        guest: 0,
        guestnice: 0,
    }
}

#[test]
fn usage_is_converted_to_ticks() {
    assert_eq!(parse_cpuacct_usage("152657213\n"), Ok(15));
    assert_eq!(parse_cpuacct_usage("9999999"), Ok(0));
    assert_eq!(parse_cpuacct_usage("  20000000  "), Ok(2));
}

#[test]
fn usage_errors() {
    assert!(matches!(parse_cpuacct_usage(""), Err(ProbeError::UnexpectedContent(_))));
    assert!(matches!(parse_cpuacct_usage("1 2"), Err(ProbeError::UnexpectedContent(_))));
    assert_eq!(parse_cpuacct_usage("12x\n"), Err(ProbeError::ParseFailure("12x".to_string())));
}

#[test]
fn accounting_stat_user_and_system() {
    assert_eq!(parse_cpuacct_stat("user 14934\nsystem 98\n"), Ok(user_system(14934, 98)));
    assert_eq!(parse_cpuacct_stat("system 98\nother 5\nuser 14934"), Ok(user_system(14934, 98)));
}

#[test]
fn accounting_stat_stops_once_both_are_seen() {
    assert_eq!(parse_cpuacct_stat("user 1\nuser 2\nsystem 3\nuser x\n"), Ok(user_system(1, 3)));
}

#[test]
fn accounting_stat_missing_key() {
    assert!(matches!(parse_cpuacct_stat("user 14934\n"), Err(ProbeError::UnexpectedContent(_))));
    assert!(matches!(parse_cpuacct_stat(""), Err(ProbeError::UnexpectedContent(_))));
}

#[test]
fn accounting_stat_bad_value() {
    assert_eq!(
        parse_cpuacct_stat("system abc\nuser 1\n"),
        Err(ProbeError::ParseFailure("abc".to_string()))
    );
    assert_eq!(parse_cpuacct_stat("user\nsystem 1\n"), Err(ProbeError::ParseFailure(String::new())));
    assert_eq!(parse_cpuacct_stat("other zz\nuser 1\nsystem 2\n"), Ok(user_system(1, 2)));
}

#[test]
fn splitting_into_lines() {
    assert_eq!(split_lines("a b\n\nc"), vec!["a b".to_string(), String::new(), "c".to_string()]);
    assert_eq!(split_lines("x\n"), vec!["x".to_string()]);
    assert!(split_lines("").is_empty());
}

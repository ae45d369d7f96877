use probes::cpu::NANOS_PER_MINUTE;
use probes::proc_stat::parse_proc_stat;
use probes::text::{parse_u64, split_tokens};
use probes::{CpuMeasurement, CpuStat, ProbeError};

fn uniform(v: u64) -> CpuStat {
    CpuStat {
        user: v,
        nice: v,
        system: v,
        idle: v,
        iowait: v,
        irq: v,
        softirq: v,
        steal: v,
        guest: v,
        guestnice: v,
    }
}

fn at(precise_time_ns: u64, stat: CpuStat) -> CpuMeasurement {
    CpuMeasurement { precise_time_ns, stat }
}

#[test]
fn interval_scales_to_reference_length() {
    let earlier = at(60_000_000_000, uniform(1000));
    let later = at(120_000_000_000, uniform(1006));
    assert_eq!(earlier.calculate_interval(&later, 30_000_000_000), Ok(uniform(3)));
    assert_eq!(earlier.calculate_interval(&later, NANOS_PER_MINUTE), Ok(uniform(6)));
    assert_eq!(earlier.calculate_interval(&later, 0), Ok(uniform(0)));
}

#[test]
fn interval_truncates_division() {
    let earlier = at(0, uniform(0));
    let later = at(7, uniform(1));
    // 1 * 60e9 / 7 = 8571428571.43...
    assert_eq!(earlier.calculate_per_minute(&later), Ok(uniform(8_571_428_571)));
}

#[test]
fn decreased_counter_is_named() {
    let earlier = at(60_000_000_000, uniform(1000));
    let mut stat = uniform(1000);
    stat.user = 900;
    let later = at(120_000_000_000, stat);
    assert_eq!(
        earlier.calculate_per_minute(&later),
        Err(ProbeError::UnexpectedContent("user decreased".to_string()))
    );
}

#[test]
fn first_faulty_counter_is_reported() {
    let earlier = at(1, uniform(1000));
    let mut stat = uniform(2000);
    stat.steal = 10;
    stat.guestnice = 10;
    let later = at(2, stat);
    assert_eq!(
        earlier.calculate_interval(&later, 1),
        Err(ProbeError::UnexpectedContent("steal decreased".to_string()))
    );
}

#[test]
fn scaled_increase_out_of_range() {
    let earlier = at(10, uniform(0));
    let mut stat = uniform(0);
    stat.iowait = u64::MAX;
    let later = at(11, stat);
    assert_eq!(
        earlier.calculate_per_minute(&later),
        Err(ProbeError::UnexpectedContent("iowait out of range".to_string()))
    );
    let wide = at(10 + NANOS_PER_MINUTE, stat);
    let mut expected = uniform(0);
    expected.iowait = u64::MAX;
    assert_eq!(earlier.calculate_per_minute(&wide), Ok(expected));
}

#[test]
fn equal_timestamps_are_invalid() {
    let earlier = at(5, uniform(1));
    let later = at(5, uniform(2));
    assert!(matches!(earlier.calculate_per_minute(&later), Err(ProbeError::InvalidInput(_))));
}

#[test]
fn unchanged_counters_give_zero_interval() {
    let earlier = at(5, uniform(77));
    let later = at(9, uniform(77));
    let r = earlier.calculate_per_minute(&later).unwrap();
    assert_eq!(r, uniform(0));
    assert_eq!(r.total(), 0);
}

#[test]
fn total_adds_all_categories() {
    let stat = CpuStat {
        user: 450,
        nice: 70,
        system: 100,
        idle: 100,
        iowait: 120,
        irq: 10,
        softirq: 20,
        steal: 50,
        guest: 50,
        guestnice: 30,
    };
    assert_eq!(stat.total(), 1000);
    assert_eq!(uniform(u64::MAX).total(), 10 * (u64::MAX as u128));
}

#[test]
fn host_stat_line_with_all_fields() {
    let stat = parse_proc_stat("cpu 8 2 7 6 5 4 3 1 2 1").unwrap();
    assert_eq!(
        stat,
        CpuStat {
            user: 6,
            nice: 1,
            system: 7,
            idle: 6,
            iowait: 5,
            irq: 4,
            softirq: 3,
            steal: 1,
            guest: 2,
            guestnice: 1,
        }
    );
}

#[test]
fn host_stat_line_ignores_fields_after_ten() {
    let stat = parse_proc_stat("  cpu\t1 2 3 4 5 6 7 8 0 0 junk more").unwrap();
    assert_eq!(
        stat,
        CpuStat {
            user: 1,
            nice: 2,
            system: 3,
            idle: 4,
            iowait: 5,
            irq: 6,
            softirq: 7,
            steal: 8,
            guest: 0,
            guestnice: 0,
        }
    );
}

#[test]
fn host_stat_line_too_short() {
    assert!(matches!(parse_proc_stat(""), Err(ProbeError::UnexpectedContent(_))));
    assert!(matches!(parse_proc_stat("cpu"), Err(ProbeError::UnexpectedContent(_))));
    assert!(matches!(parse_proc_stat("1 2 3 4 5"), Err(ProbeError::UnexpectedContent(_))));
}

#[test]
fn host_stat_line_first_bad_field_is_reported() {
    assert_eq!(
        parse_proc_stat("cpu 1 2 3 4 5 6 7 8 9 x1"),
        Err(ProbeError::ParseFailure("x1".to_string()))
    );
    assert_eq!(
        parse_proc_stat("cpu 1 -2 3 4 5 6 7 8 9 x1"),
        Err(ProbeError::ParseFailure("-2".to_string()))
    );
}

#[test]
fn host_stat_guest_above_user_is_rejected() {
    assert!(matches!(
        parse_proc_stat("cpu 1 2 3 4 5 0 0 0 2 0"),
        Err(ProbeError::UnexpectedContent(_))
    ));
    assert!(matches!(
        parse_proc_stat("cpu 5 2 3 4 5 0 0 0 2 3"),
        Err(ProbeError::UnexpectedContent(_))
    ));
}

#[test]
fn decimal_parsing() {
    assert_eq!(parse_u64("0"), Ok(0));
    assert_eq!(parse_u64("007"), Ok(7));
    assert_eq!(parse_u64("18446744073709551615"), Ok(u64::MAX));
    assert_eq!(
        parse_u64("18446744073709551616"),
        Err(ProbeError::ParseFailure("18446744073709551616".to_string()))
    );
    assert_eq!(parse_u64(""), Err(ProbeError::ParseFailure(String::new())));
    assert_eq!(parse_u64("+1"), Err(ProbeError::ParseFailure("+1".to_string())));
    assert_eq!(parse_u64("12a"), Err(ProbeError::ParseFailure("12a".to_string())));
}

#[test]
fn splitting_on_blanks() {
    assert_eq!(split_tokens(" a\tbc  d\n"), vec!["a".to_string(), "bc".to_string(), "d".to_string()]);
    assert!(split_tokens(" \t\n").is_empty());
    assert_eq!(split_tokens("é ü"), vec!["é".to_string(), "ü".to_string()]);
}

use omogenexec::cgroup::{cgroup_name, cpu_stat_nanos};
use omogenexec::monitor::{cpu_delta, next_backoff, setup_payload_ok, should_stop};

const MS: u64 = 1_000_000;
const SEC: u64 = 1_000_000_000;

#[test]
fn stop_on_wall_breach() {
    assert!(should_stop(0, 201 * MS, 10_000 * MS, 200 * MS));
    assert!(!should_stop(0, 200 * MS, 10_000 * MS, 200 * MS));
}

#[test]
fn stop_on_cpu_breach_only_past_grace() {
    let lim = 100 * MS;
    // one full second of grace past the limit
    assert!(!should_stop(lim + SEC, 0, lim, 10_000 * MS));
    assert!(should_stop(lim + SEC + 1, 0, lim, 10_000 * MS));
}

#[test]
fn backoff_doubles_and_caps() {
    assert_eq!(next_backoff(5), 10);
    assert_eq!(next_backoff(10), 20);
    assert_eq!(next_backoff(40), 80);
    assert_eq!(next_backoff(80), 100);
    assert_eq!(next_backoff(100), 100);
}

#[test]
fn delta_differences_and_clamps() {
    assert_eq!(cpu_delta(700, 200), 500);
    assert_eq!(cpu_delta(200, 200), 0);
    assert_eq!(cpu_delta(100, 200), 0);
}

#[test]
fn setup_payload_must_be_ok_exactly() {
    assert!(setup_payload_ok(&String::from("ok")));
    assert!(!setup_payload_ok(&String::from("err")));
    assert!(!setup_payload_ok(&String::from("ok ")));
    assert!(!setup_payload_ok(&String::from("")));
}

#[test]
fn cgroup_name_carries_id() {
    assert_eq!(cgroup_name(0), "omogen-0");
    assert_eq!(cgroup_name(42), "omogen-42");
    assert_eq!(cgroup_name(99), "omogen-99");
}

#[test]
fn cpu_stat_finds_usage_line() {
    let stat = b"usage_usec 2500\nuser_usec 2000\nsystem_usec 500\n";
    assert_eq!(cpu_stat_nanos(stat), Some(2_500_000));
}

#[test]
fn cpu_stat_usage_line_not_first() {
    let stat = b"nr_periods 0\nnr_throttled 0\nusage_usec 17\n";
    assert_eq!(cpu_stat_nanos(stat), Some(17_000));
}

#[test]
fn cpu_stat_without_usage_line() {
    let stat = b"user_usec 2000\nsystem_usec 500\n";
    assert_eq!(cpu_stat_nanos(stat), None);
}

#[test]
fn cpu_stat_malformed_value() {
    assert_eq!(cpu_stat_nanos(b"usage_usec abc\n"), None);
    assert_eq!(cpu_stat_nanos(b"usage_usec\n"), None);
    assert_eq!(cpu_stat_nanos(b""), None);
}

#[test]
fn cpu_stat_prefix_label_does_not_match() {
    // the first field must be exactly `usage_usec`
    assert_eq!(cpu_stat_nanos(b"usage_usecs 5\nusage_usec 7\n"), Some(7_000));
}

#[test]
fn cpu_stat_scaling_overflow_is_refused() {
    let stat = format!("usage_usec {}\n", u64::MAX);
    assert_eq!(cpu_stat_nanos(stat.as_bytes()), None);
}

#[test]
fn cpu_usage_parse_is_monotone() {
    // two successive counter readings keep their order through the parser
    let early = cpu_stat_nanos(b"usage_usec 100\n").unwrap();
    let late = cpu_stat_nanos(b"usage_usec 250\n").unwrap();
    assert!(late >= early);
    assert_eq!(cpu_delta(late, early), 150_000);
}

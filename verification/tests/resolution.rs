//! The limit resolver: schema precedence, node-before-root fallback, and
//! sentinel handling.

use systemcheck::limits::{
    get_cgroup_cpu_quota_for_path, get_cgroup_memory_limit_for_path,
    get_cgroup_memory_usage_for_path, read_cgroup_v1_cpu_quota, read_cgroup_v1_cpu_quota_for_path,
    read_cgroup_v2_cpu_quota_for_path, CpuLimit, V1_MEMORY_UNLIMITED,
};

#[test]
fn v2_quota_node_record_parses() {
    let r = read_cgroup_v2_cpu_quota_for_path(Some(b"100000 100000\n"), None);
    assert_eq!(r, Some(CpuLimit { quota: 100000, period: 100000 }));
}

#[test]
fn v2_quota_max_is_absent() {
    assert_eq!(read_cgroup_v2_cpu_quota_for_path(Some(b"max 100000\n"), None), None);
    assert_eq!(read_cgroup_v2_cpu_quota_for_path(None, Some(b"max 100000\n")), None);
}

#[test]
fn v2_quota_falls_back_to_root() {
    let r = read_cgroup_v2_cpu_quota_for_path(None, Some(b"50000 100000\n"));
    assert_eq!(r, Some(CpuLimit { quota: 50000, period: 100000 }));
    let r = read_cgroup_v2_cpu_quota_for_path(Some(b"max 100000\n"), Some(b"50000 100000\n"));
    assert_eq!(r, Some(CpuLimit { quota: 50000, period: 100000 }));
}

#[test]
fn v2_quota_node_wins_over_root() {
    let r = read_cgroup_v2_cpu_quota_for_path(Some(b"50000 100000\n"), Some(b"100000 100000\n"));
    assert_eq!(r, Some(CpuLimit { quota: 50000, period: 100000 }));
}

#[test]
fn v2_quota_unparseable_node_retries_root() {
    // a node record whose field fails to parse yields nothing at its tier,
    // so the root record is retried
    let r = read_cgroup_v2_cpu_quota_for_path(Some(b"abc 100000\n"), Some(b"50000 100000\n"));
    assert_eq!(r, Some(CpuLimit { quota: 50000, period: 100000 }));
    assert_eq!(read_cgroup_v2_cpu_quota_for_path(Some(b"abc 100000\n"), None), None);
}

#[test]
fn v2_quota_zero_period_is_not_a_ratio() {
    assert_eq!(read_cgroup_v2_cpu_quota_for_path(Some(b"100000 0\n"), None), None);
    let r = read_cgroup_v2_cpu_quota_for_path(Some(b"100000 0\n"), Some(b"50000 100000\n"));
    assert_eq!(r, Some(CpuLimit { quota: 50000, period: 100000 }));
}

#[test]
fn combined_quota_reaches_split_when_unified_yields_nothing() {
    let r = get_cgroup_cpu_quota_for_path(
        Some(b"abc 100000\n"),
        Some(b"max 100000\n"),
        Some(b"150000\n"),
        Some(b"100000\n"),
        None,
        None,
    );
    assert_eq!(r, Some(CpuLimit { quota: 150000, period: 100000 }));
}

#[test]
fn v1_quota_requires_positive_pair() {
    let r = read_cgroup_v1_cpu_quota(Some(b"150000\n"), Some(b"100000\n"));
    assert_eq!(r, Some(CpuLimit { quota: 150000, period: 100000 }));
    assert_eq!(read_cgroup_v1_cpu_quota(Some(b"-1\n"), Some(b"100000\n")), None);
    assert_eq!(read_cgroup_v1_cpu_quota(Some(b"0\n"), Some(b"100000\n")), None);
    assert_eq!(read_cgroup_v1_cpu_quota(Some(b"150000\n"), None), None);
    assert_eq!(read_cgroup_v1_cpu_quota(None, Some(b"100000\n")), None);
}

#[test]
fn v1_quota_node_wins_over_root() {
    let r = read_cgroup_v1_cpu_quota_for_path(
        Some(b"150000\n"),
        Some(b"100000\n"),
        Some(b"50000\n"),
        Some(b"100000\n"),
    );
    assert_eq!(r, Some(CpuLimit { quota: 150000, period: 100000 }));
}

#[test]
fn v1_quota_falls_back_to_root() {
    let r = read_cgroup_v1_cpu_quota_for_path(
        Some(b"-1\n"),
        Some(b"100000\n"),
        Some(b"50000\n"),
        Some(b"100000\n"),
    );
    assert_eq!(r, Some(CpuLimit { quota: 50000, period: 100000 }));
}

#[test]
fn combined_quota_prefers_unified_schema() {
    let r = get_cgroup_cpu_quota_for_path(
        Some(b"200000 100000\n"),
        None,
        Some(b"150000\n"),
        Some(b"100000\n"),
        None,
        None,
    );
    assert_eq!(r, Some(CpuLimit { quota: 200000, period: 100000 }));
}

#[test]
fn combined_quota_probes_split_schema_after_unified() {
    let r = get_cgroup_cpu_quota_for_path(
        Some(b"max 100000\n"),
        None,
        Some(b"150000\n"),
        Some(b"100000\n"),
        None,
        None,
    );
    assert_eq!(r, Some(CpuLimit { quota: 150000, period: 100000 }));
}

#[test]
fn memory_limit_first_tier_wins() {
    let r = get_cgroup_memory_limit_for_path(
        Some(b"1000\n"),
        Some(b"2000\n"),
        Some(b"3000\n"),
        Some(b"4000\n"),
    );
    assert_eq!(r, Some(1000));
}

#[test]
fn memory_limit_tiers_in_order() {
    let r = get_cgroup_memory_limit_for_path(None, Some(b"2000\n"), Some(b"3000\n"), None);
    assert_eq!(r, Some(2000));
    let r = get_cgroup_memory_limit_for_path(None, None, Some(b"3000\n"), Some(b"4000\n"));
    assert_eq!(r, Some(3000));
    let r = get_cgroup_memory_limit_for_path(None, None, None, Some(b"4000\n"));
    assert_eq!(r, Some(4000));
    assert_eq!(get_cgroup_memory_limit_for_path(None, None, None, None), None);
}

#[test]
fn memory_limit_unified_sentinels_absent() {
    assert_eq!(get_cgroup_memory_limit_for_path(Some(b"max\n"), None, None, None), None);
    assert_eq!(
        get_cgroup_memory_limit_for_path(Some(b"18446744073709551615\n"), None, None, None),
        None
    );
}

#[test]
fn memory_limit_split_sentinel_absent() {
    let sentinel = b"9223372036854771712\n";
    assert_eq!(get_cgroup_memory_limit_for_path(None, None, Some(sentinel), None), None);
    assert_eq!(get_cgroup_memory_limit_for_path(None, None, None, Some(sentinel)), None);
    // one byte below the sentinel is a real limit
    assert_eq!(
        get_cgroup_memory_limit_for_path(None, None, Some(b"9223372036854771711\n"), None),
        Some(V1_MEMORY_UNLIMITED - 1)
    );
}

#[test]
fn memory_limit_sentinel_tier_falls_through() {
    let r = get_cgroup_memory_limit_for_path(Some(b"max\n"), None, Some(b"268435456\n"), None);
    assert_eq!(r, Some(268435456));
}

#[test]
fn memory_usage_has_no_sentinel_filter() {
    let r = get_cgroup_memory_usage_for_path(Some(b"18446744073709551615\n"), None, None, None);
    assert_eq!(r, Some(u64::MAX));
    let r = get_cgroup_memory_usage_for_path(None, None, Some(b"9223372036854771712\n"), None);
    assert_eq!(r, Some(9223372036854771712));
}

#[test]
fn memory_usage_tiers_in_order() {
    let r = get_cgroup_memory_usage_for_path(Some(b"10\n"), Some(b"20\n"), Some(b"30\n"), Some(b"40\n"));
    assert_eq!(r, Some(10));
    let r = get_cgroup_memory_usage_for_path(None, Some(b"20\n"), None, None);
    assert_eq!(r, Some(20));
    let r = get_cgroup_memory_usage_for_path(None, None, None, None);
    assert_eq!(r, None);
    let r = get_cgroup_memory_usage_for_path(Some(b"garbage\n"), None, None, Some(b"40\n"));
    assert_eq!(r, Some(40));
}

//! End-to-end resolution scenarios over fabricated snapshots.

use systemcheck::classify::{classify, memory_constrained};
use systemcheck::hierarchy::HierarchyVersion;
use systemcheck::limits::CpuLimit;
use systemcheck::meminfo::get_system_memory_from_proc;
use systemcheck::snapshot::{resolve_snapshot, CgroupSnapshot};
use systemcheck::topology::{get_system_cpu_count, get_system_physical_cpu_count};

fn empty_snapshot() -> CgroupSnapshot<'static> {
    CgroupSnapshot {
        membership: None,
        v2_marker: false,
        v1_cpu_marker: false,
        v1_memory_marker: false,
        v2_cpu_max_node: None,
        v2_cpu_max_root: None,
        v1_cpu_quota_node: None,
        v1_cpu_period_node: None,
        v1_cpu_quota_root: None,
        v1_cpu_period_root: None,
        v2_memory_max_node: None,
        v2_memory_max_root: None,
        v1_memory_limit_node: None,
        v1_memory_limit_root: None,
        v2_memory_current_node: None,
        v2_memory_current_root: None,
        v1_memory_usage_node: None,
        v1_memory_usage_root: None,
    }
}

#[test]
fn host_without_any_hierarchy() {
    // no hierarchy mounts at all: version unknown, every hierarchy-scoped
    // value absent, ground truth still populated and nonzero
    let r = resolve_snapshot(&empty_snapshot());
    assert_eq!(r.version, HierarchyVersion::Unknown);
    assert_eq!(r.cgroup_path, Vec::<u8>::new());
    assert_eq!(r.cpu_quota, None);
    assert_eq!(r.memory_limit, None);
    assert_eq!(r.memory_usage, None);

    let cpuinfo = b"processor : 0\nphysical id : 0\ncore id : 0\nprocessor : 1\nphysical id : 0\ncore id : 1\n";
    let meminfo = b"MemTotal: 2097152 kB\nMemAvailable: 1048576 kB\n";
    assert!(get_system_cpu_count(Some(cpuinfo), 0) > 0);
    assert!(get_system_physical_cpu_count(Some(cpuinfo)) > 0);
    let (total, avail) = get_system_memory_from_proc(Some(meminfo));
    assert!(total > 0);
    assert!(avail > 0);
}

#[test]
fn unified_host_full_quota() {
    let mut s = empty_snapshot();
    s.v2_marker = true;
    s.membership = Some(b"0::/work\n");
    s.v2_cpu_max_node = Some(b"100000 100000\n");
    let r = resolve_snapshot(&s);
    assert_eq!(r.version, HierarchyVersion::V2);
    assert_eq!(r.cgroup_path, b"/work".to_vec());
    // 100000 / 100000 is exactly one CPU
    let q = r.cpu_quota.expect("quota must resolve");
    assert_eq!(q, CpuLimit { quota: 100000, period: 100000 });
    assert_eq!(q.quota, q.period);
    assert!((q.quota as f64 / q.period as f64 - 1.0).abs() < 1e-12);
}

#[test]
fn unified_host_memory_limit_constrains() {
    let mut s = empty_snapshot();
    s.v2_marker = true;
    s.membership = Some(b"0::/work\n");
    s.v2_memory_max_node = Some(b"536870912\n");
    let r = resolve_snapshot(&s);
    assert_eq!(r.memory_limit, Some(536870912));

    let meminfo = b"MemTotal: 2097152 kB\nMemAvailable: 1048576 kB\n";
    let (total, _) = get_system_memory_from_proc(Some(meminfo));
    assert_eq!(total, 2 * 1024 * 1024 * 1024);
    assert!(memory_constrained(r.memory_limit, total));
    let v = classify(4, 4, total, 1048576 * 1024, r.memory_limit);
    assert!(v.memory_constrained);
    assert!(!v.cpu_constrained);
}

#[test]
fn split_host_fractional_quota() {
    let mut s = empty_snapshot();
    s.v1_cpu_marker = true;
    s.v1_memory_marker = true;
    s.membership = Some(b"12:memory:/work\n");
    s.v1_cpu_quota_node = Some(b"150000\n");
    s.v1_cpu_period_node = Some(b"100000\n");
    let r = resolve_snapshot(&s);
    assert_eq!(r.version, HierarchyVersion::V1);
    assert_eq!(r.cgroup_path, b"/work".to_vec());
    // 150000 / 100000 is exactly one and a half CPUs
    let q = r.cpu_quota.expect("quota must resolve");
    assert_eq!(q, CpuLimit { quota: 150000, period: 100000 });
    assert_eq!(q.quota * 2, q.period * 3);
    assert!((q.quota as f64 / q.period as f64 - 1.5).abs() < 1e-12);
}

#[test]
fn node_values_win_over_root_values() {
    let mut s = empty_snapshot();
    s.v2_marker = true;
    s.v2_cpu_max_node = Some(b"50000 100000\n");
    s.v2_cpu_max_root = Some(b"100000 100000\n");
    s.v2_memory_max_node = Some(b"1000\n");
    s.v2_memory_max_root = Some(b"2000\n");
    s.v2_memory_current_node = Some(b"10\n");
    s.v2_memory_current_root = Some(b"20\n");
    let r = resolve_snapshot(&s);
    assert_eq!(r.cpu_quota, Some(CpuLimit { quota: 50000, period: 100000 }));
    assert_eq!(r.memory_limit, Some(1000));
    assert_eq!(r.memory_usage, Some(10));
}

#[test]
fn sentinel_limits_stay_absent_end_to_end() {
    let mut s = empty_snapshot();
    s.v2_marker = true;
    s.v2_memory_max_node = Some(b"max\n");
    s.v2_memory_max_root = Some(b"18446744073709551615\n");
    s.v1_memory_limit_node = Some(b"9223372036854771712\n");
    s.v1_memory_limit_root = Some(b"9223372036854775807\n");
    let r = resolve_snapshot(&s);
    assert_eq!(r.memory_limit, None);
}

#[test]
fn unchanged_snapshot_resolves_identically() {
    let mut s = empty_snapshot();
    s.v2_marker = true;
    s.membership = Some(b"0::/work\n");
    s.v2_cpu_max_node = Some(b"200000 100000\n");
    s.v2_memory_max_node = Some(b"268435456\n");
    s.v2_memory_current_node = Some(b"134217728\n");
    let a = resolve_snapshot(&s);
    let b = resolve_snapshot(&s);
    assert_eq!(a.version, b.version);
    assert_eq!(a.cgroup_path, b.cgroup_path);
    assert_eq!(a.cpu_quota, b.cpu_quota);
    assert_eq!(a.memory_limit, b.memory_limit);
    assert_eq!(a.memory_usage, b.memory_usage);
}

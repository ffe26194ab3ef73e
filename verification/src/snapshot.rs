//! One-shot resolution over a snapshot of the hierarchy's pseudo-files, and
//! the laws the resolution obeys: node values win over root values, a
//! no-limit sentinel never becomes a finite limit, and an unchanged
//! snapshot always resolves the same way.

use crate::hierarchy;
use crate::limits;
use crate::lit;
use crate::numbers;
use crate::text;
use vstd::prelude::*;

verus! {

/// Everything the resolvers read, captured at one instant: the process's
/// membership listing, the version markers, and the quota, limit and usage
/// files of both schemas at the node and at the root. An unreadable file is
/// `None`.
#[derive(Clone, Copy)]
pub struct CgroupSnapshot<'a> {
    pub membership: Option<&'a [u8]>,
    pub v2_marker: bool,
    pub v1_cpu_marker: bool,
    pub v1_memory_marker: bool,
    pub v2_cpu_max_node: Option<&'a [u8]>,
    pub v2_cpu_max_root: Option<&'a [u8]>,
    pub v1_cpu_quota_node: Option<&'a [u8]>,
    pub v1_cpu_period_node: Option<&'a [u8]>,
    pub v1_cpu_quota_root: Option<&'a [u8]>,
    pub v1_cpu_period_root: Option<&'a [u8]>,
    pub v2_memory_max_node: Option<&'a [u8]>,
    pub v2_memory_max_root: Option<&'a [u8]>,
    pub v1_memory_limit_node: Option<&'a [u8]>,
    pub v1_memory_limit_root: Option<&'a [u8]>,
    pub v2_memory_current_node: Option<&'a [u8]>,
    pub v2_memory_current_root: Option<&'a [u8]>,
    pub v1_memory_usage_node: Option<&'a [u8]>,
    pub v1_memory_usage_root: Option<&'a [u8]>,
}

/// The CPU quota a snapshot resolves to.
pub open spec fn snapshot_cpu_quota(s: CgroupSnapshot) -> Option<limits::CpuLimit> {
    limits::resolved_cpu_quota(
        s.v2_cpu_max_node,
        s.v2_cpu_max_root,
        s.v1_cpu_quota_node,
        s.v1_cpu_period_node,
        s.v1_cpu_quota_root,
        s.v1_cpu_period_root,
    )
}

/// The memory limit a snapshot resolves to.
pub open spec fn snapshot_memory_limit(s: CgroupSnapshot) -> Option<u64> {
    limits::resolved_memory_limit(
        s.v2_memory_max_node,
        s.v2_memory_max_root,
        s.v1_memory_limit_node,
        s.v1_memory_limit_root,
    )
}

/// The memory usage a snapshot resolves to.
pub open spec fn snapshot_memory_usage(s: CgroupSnapshot) -> Option<u64> {
    limits::resolved_memory_usage(
        s.v2_memory_current_node,
        s.v2_memory_current_root,
        s.v1_memory_usage_node,
        s.v1_memory_usage_root,
    )
}

/// What one invocation resolves from a snapshot.
pub struct ResolvedView {
    pub version: hierarchy::HierarchyVersion,
    pub cgroup_path: Vec<u8>,
    pub cpu_quota: Option<limits::CpuLimit>,
    pub memory_limit: Option<u64>,
    pub memory_usage: Option<u64>,
}

/// Resolve everything a snapshot determines: version, node path, CPU
/// quota, memory limit and memory usage, each pinned to its specification.
pub fn resolve_snapshot(s: &CgroupSnapshot) -> (r: ResolvedView)
    ensures
        r.version == hierarchy::version_of(s.v2_marker, s.v1_cpu_marker, s.v1_memory_marker),
        r.cgroup_path@ == hierarchy::cgroup_path_of(s.membership),
        r.cpu_quota == snapshot_cpu_quota(*s),
        r.memory_limit == snapshot_memory_limit(*s),
        r.memory_usage == snapshot_memory_usage(*s),
{
    ResolvedView {
        version: hierarchy::detect_hierarchy_version(
            s.v2_marker,
            s.v1_cpu_marker,
            s.v1_memory_marker,
        ),
        cgroup_path: hierarchy::get_current_cgroup_path(s.membership),
        cpu_quota: limits::get_cgroup_cpu_quota_for_path(
            s.v2_cpu_max_node,
            s.v2_cpu_max_root,
            s.v1_cpu_quota_node,
            s.v1_cpu_period_node,
            s.v1_cpu_quota_root,
            s.v1_cpu_period_root,
        ),
        memory_limit: limits::get_cgroup_memory_limit_for_path(
            s.v2_memory_max_node,
            s.v2_memory_max_root,
            s.v1_memory_limit_node,
            s.v1_memory_limit_root,
        ),
        memory_usage: limits::get_cgroup_memory_usage_for_path(
            s.v2_memory_current_node,
            s.v2_memory_current_root,
            s.v1_memory_usage_node,
            s.v1_memory_usage_root,
        ),
    }
}

/// A valid two-field record with a numeric, non-sentinel first field and a
/// nonzero period resolves to exactly the rational `q / p` its fields
/// parse to — rational equality, with no rounding anywhere — and decides
/// the whole CPU-quota resolution, whatever every other tier holds.
pub proof fn lemma_v2_quota_exact_ratio(
    node: &[u8],
    v2_root: Option<&[u8]>,
    v1_node_quota: Option<&[u8]>,
    v1_node_period: Option<&[u8]>,
    v1_root_quota: Option<&[u8]>,
    v1_root_period: Option<&[u8]>,
    q: i64,
    p: i64,
)
    requires
        limits::v2_quota_wellformed(node@),
        numbers::parsed_i64(text::ws_tokens(node@)[0]) == Some(q),
        numbers::parsed_i64(text::ws_tokens(node@)[1]) == Some(p),
        p != 0,
    ensures
        limits::resolved_v2_cpu_quota(Some(node), v2_root) == Some(
            limits::CpuLimit { quota: q, period: p },
        ),
        limits::resolved_cpu_quota(
            Some(node),
            v2_root,
            v1_node_quota,
            v1_node_period,
            v1_root_quota,
            v1_root_period,
        ) == Some(limits::CpuLimit { quota: q, period: p }),
{
}

/// A split-schema pair of positive numeric files yields exactly the
/// rational `q / p` the two files parse to, and decides the whole
/// CPU-quota resolution once the unified schema has yielded nothing.
pub proof fn lemma_v1_quota_exact_ratio(
    quota: &[u8],
    period: &[u8],
    v2_node: Option<&[u8]>,
    v2_root: Option<&[u8]>,
    v1_root_quota: Option<&[u8]>,
    v1_root_period: Option<&[u8]>,
    q: i64,
    p: i64,
)
    requires
        numbers::parsed_i64(text::trim(quota@)) == Some(q),
        numbers::parsed_i64(text::trim(period@)) == Some(p),
        q > 0,
        p > 0,
        limits::resolved_v2_cpu_quota(v2_node, v2_root) is None,
    ensures
        limits::v1_quota_value(Some(quota), Some(period)) == Some(
            limits::CpuLimit { quota: q, period: p },
        ),
        limits::resolved_cpu_quota(
            v2_node,
            v2_root,
            Some(quota),
            Some(period),
            v1_root_quota,
            v1_root_period,
        ) == Some(limits::CpuLimit { quota: q, period: p }),
{
}

/// A memory file reports "no limit" when its trimmed content is the
/// unified schema's token, or parses to a value at or above the given
/// numeric sentinel.
pub open spec fn reports_unlimited(c: Seq<u8>, sentinel: u64) -> bool {
    ||| text::trim(c) == lit::max_lit()
    ||| match numbers::parsed_u64(text::trim(c)) {
        Some(v) => v >= sentinel,
        None => false,
    }
}

/// The no-limit token never parses as a number.
proof fn lemma_max_token_unparseable()
    ensures
        numbers::parsed_u64(lit::max_lit()) is None,
{
    assert(!numbers::is_digit(lit::max_lit()[0]));
    assert(!numbers::all_digits(lit::max_lit()));
}

/// A file that reports "no limit" yields nothing at its tier.
proof fn lemma_unlimited_file_yields_none(c: Option<&[u8]>, sentinel: u64)
    requires
        c is Some ==> reports_unlimited(c.unwrap()@, sentinel),
    ensures
        limits::mem_limit_value(c, sentinel) is None,
{
    if c is Some && text::trim(c.unwrap()@) == lit::max_lit() {
        lemma_max_token_unparseable();
    }
}

/// When every tier's file reports its schema's no-limit sentinel (or is
/// unreadable), the resolved memory limit is absent — never a huge finite
/// number.
pub proof fn lemma_sentinel_limit_absent(
    v2_node: Option<&[u8]>,
    v2_root: Option<&[u8]>,
    v1_node: Option<&[u8]>,
    v1_root: Option<&[u8]>,
)
    requires
        v2_node is Some ==> reports_unlimited(v2_node.unwrap()@, u64::MAX),
        v2_root is Some ==> reports_unlimited(v2_root.unwrap()@, u64::MAX),
        v1_node is Some ==> reports_unlimited(v1_node.unwrap()@, limits::V1_MEMORY_UNLIMITED),
        v1_root is Some ==> reports_unlimited(v1_root.unwrap()@, limits::V1_MEMORY_UNLIMITED),
    ensures
        limits::resolved_memory_limit(v2_node, v2_root, v1_node, v1_root) is None,
{
    lemma_unlimited_file_yields_none(v2_node, u64::MAX);
    lemma_unlimited_file_yields_none(v2_root, u64::MAX);
    lemma_unlimited_file_yields_none(v1_node, limits::V1_MEMORY_UNLIMITED);
    lemma_unlimited_file_yields_none(v1_root, limits::V1_MEMORY_UNLIMITED);
}

/// A memory limit present at the node tier is never overridden by a root
/// tier, whatever the root files hold.
pub proof fn lemma_memory_limit_node_wins(
    v2_node: Option<&[u8]>,
    v2_root: Option<&[u8]>,
    v1_node: Option<&[u8]>,
    v1_root: Option<&[u8]>,
)
    requires
        limits::mem_limit_value(v2_node, u64::MAX) is Some,
    ensures
        limits::resolved_memory_limit(v2_node, v2_root, v1_node, v1_root)
            == limits::mem_limit_value(v2_node, u64::MAX),
{
}

/// A memory usage present at the node tier is never overridden by a root
/// tier.
pub proof fn lemma_memory_usage_node_wins(
    v2_node: Option<&[u8]>,
    v2_root: Option<&[u8]>,
    v1_node: Option<&[u8]>,
    v1_root: Option<&[u8]>,
)
    requires
        limits::mem_usage_value(v2_node) is Some,
    ensures
        limits::resolved_memory_usage(v2_node, v2_root, v1_node, v1_root)
            == limits::mem_usage_value(v2_node),
{
}

/// A ratio yielded at the unified node tier decides the unified resolution
/// by itself: the root record is never consulted.
pub proof fn lemma_v2_quota_node_wins(node: Option<&[u8]>, root: Option<&[u8]>)
    requires
        limits::v2_tier_value(node) is Some,
    ensures
        limits::resolved_v2_cpu_quota(node, root) == limits::v2_tier_value(node),
{
}

/// A positive quota pair at the split node tier decides the split
/// resolution by itself, whatever the root pair holds.
pub proof fn lemma_v1_quota_node_wins(
    node_quota: Option<&[u8]>,
    node_period: Option<&[u8]>,
    root_quota: Option<&[u8]>,
    root_period: Option<&[u8]>,
)
    requires
        limits::v1_quota_value(node_quota, node_period) is Some,
    ensures
        (if limits::v1_quota_value(node_quota, node_period) is Some {
            limits::v1_quota_value(node_quota, node_period)
        } else {
            limits::v1_quota_value(root_quota, root_period)
        }) == limits::v1_quota_value(node_quota, node_period),
{
}

/// Resolution is a pure function of the snapshot: two invocations against
/// an unchanged environment resolve to identical values.
pub proof fn lemma_resolution_idempotent(first: CgroupSnapshot, second: CgroupSnapshot)
    requires
        first == second,
    ensures
        snapshot_cpu_quota(first) == snapshot_cpu_quota(second),
        snapshot_memory_limit(first) == snapshot_memory_limit(second),
        snapshot_memory_usage(first) == snapshot_memory_usage(second),
        hierarchy::cgroup_path_of(first.membership) == hierarchy::cgroup_path_of(
            second.membership,
        ),
        hierarchy::version_of(first.v2_marker, first.v1_cpu_marker, first.v1_memory_marker)
            == hierarchy::version_of(second.v2_marker, second.v1_cpu_marker, second.v1_memory_marker),
{
}

} // verus!

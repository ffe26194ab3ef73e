//! The limit resolver: CPU quota, memory limit and memory usage for a
//! hierarchy node, with node-before-root fallback inside each schema and the
//! unified schema probed before the split one. Every tier degrades to the
//! next on a missing file, a malformed or unparseable record, or a
//! no-limit sentinel; no failure is fatal.

use crate::lit;
use crate::numbers;
use crate::text;
use vstd::prelude::*;

verus! {

/// The split schema reports this limit value when no memory cap is
/// configured; a reading at or above it means "unlimited".
pub const V1_MEMORY_UNLIMITED: u64 = 9223372036854771712;

/// A CPU quota as the exact rational `quota / period`: the node may run
/// `quota` microseconds in every `period`.
#[derive(Clone, Copy, Debug, PartialEq, Eq, Structural)]
pub struct CpuLimit {
    pub quota: i64,
    pub period: i64,
}

/// A unified quota record is usable when it has exactly two fields and the
/// first is not the no-limit sentinel.
pub open spec fn v2_quota_wellformed(c: Seq<u8>) -> bool {
    let toks = text::ws_tokens(c);
    toks.len() == 2 && toks[0] != lit::max_lit()
}

/// The finite ratio a usable unified quota record denotes: both fields
/// must parse, and a zero period denotes no finite rational at all.
pub open spec fn v2_quota_record(c: Seq<u8>) -> Option<CpuLimit> {
    let toks = text::ws_tokens(c);
    match (numbers::parsed_i64(toks[0]), numbers::parsed_i64(toks[1])) {
        (Some(q), Some(p)) => if p != 0 {
            Some(CpuLimit { quota: q, period: p })
        } else {
            None
        },
        _ => None,
    }
}

/// The ratio one unified tier yields: its file must be present, its record
/// usable, and both fields must parse to a finite ratio.
pub open spec fn v2_tier_value(c: Option<&[u8]>) -> Option<CpuLimit> {
    if c is Some && v2_quota_wellformed(c.unwrap()@) {
        v2_quota_record(c.unwrap()@)
    } else {
        None
    }
}

/// The unified-schema resolution: the node tier when it yields a ratio;
/// otherwise — on a missing file, a malformed or sentinel record, or
/// fields that fail to parse — the root tier is retried the same way.
pub open spec fn resolved_v2_cpu_quota(node: Option<&[u8]>, root: Option<&[u8]>) -> Option<
    CpuLimit,
> {
    if v2_tier_value(node) is Some {
        v2_tier_value(node)
    } else {
        v2_tier_value(root)
    }
}

/// Parse one unified quota record if it is usable and denotes a finite
/// ratio.
fn read_v2_quota_record(c: &[u8]) -> (r: Option<CpuLimit>)
    ensures
        r == v2_tier_value(Some(c)),
{
    let toks = text::split_ws_tokens(c);
    if toks.len() != 2 {
        return None;
    }
    proof {
        assert(toks.deep_view()[0] == toks@[0].deep_view());
        assert(toks@[0].deep_view() =~= toks@[0]@);
        assert(toks.deep_view()[1] == toks@[1].deep_view());
        assert(toks@[1].deep_view() =~= toks@[1]@);
    }
    let max_tok = lit::max_bytes();
    if text::bytes_eq(toks[0].as_slice(), max_tok.as_slice()) {
        return None;
    }
    let q = numbers::parse_i64(toks[0].as_slice());
    let p = numbers::parse_i64(toks[1].as_slice());
    match (q, p) {
        (Some(q), Some(p)) => {
            if p != 0 {
                Some(CpuLimit { quota: q, period: p })
            } else {
                None
            }
        },
        _ => None,
    }
}

/// Resolve the unified-schema CPU quota from the node's record, retrying
/// the root's whenever the node tier yields nothing.
pub fn read_cgroup_v2_cpu_quota_for_path(node: Option<&[u8]>, root: Option<&[u8]>) -> (r: Option<
    CpuLimit,
>)
    ensures
        r == resolved_v2_cpu_quota(node, root),
{
    if let Some(c) = node {
        let v = read_v2_quota_record(c);
        if v.is_some() {
            return v;
        }
    }
    if let Some(c) = root {
        let v = read_v2_quota_record(c);
        if v.is_some() {
            return v;
        }
    }
    None
}

/// The ratio one split-schema tier denotes: both of its files must be
/// present, parse as integers after trimming, and be strictly positive.
pub open spec fn v1_quota_value(quota: Option<&[u8]>, period: Option<&[u8]>) -> Option<CpuLimit> {
    if quota is Some && period is Some {
        match (
            numbers::parsed_i64(text::trim(quota.unwrap()@)),
            numbers::parsed_i64(text::trim(period.unwrap()@)),
        ) {
            (Some(q), Some(p)) => if q > 0 && p > 0 {
                Some(CpuLimit { quota: q, period: p })
            } else {
                None
            },
            _ => None,
        }
    } else {
        None
    }
}

/// Resolve the split-schema CPU quota from the root's pair of files alone.
pub fn read_cgroup_v1_cpu_quota(root_quota: Option<&[u8]>, root_period: Option<&[u8]>) -> (r:
    Option<CpuLimit>)
    ensures
        r == v1_quota_value(root_quota, root_period),
{
    if let (Some(qc), Some(pc)) = (root_quota, root_period) {
        let qt = text::trim_bytes(qc);
        let pt = text::trim_bytes(pc);
        match (numbers::parse_i64(qt.as_slice()), numbers::parse_i64(pt.as_slice())) {
            (Some(q), Some(p)) => {
                if q > 0 && p > 0 {
                    Some(CpuLimit { quota: q, period: p })
                } else {
                    None
                }
            },
            _ => None,
        }
    } else {
        None
    }
}

/// Resolve the split-schema CPU quota: the node's pair of files when they
/// yield a positive ratio, else the root's pair.
pub fn read_cgroup_v1_cpu_quota_for_path(
    node_quota: Option<&[u8]>,
    node_period: Option<&[u8]>,
    root_quota: Option<&[u8]>,
    root_period: Option<&[u8]>,
) -> (r: Option<CpuLimit>)
    ensures
        r == (if v1_quota_value(node_quota, node_period) is Some {
            v1_quota_value(node_quota, node_period)
        } else {
            v1_quota_value(root_quota, root_period)
        }),
{
    let node = read_cgroup_v1_cpu_quota(node_quota, node_period);
    if node.is_some() {
        node
    } else {
        read_cgroup_v1_cpu_quota(root_quota, root_period)
    }
}

/// The fully resolved CPU quota: what the unified schema yields if
/// anything, else what the split schema yields.
pub open spec fn resolved_cpu_quota(
    v2_node: Option<&[u8]>,
    v2_root: Option<&[u8]>,
    v1_node_quota: Option<&[u8]>,
    v1_node_period: Option<&[u8]>,
    v1_root_quota: Option<&[u8]>,
    v1_root_period: Option<&[u8]>,
) -> Option<CpuLimit> {
    if resolved_v2_cpu_quota(v2_node, v2_root) is Some {
        resolved_v2_cpu_quota(v2_node, v2_root)
    } else if v1_quota_value(v1_node_quota, v1_node_period) is Some {
        v1_quota_value(v1_node_quota, v1_node_period)
    } else {
        v1_quota_value(v1_root_quota, v1_root_period)
    }
}

/// Resolve the CPU quota, probing the unified schema first and the split
/// schema after it, node before root within each.
pub fn get_cgroup_cpu_quota_for_path(
    v2_node: Option<&[u8]>,
    v2_root: Option<&[u8]>,
    v1_node_quota: Option<&[u8]>,
    v1_node_period: Option<&[u8]>,
    v1_root_quota: Option<&[u8]>,
    v1_root_period: Option<&[u8]>,
) -> (r: Option<CpuLimit>)
    ensures
        r == resolved_cpu_quota(
            v2_node,
            v2_root,
            v1_node_quota,
            v1_node_period,
            v1_root_quota,
            v1_root_period,
        ),
{
    let v2 = read_cgroup_v2_cpu_quota_for_path(v2_node, v2_root);
    if v2.is_some() {
        return v2;
    }
    read_cgroup_v1_cpu_quota_for_path(v1_node_quota, v1_node_period, v1_root_quota, v1_root_period)
}

/// The byte count one memory file reports, if its trimmed content parses
/// and falls below the schema's no-limit sentinel.
pub open spec fn mem_limit_value(c: Option<&[u8]>, sentinel: u64) -> Option<u64> {
    match c {
        Some(c) => match numbers::parsed_u64(text::trim(c@)) {
            Some(v) => if v < sentinel {
                Some(v)
            } else {
                None
            },
            None => None,
        },
        None => None,
    }
}

/// Parse one memory-limit file against its schema's sentinel.
fn read_mem_limit_file(c: Option<&[u8]>, sentinel: u64) -> (r: Option<u64>)
    ensures
        r == mem_limit_value(c, sentinel),
{
    match c {
        Some(c) => {
            let t = text::trim_bytes(c);
            match numbers::parse_u64(t.as_slice()) {
                Some(v) => {
                    if v < sentinel {
                        Some(v)
                    } else {
                        None
                    }
                },
                None => None,
            }
        },
        None => None,
    }
}

/// The fully resolved memory limit: the first of the four tiers — unified
/// node, unified root, split node, split root — whose file parses below its
/// schema's sentinel.
pub open spec fn resolved_memory_limit(
    v2_node: Option<&[u8]>,
    v2_root: Option<&[u8]>,
    v1_node: Option<&[u8]>,
    v1_root: Option<&[u8]>,
) -> Option<u64> {
    if mem_limit_value(v2_node, u64::MAX) is Some {
        mem_limit_value(v2_node, u64::MAX)
    } else if mem_limit_value(v2_root, u64::MAX) is Some {
        mem_limit_value(v2_root, u64::MAX)
    } else if mem_limit_value(v1_node, V1_MEMORY_UNLIMITED) is Some {
        mem_limit_value(v1_node, V1_MEMORY_UNLIMITED)
    } else {
        mem_limit_value(v1_root, V1_MEMORY_UNLIMITED)
    }
}

/// Resolve the memory limit through the four-tier fallback chain; a
/// sentinel reading counts as no limit, never as a huge finite one.
pub fn get_cgroup_memory_limit_for_path(
    v2_node: Option<&[u8]>,
    v2_root: Option<&[u8]>,
    v1_node: Option<&[u8]>,
    v1_root: Option<&[u8]>,
) -> (r: Option<u64>)
    ensures
        r == resolved_memory_limit(v2_node, v2_root, v1_node, v1_root),
{
    let v = read_mem_limit_file(v2_node, u64::MAX);
    if v.is_some() {
        return v;
    }
    let v = read_mem_limit_file(v2_root, u64::MAX);
    if v.is_some() {
        return v;
    }
    let v = read_mem_limit_file(v1_node, V1_MEMORY_UNLIMITED);
    if v.is_some() {
        return v;
    }
    read_mem_limit_file(v1_root, V1_MEMORY_UNLIMITED)
}

/// The byte count one memory-usage file reports: any parsed integer is
/// accepted.
pub open spec fn mem_usage_value(c: Option<&[u8]>) -> Option<u64> {
    match c {
        Some(c) => numbers::parsed_u64(text::trim(c@)),
        None => None,
    }
}

/// The fully resolved memory usage: the first of the four tiers whose file
/// parses.
pub open spec fn resolved_memory_usage(
    v2_node: Option<&[u8]>,
    v2_root: Option<&[u8]>,
    v1_node: Option<&[u8]>,
    v1_root: Option<&[u8]>,
) -> Option<u64> {
    if mem_usage_value(v2_node) is Some {
        mem_usage_value(v2_node)
    } else if mem_usage_value(v2_root) is Some {
        mem_usage_value(v2_root)
    } else if mem_usage_value(v1_node) is Some {
        mem_usage_value(v1_node)
    } else {
        mem_usage_value(v1_root)
    }
}

/// Parse one memory-usage file.
fn read_mem_usage_file(c: Option<&[u8]>) -> (r: Option<u64>)
    ensures
        r == mem_usage_value(c),
{
    match c {
        Some(c) => {
            let t = text::trim_bytes(c);
            numbers::parse_u64(t.as_slice())
        },
        None => None,
    }
}

/// Resolve the current memory usage through the same four-tier fallback
/// chain as the limit, with no sentinel filtering.
pub fn get_cgroup_memory_usage_for_path(
    v2_node: Option<&[u8]>,
    v2_root: Option<&[u8]>,
    v1_node: Option<&[u8]>,
    v1_root: Option<&[u8]>,
) -> (r: Option<u64>)
    ensures
        r == resolved_memory_usage(v2_node, v2_root, v1_node, v1_root),
{
    let v = read_mem_usage_file(v2_node);
    if v.is_some() {
        return v;
    }
    let v = read_mem_usage_file(v2_root);
    if v.is_some() {
        return v;
    }
    let v = read_mem_usage_file(v1_node);
    if v.is_some() {
        return v;
    }
    read_mem_usage_file(v1_root)
}

} // verus!

//! The constraint classifier: pure decisions over resolved values — whether
//! CPU or memory is actually constrained, how much memory is used — plus the
//! advisory heuristics about default user-session nodes and explicitly
//! configured limits.

use crate::limits;
use crate::lit;
use crate::numbers;
use crate::text;
use vstd::prelude::*;

verus! {

/// The path shape of an unconfigured login-session node under a per-user
/// slice.
pub open spec fn default_user_slice_path(path: Seq<u8>) -> bool {
    text::has_prefix(path, lit::user_slice_prefix_lit()) && text::contains_seq(
        path,
        lit::session_marker_lit(),
    )
}

/// Whether `cgroup_path` looks like a default, unconfigured user session:
/// it sits under a per-user slice and names a login-session scope.
pub fn is_default_user_slice_path(cgroup_path: &[u8]) -> (r: bool)
    ensures
        r == default_user_slice_path(cgroup_path@),
{
    let prefix = lit::user_slice_prefix_bytes();
    let marker = lit::session_marker_bytes();
    text::starts_with(cgroup_path, prefix.as_slice()) && text::contains_bytes(
        cgroup_path,
        marker.as_slice(),
    )
}

/// Two readable, nonempty processor-set files that disagree after trimming:
/// the node is pinned to a different set than the root.
pub open spec fn cpuset_differs(node: Option<&[u8]>, root: Option<&[u8]>) -> bool {
    node is Some && root is Some && {
        let n = text::trim(node.unwrap()@);
        let r = text::trim(root.unwrap()@);
        n.len() > 0 && r.len() > 0 && n != r
    }
}

/// The node-scoped files whose mere configuration the advisory check looks
/// at: which schema is active, and the node's quota, memory and
/// processor-set files under that schema (with the root's processor set for
/// comparison).
#[derive(Clone, Copy)]
pub struct LimitProbe<'a> {
    pub v2_marker: bool,
    pub v2_cpu_max_node: Option<&'a [u8]>,
    pub v2_memory_max_node: Option<&'a [u8]>,
    pub v2_cpuset_node: Option<&'a [u8]>,
    pub v2_cpuset_root: Option<&'a [u8]>,
    pub v1_cpu_quota_node: Option<&'a [u8]>,
    pub v1_cpu_period_node: Option<&'a [u8]>,
    pub v1_memory_limit_node: Option<&'a [u8]>,
    pub v1_cpuset_node: Option<&'a [u8]>,
    pub v1_cpuset_root: Option<&'a [u8]>,
}

/// Under the unified schema, a node carries explicit limits when its quota
/// record is usable, its memory file reports anything but the no-limit
/// token, or its processor set differs from the root's.
pub open spec fn explicit_limits_v2(probe: LimitProbe) -> bool {
    ||| probe.v2_cpu_max_node is Some && limits::v2_quota_wellformed(
        probe.v2_cpu_max_node.unwrap()@,
    )
    ||| probe.v2_memory_max_node is Some && text::trim(probe.v2_memory_max_node.unwrap()@)
        != lit::max_lit()
    ||| cpuset_differs(probe.v2_cpuset_node, probe.v2_cpuset_root)
}

/// Under the split schema, a node carries explicit limits when its quota
/// pair yields a positive ratio, its memory limit parses below the
/// unlimited sentinel, or its processor set differs from the root's.
pub open spec fn explicit_limits_v1(probe: LimitProbe) -> bool {
    ||| limits::v1_quota_value(probe.v1_cpu_quota_node, probe.v1_cpu_period_node) is Some
    ||| limits::mem_limit_value(probe.v1_memory_limit_node, limits::V1_MEMORY_UNLIMITED) is Some
    ||| cpuset_differs(probe.v1_cpuset_node, probe.v1_cpuset_root)
}

/// Whether any explicit limit is configured at the node the probe reflects:
/// the unified schema's checks when its marker is present, the split
/// schema's otherwise.
pub open spec fn explicit_limits(probe: LimitProbe) -> bool {
    if probe.v2_marker {
        explicit_limits_v2(probe)
    } else {
        explicit_limits_v1(probe)
    }
}

/// Whether the trimmed contents of two processor-set files are both
/// nonempty and differ.
fn cpuset_differs_exec(node: Option<&[u8]>, root: Option<&[u8]>) -> (r: bool)
    ensures
        r == cpuset_differs(node, root),
{
    match (node, root) {
        (Some(n), Some(ro)) => {
            let nt = text::trim_bytes(n);
            let rt = text::trim_bytes(ro);
            nt.len() > 0 && rt.len() > 0 && !text::bytes_eq(nt.as_slice(), rt.as_slice())
        },
        _ => false,
    }
}

/// Decide whether the probed node carries any explicit CPU, memory or
/// processor-set limit of its own; advisory only.
pub fn has_explicit_limits_at_path(probe: &LimitProbe) -> (r: bool)
    ensures
        r == explicit_limits(*probe),
{
    if probe.v2_marker {
        if let Some(c) = probe.v2_cpu_max_node {
            let toks = text::split_ws_tokens(c);
            proof {
                if toks@.len() > 0 {
                    assert(toks.deep_view()[0] == toks@[0].deep_view());
                    assert(toks@[0].deep_view() =~= toks@[0]@);
                }
            }
            let max_tok = lit::max_bytes();
            if toks.len() == 2 && !text::bytes_eq(toks[0].as_slice(), max_tok.as_slice()) {
                return true;
            }
        }
        if let Some(c) = probe.v2_memory_max_node {
            let t = text::trim_bytes(c);
            let max_tok = lit::max_bytes();
            if !text::bytes_eq(t.as_slice(), max_tok.as_slice()) {
                return true;
            }
        }
        cpuset_differs_exec(probe.v2_cpuset_node, probe.v2_cpuset_root)
    } else {
        let quota = limits::read_cgroup_v1_cpu_quota(
            probe.v1_cpu_quota_node,
            probe.v1_cpu_period_node,
        );
        if quota.is_some() {
            return true;
        }
        let mut limited = false;
        if let Some(c) = probe.v1_memory_limit_node {
            let t = text::trim_bytes(c);
            match numbers::parse_u64(t.as_slice()) {
                Some(v) => {
                    if v < limits::V1_MEMORY_UNLIMITED {
                        limited = true;
                    }
                },
                None => {},
            }
        }
        if limited {
            return true;
        }
        cpuset_differs_exec(probe.v1_cpuset_node, probe.v1_cpuset_root)
    }
}

/// System memory in use: total less available, and zero — never an
/// underflow — should a momentarily skewed reading put available above
/// total.
pub fn used_bytes(total: u64, available: u64) -> (r: u64)
    ensures
        r == if available <= total {
            total - available
        } else {
            0
        },
        r <= total,
{
    if available <= total {
        total - available
    } else {
        0
    }
}

/// Whether the process may schedule onto fewer CPUs than the machine has.
pub fn cpu_constrained(available_cpus: usize, system_logical_cpus: usize) -> (r: bool)
    ensures
        r == (available_cpus < system_logical_cpus),
{
    available_cpus < system_logical_cpus
}

/// Whether a resolved memory limit actually binds: present and strictly
/// below the system total. Absent means unconstrained, whatever the total;
/// a limit equal to the total does not constrain.
pub fn memory_constrained(limit: Option<u64>, total_bytes: u64) -> (r: bool)
    ensures
        r == (limit is Some && limit.unwrap() < total_bytes),
{
    match limit {
        Some(l) => l < total_bytes,
        None => false,
    }
}

/// What the classifier decides about the current process.
#[derive(Clone, Copy, Debug, PartialEq, Eq, Structural)]
pub struct ConstraintVerdict {
    pub cpu_constrained: bool,
    pub memory_constrained: bool,
    pub used_bytes: u64,
}

/// Combine ground truth and resolved limits into the constraint verdict.
pub fn classify(
    system_logical_cpus: usize,
    available_cpus: usize,
    total_bytes: u64,
    available_bytes: u64,
    memory_limit: Option<u64>,
) -> (v: ConstraintVerdict)
    ensures
        v.cpu_constrained == (available_cpus < system_logical_cpus),
        v.memory_constrained == (memory_limit is Some && memory_limit.unwrap() < total_bytes),
        v.used_bytes == if available_bytes <= total_bytes {
            total_bytes - available_bytes
        } else {
            0
        },
{
    ConstraintVerdict {
        cpu_constrained: cpu_constrained(available_cpus, system_logical_cpus),
        memory_constrained: memory_constrained(memory_limit, total_bytes),
        used_bytes: used_bytes(total_bytes, available_bytes),
    }
}

} // verus!

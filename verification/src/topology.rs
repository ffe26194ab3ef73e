//! Ground-truth CPU topology from the kernel's processor listing: the
//! logical count is the number of per-CPU records, the physical count the
//! number of distinct package/core pairs; each falls back to the runtime's
//! own counts when the listing yields nothing.

use crate::lit;
use crate::text::lines_opt;
use crate::numbers;
use crate::text;
use vstd::prelude::*;
use vstd::seq_lib::group_seq_lib_default;

verus! {

/// Relies on `num_cpus::get`: the runtime's affinity-aware logical CPU
/// count, documented to always be at least one.
#[verifier::external_body]
pub(crate) fn runtime_cpu_count() -> (r: usize)
    ensures
        r >= 1,
{
    num_cpus::get()
}

/// Relies on `num_cpus::get_physical`: the runtime's physical core count,
/// documented to always be at least one.
#[verifier::external_body]
pub(crate) fn runtime_physical_cpu_count() -> (r: usize)
    ensures
        r >= 1,
{
    num_cpus::get_physical()
}

/// How many of the lines carry `prefix`.
pub open spec fn count_prefixed(ls: Seq<Seq<u8>>, prefix: Seq<u8>) -> nat
    decreases ls.len(),
{
    if ls.len() == 0 {
        0
    } else {
        count_prefixed(ls.drop_last(), prefix) + if text::has_prefix(ls.last(), prefix) {
            1nat
        } else {
            0nat
        }
    }
}

/// No more lines can carry the prefix than there are lines.
pub proof fn lemma_count_prefixed_le(ls: Seq<Seq<u8>>, prefix: Seq<u8>)
    ensures
        count_prefixed(ls, prefix) <= ls.len(),
    decreases ls.len(),
{
    if ls.len() > 0 {
        lemma_count_prefixed_le(ls.drop_last(), prefix);
    }
}

/// Count the lines of `lines` that start with `prefix`.
fn count_prefixed_lines(lines: &Vec<Vec<u8>>, prefix: &[u8]) -> (r: usize)
    ensures
        r == count_prefixed(lines.deep_view(), prefix@),
{
    let ghost ls = lines.deep_view();
    let mut r: usize = 0;
    let mut k: usize = 0;
    proof {
        assert(ls.subrange(0, 0) =~= Seq::<Seq<u8>>::empty());
    }
    while k < lines.len()
        invariant
            k <= lines@.len(),
            ls == lines.deep_view(),
            ls.len() == lines@.len(),
            r == count_prefixed(ls.subrange(0, k as int), prefix@),
            r <= k,
        decreases lines@.len() - k,
    {
        proof {
            assert(ls[k as int] == lines@[k as int].deep_view());
            assert(lines@[k as int].deep_view() =~= lines@[k as int]@);
            assert(ls.subrange(0, k + 1).drop_last() =~= ls.subrange(0, k as int));
            assert(ls.subrange(0, k + 1).last() == ls[k as int]);
            lemma_count_prefixed_le(ls.subrange(0, k as int), prefix@);
        }
        if text::starts_with(lines[k].as_slice(), prefix) {
            r = r + 1;
        }
        k = k + 1;
    }
    proof {
        assert(ls.subrange(0, ls.len() as int) =~= ls);
    }
    r
}

/// The number the listing attaches to an identifier line: the second
/// colon-separated field, trimmed and parsed as the runtime would parse a
/// machine-word integer.
pub open spec fn id_field(line: Seq<u8>) -> Option<u64> {
    let fields = text::split_on_byte(line, 58);
    if fields.len() >= 2 {
        match numbers::parsed_u64(text::trim(fields[1])) {
            Some(v) => if v <= usize::MAX {
                Some(v)
            } else {
                None
            },
            None => None,
        }
    } else {
        None
    }
}

/// Second colon-separated field of `line`, trimmed and parsed.
fn parse_id_field(line: &[u8]) -> (r: Option<u64>)
    ensures
        r == id_field(line@),
{
    let fields = text::split_on_sep(line, 58);
    if fields.len() >= 2 {
        proof {
            assert(fields.deep_view()[1] == fields@[1].deep_view());
            assert(fields@[1].deep_view() =~= fields@[1]@);
        }
        let trimmed = text::trim_bytes(fields[1].as_slice());
        match numbers::parse_u64(trimmed.as_slice()) {
            Some(v) => {
                if v <= usize::MAX as u64 {
                    Some(v)
                } else {
                    None
                }
            },
            None => None,
        }
    } else {
        None
    }
}

/// The distinct package/core pairs named by the listing, walked front to
/// back: a package-identifier line sets the pair's first half (clearing it
/// when unparseable), and a core-identifier line under a known package
/// contributes a pair.
pub open spec fn core_pairs(ls: Seq<Seq<u8>>, cur: Option<u64>) -> Set<(u64, u64)>
    decreases ls.len(),
{
    if ls.len() == 0 {
        Set::empty()
    } else {
        let l = ls[0];
        let rest = ls.drop_first();
        if text::has_prefix(l, lit::physical_id_lit()) {
            core_pairs(rest, id_field(l))
        } else if text::has_prefix(l, lit::core_id_lit()) && cur is Some && id_field(l) is Some {
            core_pairs(rest, cur).insert((cur.unwrap(), id_field(l).unwrap()))
        } else {
            core_pairs(rest, cur)
        }
    }
}

/// The pair set is finite: the listing is.
pub proof fn lemma_core_pairs_finite(ls: Seq<Seq<u8>>, cur: Option<u64>)
    ensures
        core_pairs(ls, cur).finite(),
    decreases ls.len(),
{
    if ls.len() > 0 {
        let l = ls[0];
        let rest = ls.drop_first();
        if text::has_prefix(l, lit::physical_id_lit()) {
            lemma_core_pairs_finite(rest, id_field(l));
        } else {
            lemma_core_pairs_finite(rest, cur);
        }
    }
}

/// Whether `seen` already holds the pair `p`.
fn seen_contains(seen: &Vec<(u64, u64)>, p: (u64, u64)) -> (r: bool)
    ensures
        r == seen@.contains(p),
{
    let mut k: usize = 0;
    while k < seen.len()
        invariant
            k <= seen@.len(),
            forall|m: int| 0 <= m < k ==> seen@[m] != p,
        decreases seen@.len() - k,
    {
        let q = seen[k];
        if q.0 == p.0 && q.1 == p.1 {
            assert(seen@[k as int] == p);
            return true;
        }
        k = k + 1;
    }
    proof {
        assert forall|m: int| 0 <= m < seen@.len() implies seen@[m] != p by {}
    }
    false
}

/// Collect the distinct package/core pairs of the listing, front to back.
fn collect_core_pairs(lines: &Vec<Vec<u8>>) -> (r: usize)
    ensures
        r == core_pairs(lines.deep_view(), None).len(),
{
    broadcast use group_seq_lib_default;

    let ghost ls = lines.deep_view();
    let mut seen: Vec<(u64, u64)> = Vec::new();
    let mut cur: Option<u64> = None;
    let mut k: usize = 0;
    proof {
        lemma_core_pairs_finite(ls, None);
        assert(ls.skip(0) =~= ls);
        assert(seen@.to_set() =~= Set::<(u64, u64)>::empty());
        assert(seen@.to_set() + core_pairs(ls, None) =~= core_pairs(ls, None));
    }
    while k < lines.len()
        invariant
            k <= lines@.len(),
            ls == lines.deep_view(),
            ls.len() == lines@.len(),
            seen@.no_duplicates(),
            core_pairs(ls, None) == seen@.to_set() + core_pairs(ls.skip(k as int), cur),
            core_pairs(ls.skip(k as int), cur).finite(),
        decreases lines@.len() - k,
    {
        let ghost t = ls.skip(k as int);
        let line = &lines[k];
        proof {
            assert(ls[k as int] == lines@[k as int].deep_view());
            assert(lines@[k as int].deep_view() =~= lines@[k as int]@);
            assert(t[0] == ls[k as int]);
            assert(t.drop_first() =~= ls.skip(k + 1));
        }
        if text::starts_with(line.as_slice(), lit::physical_id_bytes().as_slice()) {
            cur = parse_id_field(line.as_slice());
            proof {
                lemma_core_pairs_finite(ls.skip(k + 1), cur);
            }
        } else if text::starts_with(line.as_slice(), lit::core_id_bytes().as_slice()) {
            let core = parse_id_field(line.as_slice());
            match (cur, core) {
                (Some(phys), Some(c)) => {
                    let p = (phys, c);
                    proof {
                        assert(core_pairs(t, cur) == core_pairs(ls.skip(k + 1), cur).insert(p));
                        lemma_core_pairs_finite(ls.skip(k + 1), cur);
                    }
                    if !seen_contains(&seen, p) {
                        let ghost seen0 = seen@;
                        seen.push(p);
                        proof {
                            assert(seen@ =~= seen0.push(p));
                            assert(seen@.to_set() =~= seen0.to_set().insert(p)) by {
                                seen0.lemma_push_to_set_commute(p);
                                assert(seen@ =~= seen0.push(p));
                            }
                            assert(seen@.to_set() + core_pairs(ls.skip(k + 1), cur)
                                =~= seen0.to_set() + core_pairs(t, cur));
                        }
                    } else {
                        proof {
                            assert(seen@.to_set().contains(p));
                            assert(seen@.to_set() + core_pairs(ls.skip(k + 1), cur) =~= seen@.to_set()
                                + core_pairs(t, cur));
                        }
                    }
                },
                _ => {
                    proof {
                        lemma_core_pairs_finite(ls.skip(k + 1), cur);
                    }
                },
            }
        } else {
            proof {
                lemma_core_pairs_finite(ls.skip(k + 1), cur);
            }
        }
        k = k + 1;
    }
    proof {
        assert(ls.skip(ls.len() as int) =~= Seq::<Seq<u8>>::empty());
        assert(core_pairs(ls, None) =~= seen@.to_set());
        seen@.unique_seq_to_set();
    }
    seen.len()
}

/// Logical CPU count: the number of per-CPU records in the processor
/// listing; failing that, a positive configured-processors answer handed in
/// by the caller; failing that, the runtime's own count, which is at least
/// one.
pub fn get_system_cpu_count(cpuinfo: Option<&[u8]>, sysconf_onln: i64) -> (r: usize)
    ensures
        ({
            let n = count_prefixed(lines_opt(cpuinfo), lit::processor_lit());
            if n > 0 {
                r == n
            } else if 0 < sysconf_onln <= usize::MAX {
                r == sysconf_onln
            } else {
                r >= 1
            }
        }),
{
    let counted = match cpuinfo {
        Some(c) => {
            let lines = text::split_lines(c);
            count_prefixed_lines(&lines, lit::processor_bytes().as_slice())
        },
        None => 0,
    };
    if counted > 0 {
        return counted;
    }
    if sysconf_onln > 0 && sysconf_onln as u64 <= usize::MAX as u64 {
        return sysconf_onln as usize;
    }
    runtime_cpu_count()
}

/// Physical core count: the number of distinct package/core pairs in the
/// processor listing; failing that, the runtime's own physical count, which
/// is at least one.
pub fn get_system_physical_cpu_count(cpuinfo: Option<&[u8]>) -> (r: usize)
    ensures
        ({
            let ps = core_pairs(lines_opt(cpuinfo), None);
            if ps.len() > 0 {
                r == ps.len()
            } else {
                r >= 1
            }
        }),
{
    let counted = match cpuinfo {
        Some(c) => {
            let lines = text::split_lines(c);
            collect_core_pairs(&lines)
        },
        None => 0,
    };
    if counted > 0 {
        return counted;
    }
    runtime_physical_cpu_count()
}

} // verus!

//! Where the current process sits in the control-group hierarchy, and which
//! on-disk schema version the host exposes.

use crate::lit;
use crate::text::lines_opt;
use crate::text;
use vstd::prelude::*;

verus! {

/// The schema generation of the resource-control hierarchy: a unified tree,
/// per-resource split trees, or neither marker present.
#[derive(Clone, Copy, Debug, PartialEq, Eq, Structural)]
pub enum HierarchyVersion {
    V1,
    V2,
    Unknown,
}

/// The version the marker files imply: the unified marker wins, either split
/// mount point means the split schema, and nothing means unknown.
pub open spec fn version_of(v2_marker: bool, v1_cpu_marker: bool, v1_memory_marker: bool)
    -> HierarchyVersion {
    if v2_marker {
        HierarchyVersion::V2
    } else if v1_cpu_marker || v1_memory_marker {
        HierarchyVersion::V1
    } else {
        HierarchyVersion::Unknown
    }
}

/// Decide the hierarchy version from the presence of the unified controller
/// marker and the two split mount points.
pub fn detect_hierarchy_version(v2_marker: bool, v1_cpu_marker: bool, v1_memory_marker: bool) -> (r:
    HierarchyVersion)
    ensures
        r == version_of(v2_marker, v1_cpu_marker, v1_memory_marker),
{
    if v2_marker {
        HierarchyVersion::V2
    } else if v1_cpu_marker || v1_memory_marker {
        HierarchyVersion::V1
    } else {
        HierarchyVersion::Unknown
    }
}

/// The path tagged onto the first unified-hierarchy membership line, with
/// the tag stripped.
pub open spec fn first_v2_path(ls: Seq<Seq<u8>>) -> Option<Seq<u8>>
    decreases ls.len(),
{
    if ls.len() == 0 {
        None
    } else if text::has_prefix(ls[0], lit::v2_self_prefix_lit()) {
        Some(ls[0].skip(3))
    } else {
        first_v2_path(ls.drop_first())
    }
}

/// The last colon-separated field of the first membership line naming the
/// split memory controller.
pub open spec fn first_v1_memory_path(ls: Seq<Seq<u8>>) -> Option<Seq<u8>>
    decreases ls.len(),
{
    if ls.len() == 0 {
        None
    } else if text::contains_seq(ls[0], lit::memory_controller_lit()) && text::split_on_byte(
        ls[0],
        58,
    ).len() >= 3 {
        Some(text::split_on_byte(ls[0], 58).last())
    } else {
        first_v1_memory_path(ls.drop_first())
    }
}

/// The hierarchy path the membership listing assigns this process: the
/// unified line's path if one exists, else the split memory controller's
/// path, else empty (meaning root or unscoped).
pub open spec fn cgroup_path_of(contents: Option<&[u8]>) -> Seq<u8> {
    let ls = lines_opt(contents);
    match first_v2_path(ls) {
        Some(p) => p,
        None => match first_v1_memory_path(ls) {
            Some(p) => p,
            None => Seq::empty(),
        },
    }
}

/// Extract this process's hierarchy path from its membership listing; an
/// unreadable or unrecognized listing degrades to the empty path.
pub fn get_current_cgroup_path(contents: Option<&[u8]>) -> (r: Vec<u8>)
    ensures
        r@ == cgroup_path_of(contents),
{
    let c = match contents {
        Some(c) => c,
        None => {
            let r: Vec<u8> = Vec::new();
            proof {
                assert(r@ =~= Seq::<u8>::empty());
            }
            return r;
        },
    };
    let ghost ls = lines_opt(contents);
    let lines = text::split_lines(c);
    let v2_tag = lit::v2_self_prefix_bytes();
    let mut k: usize = 0;
    proof {
        assert(ls.skip(0) =~= ls);
    }
    while k < lines.len()
        invariant
            k <= lines@.len(),
            ls == lines.deep_view(),
            ls == lines_opt(contents),
            ls.len() == lines@.len(),
            v2_tag@ == lit::v2_self_prefix_lit(),
            first_v2_path(ls) == first_v2_path(ls.skip(k as int)),
        decreases lines@.len() - k,
    {
        let line = &lines[k];
        proof {
            assert(ls[k as int] == lines@[k as int].deep_view());
            assert(lines@[k as int].deep_view() =~= lines@[k as int]@);
            assert(ls.skip(k as int)[0] == ls[k as int]);
            assert(ls.skip(k as int).drop_first() =~= ls.skip(k + 1));
        }
        if text::starts_with(line.as_slice(), v2_tag.as_slice()) {
            let r = vstd::slice::slice_to_vec(vstd::slice::slice_subrange(
                line.as_slice(),
                3,
                line.len(),
            ));
            proof {
                assert(r@ =~= line@.skip(3));
            }
            return r;
        }
        k = k + 1;
    }
    proof {
        assert(ls.skip(ls.len() as int) =~= Seq::<Seq<u8>>::empty());
    }
    let mem_tag = lit::memory_controller_bytes();
    let mut k: usize = 0;
    proof {
        assert(ls.skip(0) =~= ls);
    }
    while k < lines.len()
        invariant
            k <= lines@.len(),
            ls == lines.deep_view(),
            ls == lines_opt(contents),
            ls.len() == lines@.len(),
            mem_tag@ == lit::memory_controller_lit(),
            first_v2_path(ls) is None,
            first_v1_memory_path(ls) == first_v1_memory_path(ls.skip(k as int)),
        decreases lines@.len() - k,
    {
        let line = &lines[k];
        proof {
            assert(ls[k as int] == lines@[k as int].deep_view());
            assert(lines@[k as int].deep_view() =~= lines@[k as int]@);
            assert(ls.skip(k as int)[0] == ls[k as int]);
            assert(ls.skip(k as int).drop_first() =~= ls.skip(k + 1));
        }
        if text::contains_bytes(line.as_slice(), mem_tag.as_slice()) {
            let fields = text::split_on_sep(line.as_slice(), 58);
            if fields.len() >= 3 {
                let last = fields.len() - 1;
                proof {
                    assert(fields.deep_view()[last as int] == fields@[last as int].deep_view());
                    assert(fields@[last as int].deep_view() =~= fields@[last as int]@);
                    assert(fields.deep_view().last() == fields.deep_view()[last as int]);
                }
                let r = vstd::slice::slice_to_vec(fields[last].as_slice());
                return r;
            }
        }
        k = k + 1;
    }
    proof {
        assert(ls.skip(ls.len() as int) =~= Seq::<Seq<u8>>::empty());
    }
    let r: Vec<u8> = Vec::new();
    proof {
        assert(r@ =~= Seq::<u8>::empty());
    }
    r
}

} // verus!

//! The fixed byte strings that the parsers look for, each as a spec-level
//! sequence and a matching executable array.

use vstd::prelude::*;

verus! {

/// The bytes of `"max"`: the no-limit sentinel token of the unified quota file.
pub open spec fn max_lit() -> Seq<u8> {
    seq![109u8, 97u8, 120u8]
}

/// Executable form of [`max_lit`].
pub fn max_bytes() -> (r: [u8; 3])
    ensures
        r@ == max_lit(),
{
    let r: [u8; 3] = [109u8, 97u8, 120u8];
    proof {
        assert(r@ =~= max_lit());
    }
    r
}

/// The bytes of `"processor"`: the per-CPU record prefix in the processor listing.
pub open spec fn processor_lit() -> Seq<u8> {
    seq![112u8, 114u8, 111u8, 99u8, 101u8, 115u8, 115u8, 111u8, 114u8]
}

/// Executable form of [`processor_lit`].
pub fn processor_bytes() -> (r: [u8; 9])
    ensures
        r@ == processor_lit(),
{
    let r: [u8; 9] = [112u8, 114u8, 111u8, 99u8, 101u8, 115u8, 115u8, 111u8, 114u8];
    proof {
        assert(r@ =~= processor_lit());
    }
    r
}

/// The bytes of `"physical id"`: the package-number prefix in the processor listing.
pub open spec fn physical_id_lit() -> Seq<u8> {
    seq![112u8, 104u8, 121u8, 115u8, 105u8, 99u8, 97u8, 108u8, 32u8, 105u8, 100u8]
}

/// Executable form of [`physical_id_lit`].
pub fn physical_id_bytes() -> (r: [u8; 11])
    ensures
        r@ == physical_id_lit(),
{
    let r: [u8; 11] = [112u8, 104u8, 121u8, 115u8, 105u8, 99u8, 97u8, 108u8, 32u8, 105u8, 100u8];
    proof {
        assert(r@ =~= physical_id_lit());
    }
    r
}

/// The bytes of `"core id"`: the core-number prefix in the processor listing.
pub open spec fn core_id_lit() -> Seq<u8> {
    seq![99u8, 111u8, 114u8, 101u8, 32u8, 105u8, 100u8]
}

/// Executable form of [`core_id_lit`].
pub fn core_id_bytes() -> (r: [u8; 7])
    ensures
        r@ == core_id_lit(),
{
    let r: [u8; 7] = [99u8, 111u8, 114u8, 101u8, 32u8, 105u8, 100u8];
    proof {
        assert(r@ =~= core_id_lit());
    }
    r
}

/// The bytes of `"MemTotal:"`: the total-memory field label in the memory listing.
pub open spec fn mem_total_lit() -> Seq<u8> {
    seq![77u8, 101u8, 109u8, 84u8, 111u8, 116u8, 97u8, 108u8, 58u8]
}

/// Executable form of [`mem_total_lit`].
pub fn mem_total_bytes() -> (r: [u8; 9])
    ensures
        r@ == mem_total_lit(),
{
    let r: [u8; 9] = [77u8, 101u8, 109u8, 84u8, 111u8, 116u8, 97u8, 108u8, 58u8];
    proof {
        assert(r@ =~= mem_total_lit());
    }
    r
}

/// The bytes of `"MemAvailable:"`: the available-memory field label in the memory listing.
pub open spec fn mem_available_lit() -> Seq<u8> {
    seq![77u8, 101u8, 109u8, 65u8, 118u8, 97u8, 105u8, 108u8, 97u8, 98u8, 108u8, 101u8, 58u8]
}

/// Executable form of [`mem_available_lit`].
pub fn mem_available_bytes() -> (r: [u8; 13])
    ensures
        r@ == mem_available_lit(),
{
    let r: [u8; 13] = [77u8, 101u8, 109u8, 65u8, 118u8, 97u8, 105u8, 108u8, 97u8, 98u8, 108u8, 101u8, 58u8];
    proof {
        assert(r@ =~= mem_available_lit());
    }
    r
}

/// The bytes of `"0::"`: the tag of the unified-hierarchy line in the membership listing.
pub open spec fn v2_self_prefix_lit() -> Seq<u8> {
    seq![48u8, 58u8, 58u8]
}

/// Executable form of [`v2_self_prefix_lit`].
pub fn v2_self_prefix_bytes() -> (r: [u8; 3])
    ensures
        r@ == v2_self_prefix_lit(),
{
    let r: [u8; 3] = [48u8, 58u8, 58u8];
    proof {
        assert(r@ =~= v2_self_prefix_lit());
    }
    r
}

/// The bytes of `":memory:"`: the memory-controller marker in a split-hierarchy membership line.
pub open spec fn memory_controller_lit() -> Seq<u8> {
    seq![58u8, 109u8, 101u8, 109u8, 111u8, 114u8, 121u8, 58u8]
}

/// Executable form of [`memory_controller_lit`].
pub fn memory_controller_bytes() -> (r: [u8; 8])
    ensures
        r@ == memory_controller_lit(),
{
    let r: [u8; 8] = [58u8, 109u8, 101u8, 109u8, 111u8, 114u8, 121u8, 58u8];
    proof {
        assert(r@ =~= memory_controller_lit());
    }
    r
}

/// The bytes of `"/user.slice/user-"`: the path prefix of a per-user session manager slice.
pub open spec fn user_slice_prefix_lit() -> Seq<u8> {
    seq![47u8, 117u8, 115u8, 101u8, 114u8, 46u8, 115u8, 108u8, 105u8, 99u8, 101u8, 47u8, 117u8, 115u8, 101u8, 114u8, 45u8]
}

/// Executable form of [`user_slice_prefix_lit`].
pub fn user_slice_prefix_bytes() -> (r: [u8; 17])
    ensures
        r@ == user_slice_prefix_lit(),
{
    let r: [u8; 17] = [47u8, 117u8, 115u8, 101u8, 114u8, 46u8, 115u8, 108u8, 105u8, 99u8, 101u8, 47u8, 117u8, 115u8, 101u8, 114u8, 45u8];
    proof {
        assert(r@ =~= user_slice_prefix_lit());
    }
    r
}

/// The bytes of `"/session-"`: the path segment marking a login-session scope.
pub open spec fn session_marker_lit() -> Seq<u8> {
    seq![47u8, 115u8, 101u8, 115u8, 115u8, 105u8, 111u8, 110u8, 45u8]
}

/// Executable form of [`session_marker_lit`].
pub fn session_marker_bytes() -> (r: [u8; 9])
    ensures
        r@ == session_marker_lit(),
{
    let r: [u8; 9] = [47u8, 115u8, 101u8, 115u8, 115u8, 105u8, 111u8, 110u8, 45u8];
    proof {
        assert(r@ =~= session_marker_lit());
    }
    r
}

} // verus!
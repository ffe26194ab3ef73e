//! Ground-truth memory totals from the kernel's labeled memory-info listing:
//! the total and available fields are given in kibibytes and converted to
//! bytes; a missing or unreadable field degrades to zero.

use crate::lit;
use crate::numbers;
use crate::text;
use crate::text::lines_opt;
use vstd::prelude::*;

verus! {

/// The numeric value of a labeled memory-info line: its second
/// whitespace-separated field, parsed.
pub open spec fn meminfo_line_value(line: Seq<u8>) -> Option<u64> {
    let toks = text::ws_tokens(line);
    if toks.len() >= 2 {
        numbers::parsed_u64(toks[1])
    } else {
        None
    }
}

/// Second whitespace-separated field of `line` as a number, if the line has
/// at least two fields and that field parses.
pub fn parse_meminfo_line(line: &[u8]) -> (r: Option<u64>)
    ensures
        r == meminfo_line_value(line@),
{
    let toks = text::split_ws_tokens(line);
    if toks.len() >= 2 {
        proof {
            assert(toks.deep_view()[1] == toks@[1].deep_view());
            assert(toks@[1].deep_view() =~= toks@[1]@);
        }
        numbers::parse_u64(toks[1].as_slice())
    } else {
        None
    }
}

/// The value of the last line labeled `label` whose field parses; zero when
/// no such line exists.
pub open spec fn last_labeled_value(ls: Seq<Seq<u8>>, label: Seq<u8>) -> u64
    decreases ls.len(),
{
    if ls.len() == 0 {
        0
    } else if text::has_prefix(ls.last(), label) && meminfo_line_value(ls.last()) is Some {
        meminfo_line_value(ls.last()).unwrap()
    } else {
        last_labeled_value(ls.drop_last(), label)
    }
}

/// Walk `lines` and keep the value of the last line labeled `label` whose
/// field parses.
fn scan_labeled(lines: &Vec<Vec<u8>>, label: &[u8]) -> (r: u64)
    ensures
        r == last_labeled_value(lines.deep_view(), label@),
{
    let ghost ls = lines.deep_view();
    let mut r: u64 = 0;
    let mut k: usize = 0;
    proof {
        assert(ls.subrange(0, 0) =~= Seq::<Seq<u8>>::empty());
    }
    while k < lines.len()
        invariant
            k <= lines@.len(),
            ls == lines.deep_view(),
            ls.len() == lines@.len(),
            r == last_labeled_value(ls.subrange(0, k as int), label@),
        decreases lines@.len() - k,
    {
        let line = &lines[k];
        proof {
            assert(ls[k as int] == lines@[k as int].deep_view());
            assert(lines@[k as int].deep_view() =~= lines@[k as int]@);
            assert(ls.subrange(0, k + 1).drop_last() =~= ls.subrange(0, k as int));
            assert(ls.subrange(0, k + 1).last() == ls[k as int]);
        }
        if text::starts_with(line.as_slice(), label) {
            match parse_meminfo_line(line.as_slice()) {
                Some(v) => {
                    r = v;
                },
                None => {},
            }
        }
        k = k + 1;
    }
    proof {
        assert(ls.subrange(0, ls.len() as int) =~= ls);
    }
    r
}

/// `kb` kibibytes in bytes, saturating at the top of the 64-bit range.
pub open spec fn kb_to_bytes(kb: u64) -> u64 {
    if kb * 1024 <= u64::MAX {
        (kb * 1024) as u64
    } else {
        u64::MAX
    }
}

/// Total and available system memory in bytes, read from the memory-info
/// listing: the labeled kibibyte fields times 1024, zero where a label is
/// missing or unreadable.
pub fn get_system_memory_from_proc(contents: Option<&[u8]>) -> (r: (u64, u64))
    ensures
        r.0 == kb_to_bytes(last_labeled_value(lines_opt(contents), lit::mem_total_lit())),
        r.1 == kb_to_bytes(last_labeled_value(lines_opt(contents), lit::mem_available_lit())),
{
    match contents {
        None => (0, 0),
        Some(c) => {
            let lines = text::split_lines(c);
            let total_label = lit::mem_total_bytes();
            let avail_label = lit::mem_available_bytes();
            let total_kb = scan_labeled(&lines, total_label.as_slice());
            let avail_kb = scan_labeled(&lines, avail_label.as_slice());
            let total = match total_kb.checked_mul(1024) {
                Some(v) => v,
                None => u64::MAX,
            };
            let avail = match avail_kb.checked_mul(1024) {
                Some(v) => v,
                None => u64::MAX,
            };
            (total, avail)
        },
    }
}

} // verus!

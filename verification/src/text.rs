//! Byte-level text primitives shared by the pseudo-file parsers: whitespace
//! classification, trimming, whitespace tokenization, line splitting and
//! substring search, each with a spec-level definition and a verified
//! executable counterpart.

use vstd::prelude::*;

verus! {

/// The ASCII characters that Rust's `char::is_whitespace` accepts, which is
/// all the whitespace a control-group or proc pseudo-file can contain.
pub open spec fn is_ws(b: u8) -> bool {
    b == 32 || b == 9 || b == 10 || b == 11 || b == 12 || b == 13
}

/// Executable mirror of [`is_ws`].
pub fn is_ws_byte(b: u8) -> (r: bool)
    ensures
        r == is_ws(b),
{
    b == 32 || b == 9 || b == 10 || b == 11 || b == 12 || b == 13
}

/// `s` with leading and trailing whitespace removed.
pub open spec fn trim(s: Seq<u8>) -> Seq<u8>
    decreases s.len(),
{
    if s.len() == 0 {
        s
    } else if is_ws(s[0]) {
        trim(s.drop_first())
    } else if is_ws(s[s.len() - 1]) {
        trim(s.drop_last())
    } else {
        s
    }
}

/// `trim` is the subrange between the first and last non-whitespace bytes.
proof fn lemma_trim_subrange(s: Seq<u8>, lo: int, hi: int)
    requires
        0 <= lo <= hi <= s.len(),
        forall|i: int| 0 <= i < lo ==> is_ws(s[i]),
        forall|i: int| hi <= i < s.len() ==> is_ws(s[i]),
        lo < hi ==> !is_ws(s[lo]),
        lo < hi ==> !is_ws(s[hi - 1]),
    ensures
        trim(s) =~= s.subrange(lo, hi),
    decreases s.len(),
{
    if s.len() == 0 {
    } else if is_ws(s[0]) {
        assert(lo > 0 || lo == hi) by {
            if lo == 0 && lo < hi {
                assert(!is_ws(s[0]));
            }
        }
        if lo == hi {
            if lo == 0 {
                lemma_trim_subrange(s.drop_first(), 0, 0);
                assert(s.drop_first() =~= s.subrange(1, s.len() as int));
            } else {
                lemma_trim_subrange(s.drop_first(), lo - 1, hi - 1);
                assert(s.drop_first().subrange(lo - 1, hi - 1) =~= s.subrange(lo, hi));
            }
        } else {
            lemma_trim_subrange(s.drop_first(), lo - 1, hi - 1);
            assert(s.drop_first().subrange(lo - 1, hi - 1) =~= s.subrange(lo, hi));
        }
    } else if is_ws(s[s.len() - 1]) {
        assert(hi < s.len() || lo == hi) by {
            if hi == s.len() && lo < hi {
                assert(!is_ws(s[s.len() - 1]));
            }
        }
        lemma_trim_subrange(s.drop_last(), lo, hi);
        assert(s.drop_last().subrange(lo, hi) =~= s.subrange(lo, hi));
    } else {
        assert(lo == 0) by {
            if lo > 0 {
                assert(is_ws(s[0]));
            }
        }
        assert(hi == s.len()) by {
            if hi < s.len() {
                assert(is_ws(s[s.len() - 1]));
            }
        }
        assert(s.subrange(0, s.len() as int) =~= s);
    }
}

/// Length of the longest whitespace-free prefix of `s`: the first token ends
/// here, or the whole sequence is one token.
pub open spec fn ws_run_len(s: Seq<u8>) -> nat
    decreases s.len(),
{
    if s.len() == 0 || is_ws(s[0]) {
        0
    } else {
        1 + ws_run_len(s.drop_first())
    }
}

/// The boundary description pins [`ws_run_len`] down uniquely.
pub proof fn lemma_ws_run_len_is(s: Seq<u8>, k: int)
    requires
        0 <= k <= s.len(),
        forall|i: int| 0 <= i < k ==> !is_ws(s[i]),
        k < s.len() ==> is_ws(s[k]),
    ensures
        ws_run_len(s) == k,
    decreases s.len(),
{
    if s.len() == 0 {
    } else if is_ws(s[0]) {
        assert(k == 0) by {
            if k > 0 {
                assert(!is_ws(s[0]));
            }
        }
    } else {
        assert(k >= 1);
        assert forall|i: int| 0 <= i < k - 1 implies !is_ws(s.drop_first()[i]) by {
            assert(s.drop_first()[i] == s[i + 1]);
        }
        if k - 1 < s.drop_first().len() {
            assert(s.drop_first()[k - 1] == s[k]);
        }
        lemma_ws_run_len_is(s.drop_first(), k - 1);
    }
}

/// The whitespace-separated tokens of `s`, in order, each one nonempty.
pub open spec fn ws_tokens(s: Seq<u8>) -> Seq<Seq<u8>>
    decreases s.len(),
{
    if s.len() == 0 {
        Seq::empty()
    } else if is_ws(s[0]) {
        ws_tokens(s.drop_first())
    } else {
        let n = ws_run_len(s);
        if n >= s.len() {
            seq![s]
        } else {
            seq![s.subrange(0, n as int)] + ws_tokens(s.subrange(n as int, s.len() as int))
        }
    }
}

/// The whitespace-separated tokens of `s`, each copied out in order.
pub fn split_ws_tokens(s: &[u8]) -> (r: Vec<Vec<u8>>)
    ensures
        r.deep_view() == ws_tokens(s@),
{
    let len = s.len();
    let mut r: Vec<Vec<u8>> = Vec::new();
    let mut i: usize = 0;
    proof {
        assert(s@.skip(0) =~= s@);
        assert(r.deep_view() + ws_tokens(s@) =~~= ws_tokens(s@));
    }
    while i < len
        invariant
            i <= len,
            len == s@.len(),
            ws_tokens(s@) == r.deep_view() + ws_tokens(s@.skip(i as int)),
        decreases len - i,
    {
        if is_ws_byte(s[i]) {
            proof {
                assert(s@.skip(i as int).drop_first() =~= s@.skip(i + 1));
            }
            i = i + 1;
        } else {
            let ghost r0 = r.deep_view();
            let mut j: usize = i + 1;
            while j < len && !is_ws_byte(s[j])
                invariant
                    i < j <= len,
                    len == s@.len(),
                    forall|m: int| i <= m < j ==> !is_ws(s@[m]),
                decreases len - j,
            {
                j = j + 1;
            }
            let tok = vstd::slice::slice_to_vec(vstd::slice::slice_subrange(s, i, j));
            proof {
                let t = s@.skip(i as int);
                assert forall|m: int| 0 <= m < j - i implies !is_ws(t[m]) by {
                    assert(t[m] == s@[i + m]);
                }
                if (j as int) < s@.len() {
                    assert(t[j - i] == s@[j as int]);
                }
                lemma_ws_run_len_is(t, j - i);
                if j == len {
                    assert(t =~= tok@);
                    assert(ws_tokens(t) =~= seq![tok@]);
                } else {
                    assert(t.subrange(0, j - i) =~= tok@);
                    assert(t.subrange(j - i, t.len() as int) =~= s@.skip(j as int));
                    assert(ws_tokens(t) =~= seq![tok@] + ws_tokens(s@.skip(j as int)));
                }
            }
            r.push(tok);
            proof {
                assert(r.deep_view() =~~= r0.push(tok@));
                assert(r0.push(tok@) =~= r0 + seq![tok@]);
                assert(r.deep_view() + ws_tokens(s@.skip(j as int)) =~= ws_tokens(s@));
            }
            i = j;
        }
    }
    proof {
        assert(s@.skip(i as int) =~= Seq::<u8>::empty());
        assert(r.deep_view() + ws_tokens(s@.skip(i as int)) =~= r.deep_view());
    }
    r
}

/// Length of the prefix of `s` free of the byte `sep`.
pub open spec fn sep_run_len(s: Seq<u8>, sep: u8) -> nat
    decreases s.len(),
{
    if s.len() == 0 || s[0] == sep {
        0
    } else {
        1 + sep_run_len(s.drop_first(), sep)
    }
}

/// The boundary description pins [`sep_run_len`] down uniquely.
pub proof fn lemma_sep_run_len_is(s: Seq<u8>, sep: u8, k: int)
    requires
        0 <= k <= s.len(),
        forall|i: int| 0 <= i < k ==> s[i] != sep,
        k < s.len() ==> s[k] == sep,
    ensures
        sep_run_len(s, sep) == k,
    decreases s.len(),
{
    if s.len() == 0 {
    } else if s[0] == sep {
        assert(k == 0) by {
            if k > 0 {
                assert(s[0] != sep);
            }
        }
    } else {
        assert(k >= 1);
        assert forall|i: int| 0 <= i < k - 1 implies s.drop_first()[i] != sep by {
            assert(s.drop_first()[i] == s[i + 1]);
        }
        if k - 1 < s.drop_first().len() {
            assert(s.drop_first()[k - 1] == s[k]);
        }
        lemma_sep_run_len_is(s.drop_first(), sep, k - 1);
    }
}

/// `s` without a single trailing carriage return, if it has one.
pub open spec fn chomp_cr(s: Seq<u8>) -> Seq<u8> {
    if s.len() > 0 && s[s.len() - 1] == 13 {
        s.drop_last()
    } else {
        s
    }
}

/// The lines of `s`: terminated by a line feed, whose optional carriage
/// return is dropped; a final unterminated line is kept as it stands, and a
/// terminator at the very end opens no empty line after it.
pub open spec fn lines_of(s: Seq<u8>) -> Seq<Seq<u8>>
    decreases s.len(),
{
    if s.len() == 0 {
        Seq::empty()
    } else {
        let n = sep_run_len(s, 10);
        if n >= s.len() {
            seq![s]
        } else {
            seq![chomp_cr(s.subrange(0, n as int))] + lines_of(
                s.subrange(n + 1 as int, s.len() as int),
            )
        }
    }
}

/// The lines of `s`, each copied out in order.
pub fn split_lines(s: &[u8]) -> (r: Vec<Vec<u8>>)
    ensures
        r.deep_view() == lines_of(s@),
{
    let len = s.len();
    let mut r: Vec<Vec<u8>> = Vec::new();
    let mut i: usize = 0;
    proof {
        assert(s@.skip(0) =~= s@);
        assert(r.deep_view() + lines_of(s@) =~~= lines_of(s@));
    }
    while i < len
        invariant
            i <= len,
            len == s@.len(),
            lines_of(s@) == r.deep_view() + lines_of(s@.skip(i as int)),
        decreases len - i,
    {
        let ghost r0 = r.deep_view();
        let mut j: usize = i;
        while j < len && s[j] != 10
            invariant
                i <= j <= len,
                len == s@.len(),
                forall|m: int| i <= m < j ==> s@[m] != 10,
            decreases len - j,
        {
            j = j + 1;
        }
        // the line runs from i to j; drop a carriage return just before the
        // line feed
        let hi = if j < len && j > i && s[j - 1] == 13 {
            j - 1
        } else {
            j
        };
        let line = vstd::slice::slice_to_vec(vstd::slice::slice_subrange(s, i, hi));
        proof {
            let t = s@.skip(i as int);
            assert forall|m: int| 0 <= m < j - i implies t[m] != 10 by {
                assert(t[m] == s@[i + m]);
            }
            if (j as int) < s@.len() {
                assert(t[j - i] == s@[j as int]);
            }
            lemma_sep_run_len_is(t, 10, j - i);
            if j == len {
                assert(t =~= line@);
                assert(lines_of(t) =~= seq![line@]);
            } else {
                assert(t.subrange(0, j - i) =~= s@.subrange(i as int, j as int));
                assert(chomp_cr(s@.subrange(i as int, j as int)) =~= line@) by {
                    if j > i && s@[j - 1] == 13 {
                        assert(s@.subrange(i as int, j as int).drop_last() =~= s@.subrange(
                            i as int,
                            j - 1,
                        ));
                    }
                }
                assert(t.subrange(j - i + 1, t.len() as int) =~= s@.skip(j + 1));
                assert(lines_of(t) =~= seq![line@] + lines_of(s@.skip(j + 1)));
            }
        }
        r.push(line);
        if j < len {
            i = j + 1;
        } else {
            i = j;
        }
        proof {
            assert(r.deep_view() =~~= r0.push(line@));
            assert(r0.push(line@) =~= r0 + seq![line@]);
            if i == len {
                assert(lines_of(s@.skip(len as int)) =~= Seq::<Seq<u8>>::empty());
            }
            assert(r.deep_view() + lines_of(s@.skip(i as int)) =~= lines_of(s@));
        }
    }
    proof {
        assert(s@.skip(len as int) =~= Seq::<u8>::empty());
        assert(r.deep_view() + lines_of(s@.skip(i as int)) =~= r.deep_view());
    }
    r
}

/// The lines of an optional listing: an unreadable listing has none.
pub open spec fn lines_opt(contents: Option<&[u8]>) -> Seq<Seq<u8>> {
    match contents {
        Some(c) => lines_of(c@),
        None => Seq::empty(),
    }
}

/// The fields of `s` split at every occurrence of `sep`: an empty input is a
/// single empty field, and every separator opens a new field.
pub open spec fn split_on_byte(s: Seq<u8>, sep: u8) -> Seq<Seq<u8>>
    decreases s.len(),
{
    let n = sep_run_len(s, sep);
    if n >= s.len() {
        seq![s]
    } else {
        seq![s.subrange(0, n as int)] + split_on_byte(s.subrange(n + 1 as int, s.len() as int), sep)
    }
}

/// The fields of `s` around `sep`, each copied out in order.
pub fn split_on_sep(s: &[u8], sep: u8) -> (r: Vec<Vec<u8>>)
    ensures
        r.deep_view() == split_on_byte(s@, sep),
{
    let len = s.len();
    let mut r: Vec<Vec<u8>> = Vec::new();
    let mut i: usize = 0;
    let mut done = false;
    proof {
        assert(s@.skip(0) =~= s@);
        assert(r.deep_view() + split_on_byte(s@, sep) =~~= split_on_byte(s@, sep));
    }
    while !done
        invariant
            i <= len,
            len == s@.len(),
            !done ==> split_on_byte(s@, sep) == r.deep_view() + split_on_byte(
                s@.skip(i as int),
                sep,
            ),
            done ==> split_on_byte(s@, sep) == r.deep_view(),
        decreases len - i + (if done { 0int } else { 1int }),
    {
        let ghost r0 = r.deep_view();
        let mut j: usize = i;
        while j < len && s[j] != sep
            invariant
                i <= j <= len,
                len == s@.len(),
                forall|m: int| i <= m < j ==> s@[m] != sep,
            decreases len - j,
        {
            j = j + 1;
        }
        let field = vstd::slice::slice_to_vec(vstd::slice::slice_subrange(s, i, j));
        proof {
            let t = s@.skip(i as int);
            assert forall|m: int| 0 <= m < j - i implies t[m] != sep by {
                assert(t[m] == s@[i + m]);
            }
            if (j as int) < s@.len() {
                assert(t[j - i] == s@[j as int]);
            }
            lemma_sep_run_len_is(t, sep, j - i);
            if j == len {
                assert(t =~= field@);
                assert(split_on_byte(t, sep) =~= seq![field@]);
            } else {
                assert(t.subrange(0, j - i) =~= field@);
                assert(t.subrange(j - i + 1, t.len() as int) =~= s@.skip(j + 1));
                assert(split_on_byte(t, sep) =~= seq![field@] + split_on_byte(
                    s@.skip(j + 1),
                    sep,
                ));
            }
        }
        r.push(field);
        proof {
            assert(r.deep_view() =~~= r0.push(field@));
            assert(r0.push(field@) =~= r0 + seq![field@]);
        }
        if j < len {
            i = j + 1;
            proof {
                assert(r.deep_view() + split_on_byte(s@.skip(i as int), sep) =~= split_on_byte(
                    s@,
                    sep,
                ));
            }
        } else {
            i = j;
            done = true;
            proof {
                assert(r.deep_view() =~= split_on_byte(s@, sep));
            }
        }
    }
    r
}

/// `p` is an initial segment of `s`.
pub open spec fn has_prefix(s: Seq<u8>, p: Seq<u8>) -> bool {
    p.len() <= s.len() && s.subrange(0, p.len() as int) == p
}

/// Whether `s` starts with `p`.
pub fn starts_with(s: &[u8], p: &[u8]) -> (r: bool)
    ensures
        r == has_prefix(s@, p@),
{
    if p.len() > s.len() {
        return false;
    }
    let mut i: usize = 0;
    while i < p.len()
        invariant
            i <= p@.len() <= s@.len(),
            forall|m: int| 0 <= m < i ==> s@[m] == p@[m],
        decreases p@.len() - i,
    {
        if s[i] != p[i] {
            assert(s@.subrange(0, p@.len() as int)[i as int] != p@[i as int]);
            return false;
        }
        i = i + 1;
    }
    proof {
        assert(s@.subrange(0, p@.len() as int) =~= p@);
    }
    true
}

/// Whether two byte strings are equal.
pub fn bytes_eq(a: &[u8], b: &[u8]) -> (r: bool)
    ensures
        r == (a@ == b@),
{
    if a.len() != b.len() {
        return false;
    }
    let mut i: usize = 0;
    while i < a.len()
        invariant
            i <= a@.len(),
            a@.len() == b@.len(),
            forall|m: int| 0 <= m < i ==> a@[m] == b@[m],
        decreases a@.len() - i,
    {
        if a[i] != b[i] {
            return false;
        }
        i = i + 1;
    }
    proof {
        assert(a@ =~= b@);
    }
    true
}

/// `p` occurs in `s` starting at position `i`.
pub open spec fn match_at(s: Seq<u8>, p: Seq<u8>, i: int) -> bool {
    0 <= i && i + p.len() <= s.len() && s.subrange(i, i + p.len()) == p
}

/// `p` occurs somewhere in `s`.
pub open spec fn contains_seq(s: Seq<u8>, p: Seq<u8>) -> bool {
    exists|i: int| match_at(s, p, i)
}

/// Whether `p` occurs anywhere in `s`.
pub fn contains_bytes(s: &[u8], p: &[u8]) -> (r: bool)
    ensures
        r == contains_seq(s@, p@),
{
    if p.len() > s.len() {
        assert(forall|i: int| !match_at(s@, p@, i));
        return false;
    }
    if p.len() == 0 {
        proof {
            assert(s@.subrange(0, 0) =~= p@);
            assert(match_at(s@, p@, 0));
        }
        return true;
    }
    let last = s.len() - p.len();
    let mut i: usize = 0;
    while i <= last
        invariant
            i <= last + 1,
            last == s@.len() - p@.len(),
            1 <= p@.len() <= s@.len(),
            s@.len() <= usize::MAX,
            forall|m: int| 0 <= m < i ==> !match_at(s@, p@, m),
        decreases last + 1 - i,
    {
        let mut j: usize = 0;
        let mut hit = true;
        while hit && j < p.len()
            invariant
                j <= p@.len(),
                i + p@.len() <= s@.len(),
                s@.len() <= usize::MAX,
                hit ==> forall|m: int| 0 <= m < j ==> s@[i + m] == p@[m],
                !hit ==> !match_at(s@, p@, i as int),
            decreases p@.len() - j + (if hit { 1int } else { 0int }),
        {
            if s[i + j] != p[j] {
                hit = false;
                proof {
                    assert(s@.subrange(i as int, i + p@.len())[j as int] != p@[j as int]);
                    assert(!match_at(s@, p@, i as int));
                }
            } else {
                j = j + 1;
            }
        }
        if hit {
            proof {
                assert(s@.subrange(i as int, i + p@.len()) =~= p@);
                assert(match_at(s@, p@, i as int));
            }
            return true;
        }
        proof {
            assert(!match_at(s@, p@, i as int));
        }
        i = i + 1;
    }
    proof {
        assert forall|m: int| !match_at(s@, p@, m) by {
            if 0 <= m <= last {
                assert(!match_at(s@, p@, m));
            }
        }
    }
    false
}

/// Copy of `s` with leading and trailing whitespace removed.
pub fn trim_bytes(s: &[u8]) -> (r: Vec<u8>)
    ensures
        r@ == trim(s@),
{
    let len = s.len();
    let mut lo: usize = 0;
    while lo < len && is_ws_byte(s[lo])
        invariant
            0 <= lo <= len,
            len == s@.len(),
            forall|i: int| 0 <= i < lo ==> is_ws(s@[i]),
        decreases len - lo,
    {
        lo = lo + 1;
    }
    let mut hi: usize = len;
    while hi > lo && is_ws_byte(s[hi - 1])
        invariant
            lo <= hi <= len,
            len == s@.len(),
            forall|i: int| 0 <= i < lo ==> is_ws(s@[i]),
            forall|i: int| hi <= i < len ==> is_ws(s@[i]),
        decreases hi,
    {
        hi = hi - 1;
    }
    proof {
        lemma_trim_subrange(s@, lo as int, hi as int);
    }
    let mut r: Vec<u8> = Vec::new();
    let mut i: usize = lo;
    while i < hi
        invariant
            lo <= i <= hi <= len,
            len == s@.len(),
            r@ =~= s@.subrange(lo as int, i as int),
        decreases hi - i,
    {
        r.push(s[i]);
        i = i + 1;
        proof {
            assert(r@ =~= s@.subrange(lo as int, i as int));
        }
    }
    proof {
        assert(r@ =~= s@.subrange(lo as int, hi as int));
    }
    r
}

} // verus!

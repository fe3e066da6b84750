//! Byte-string utilities.  Strings borrowed from an executable image are
//! byte sequences (their encoding is the image's business), so comparison,
//! prefix tests, NUL-terminated reads, trimming and searching are defined
//! over `Seq<u8>` and proved on `Vec<u8>` / `&[u8]`.

use vstd::prelude::*;
use vstd::slice::{slice_subrange, slice_to_vec};
use vstd::string::*;

verus! {

/// The bytes of an ASCII string, one byte per character.
pub open spec fn ascii_bytes(s: &str) -> Seq<u8> {
    Seq::new(s@.len(), |i: int| s@[i] as u8)
}

/// The byte vector of an ASCII string literal.
pub fn str_bytes(s: &str) -> (r: Vec<u8>)
    requires
        is_ascii(s),
    ensures
        r@ == ascii_bytes(s),
{
    let r = s.as_bytes_vec();
    proof {
        is_ascii_spec_bytes(s);
        assert(r@ =~= ascii_bytes(s));
    }
    r
}

/// Byte-for-byte equality of two slices.
pub fn bytes_eq(a: &[u8], b: &[u8]) -> (r: bool)
    ensures
        r <==> a@ == b@,
{
    if a.len() != b.len() {
        return false;
    }
    let n = a.len();
    let mut i: usize = 0;
    while i < n
        invariant
            n == a@.len() == b@.len(),
            i <= n,
            forall|k: int| 0 <= k < i ==> a@[k] == b@[k],
        decreases n - i,
    {
        if a[i] != b[i] {
            return false;
        }
        i = i + 1;
    }
    proof {
        assert(a@ =~= b@);
    }
    true
}

/// `p` is a prefix of `s`.
pub open spec fn spec_starts_with(s: Seq<u8>, p: Seq<u8>) -> bool {
    p.len() <= s.len() && forall|i: int| 0 <= i < p.len() ==> s[i] == p[i]
}

pub fn starts_with_bytes(s: &[u8], p: &[u8]) -> (r: bool)
    ensures
        r <==> spec_starts_with(s@, p@),
{
    if p.len() > s.len() {
        return false;
    }
    let n = p.len();
    let mut i: usize = 0;
    while i < n
        invariant
            n == p@.len() <= s@.len(),
            i <= n,
            forall|k: int| 0 <= k < i ==> s@[k] == p@[k],
        decreases n - i,
    {
        if s[i] != p[i] {
            return false;
        }
        i = i + 1;
    }
    true
}

/// The bytes of `s` from `off` up to the first NUL, stopping at `end` or at
/// the end of `s`.
pub open spec fn strz(s: Seq<u8>, off: int, end: int) -> Seq<u8>
    decreases end - off,
{
    if off < 0 || off >= end || off >= s.len() || s[off] == 0 {
        Seq::empty()
    } else {
        seq![s[off]] + strz(s, off + 1, end)
    }
}

pub proof fn lemma_strz_decompose(s: Seq<u8>, start: int, mid: int, end: int)
    requires
        0 <= start <= mid <= end,
        mid <= s.len(),
        forall|k: int| start <= k < mid ==> s[k] != 0,
    ensures
        strz(s, start, end) == s.subrange(start, mid) + strz(s, mid, end),
    decreases mid - start,
{
    if start == mid {
        assert(s.subrange(start, mid) + strz(s, mid, end) =~= strz(s, start, end));
    } else {
        lemma_strz_decompose(s, start + 1, mid, end);
        assert(strz(s, start, end) == seq![s[start]] + strz(s, start + 1, end));
        assert(seq![s[start]] + (s.subrange(start + 1, mid) + strz(s, mid, end)) =~= s.subrange(
            start,
            mid,
        ) + strz(s, mid, end));
    }
}

/// Read the NUL-terminated byte string at `start`, bounded by `end`.
pub fn read_strz(data: &Vec<u8>, start: usize, end: usize) -> (r: Vec<u8>)
    requires
        start <= end,
        end <= data.len(),
    ensures
        r@ == strz(data@, start as int, end as int),
{
    let mut i: usize = start;
    let mut r: Vec<u8> = Vec::new();
    while i < end && data[i] != 0
        invariant
            start <= i <= end <= data.len(),
            r@ == data@.subrange(start as int, i as int),
            forall|k: int| start <= k < i ==> data@[k] != 0,
        decreases end - i,
    {
        r.push(data[i]);
        proof {
            assert(r@ =~= data@.subrange(start as int, i + 1));
        }
        i = i + 1;
    }
    proof {
        lemma_strz_decompose(data@, start as int, i as int, end as int);
        assert(strz(data@, i as int, end as int) =~= Seq::<u8>::empty());
        assert(r@ =~= strz(data@, start as int, end as int));
    }
    r
}

/// `b` without its trailing NUL bytes.
pub open spec fn trim_zeros(b: Seq<u8>) -> Seq<u8>
    decreases b.len(),
{
    if b.len() > 0 && b.last() == 0 {
        trim_zeros(b.drop_last())
    } else {
        b
    }
}

proof fn lemma_trim_zeros_cut(s: Seq<u8>, end: int)
    requires
        0 <= end <= s.len(),
        forall|k: int| end <= k < s.len() ==> s[k] == 0,
        end > 0 ==> s[end - 1] != 0,
    ensures
        trim_zeros(s) == s.subrange(0, end),
    decreases s.len(),
{
    if end == s.len() {
        if s.len() > 0 && s.last() == 0 {
            assert(false);
        } else {
            assert(s.subrange(0, end) =~= s);
        }
    } else {
        assert(s.last() == 0);
        lemma_trim_zeros_cut(s.drop_last(), end);
        assert(s.drop_last().subrange(0, end) =~= s.subrange(0, end));
    }
}

/// Copy `data[start..end]`.
pub fn copy_range(data: &Vec<u8>, start: usize, end: usize) -> (r: Vec<u8>)
    requires
        start <= end,
        end <= data.len(),
    ensures
        r@ == data@.subrange(start as int, end as int),
{
    slice_to_vec(slice_subrange(data.as_slice(), start, end))
}

/// Copy `data[start..end]` and drop trailing NUL bytes.
pub fn copy_range_trim_zeros(data: &Vec<u8>, start: usize, end: usize) -> (r: Vec<u8>)
    requires
        start <= end,
        end <= data.len(),
    ensures
        r@ == trim_zeros(data@.subrange(start as int, end as int)),
{
    let mut cut: usize = end;
    while cut > start && data[cut - 1] == 0
        invariant
            start <= cut <= end <= data.len(),
            forall|k: int| cut <= k < end ==> data@[k] == 0,
        decreases cut,
    {
        cut = cut - 1;
    }
    let r = copy_range(data, start, cut);
    proof {
        let whole = data@.subrange(start as int, end as int);
        lemma_trim_zeros_cut(whole, cut - start);
        assert(whole.subrange(0, cut - start) =~= data@.subrange(start as int, cut as int));
    }
    r
}

/// An owned copy of a byte vector.
pub fn clone_bytes(v: &Vec<u8>) -> (r: Vec<u8>)
    ensures
        r@ == v@,
{
    let r = copy_range(v, 0, v.len());
    proof {
        assert(r@ =~= v@);
    }
    r
}

/// ASCII whitespace.
pub open spec fn is_space(b: u8) -> bool {
    b == 32 || (9 <= b <= 13)
}

/// `s` without leading ASCII whitespace.
pub open spec fn trim_start(s: Seq<u8>) -> Seq<u8>
    decreases s.len(),
{
    if s.len() > 0 && is_space(s.first()) {
        trim_start(s.drop_first())
    } else {
        s
    }
}

/// `s` without trailing ASCII whitespace.
pub open spec fn trim_end(s: Seq<u8>) -> Seq<u8>
    decreases s.len(),
{
    if s.len() > 0 && is_space(s.last()) {
        trim_end(s.drop_last())
    } else {
        s
    }
}

/// `s` without leading and trailing ASCII whitespace.
pub open spec fn trim(s: Seq<u8>) -> Seq<u8> {
    trim_end(trim_start(s))
}

proof fn lemma_trim_start_cut(s: Seq<u8>, lo: int)
    requires
        0 <= lo <= s.len(),
        forall|k: int| 0 <= k < lo ==> is_space(s[k]),
        lo < s.len() ==> !is_space(s[lo]),
    ensures
        trim_start(s) == s.subrange(lo, s.len() as int),
    decreases s.len(),
{
    if lo == 0 {
        if s.len() > 0 && is_space(s.first()) {
            assert(false);
        } else {
            assert(s.subrange(0, s.len() as int) =~= s);
        }
    } else {
        assert(is_space(s.first()));
        lemma_trim_start_cut(s.drop_first(), lo - 1);
        assert(s.drop_first().subrange(lo - 1, s.drop_first().len() as int) =~= s.subrange(
            lo,
            s.len() as int,
        ));
    }
}

proof fn lemma_trim_end_cut(s: Seq<u8>, hi: int)
    requires
        0 <= hi <= s.len(),
        forall|k: int| hi <= k < s.len() ==> is_space(s[k]),
        hi > 0 ==> !is_space(s[hi - 1]),
    ensures
        trim_end(s) == s.subrange(0, hi),
    decreases s.len(),
{
    if hi == s.len() {
        if s.len() > 0 && is_space(s.last()) {
            assert(false);
        } else {
            assert(s.subrange(0, hi) =~= s);
        }
    } else {
        assert(s.last() == s[s.len() - 1]);
        lemma_trim_end_cut(s.drop_last(), hi);
        assert(s.drop_last().subrange(0, hi) =~= s.subrange(0, hi));
    }
}

/// Trim ASCII whitespace from both ends of `data[start..end]`.
pub fn trim_range(data: &Vec<u8>, start: usize, end: usize) -> (r: Vec<u8>)
    requires
        start <= end,
        end <= data.len(),
    ensures
        r@ == trim(data@.subrange(start as int, end as int)),
{
    let ghost whole = data@.subrange(start as int, end as int);
    let mut lo: usize = start;
    while lo < end && (data[lo] == 32 || (9 <= data[lo] && data[lo] <= 13))
        invariant
            start <= lo <= end <= data.len(),
            forall|k: int| start <= k < lo ==> is_space(data@[k]),
        decreases end - lo,
    {
        lo = lo + 1;
    }
    proof {
        lemma_trim_start_cut(whole, lo - start);
        assert(whole.subrange(lo - start, whole.len() as int) =~= data@.subrange(
            lo as int,
            end as int,
        ));
    }
    let ghost started = data@.subrange(lo as int, end as int);
    let mut hi: usize = end;
    while hi > lo && (data[hi - 1] == 32 || (9 <= data[hi - 1] && data[hi - 1] <= 13))
        invariant
            lo <= hi <= end <= data.len(),
            forall|k: int| hi <= k < end ==> is_space(data@[k]),
        decreases hi,
    {
        hi = hi - 1;
    }
    let r = copy_range(data, lo, hi);
    proof {
        lemma_trim_end_cut(started, hi - lo);
        assert(started.subrange(0, hi - lo) =~= data@.subrange(lo as int, hi as int));
    }
    r
}

/// The pattern `pat` occurs in `s` at position `i`.
pub open spec fn match_at(s: Seq<u8>, pat: Seq<u8>, i: int) -> bool {
    0 <= i && i + pat.len() <= s.len() && forall|j: int|
        0 <= j < pat.len() ==> s[i + j] == pat[j]
}

/// The first position `>= from` where `pat` occurs in `s`.
pub open spec fn find_from(s: Seq<u8>, pat: Seq<u8>, from: int) -> Option<int>
    decreases s.len() - from,
{
    if from < 0 || from + pat.len() > s.len() {
        None
    } else if match_at(s, pat, from) {
        Some(from)
    } else {
        find_from(s, pat, from + 1)
    }
}

/// A found position is at or after `from` and a real occurrence.
pub proof fn lemma_find_from_props(s: Seq<u8>, pat: Seq<u8>, from: int)
    ensures
        match find_from(s, pat, from) {
            Some(k) => from <= k && match_at(s, pat, k),
            None => true,
        },
    decreases s.len() - from,
{
    if from < 0 || from + pat.len() > s.len() {
    } else if match_at(s, pat, from) {
    } else {
        lemma_find_from_props(s, pat, from + 1);
    }
}

/// Search `data[from..]` for `pat`.
pub fn find_bytes(data: &[u8], pat: &[u8], from: usize) -> (r: Option<usize>)
    ensures
        match r {
            Some(i) => find_from(data@, pat@, from as int) == Some(i as int),
            None => find_from(data@, pat@, from as int) is None,
        },
{
    let n = data.len();
    let m = pat.len();
    if from > n || m > n - from {
        proof {
            assert(find_from(data@, pat@, from as int) is None);
        }
        return None;
    }
    let mut i: usize = from;
    while i <= n - m
        invariant
            from <= i,
            i <= n - m + 1,
            m <= n,
            n == data@.len(),
            m == pat@.len(),
            find_from(data@, pat@, from as int) == find_from(data@, pat@, i as int),
        decreases n - i,
    {
        let mut j: usize = 0;
        let mut hit = true;
        while hit && j < m
            invariant
                i + m <= n,
                n == data@.len(),
                m == pat@.len(),
                j <= m,
                hit ==> forall|k: int| 0 <= k < j ==> data@[i + k] == pat@[k],
                !hit ==> j < m && data@[i + j] != pat@[j as int],
            decreases m - j + (if hit { 1int } else { 0int }),
        {
            if data[i + j] != pat[j] {
                hit = false;
            } else {
                j = j + 1;
            }
        }
        if hit {
            proof {
                assert(match_at(data@, pat@, i as int));
            }
            return Some(i);
        }
        proof {
            assert(!match_at(data@, pat@, i as int));
            assert(find_from(data@, pat@, i as int) == find_from(data@, pat@, i + 1));
        }
        i = i + 1;
    }
    proof {
        assert(find_from(data@, pat@, i as int) is None);
    }
    None
}

} // verus!

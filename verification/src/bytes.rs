//! Fixed-width integer fields read out of a byte buffer, in either byte
//! order.  The specification side gives the value of a field as a recursive
//! arithmetic function of the bytes; the executable readers are proved to
//! return exactly that value.

use vstd::prelude::*;

verus! {

/// Value of the `n` bytes of `s` starting at `off`, least significant first.
pub open spec fn le_value(s: Seq<u8>, off: int, n: int) -> int
    decreases n,
{
    if n <= 0 {
        0
    } else {
        s[off] + 256 * le_value(s, off + 1, n - 1)
    }
}

/// Value of the `n` bytes of `s` starting at `off`, most significant first.
pub open spec fn be_value(s: Seq<u8>, off: int, n: int) -> int
    decreases n,
{
    if n <= 0 {
        0
    } else {
        256 * be_value(s, off, n - 1) + s[off + n - 1]
    }
}

/// Value of an `n`-byte field at `off`, little endian iff `le`.
pub open spec fn word_value(s: Seq<u8>, off: int, n: int, le: bool) -> int {
    if le {
        le_value(s, off, n)
    } else {
        be_value(s, off, n)
    }
}

/// `256^n`.
pub open spec fn pow256(n: int) -> int
    decreases n,
{
    if n <= 0 {
        1
    } else {
        256 * pow256(n - 1)
    }
}

pub proof fn lemma_le_value_bound(s: Seq<u8>, off: int, n: int)
    requires
        0 <= off,
        off + n <= s.len(),
    ensures
        0 <= le_value(s, off, n) < pow256(n),
    decreases n,
{
    if n > 0 {
        lemma_le_value_bound(s, off + 1, n - 1);
    }
}

pub proof fn lemma_be_value_bound(s: Seq<u8>, off: int, n: int)
    requires
        0 <= off,
        off + n <= s.len(),
    ensures
        0 <= be_value(s, off, n) < pow256(n),
    decreases n,
{
    if n > 0 {
        lemma_be_value_bound(s, off, n - 1);
    }
}

pub proof fn lemma_word_value_bound(s: Seq<u8>, off: int, n: int, le: bool)
    requires
        0 <= off,
        off + n <= s.len(),
    ensures
        0 <= word_value(s, off, n, le) < pow256(n),
{
    if le {
        lemma_le_value_bound(s, off, n);
    } else {
        lemma_be_value_bound(s, off, n);
    }
}

pub proof fn lemma_pow256_values()
    ensures
        pow256(1) == 0x100,
        pow256(2) == 0x1_0000,
        pow256(4) == 0x1_0000_0000,
        pow256(8) == 0x1_0000_0000_0000_0000,
{
    assert(pow256(0) == 1);
    assert(pow256(1) == 0x100);
    assert(pow256(2) == 0x1_0000);
    assert(pow256(3) == 0x100_0000);
    assert(pow256(4) == 0x1_0000_0000);
    assert(pow256(5) == 0x100_0000_0000);
    assert(pow256(6) == 0x1_0000_0000_0000);
    assert(pow256(7) == 0x100_0000_0000_0000);
    assert(pow256(8) == 0x1_0000_0000_0000_0000);
}

pub proof fn lemma_pow256_pos(n: int)
    ensures
        pow256(n) >= 1,
    decreases n,
{
    if n > 0 {
        lemma_pow256_pos(n - 1);
    }
}

pub proof fn lemma_pow256_le(m: int, n: int)
    requires
        0 <= m <= n,
    ensures
        pow256(m) <= pow256(n),
    decreases n,
{
    if m < n {
        lemma_pow256_le(m, n - 1);
        lemma_pow256_pos(n - 1);
    }
}

/// Read the `n`-byte field of `data` at `off`, little endian iff `le`.
pub fn read_word(data: &Vec<u8>, off: usize, n: usize, le: bool) -> (r: u64)
    requires
        n <= 8,
        off + n <= data.len(),
    ensures
        r == word_value(data@, off as int, n as int, le),
{
    proof {
        lemma_pow256_values();
    }
    if le {
        let mut acc: u64 = 0;
        let mut i: usize = n;
        while i > 0
            invariant
                i <= n <= 8,
                off + n <= data.len(),
                acc == le_value(data@, off + i, n - i),
            decreases i,
        {
            proof {
                lemma_pow256_values();
                lemma_le_value_bound(data@, off + i as int, n - i as int);
                lemma_le_value_bound(data@, off + i - 1, n - i + 1);
                assert(pow256(n - i + 1) == 256 * pow256(n - i));
                lemma_pow256_le(n - i + 1, 8);
            }
            acc = acc * 256 + data[off + i - 1] as u64;
            i = i - 1;
        }
        acc
    } else {
        let mut acc: u64 = 0;
        let mut i: usize = 0;
        while i < n
            invariant
                i <= n <= 8,
                off + n <= data.len(),
                acc == be_value(data@, off as int, i as int),
            decreases n - i,
        {
            proof {
                lemma_pow256_values();
                lemma_be_value_bound(data@, off as int, i as int);
                lemma_be_value_bound(data@, off as int, i + 1);
                assert(pow256(i + 1) == 256 * pow256(i as int));
                lemma_pow256_le(i + 1, 8);
            }
            acc = acc * 256 + data[off + i] as u64;
            i = i + 1;
        }
        acc
    }
}

/// Read a two-byte field.
pub fn read_u16(data: &Vec<u8>, off: usize, le: bool) -> (r: u16)
    requires
        off + 2 <= data.len(),
    ensures
        r == word_value(data@, off as int, 2, le),
{
    proof {
        lemma_word_value_bound(data@, off as int, 2, le);
        lemma_pow256_values();
    }
    read_word(data, off, 2, le) as u16
}

/// Read a four-byte field.
pub fn read_u32(data: &Vec<u8>, off: usize, le: bool) -> (r: u32)
    requires
        off + 4 <= data.len(),
    ensures
        r == word_value(data@, off as int, 4, le),
{
    proof {
        lemma_word_value_bound(data@, off as int, 4, le);
        lemma_pow256_values();
    }
    read_word(data, off, 4, le) as u32
}

/// Read an eight-byte field.
pub fn read_u64(data: &Vec<u8>, off: usize, le: bool) -> (r: u64)
    requires
        off + 8 <= data.len(),
    ensures
        r == word_value(data@, off as int, 8, le),
{
    read_word(data, off, 8, le)
}

} // verus!

//! Rendering unsigned values as upper-case hexadecimal and decimal text,
//! with a minimum width filled by leading zeros.

use vstd::prelude::*;
use vstd::string::*;

verus! {

/// The digit character for `d` (`0`-`9`, then `A`-`F`).
pub open spec fn digit_char(d: int) -> char {
    if d == 0 {
        '0'
    } else if d == 1 {
        '1'
    } else if d == 2 {
        '2'
    } else if d == 3 {
        '3'
    } else if d == 4 {
        '4'
    } else if d == 5 {
        '5'
    } else if d == 6 {
        '6'
    } else if d == 7 {
        '7'
    } else if d == 8 {
        '8'
    } else if d == 9 {
        '9'
    } else if d == 10 {
        'A'
    } else if d == 11 {
        'B'
    } else if d == 12 {
        'C'
    } else if d == 13 {
        'D'
    } else if d == 14 {
        'E'
    } else {
        'F'
    }
}

/// The hexadecimal digits of `v`, most significant first.
pub open spec fn spec_hex_digits(v: int) -> Seq<char>
    decreases v,
{
    if v < 16 {
        seq![digit_char(v)]
    } else {
        spec_hex_digits(v / 16).push(digit_char(v % 16))
    }
}

/// The decimal digits of `v`, most significant first.
pub open spec fn spec_dec_digits(v: int) -> Seq<char>
    decreases v,
{
    if v < 10 {
        seq![digit_char(v)]
    } else {
        spec_dec_digits(v / 10).push(digit_char(v % 10))
    }
}

/// `n` zero characters (none if `n < 0`).
pub open spec fn zero_chars(n: int) -> Seq<char> {
    Seq::new(if n < 0 {
        0
    } else {
        n
    } as nat, |i: int| '0')
}

/// `v` in hexadecimal, zero-filled to at least `w` digits.
pub open spec fn spec_hex_min(v: int, w: int) -> Seq<char> {
    zero_chars(w - spec_hex_digits(v).len()) + spec_hex_digits(v)
}

/// `v` in decimal, zero-filled to at least `w` digits.
pub open spec fn spec_dec_min(v: int, w: int) -> Seq<char> {
    zero_chars(w - spec_dec_digits(v).len()) + spec_dec_digits(v)
}

/// `16^k`.
pub open spec fn pow16(k: int) -> int
    decreases k,
{
    if k <= 0 {
        1
    } else {
        16 * pow16(k - 1)
    }
}

/// `10^k`.
pub open spec fn pow10(k: int) -> int
    decreases k,
{
    if k <= 0 {
        1
    } else {
        10 * pow10(k - 1)
    }
}

proof fn lemma_pow16_16()
    ensures
        pow16(16) == 0x1_0000_0000_0000_0000,
{
    assert(pow16(0) == 1);
    assert(pow16(1) == 0x10);
    assert(pow16(2) == 0x100);
    assert(pow16(3) == 0x1000);
    assert(pow16(4) == 0x1_0000);
    assert(pow16(5) == 0x10_0000);
    assert(pow16(6) == 0x100_0000);
    assert(pow16(7) == 0x1000_0000);
    assert(pow16(8) == 0x1_0000_0000);
    assert(pow16(9) == 0x10_0000_0000);
    assert(pow16(10) == 0x100_0000_0000);
    assert(pow16(11) == 0x1000_0000_0000);
    assert(pow16(12) == 0x1_0000_0000_0000);
    assert(pow16(13) == 0x10_0000_0000_0000);
    assert(pow16(14) == 0x100_0000_0000_0000);
    assert(pow16(15) == 0x1000_0000_0000_0000);
    assert(pow16(16) == 0x1_0000_0000_0000_0000);
}

proof fn lemma_pow10_20()
    ensures
        pow10(20) == 0x5_6BC7_5E2D_6310_0000,
{
    assert(pow10(0) == 1);
    assert(pow10(1) == 10);
    assert(pow10(2) == 100);
    assert(pow10(3) == 1000);
    assert(pow10(4) == 10000);
    assert(pow10(5) == 100000);
    assert(pow10(6) == 1000000);
    assert(pow10(7) == 10000000);
    assert(pow10(8) == 100000000);
    assert(pow10(9) == 1000000000);
    assert(pow10(10) == 10000000000);
    assert(pow10(11) == 100000000000);
    assert(pow10(12) == 1000000000000);
    assert(pow10(13) == 10000000000000);
    assert(pow10(14) == 100000000000000);
    assert(pow10(15) == 1000000000000000);
    assert(pow10(16) == 10000000000000000);
    assert(pow10(17) == 100000000000000000);
    assert(pow10(18) == 1000000000000000000);
    assert(pow10(19) == 10000000000000000000);
    assert(pow10(20) == 100000000000000000000);
}

/// The one-character string for digit `d`.
fn digit_str(d: u64) -> (r: &'static str)
    requires
        d < 16,
    ensures
        r@ == seq![digit_char(d as int)],
        is_ascii(r),
{
    proof {
        reveal_strlit("0");
        reveal_strlit("1");
        reveal_strlit("2");
        reveal_strlit("3");
        reveal_strlit("4");
        reveal_strlit("5");
        reveal_strlit("6");
        reveal_strlit("7");
        reveal_strlit("8");
        reveal_strlit("9");
        reveal_strlit("A");
        reveal_strlit("B");
        reveal_strlit("C");
        reveal_strlit("D");
        reveal_strlit("E");
        reveal_strlit("F");
    }
    let r = match d {
        0 => "0",
        1 => "1",
        2 => "2",
        3 => "3",
        4 => "4",
        5 => "5",
        6 => "6",
        7 => "7",
        8 => "8",
        9 => "9",
        10 => "A",
        11 => "B",
        12 => "C",
        13 => "D",
        14 => "E",
        _ => "F",
    };
    proof {
        assert(r@ =~= seq![digit_char(d as int)]);
    }
    r
}

/// The hexadecimal digits of `v`, upper case, no padding.
pub fn hex_string(v: u64) -> (r: String)
    ensures
        r@ == spec_hex_digits(v as int),
    decreases v,
{
    if v < 16 {
        String::from_str(digit_str(v))
    } else {
        assert(v / 16 < v);
        let mut s = hex_string(v / 16);
        s.append(digit_str(v % 16));
        proof {
            assert(spec_hex_digits((v / 16) as int).push(digit_char((v % 16) as int))
                =~= spec_hex_digits((v / 16) as int) + seq![digit_char((v % 16) as int)]);
        }
        s
    }
}

/// The decimal digits of `v`, no padding.
pub fn dec_string(v: u64) -> (r: String)
    ensures
        r@ == spec_dec_digits(v as int),
    decreases v,
{
    if v < 10 {
        String::from_str(digit_str(v))
    } else {
        assert(v / 10 < v);
        let mut s = dec_string(v / 10);
        s.append(digit_str(v % 10));
        proof {
            assert(spec_dec_digits((v / 10) as int).push(digit_char((v % 10) as int))
                =~= spec_dec_digits((v / 10) as int) + seq![digit_char((v % 10) as int)]);
        }
        s
    }
}

/// How many hexadecimal digits `v` takes.
fn hex_width(v: u64) -> (n: usize)
    ensures
        n == spec_hex_digits(v as int).len(),
        1 <= n <= 16,
        v < pow16(n as int),
        n >= 2 ==> pow16(n - 1) <= v,
    decreases v,
{
    if v < 16 {
        proof {
            assert(pow16(0) == 1);
            assert(pow16(1) == 16);
        }
        1
    } else {
        assert(v / 16 < v);
        let n = hex_width(v / 16);
        proof {
            let q = (v / 16) as int;
            assert(v as int == 16 * q + (v as int % 16));
            assert(0 <= v as int % 16 < 16);
            assert(pow16(n as int + 1) == 16 * pow16(n as int));
            assert(q < pow16(n as int));
            assert(v < 16 * pow16(n as int));
            assert(pow16(0) == 1);
            assert(pow16(1) == 16);
            if n >= 2 {
                assert(pow16(n as int) == 16 * pow16(n as int - 1));
            }
            if n == 16 {
                lemma_pow16_16();
            }
            if n == 1 {
                assert(pow16(1) <= v);
            } else {
                assert(pow16(n as int - 1) <= q);
                assert(16 * pow16(n as int - 1) <= 16 * q);
                assert(16 * q <= v);
                assert(pow16(n as int) <= v);
            }
            assert(v < pow16(n as int + 1));
        }
        n + 1
    }
}

/// How many decimal digits `v` takes.
fn dec_width(v: u64) -> (n: usize)
    ensures
        n == spec_dec_digits(v as int).len(),
        1 <= n <= 20,
        v < pow10(n as int),
        n >= 2 ==> pow10(n - 1) <= v,
    decreases v,
{
    if v < 10 {
        proof {
            assert(pow10(0) == 1);
            assert(pow10(1) == 10);
        }
        1
    } else {
        assert(v / 10 < v);
        let n = dec_width(v / 10);
        proof {
            let q = (v / 10) as int;
            assert(v as int == 10 * q + (v as int % 10));
            assert(0 <= v as int % 10 < 10);
            assert(pow10(n as int + 1) == 10 * pow10(n as int));
            assert(q < pow10(n as int));
            assert(v < 10 * pow10(n as int));
            assert(pow10(0) == 1);
            assert(pow10(1) == 10);
            if n >= 2 {
                assert(pow10(n as int) == 10 * pow10(n as int - 1));
            }
            if n == 20 {
                lemma_pow10_20();
            }
            if n == 1 {
                assert(pow10(1) <= v);
            } else {
                assert(pow10(n as int - 1) <= q);
                assert(10 * pow10(n as int - 1) <= 10 * q);
                assert(10 * q <= v);
                assert(pow10(n as int) <= v);
            }
            assert(v < pow10(n as int + 1));
        }
        n + 1
    }
}

/// `v` in hexadecimal, upper case, zero-filled to at least `w` digits.
pub fn hex_min_width(v: u64, w: usize) -> (r: String)
    requires
        w <= 16,
    ensures
        r@ == spec_hex_min(v as int, w as int),
{
    let n = hex_width(v);
    let mut r = String::new();
    let mut i: usize = n;
    while i < w
        invariant
            n <= i,
            i <= w || i == n,
            r@.len() == i - n,
            forall|k: int| 0 <= k < r@.len() ==> r@[k] == '0',
        decreases w - i,
    {
        proof {
            reveal_strlit("0");
        }
        r.append("0");
        i = i + 1;
    }
    let digits = hex_string(v);
    r.append(digits.as_str());
    proof {
        assert(r@ =~= spec_hex_min(v as int, w as int));
    }
    r
}

/// `v` in decimal, zero-filled to at least `w` digits.
pub fn dec_min_width(v: u64, w: usize) -> (r: String)
    requires
        w <= 20,
    ensures
        r@ == spec_dec_min(v as int, w as int),
{
    let n = dec_width(v);
    let mut r = String::new();
    let mut i: usize = n;
    while i < w
        invariant
            n <= i,
            i <= w || i == n,
            r@.len() == i - n,
            forall|k: int| 0 <= k < r@.len() ==> r@[k] == '0',
        decreases w - i,
    {
        proof {
            reveal_strlit("0");
        }
        r.append("0");
        i = i + 1;
    }
    let digits = dec_string(v);
    r.append(digits.as_str());
    proof {
        assert(r@ =~= spec_dec_min(v as int, w as int));
    }
    r
}

} // verus!

//! Loader decisions that need no file system: reading an interpreter path
//! out of a script's first line, and matching a requested architecture
//! against the running one.  Finding and reading the files themselves is
//! the program edge's job.

use vstd::prelude::*;
use crate::text::{
    ascii_bytes, bytes_eq, copy_range, find_bytes, find_from, is_space, lemma_find_from_props,
    trim, trim_range,
};

verus! {

/// The first whitespace boundary of `t` at or after `i` (or its end).
pub open spec fn first_space(t: Seq<u8>, i: int) -> int
    decreases t.len() - i,
{
    if i < 0 || i >= t.len() {
        t.len() as int
    } else if is_space(t[i]) {
        i
    } else {
        first_space(t, i + 1)
    }
}

/// The end of a script's first line: the first newline after the marker, or
/// the end of the buffer.
pub open spec fn spec_shebang_line_end(s: Seq<u8>) -> int {
    match find_from(s, ascii_bytes("\n"), 2) {
        Some(k) => if k < 2 {
            2
        } else {
            k
        },
        None => s.len() as int,
    }
}

/// The interpreter path named by a script's first line: for a buffer that
/// opens with the `#!` marker, the first whitespace-separated token of the
/// trimmed remainder of that line; `None` for other buffers or an empty
/// token.
pub open spec fn spec_shebang(s: Seq<u8>) -> Option<Seq<u8>> {
    if s.len() > 2 && s[0] == 35 && s[1] == 33 {
        let line = trim(s.subrange(2, spec_shebang_line_end(s)));
        let tok = line.subrange(0, first_space(line, 0));
        if tok.len() == 0 {
            None
        } else {
            Some(tok)
        }
    } else {
        None
    }
}

/// Read the interpreter path out of a script's first line, if the buffer is
/// a script.
pub fn shebang_interpreter(buffer: &Vec<u8>) -> (r: Option<Vec<u8>>)
    ensures
        match r {
            Some(v) => spec_shebang(buffer@) == Some(v@),
            None => spec_shebang(buffer@) is None,
        },
{
    let ghost s = buffer@;
    let n = buffer.len();
    if n <= 2 {
        return None;
    }
    if buffer[0] != 35 || buffer[1] != 33 {
        return None;
    }
    let nl = {
        proof {
            reveal_strlit("\n");
        }
        crate::text::str_bytes("\n")
    };
    let e = match find_bytes(buffer.as_slice(), nl.as_slice(), 2) {
        Some(k) => {
            proof {
                lemma_find_from_props(s, nl@, 2);
            }
            k
        },
        None => n,
    };
    proof {
        assert(e == spec_shebang_line_end(s));
    }
    let line = trim_range(buffer, 2, e);
    let mut cut: usize = 0;
    while cut < line.len() && !(line[cut] == 32 || (9 <= line[cut] && line[cut] <= 13))
        invariant
            cut <= line@.len(),
            first_space(line@, 0) == first_space(line@, cut as int),
        decreases line@.len() - cut,
    {
        proof {
            assert(first_space(line@, cut as int) == first_space(line@, cut + 1));
        }
        cut = cut + 1;
    }
    proof {
        assert(first_space(line@, cut as int) == cut as int);
    }
    if cut == 0 {
        proof {
            assert(line@.subrange(0, 0) =~= Seq::<u8>::empty());
        }
        return None;
    }
    let tok = copy_range(&line, 0, cut);
    Some(tok)
}

/// The requested architecture is one the inspector recognizes and is the
/// running one.
pub open spec fn spec_arch_matches(requested: Seq<u8>, current: Seq<u8>) -> bool {
    &&& (requested == ascii_bytes("x86_64") || requested == ascii_bytes("x86") || requested
        == ascii_bytes("aarch64") || requested == ascii_bytes("arm"))
    &&& current == requested
}

/// Does the requested architecture name match the running one?  Only the
/// four names the inspector knows are accepted.
pub fn is_arch_match(requested: &[u8], current: &[u8]) -> (r: bool)
    ensures
        r == spec_arch_matches(requested@, current@),
{
    proof {
        reveal_strlit("x86_64");
        reveal_strlit("x86");
        reveal_strlit("aarch64");
        reveal_strlit("arm");
    }
    let a = crate::text::str_bytes("x86_64");
    let b = crate::text::str_bytes("x86");
    let c = crate::text::str_bytes("aarch64");
    let d = crate::text::str_bytes("arm");
    let known = bytes_eq(requested, a.as_slice()) || bytes_eq(requested, b.as_slice())
        || bytes_eq(requested, c.as_slice()) || bytes_eq(requested, d.as_slice());
    known && bytes_eq(current, requested)
}

} // verus!

//! The dependency probe: the needed-library list and run-time search path
//! drawn from the dynamic array, the critical-library test, and the parser
//! for the interpreter's resolved-path listing.
//!
//! Spawning the interpreter is an external collaborator's job; its captured
//! output is handed in as bytes and parsed here.

use vstd::prelude::*;
use crate::elf::{DynEntry, DT_NEEDED, DT_RPATH};
use crate::text::{
    ascii_bytes, bytes_eq, clone_bytes, copy_range, find_bytes, find_from, lemma_find_from_props,
    match_at, read_strz, spec_starts_with, starts_with_bytes, str_bytes, strz, trim, trim_range,
};

verus! {

/// One needed library, annotated for display.
pub struct DependencyEntry {
    pub name: Vec<u8>,
    pub is_critical: bool,
    pub search_path: Vec<u8>,
    pub actual_path: Vec<u8>,
}

/// The probe's outcome: the embedded run-time path and the needed list.
pub struct DependencySet {
    pub rpath: Option<Vec<u8>>,
    pub needed: Vec<DependencyEntry>,
}

/// The NUL-terminated string at `off` of a string table.
pub open spec fn spec_str_at(st: Seq<u8>, off: int) -> Seq<u8> {
    strz(st, off, st.len() as int)
}

/// The value of the last run-time-path entry, which overwrites the earlier
/// ones.
pub open spec fn spec_rpath_val(d: Seq<DynEntry>) -> Option<u64>
    decreases d.len(),
{
    if d.len() == 0 {
        None
    } else if d.last().tag == DT_RPATH {
        Some(d.last().val)
    } else {
        spec_rpath_val(d.drop_last())
    }
}

/// The names of the needed entries, in array order.
pub open spec fn spec_needed_names(d: Seq<DynEntry>, st: Seq<u8>) -> Seq<Seq<u8>>
    decreases d.len(),
{
    if d.len() == 0 {
        Seq::empty()
    } else {
        spec_needed_names(d.drop_last(), st) + (if d.last().tag == DT_NEEDED {
            seq![spec_str_at(st, d.last().val as int)]
        } else {
            Seq::<Seq<u8>>::empty()
        })
    }
}

/// A library whose soname marks the platform's core runtime.
pub open spec fn spec_is_critical(name: Seq<u8>) -> bool {
    ||| spec_starts_with(name, ascii_bytes("libc.so"))
    ||| spec_starts_with(name, ascii_bytes("libstdc++.so"))
    ||| spec_starts_with(name, ascii_bytes("libgcc_s.so"))
    ||| spec_starts_with(name, ascii_bytes("ld-linux"))
}

/// The composed search path: run-time path and library-path variable when
/// present, then the default system directories, joined by `:`.
pub open spec fn spec_search_path(rpath: Option<Seq<u8>>, ld: Option<Seq<u8>>) -> Seq<u8> {
    (match rpath {
        Some(r) => r + ascii_bytes(":"),
        None => Seq::<u8>::empty(),
    }) + (match ld {
        Some(l) => l + ascii_bytes(":"),
        None => Seq::<u8>::empty(),
    }) + ascii_bytes("/lib:/usr/lib:/lib64:/usr/lib64")
}

/// The last resolved pair for a name, so that later lines win.
pub open spec fn spec_resolved_lookup(m: Seq<(Vec<u8>, Vec<u8>)>, name: Seq<u8>) -> Option<int>
    decreases m.len(),
{
    if m.len() == 0 {
        None
    } else if m.last().0@ == name {
        Some(m.len() - 1)
    } else {
        spec_resolved_lookup(m.drop_last(), name)
    }
}

/// What the display column shows for a name.  On a platform that cannot
/// run the probe, a fixed note; otherwise the resolved path, or another
/// note for a name the listing does not carry (a failed probe leaves the
/// listing empty, so every name reads as not found there).
pub open spec fn spec_actual_path(supported: bool, m: Seq<(Vec<u8>, Vec<u8>)>, name: Seq<u8>) -> Seq<
    u8,
> {
    if !supported {
        ascii_bytes("Not available on current platform")
    } else {
        match spec_resolved_lookup(m, name) {
            Some(i) => m[i].1@,
            None => ascii_bytes("Not found"),
        }
    }
}

/// Whether `sub` occurs inside `s`.
pub open spec fn is_substring(sub: Seq<u8>, s: Seq<u8>) -> bool {
    exists|i: int| match_at(s, sub, i)
}

/// Is this soname a core runtime library?
pub fn is_critical_library(name: &[u8]) -> (r: bool)
    ensures
        r == spec_is_critical(name@),
{
    proof {
        reveal_strlit("libc.so");
        reveal_strlit("libstdc++.so");
        reveal_strlit("libgcc_s.so");
        reveal_strlit("ld-linux");
    }
    let a = str_bytes("libc.so");
    let b = str_bytes("libstdc++.so");
    let c = str_bytes("libgcc_s.so");
    let d = str_bytes("ld-linux");
    starts_with_bytes(name, a.as_slice()) || starts_with_bytes(name, b.as_slice())
        || starts_with_bytes(name, c.as_slice()) || starts_with_bytes(name, d.as_slice())
}

/// The NUL-terminated string at `off` of the string table `st`.
fn str_at(st: &Vec<u8>, off: u64) -> (r: Vec<u8>)
    ensures
        r@ == spec_str_at(st@, off as int),
{
    let n = st.len();
    if off < n as u64 {
        read_strz(st, off as usize, n)
    } else {
        let r: Vec<u8> = Vec::new();
        proof {
            assert(strz(st@, off as int, st@.len() as int) =~= Seq::<u8>::empty());
        }
        r
    }
}

/// Compose the search path.
pub fn get_search_path(rpath: Option<&Vec<u8>>, ld_library_path: Option<&Vec<u8>>) -> (r: Vec<u8>)
    ensures
        r@ == spec_search_path(
            match rpath {
                Some(v) => Some(v@),
                None => None,
            },
            match ld_library_path {
                Some(v) => Some(v@),
                None => None,
            },
        ),
{
    proof {
        reveal_strlit(":");
        reveal_strlit("/lib:/usr/lib:/lib64:/usr/lib64");
    }
    let mut out: Vec<u8> = Vec::new();
    match rpath {
        Some(v) => {
            let mut part = clone_bytes(v);
            out.append(&mut part);
            let mut colon = str_bytes(":");
            out.append(&mut colon);
        },
        None => {},
    }
    match ld_library_path {
        Some(v) => {
            let mut part = clone_bytes(v);
            out.append(&mut part);
            let mut colon = str_bytes(":");
            out.append(&mut colon);
        },
        None => {},
    }
    let mut tail = str_bytes("/lib:/usr/lib:/lib64:/usr/lib64");
    out.append(&mut tail);
    proof {
        assert(out@ =~= spec_search_path(
            match rpath {
                Some(v) => Some(v@),
                None => None,
            },
            match ld_library_path {
                Some(v) => Some(v@),
                None => None,
            },
        ));
    }
    out
}

/// The display path for one name, given the platform gate and the listing.
fn actual_path_for(supported: bool, m: &Vec<(Vec<u8>, Vec<u8>)>, name: &[u8]) -> (r: Vec<u8>)
    ensures
        r@ == spec_actual_path(supported, m@, name@),
{
    if !supported {
        proof {
            reveal_strlit("Not available on current platform");
        }
        return str_bytes("Not available on current platform");
    }
    let ghost full = m@;
    let mut i: usize = m.len();
    proof {
        assert(full.take(full.len() as int) =~= full);
    }
    while i > 0
        invariant
            supported,
            full == m@,
            i <= m@.len(),
            spec_resolved_lookup(full, name@) == spec_resolved_lookup(full.take(i as int), name@),
        decreases i,
    {
        if bytes_eq(m[i - 1].0.as_slice(), name) {
            proof {
                let pre = full.take(i as int);
                assert(pre.last() == full[i - 1]);
                assert(spec_resolved_lookup(pre, name@) == Some(i - 1));
            }
            return clone_bytes(&m[i - 1].1);
        }
        proof {
            let pre = full.take(i as int);
            assert(pre.last() == full[i - 1]);
            assert(pre.drop_last() =~= full.take(i - 1));
        }
        i = i - 1;
    }
    proof {
        assert(full.take(0) =~= Seq::<(Vec<u8>, Vec<u8>)>::empty());
        assert(spec_resolved_lookup(full, name@) is None);
        reveal_strlit("Not found");
    }
    str_bytes("Not found")
}

/// Build the dependency list: the run-time path is the last such entry in
/// the array; every needed entry is kept in array order, annotated with the
/// critical mark, the composed search path, and its display path from the
/// resolved listing (gated on whether this platform can run the probe at
/// all).  Without a dynamic array or its string table there are no
/// dependencies.
pub fn build_dependencies(
    dynamic: Option<&Vec<DynEntry>>,
    dynstr: Option<&Vec<u8>>,
    ld_library_path: Option<&Vec<u8>>,
    platform_supported: bool,
    resolved: &Vec<(Vec<u8>, Vec<u8>)>,
) -> (r: DependencySet)
    ensures
        match (dynamic, dynstr) {
            (Some(d), Some(st)) => {
                &&& match spec_rpath_val(d@) {
                    Some(v) => r.rpath matches Some(rp) && rp@ == spec_str_at(st@, v as int),
                    None => r.rpath is None,
                }
                &&& r.needed@.len() == spec_needed_names(d@, st@).len()
                &&& forall|k: int|
                    0 <= k < r.needed@.len() ==> {
                        let nm = spec_needed_names(d@, st@)[k];
                        &&& (#[trigger] r.needed@[k]).name@ == nm
                        &&& r.needed@[k].is_critical == spec_is_critical(nm)
                        &&& r.needed@[k].search_path@ == spec_search_path(
                            match spec_rpath_val(d@) {
                                Some(v) => Some(spec_str_at(st@, v as int)),
                                None => None,
                            },
                            match ld_library_path {
                                Some(l) => Some(l@),
                                None => None,
                            },
                        )
                        &&& r.needed@[k].actual_path@ == spec_actual_path(
                            platform_supported,
                            resolved@,
                            nm,
                        )
                    }
            },
            _ => r.rpath is None && r.needed@.len() == 0,
        },
{
    match (dynamic, dynstr) {
        (Some(d), Some(st)) => {
            let mut rv: Option<u64> = None;
            let mut i: usize = 0;
            proof {
                assert(d@.take(0) =~= Seq::<DynEntry>::empty());
            }
            while i < d.len()
                invariant
                    i <= d@.len(),
                    rv == spec_rpath_val(d@.take(i as int)),
                decreases d@.len() - i,
            {
                proof {
                    assert(d@.take(i + 1).drop_last() =~= d@.take(i as int));
                    assert(d@.take(i + 1).last() == d@[i as int]);
                }
                if d[i].tag == DT_RPATH {
                    rv = Some(d[i].val);
                }
                i = i + 1;
            }
            proof {
                assert(d@.take(d@.len() as int) =~= d@);
            }
            let rpath: Option<Vec<u8>> = match rv {
                Some(v) => Some(str_at(st, v)),
                None => None,
            };
            let spath = get_search_path(
                match &rpath {
                    Some(v) => Some(v),
                    None => None,
                },
                ld_library_path,
            );
            let mut needed: Vec<DependencyEntry> = Vec::new();
            let mut j: usize = 0;
            proof {
                assert(d@.take(0) =~= Seq::<DynEntry>::empty());
            }
            while j < d.len()
                invariant
                    j <= d@.len(),
                    needed@.len() == spec_needed_names(d@.take(j as int), st@).len(),
                    spath@ == spec_search_path(
                        match spec_rpath_val(d@) {
                            Some(v) => Some(spec_str_at(st@, v as int)),
                            None => None,
                        },
                        match ld_library_path {
                            Some(l) => Some(l@),
                            None => None,
                        },
                    ),
                    forall|k: int|
                        0 <= k < needed@.len() ==> {
                            let nm = spec_needed_names(d@.take(j as int), st@)[k];
                            &&& (#[trigger] needed@[k]).name@ == nm
                            &&& needed@[k].is_critical == spec_is_critical(nm)
                            &&& needed@[k].search_path@ == spath@
                            &&& needed@[k].actual_path@ == spec_actual_path(
                                platform_supported,
                                resolved@,
                                nm,
                            )
                        },
                decreases d@.len() - j,
            {
                proof {
                    assert(d@.take(j + 1).drop_last() =~= d@.take(j as int));
                    assert(d@.take(j + 1).last() == d@[j as int]);
                }
                if d[j].tag == DT_NEEDED {
                    let name = str_at(st, d[j].val);
                    let is_critical = is_critical_library(name.as_slice());
                    let actual_path = actual_path_for(
                        platform_supported,
                        resolved,
                        name.as_slice(),
                    );
                    let entry = DependencyEntry {
                        is_critical,
                        search_path: clone_bytes(&spath),
                        actual_path,
                        name,
                    };
                    needed.push(entry);
                    proof {
                        assert(spec_needed_names(d@.take(j + 1), st@) =~= spec_needed_names(
                            d@.take(j as int),
                            st@,
                        ) + seq![spec_str_at(st@, d@[j as int].val as int)]);
                    }
                } else {
                    proof {
                        assert(spec_needed_names(d@.take(j + 1), st@) =~= spec_needed_names(
                            d@.take(j as int),
                            st@,
                        ));
                    }
                }
                j = j + 1;
            }
            proof {
                assert(d@.take(d@.len() as int) =~= d@);
            }
            DependencySet { rpath, needed }
        },
        _ => DependencySet { rpath: None, needed: Vec::new() },
    }
}

/// The end of the listing line that starts at `i`: the next newline, or the
/// end of the output.
pub open spec fn line_end(s: Seq<u8>, i: int) -> int {
    match find_from(s, ascii_bytes("\n"), i) {
        Some(k) => if k < i {
            i
        } else {
            k
        },
        None => s.len() as int,
    }
}

/// The pair one listing line contributes: the trimmed text left of the
/// first arrow is the name; the trimmed text between the arrow and the
/// parenthesized load address is the path.  A line without an arrow, or
/// with an empty path, contributes nothing.
pub open spec fn spec_line_pair(line: Seq<u8>) -> Option<(Seq<u8>, Seq<u8>)> {
    match find_from(line, ascii_bytes("=>"), 0) {
        None => None,
        Some(k) => {
            let name = trim(line.subrange(0, k));
            let rest0 = line.subrange(k + 2, line.len() as int);
            let rest1 = match find_from(rest0, ascii_bytes("=>"), 0) {
                Some(m) => rest0.subrange(0, m),
                None => rest0,
            };
            let cut = match find_from(rest1, ascii_bytes("("), 0) {
                Some(p) => p,
                None => rest1.len() as int,
            };
            let path = trim(rest1.subrange(0, cut));
            if path.len() == 0 {
                None
            } else {
                Some((name, path))
            }
        },
    }
}

pub open spec fn opt_pair(p: Option<(Seq<u8>, Seq<u8>)>) -> Seq<(Seq<u8>, Seq<u8>)> {
    match p {
        Some(x) => seq![x],
        None => Seq::empty(),
    }
}

/// The pairs contributed by all listing lines from `i` on.
pub open spec fn spec_resolved_from(s: Seq<u8>, i: int) -> Seq<(Seq<u8>, Seq<u8>)>
    decreases s.len() - i,
{
    if i < 0 || i >= s.len() {
        Seq::empty()
    } else {
        let e = line_end(s, i);
        opt_pair(spec_line_pair(s.subrange(i, e))) + (if e < s.len() {
            spec_resolved_from(s, e + 1)
        } else {
            Seq::empty()
        })
    }
}

/// The views of a pair vector.
pub open spec fn pairs_view(m: Seq<(Vec<u8>, Vec<u8>)>) -> Seq<(Seq<u8>, Seq<u8>)> {
    Seq::new(m.len(), |k: int| (m[k].0@, m[k].1@))
}

/// Parse one listing line.
fn line_pair(line: &Vec<u8>) -> (r: Option<(Vec<u8>, Vec<u8>)>)
    ensures
        match (r, spec_line_pair(line@)) {
            (Some(p), Some(q)) => p.0@ == q.0 && p.1@ == q.1,
            (None, None) => true,
            _ => false,
        },
{
    let arrow = {
        proof {
            reveal_strlit("=>");
        }
        str_bytes("=>")
    };
    match find_bytes(line.as_slice(), arrow.as_slice(), 0) {
        None => None,
        Some(k) => {
            proof {
                reveal_strlit("=>");
                assert(arrow@.len() == 2);
                lemma_find_from_props(line@, arrow@, 0);
                assert(k + 2 <= line@.len());
            }
            let ll = line.len();
            let name = trim_range(line, 0, k);
            let rest0 = copy_range(line, k + 2, ll);
            let second = find_bytes(rest0.as_slice(), arrow.as_slice(), 0);
            let rest1 = match second {
                Some(m) => {
                    proof {
                        lemma_find_from_props(rest0@, arrow@, 0);
                    }
                    copy_range(&rest0, 0, m)
                },
                None => rest0,
            };
            let paren = {
                proof {
                    reveal_strlit("(");
                }
                str_bytes("(")
            };
            let cut = match find_bytes(rest1.as_slice(), paren.as_slice(), 0) {
                Some(p) => {
                    proof {
                        lemma_find_from_props(rest1@, paren@, 0);
                    }
                    p
                },
                None => rest1.len(),
            };
            let path = trim_range(&rest1, 0, cut);
            if path.len() == 0 {
                None
            } else {
                Some((name, path))
            }
        },
    }
}

/// Parse the interpreter's resolved-path listing: one `(name, path)` pair
/// per line of the shape `name => path (address)`.
pub fn parse_resolved_paths(output: &Vec<u8>) -> (r: Vec<(Vec<u8>, Vec<u8>)>)
    ensures
        pairs_view(r@) == spec_resolved_from(output@, 0),
{
    let ghost s = output@;
    let n = output.len();
    let mut out: Vec<(Vec<u8>, Vec<u8>)> = Vec::new();
    if n == 0 {
        proof {
            assert(pairs_view(out@) =~= spec_resolved_from(s, 0));
        }
        return out;
    }
    let nl = {
        proof {
            reveal_strlit("\n");
        }
        str_bytes("\n")
    };
    let mut i: usize = 0;
    while i < n
        invariant
            s == output@,
            n == s.len(),
            i <= n,
            nl@ == ascii_bytes("\n"),
            pairs_view(out@) + spec_resolved_from(s, i as int) == spec_resolved_from(s, 0),
        decreases n - i,
    {
        let e = match find_bytes(output.as_slice(), nl.as_slice(), i) {
            Some(k) => {
                proof {
                    lemma_find_from_props(s, nl@, i as int);
                }
                k
            },
            None => n,
        };
        proof {
            assert(e == line_end(s, i as int));
        }
        let line = copy_range(output, i, e);
        let ghost out_pre = out@;
        match line_pair(&line) {
            Some(p) => {
                out.push(p);
                proof {
                    assert(pairs_view(out@) =~= pairs_view(out_pre) + opt_pair(
                        spec_line_pair(line@),
                    ));
                }
            },
            None => {
                proof {
                    assert(pairs_view(out@) =~= pairs_view(out_pre) + opt_pair(
                        spec_line_pair(line@),
                    ));
                }
            },
        }
        proof {
            assert(spec_resolved_from(s, i as int) == opt_pair(spec_line_pair(line@)) + (
            if e < n {
                spec_resolved_from(s, e + 1)
            } else {
                Seq::<(Seq<u8>, Seq<u8>)>::empty()
            }));
            if e >= n {
                assert(spec_resolved_from(s, n as int) =~= Seq::<(Seq<u8>, Seq<u8>)>::empty());
            }
            assert(pairs_view(out@) + (if e < n {
                spec_resolved_from(s, e + 1)
            } else {
                Seq::<(Seq<u8>, Seq<u8>)>::empty()
            }) =~= spec_resolved_from(s, 0));
        }
        if e < n {
            i = e + 1;
        } else {
            i = n;
        }
    }
    proof {
        assert(spec_resolved_from(s, n as int) =~= Seq::<(Seq<u8>, Seq<u8>)>::empty());
        assert(pairs_view(out@) =~= spec_resolved_from(s, 0));
    }
    out
}

/// Law: each dependency entry's name is one of the needed strings, and is a
/// substring of exactly one of them — its own — provided no needed string
/// occurs inside a different one (with duplicate or nested sonames the
/// count would exceed one).
pub proof fn lemma_needed_name_unique(names: Seq<Seq<u8>>, k: int)
    requires
        0 <= k < names.len(),
        forall|i: int, j: int|
            0 <= i < names.len() && 0 <= j < names.len() && i != j ==> !is_substring(
                names[i],
                names[j],
            ),
    ensures
        is_substring(names[k], names[k]),
        forall|j: int| 0 <= j < names.len() && j != k ==> !is_substring(names[k], names[j]),
{
    assert(match_at(names[k], names[k], 0));
}

} // verus!

//! The section view's data: per-section descriptors with display
//! descriptions, and the textual layout visualization that marks where the
//! selected section lies within the file.

use vstd::prelude::*;
use vstd::string::*;
use crate::elf::ElfFile;
use crate::text::{ascii_bytes, bytes_eq, str_bytes};

verus! {

/// One section as the section view shows it.
pub struct Section {
    pub offset: u64,
    pub size: u64,
    pub description: String,
}

/// The display description of a section name.
pub open spec fn spec_description(name: Seq<u8>) -> Seq<char> {
    if name == ascii_bytes(".text") {
        "Executable code"@
    } else if name == ascii_bytes(".rodata") {
        "Read-only data"@
    } else if name == ascii_bytes(".data") {
        "Initialized data"@
    } else if name == ascii_bytes(".bss") {
        "Uninitialized data"@
    } else if name == ascii_bytes(".symtab") {
        "Symbol table"@
    } else if name == ascii_bytes(".strtab") {
        "String table"@
    } else if name == ascii_bytes(".shstrtab") {
        "Section header string table"@
    } else {
        "Unknown"@
    }
}

/// The description shown for a section name.
#[allow(non_snake_case)]
pub fn getDescription(name: &[u8]) -> (r: String)
    ensures
        r@ == spec_description(name@),
{
    proof {
        reveal_strlit(".text");
        reveal_strlit(".rodata");
        reveal_strlit(".data");
        reveal_strlit(".bss");
        reveal_strlit(".symtab");
        reveal_strlit(".strtab");
        reveal_strlit(".shstrtab");
    }
    let lit: &str = if bytes_eq(name, str_bytes(".text").as_slice()) {
        "Executable code"
    } else if bytes_eq(name, str_bytes(".rodata").as_slice()) {
        "Read-only data"
    } else if bytes_eq(name, str_bytes(".data").as_slice()) {
        "Initialized data"
    } else if bytes_eq(name, str_bytes(".bss").as_slice()) {
        "Uninitialized data"
    } else if bytes_eq(name, str_bytes(".symtab").as_slice()) {
        "Symbol table"
    } else if bytes_eq(name, str_bytes(".strtab").as_slice()) {
        "String table"
    } else if bytes_eq(name, str_bytes(".shstrtab").as_slice()) {
        "Section header string table"
    } else {
        "Unknown"
    };
    String::from_str(lit)
}

/// The section view's rows: offset, size and description of each section,
/// in table order.
pub fn build_sections(elf: &ElfFile) -> (r: Vec<Section>)
    requires
        elf.wf(),
    ensures
        r@.len() == elf.sections@.len(),
        forall|i: int|
            0 <= i < r@.len() ==> {
                &&& (#[trigger] r@[i]).offset == elf.sections@[i].offset
                &&& r@[i].size == elf.sections@[i].size
                &&& r@[i].description@ == spec_description(elf.sections@[i].name@)
            },
{
    let mut r: Vec<Section> = Vec::new();
    let mut i: usize = 0;
    while i < elf.sections.len()
        invariant
            i <= elf.sections@.len(),
            r@.len() == i,
            forall|k: int|
                0 <= k < i ==> {
                    &&& (#[trigger] r@[k]).offset == elf.sections@[k].offset
                    &&& r@[k].size == elf.sections@[k].size
                    &&& r@[k].description@ == spec_description(elf.sections@[k].name@)
                },
        decreases elf.sections@.len() - i,
    {
        let s = &elf.sections[i];
        r.push(
            Section {
                offset: s.offset,
                size: s.size,
                description: getDescription(s.name.as_slice()),
            },
        );
        i = i + 1;
    }
    r
}

/// The largest extent `offset + size` over the sections (zero when there
/// are none).
pub open spec fn spec_max_extent(s: Seq<Section>) -> int
    decreases s.len(),
{
    if s.len() == 0 {
        0
    } else {
        let rest = spec_max_extent(s.drop_last());
        let cur = s.last().offset + s.last().size;
        if cur > rest {
            cur
        } else {
            rest
        }
    }
}

/// The cell positions marked for the selected section, scaled onto `total`
/// cells: `[start, end)` with at least one cell, clipped to the grid.
pub open spec fn spec_mark_start(sections: Seq<Section>, sel: int, total: int) -> int {
    let m = spec_max_extent(sections);
    if sections.len() == 0 {
        0
    } else if m == 0 {
        0
    } else {
        sections[sel].offset * total / m
    }
}

pub open spec fn spec_mark_end(sections: Seq<Section>, sel: int, total: int) -> int {
    let m = spec_max_extent(sections);
    if sections.len() == 0 {
        0
    } else if m == 0 {
        1
    } else {
        let s0 = spec_mark_start(sections, sel, total);
        let e0 = (sections[sel].offset + sections[sel].size) * total / m;
        let e1 = if e0 <= s0 {
            s0 + 1
        } else {
            e0
        };
        if e1 > total {
            total
        } else {
            e1
        }
    }
}

/// The character of cell `p`.
pub open spec fn spec_cell(start: int, end: int, p: int) -> char {
    if start <= p < end {
        '*'
    } else {
        '.'
    }
}

/// Eight spaces: the pad that precedes each visualization row.
pub open spec fn spec_row_pad() -> Seq<char> {
    Seq::new(8, |i: int| ' ')
}

/// The visualization's rows from `row` on: each on its own line, padded,
/// `width` cells each.
pub open spec fn spec_vis_rows(start: int, end: int, width: int, row: int, height: int) -> Seq<
    char,
>
    decreases height - row,
{
    if row < 0 || row >= height {
        Seq::empty()
    } else {
        (if row > 0 {
            seq!['\n']
        } else {
            Seq::<char>::empty()
        }) + spec_row_pad() + Seq::new(width as nat, |c: int| spec_cell(start, end, row * width + c))
            + spec_vis_rows(start, end, width, row + 1, height)
    }
}

/// The whole visualization text.
pub open spec fn spec_visualization(sections: Seq<Section>, sel: int, width: int, height: int) -> Seq<
    char,
> {
    spec_vis_rows(
        spec_mark_start(sections, sel, width * height),
        spec_mark_end(sections, sel, width * height),
        width,
        0,
        height,
    )
}

/// Lay the file out on a `width` by `height` grid of cells and mark the
/// cells the selected section covers, at least one.  Scaling divides
/// integer cell positions by the largest section extent.
pub fn generate_section_visualization(
    sections: &Vec<Section>,
    selected_idx: usize,
    width: usize,
    height: usize,
) -> (r: String)
    requires
        selected_idx < sections@.len(),
        width * height <= 0x7FFF_FFFF,
        width >= 1,
    ensures
        r@ == spec_visualization(sections@, selected_idx as int, width as int, height as int),
{
    let ghost ss = sections@;
    let total = width * height;
    let mut maxe: u128 = 0;
    let mut i: usize = 0;
    proof {
        assert(spec_max_extent(ss.take(0)) == 0);
    }
    while i < sections.len()
        invariant
            ss == sections@,
            i <= ss.len(),
            maxe == spec_max_extent(ss.take(i as int)),
        decreases ss.len() - i,
    {
        proof {
            assert(ss.take(i + 1).drop_last() =~= ss.take(i as int));
            assert(ss.take(i + 1).last() == ss[i as int]);
        }
        let off = sections[i].offset;
        let size = sections[i].size;
        let cur: u128 = (off as u128) + (size as u128);
        if cur > maxe {
            maxe = cur;
        }
        i = i + 1;
    }
    proof {
        assert(ss.take(ss.len() as int) =~= ss);
    }
    let m = maxe;
    let start: usize;
    let end: usize;
    if m == 0 {
        start = 0;
        end = 1;
    } else {
        let off = sections[selected_idx].offset;
        let size = sections[selected_idx].size;
        proof {
            lemma_max_extent_ge(ss, selected_idx as int);
            assert((off as int) * (total as int) <= 0xFFFF_FFFF_FFFF_FFFF
                * 0x7FFF_FFFF) by (nonlinear_arith)
                requires
                    0 <= off as int <= 0xFFFF_FFFF_FFFF_FFFF,
                    0 <= total as int <= 0x7FFF_FFFF,
            ;
        }
        let s0_128 = (off as u128) * (total as u128) / m;
        proof {
            assert((off as int) * (total as int) / (m as int) <= total as int) by (nonlinear_arith)
                requires
                    0 <= off as int <= m as int,
                    0 < m as int,
                    0 <= total as int,
            ;
        }
        start = s0_128 as usize;
        let ext: u128 = (off as u128) + (size as u128);
        proof {
            assert((ext as int) * (total as int) <= (0xFFFF_FFFF_FFFF_FFFF
                + 0xFFFF_FFFF_FFFF_FFFF) * 0x7FFF_FFFF) by (nonlinear_arith)
                requires
                    0 <= ext as int <= 0xFFFF_FFFF_FFFF_FFFF + 0xFFFF_FFFF_FFFF_FFFF,
                    0 <= total as int <= 0x7FFF_FFFF,
            ;
        }
        let e0_128 = ext * (total as u128) / m;
        proof {
            assert((ext as int) * (total as int) / (m as int) <= total as int) by (nonlinear_arith)
                requires
                    0 <= ext as int <= m as int,
                    0 < m as int,
                    0 <= total as int,
            ;
        }
        let e0 = e0_128 as usize;
        let e1 = if e0 <= start {
            start + 1
        } else {
            e0
        };
        end = if e1 > total {
            total
        } else {
            e1
        };
    }
    proof {
        assert(start == spec_mark_start(ss, selected_idx as int, total as int));
        assert(end == spec_mark_end(ss, selected_idx as int, total as int));
    }
    let mut out = String::new();
    let mut row: usize = 0;
    while row < height
        invariant
            width >= 1,
            total == width * height,
            total <= 0x7FFF_FFFF,
            row <= height,
            out@ + spec_vis_rows(start as int, end as int, width as int, row as int, height as int)
                == spec_vis_rows(start as int, end as int, width as int, 0, height as int),
        decreases height - row,
    {
        if row > 0 {
            proof {
                reveal_strlit("\n");
            }
            out.append("\n");
        }
        proof {
            reveal_strlit("        ");
            assert("        "@ =~= spec_row_pad());
        }
        out.append("        ");
        let ghost row_cells = Seq::new(
            width as nat,
            |c: int| spec_cell(start as int, end as int, (row as int) * (width as int) + c),
        );
        let mut c: usize = 0;
        let ghost out_mid = out@;
        while c < width
            invariant
                width >= 1,
                total == width * height,
                total <= 0x7FFF_FFFF,
                row < height,
                c <= width,
                row_cells == Seq::new(
                    width as nat,
                    |cc: int|
                        spec_cell(start as int, end as int, (row as int) * (width as int) + cc),
                ),
                out@ == out_mid + row_cells.take(c as int),
            decreases width - c,
        {
            proof {
                lemma_row_cell_bound(row as int, width as int, height as int, c as int);
                reveal_strlit("*");
                reveal_strlit(".");
            }
            let p = row * width + c;
            if start <= p && p < end {
                out.append("*");
            } else {
                out.append(".");
            }
            proof {
                assert(out@ =~= out_mid + row_cells.take(c + 1));
            }
            c = c + 1;
        }
        proof {
            assert(row_cells.take(width as int) =~= row_cells);
        }
        row = row + 1;
    }
    proof {
        assert(out@ =~= spec_visualization(ss, selected_idx as int, width as int, height as int));
    }
    out
}

/// Every section's extent is at most the largest extent.
proof fn lemma_max_extent_ge(s: Seq<Section>, k: int)
    requires
        0 <= k < s.len(),
    ensures
        s[k].offset + s[k].size <= spec_max_extent(s),
    decreases s.len(),
{
    if k == s.len() - 1 {
    } else {
        lemma_max_extent_ge(s.drop_last(), k);
        assert(s.drop_last()[k] == s[k]);
    }
}

/// Cell positions inside the grid fit the machine word.
proof fn lemma_row_cell_bound(row: int, width: int, height: int, c: int)
    requires
        0 <= row < height,
        0 <= c < width,
        width * height <= 0x7FFF_FFFF,
    ensures
        row * width + c < width * height,
{
    assert(row * width + c < width * height) by (nonlinear_arith)
        requires
            0 <= row < height,
            0 <= c < width,
    ;
}

} // verus!

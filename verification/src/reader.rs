//! The container reader: parsing an ELF image out of a byte buffer into an
//! [`ElfFile`] whose tables are proved equal to the model of the bytes, and
//! read-only access to sections, section bytes and the interpreter string.

use vstd::prelude::*;
use vstd::arithmetic::div_mod::lemma_fundamental_div_mod;
use vstd::arithmetic::mul::lemma_mul_inequality;
use crate::bytes::{lemma_word_value_bound, read_u16, read_u32, read_u64};
use crate::elf::{
    dyn_base, dyn_matches, ph_base, rela_base, rela_matches, sec_base, sec_matches, seg_matches,
    spec_dyn_count, spec_dyn_tag, spec_dyn_val, spec_dynamic_sec, spec_dynsize, spec_dynstr,
    spec_dynsym, spec_e_entry, spec_e_machine, spec_e_type, spec_ehsize, spec_find_name_from,
    spec_find_type_from, spec_ident_ok, spec_interp_seg, spec_interpreter, spec_is_64, spec_is_le,
    spec_ph_filesz, spec_ph_offset, spec_ph_type, spec_phent, spec_phnum, spec_phoff,
    spec_rela_count, spec_rela_offset, spec_rela_plt, spec_rela_sym, spec_relasize, spec_sec_addr,
    spec_sec_entsize, spec_sec_link, spec_sec_name, spec_sec_name_off, spec_sec_offset,
    spec_sec_size, spec_sec_type, spec_sections_ok, spec_segments_ok, spec_shent, spec_shnum,
    spec_shoff, spec_shstrndx, spec_sym_count, spec_sym_name, spec_sym_name_off, spec_sym_shndx,
    spec_sym_size, spec_sym_value, spec_symsize, spec_symtab, spec_table_ok, spec_valid, sym_base,
    sym_matches, DynEntry, ElfFile, ProgramHeader, RelaEntry, SectionHeader, SymbolEntry,
    PT_INTERP, SHT_DYNAMIC, SHT_DYNSYM, SHT_SYMTAB,
};
use crate::text::{bytes_eq, copy_range, copy_range_trim_zeros, read_strz, str_bytes, strz};

verus! {

/// Why a byte buffer was rejected as a container.
#[derive(Clone, Copy, Debug, PartialEq, Eq, Structural)]
pub enum ParseError {
    /// Bad magic number, class, encoding or version byte.
    BadIdent,
    /// The buffer ends inside the file header.
    Truncated,
    /// The section header table points outside the buffer.
    BadSectionTable,
    /// The program header table points outside the buffer.
    BadProgramTable,
}

/// The error `parse` reports for an invalid buffer: the first failing check.
pub open spec fn spec_parse_error(s: Seq<u8>) -> ParseError {
    if !spec_ident_ok(s) {
        ParseError::BadIdent
    } else if s.len() < spec_ehsize(s) {
        ParseError::Truncated
    } else if !spec_sections_ok(s) {
        ParseError::BadSectionTable
    } else {
        ParseError::BadProgramTable
    }
}

/// The raw fields of one section header.
struct RawSec {
    name_off: u32,
    sh_type: u32,
    addr: u64,
    offset: u64,
    size: u64,
    link: u32,
    entsize: u64,
}

proof fn lemma_sec_base_bounds(s: Seq<u8>, i: int)
    requires
        spec_valid(s),
        0 <= i < spec_shnum(s),
    ensures
        spec_shoff(s) + i * spec_shent(s) + spec_shent(s) <= s.len(),
        0 <= i * spec_shent(s),
{
    let e = spec_shent(s);
    lemma_mul_inequality(i + 1, spec_shnum(s), e);
    lemma_mul_inequality(0, i, e);
    assert((i + 1) * e == i * e + e) by (nonlinear_arith);
    assert(0 * e == 0) by (nonlinear_arith);
}

proof fn lemma_ph_base_bounds(s: Seq<u8>, i: int)
    requires
        spec_valid(s),
        0 <= i < spec_phnum(s),
    ensures
        spec_phoff(s) + i * spec_phent(s) + spec_phent(s) <= s.len(),
        0 <= i * spec_phent(s),
{
    let e = spec_phent(s);
    lemma_mul_inequality(i + 1, spec_phnum(s), e);
    lemma_mul_inequality(0, i, e);
    assert((i + 1) * e == i * e + e) by (nonlinear_arith);
    assert(0 * e == 0) by (nonlinear_arith);
}

/// Read the raw fields of section header `i`.
fn read_section_fields(data: &Vec<u8>, i: usize, is64: bool, isle: bool, shoff: u64) -> (r: RawSec)
    requires
        spec_valid(data@),
        i < spec_shnum(data@),
        is64 == spec_is_64(data@),
        isle == spec_is_le(data@),
        shoff == spec_shoff(data@),
    ensures
        r.name_off == spec_sec_name_off(data@, i as int),
        r.sh_type == spec_sec_type(data@, i as int),
        r.addr == spec_sec_addr(data@, i as int),
        r.offset == spec_sec_offset(data@, i as int),
        r.size == spec_sec_size(data@, i as int),
        r.link == spec_sec_link(data@, i as int),
        r.entsize == spec_sec_entsize(data@, i as int),
{
    let ghost s = data@;
    let n = data.len();
    proof {
        lemma_sec_base_bounds(s, i as int);
    }
    let shent: u64 = if is64 {
        64
    } else {
        40
    };
    proof {
        assert(shent == spec_shent(s));
        assert(shoff + (i as int) * spec_shent(s) + spec_shent(s) <= n);
    }
    let base64: u64 = shoff + (i as u64) * shent;
    let b = base64 as usize;
    proof {
        assert(base64 == sec_base(s, i as int));
        assert(b + shent <= data@.len());
    }
    if is64 {
        RawSec {
            name_off: read_u32(data, b, isle),
            sh_type: read_u32(data, b + 4, isle),
            addr: read_u64(data, b + 16, isle),
            offset: read_u64(data, b + 24, isle),
            size: read_u64(data, b + 32, isle),
            link: read_u32(data, b + 40, isle),
            entsize: read_u64(data, b + 56, isle),
        }
    } else {
        RawSec {
            name_off: read_u32(data, b, isle),
            sh_type: read_u32(data, b + 4, isle),
            addr: read_u32(data, b + 12, isle) as u64,
            offset: read_u32(data, b + 16, isle) as u64,
            size: read_u32(data, b + 20, isle) as u64,
            link: read_u32(data, b + 24, isle),
            entsize: read_u32(data, b + 36, isle) as u64,
        }
    }
}

/// Read the raw fields of program header `i`.
fn read_program_fields(data: &Vec<u8>, i: usize, is64: bool, isle: bool, phoff: u64) -> (r:
    ProgramHeader)
    requires
        spec_valid(data@),
        i < spec_phnum(data@),
        is64 == spec_is_64(data@),
        isle == spec_is_le(data@),
        phoff == spec_phoff(data@),
    ensures
        seg_matches(r, data@, i as int),
{
    let ghost s = data@;
    let n = data.len();
    proof {
        lemma_ph_base_bounds(s, i as int);
    }
    let phent: u64 = if is64 {
        56
    } else {
        32
    };
    proof {
        assert(phent == spec_phent(s));
        assert(phoff + (i as int) * spec_phent(s) + spec_phent(s) <= n);
    }
    let base64: u64 = phoff + (i as u64) * phent;
    let b = base64 as usize;
    proof {
        assert(base64 == ph_base(s, i as int));
        assert(b + phent <= data@.len());
    }
    if is64 {
        ProgramHeader {
            p_type: read_u32(data, b, isle),
            offset: read_u64(data, b + 8, isle),
            filesz: read_u64(data, b + 32, isle),
        }
    } else {
        ProgramHeader {
            p_type: read_u32(data, b, isle),
            offset: read_u32(data, b + 4, isle) as u64,
            filesz: read_u32(data, b + 16, isle) as u64,
        }
    }
}

/// Materialize the section header table with resolved names.
fn parse_sections(
    data: &Vec<u8>,
    is64: bool,
    isle: bool,
    shoff: u64,
    shnum: u16,
    shstrndx: u16,
) -> (r: Vec<SectionHeader>)
    requires
        spec_valid(data@),
        is64 == spec_is_64(data@),
        isle == spec_is_le(data@),
        shoff == spec_shoff(data@),
        shnum == spec_shnum(data@),
        shstrndx == spec_shstrndx(data@),
    ensures
        r@.len() == spec_shnum(data@),
        forall|i: int| 0 <= i < r@.len() ==> sec_matches(#[trigger] r@[i], data@, i),
{
    let ghost s = data@;
    let mut r: Vec<SectionHeader> = Vec::new();
    if shnum == 0 {
        return r;
    }
    let n = data.len();
    let n64 = n as u64;
    let st = read_section_fields(data, shstrndx as usize, is64, isle, shoff);
    let str_ok = st.offset <= n64 && st.size <= n64 - st.offset;
    proof {
        assert(str_ok == spec_table_ok(s, spec_shstrndx(s)));
    }
    let mut i: usize = 0;
    while i < shnum as usize
        invariant
            spec_valid(s),
            s == data@,
            is64 == spec_is_64(s),
            isle == spec_is_le(s),
            shoff == spec_shoff(s),
            shnum == spec_shnum(s),
            shstrndx == spec_shstrndx(s),
            n == data@.len(),
            n64 == n as u64,
            st.offset == spec_sec_offset(s, spec_shstrndx(s)),
            st.size == spec_sec_size(s, spec_shstrndx(s)),
            str_ok == spec_table_ok(s, spec_shstrndx(s)),
            i <= shnum as usize,
            r@.len() == i,
            forall|k: int| 0 <= k < i ==> sec_matches(#[trigger] r@[k], s, k),
        decreases shnum as int - i,
    {
        let raw = read_section_fields(data, i, is64, isle, shoff);
        let name: Vec<u8> = if str_ok && (raw.name_off as u64) < st.size {
            let start = st.offset + raw.name_off as u64;
            read_strz(data, start as usize, (st.offset + st.size) as usize)
        } else {
            Vec::new()
        };
        proof {
            if str_ok && !((raw.name_off as u64) < st.size) {
                assert(strz(
                    s,
                    spec_sec_offset(s, spec_shstrndx(s)) + spec_sec_name_off(s, i as int),
                    spec_sec_offset(s, spec_shstrndx(s)) + spec_sec_size(s, spec_shstrndx(s)),
                ) =~= Seq::<u8>::empty());
            }
            assert(name@ == spec_sec_name(s, i as int));
        }
        r.push(
            SectionHeader {
                name,
                sh_type: raw.sh_type,
                addr: raw.addr,
                offset: raw.offset,
                size: raw.size,
                link: raw.link,
                entsize: raw.entsize,
            },
        );
        i = i + 1;
    }
    r
}

/// Materialize the program header table.
fn parse_segments(data: &Vec<u8>, is64: bool, isle: bool, phoff: u64, phnum: u16) -> (r: Vec<
    ProgramHeader,
>)
    requires
        spec_valid(data@),
        is64 == spec_is_64(data@),
        isle == spec_is_le(data@),
        phoff == spec_phoff(data@),
        phnum == spec_phnum(data@),
    ensures
        r@.len() == spec_phnum(data@),
        forall|i: int| 0 <= i < r@.len() ==> seg_matches(#[trigger] r@[i], data@, i),
{
    let ghost s = data@;
    let mut r: Vec<ProgramHeader> = Vec::new();
    let mut i: usize = 0;
    while i < phnum as usize
        invariant
            spec_valid(s),
            s == data@,
            is64 == spec_is_64(s),
            isle == spec_is_le(s),
            phoff == spec_phoff(s),
            phnum == spec_phnum(s),
            i <= phnum as usize,
            r@.len() == i,
            forall|k: int| 0 <= k < i ==> seg_matches(#[trigger] r@[k], s, k),
        decreases phnum as int - i,
    {
        let seg = read_program_fields(data, i, is64, isle, phoff);
        r.push(seg);
        i = i + 1;
    }
    r
}

/// The first section of header type `ty`, as `spec_find_type_from` names it.
fn find_by_type(sections: &Vec<SectionHeader>, ty: u32, Ghost(s): Ghost<Seq<u8>>) -> (r: Option<
    usize,
>)
    requires
        sections@.len() == spec_shnum(s),
        forall|i: int| 0 <= i < sections@.len() ==> sec_matches(#[trigger] sections@[i], s, i),
    ensures
        match r {
            Some(i) => spec_find_type_from(s, ty as int, 0) == Some(i as int) && i
                < sections@.len(),
            None => spec_find_type_from(s, ty as int, 0) is None,
        },
{
    let mut i: usize = 0;
    while i < sections.len()
        invariant
            sections@.len() == spec_shnum(s),
            forall|k: int| 0 <= k < sections@.len() ==> sec_matches(#[trigger] sections@[k], s, k),
            i <= sections@.len(),
            spec_find_type_from(s, ty as int, 0) == spec_find_type_from(s, ty as int, i as int),
        decreases sections@.len() - i,
    {
        if sections[i].sh_type == ty {
            return Some(i);
        }
        proof {
            assert(spec_find_type_from(s, ty as int, i as int) == spec_find_type_from(
                s,
                ty as int,
                i + 1,
            ));
        }
        i = i + 1;
    }
    None
}

/// The first section named `name`, as `spec_find_name_from` names it.
fn find_by_name(sections: &Vec<SectionHeader>, name: &[u8], Ghost(s): Ghost<Seq<u8>>) -> (r:
    Option<usize>)
    requires
        sections@.len() == spec_shnum(s),
        forall|i: int| 0 <= i < sections@.len() ==> sec_matches(#[trigger] sections@[i], s, i),
    ensures
        match r {
            Some(i) => spec_find_name_from(s, name@, 0) == Some(i as int) && i < sections@.len(),
            None => spec_find_name_from(s, name@, 0) is None,
        },
{
    let mut i: usize = 0;
    while i < sections.len()
        invariant
            sections@.len() == spec_shnum(s),
            forall|k: int| 0 <= k < sections@.len() ==> sec_matches(#[trigger] sections@[k], s, k),
            i <= sections@.len(),
            spec_find_name_from(s, name@, 0) == spec_find_name_from(s, name@, i as int),
        decreases sections@.len() - i,
    {
        if bytes_eq(sections[i].name.as_slice(), name) {
            return Some(i);
        }
        proof {
            assert(spec_find_name_from(s, name@, i as int) == spec_find_name_from(
                s,
                name@,
                i + 1,
            ));
        }
        i = i + 1;
    }
    None
}

/// Materialize the symbol table held by section `t`.
fn parse_symbol_entries(
    data: &Vec<u8>,
    t: usize,
    t_off: u64,
    t_size: u64,
    t_link: u32,
    is64: bool,
    isle: bool,
    shoff: u64,
    shnum: u16,
) -> (r: Vec<SymbolEntry>)
    requires
        spec_valid(data@),
        t < spec_shnum(data@),
        spec_table_ok(data@, t as int),
        is64 == spec_is_64(data@),
        isle == spec_is_le(data@),
        shoff == spec_shoff(data@),
        shnum == spec_shnum(data@),
        t_off == spec_sec_offset(data@, t as int),
        t_size == spec_sec_size(data@, t as int),
        t_link == spec_sec_link(data@, t as int),
    ensures
        r@.len() == spec_sym_count(data@, t as int),
        forall|j: int| 0 <= j < r@.len() ==> sym_matches(#[trigger] r@[j], data@, t as int, j),
{
    let ghost s = data@;
    let n = data.len();
    let n64 = n as u64;
    let symsize: u64 = if is64 {
        24
    } else {
        16
    };
    proof {
        assert(symsize == spec_symsize(s));
    }
    let count64 = t_size / symsize;
    proof {
        assert(count64 == spec_sym_count(s, t as int));
        lemma_fundamental_div_mod(t_size as int, symsize as int);
    }
    let count = count64 as usize;
    let li = t_link as usize;
    let mut str_ok = false;
    let mut str_off: u64 = 0;
    let mut str_size: u64 = 0;
    if li < shnum as usize {
        let sr = read_section_fields(data, li, is64, isle, shoff);
        str_off = sr.offset;
        str_size = sr.size;
        str_ok = sr.offset <= n64 && sr.size <= n64 - sr.offset;
    }
    proof {
        assert(str_ok == (0 <= t_link < spec_shnum(s) && spec_table_ok(s, t_link as int)));
    }
    let mut r: Vec<SymbolEntry> = Vec::new();
    let mut j: usize = 0;
    while j < count
        invariant
            spec_valid(s),
            s == data@,
            is64 == spec_is_64(s),
            isle == spec_is_le(s),
            t < spec_shnum(s),
            spec_table_ok(s, t as int),
            t_off == spec_sec_offset(s, t as int),
            t_size == spec_sec_size(s, t as int),
            t_link == spec_sec_link(s, t as int),
            symsize == spec_symsize(s),
            count == count64 == spec_sym_count(s, t as int),
            n == data@.len(),
            n64 == n as u64,
            str_ok == (0 <= t_link < spec_shnum(s) && spec_table_ok(s, t_link as int)),
            str_ok ==> str_off == spec_sec_offset(s, t_link as int) && str_size == spec_sec_size(
                s,
                t_link as int,
            ),
            j <= count,
            r@.len() == j,
            forall|k: int| 0 <= k < j ==> sym_matches(#[trigger] r@[k], s, t as int, k),
        decreases count - j,
    {
        proof {
            lemma_fundamental_div_mod(t_size as int, symsize as int);
            lemma_mul_inequality(j + 1, count64 as int, symsize as int);
            assert((j + 1) * symsize == j * symsize + symsize) by (nonlinear_arith);
            lemma_mul_inequality(0, j as int, symsize as int);
            assert(0 * (symsize as int) == 0) by (nonlinear_arith);
        }
        let base64: u64 = t_off + (j as u64) * symsize;
        let b = base64 as usize;
        proof {
            assert(base64 == sym_base(s, t as int, j as int));
            assert(b + symsize <= n);
        }
        let name_off = read_u32(data, b, isle);
        let value: u64;
        let size: u64;
        let shndx: u16;
        if is64 {
            value = read_u64(data, b + 8, isle);
            size = read_u64(data, b + 16, isle);
            shndx = read_u16(data, b + 6, isle);
        } else {
            value = read_u32(data, b + 4, isle) as u64;
            size = read_u32(data, b + 8, isle) as u64;
            shndx = read_u16(data, b + 14, isle);
        }
        let name: Vec<u8> = if str_ok && (name_off as u64) < str_size {
            let start = str_off + name_off as u64;
            read_strz(data, start as usize, (str_off + str_size) as usize)
        } else {
            Vec::new()
        };
        proof {
            if str_ok && !((name_off as u64) < str_size) {
                assert(strz(
                    s,
                    spec_sec_offset(s, t_link as int) + spec_sym_name_off(s, t as int, j as int),
                    spec_sec_offset(s, t_link as int) + spec_sec_size(s, t_link as int),
                ) =~= Seq::<u8>::empty());
            }
            assert(name@ == spec_sym_name(s, t as int, j as int));
        }
        r.push(SymbolEntry { name, value, size, shndx });
        j = j + 1;
    }
    r
}

/// Materialize the relocation table held by section `t`.
fn parse_rela_entries(
    data: &Vec<u8>,
    t: usize,
    t_off: u64,
    t_size: u64,
    is64: bool,
    isle: bool,
) -> (r: Vec<RelaEntry>)
    requires
        spec_valid(data@),
        t < spec_shnum(data@),
        spec_table_ok(data@, t as int),
        is64 == spec_is_64(data@),
        isle == spec_is_le(data@),
        t_off == spec_sec_offset(data@, t as int),
        t_size == spec_sec_size(data@, t as int),
    ensures
        r@.len() == spec_rela_count(data@, t as int),
        forall|j: int| 0 <= j < r@.len() ==> rela_matches(#[trigger] r@[j], data@, t as int, j),
{
    let ghost s = data@;
    let n = data.len();
    let relasize: u64 = if is64 {
        24
    } else {
        12
    };
    proof {
        assert(relasize == spec_relasize(s));
    }
    let count64 = t_size / relasize;
    proof {
        assert(count64 == spec_rela_count(s, t as int));
    }
    let count = count64 as usize;
    let mut r: Vec<RelaEntry> = Vec::new();
    let mut j: usize = 0;
    while j < count
        invariant
            spec_valid(s),
            s == data@,
            is64 == spec_is_64(s),
            isle == spec_is_le(s),
            t < spec_shnum(s),
            spec_table_ok(s, t as int),
            t_off == spec_sec_offset(s, t as int),
            t_size == spec_sec_size(s, t as int),
            relasize == spec_relasize(s),
            count == count64 == spec_rela_count(s, t as int),
            n == data@.len(),
            j <= count,
            r@.len() == j,
            forall|k: int| 0 <= k < j ==> rela_matches(#[trigger] r@[k], s, t as int, k),
        decreases count - j,
    {
        proof {
            lemma_fundamental_div_mod(t_size as int, relasize as int);
            lemma_mul_inequality(j + 1, count64 as int, relasize as int);
            assert((j + 1) * relasize == j * relasize + relasize) by (nonlinear_arith);
            lemma_mul_inequality(0, j as int, relasize as int);
            assert(0 * (relasize as int) == 0) by (nonlinear_arith);
        }
        let base64: u64 = t_off + (j as u64) * relasize;
        let b = base64 as usize;
        proof {
            assert(base64 == rela_base(s, t as int, j as int));
            assert(b + relasize <= n);
        }
        let offset: u64;
        let sym: u32;
        if is64 {
            offset = read_u64(data, b, isle);
            let info = read_u64(data, b + 8, isle);
            let sym64 = info / 0x1_0000_0000;
            proof {
                assert(sym64 < 0x1_0000_0000);
            }
            sym = sym64 as u32;
        } else {
            offset = read_u32(data, b, isle) as u64;
            let info = read_u32(data, b + 4, isle);
            sym = info / 0x100;
        }
        r.push(RelaEntry { offset, sym });
        j = j + 1;
    }
    r
}

/// Materialize the dynamic array held by section `t`.
fn parse_dyn_entries(
    data: &Vec<u8>,
    t: usize,
    t_off: u64,
    t_size: u64,
    is64: bool,
    isle: bool,
) -> (r: Vec<DynEntry>)
    requires
        spec_valid(data@),
        t < spec_shnum(data@),
        spec_table_ok(data@, t as int),
        is64 == spec_is_64(data@),
        isle == spec_is_le(data@),
        t_off == spec_sec_offset(data@, t as int),
        t_size == spec_sec_size(data@, t as int),
    ensures
        r@.len() == spec_dyn_count(data@, t as int),
        forall|j: int| 0 <= j < r@.len() ==> dyn_matches(#[trigger] r@[j], data@, t as int, j),
{
    let ghost s = data@;
    let n = data.len();
    let dynsize: u64 = if is64 {
        16
    } else {
        8
    };
    proof {
        assert(dynsize == spec_dynsize(s));
    }
    let count64 = t_size / dynsize;
    proof {
        assert(count64 == spec_dyn_count(s, t as int));
    }
    let count = count64 as usize;
    let mut r: Vec<DynEntry> = Vec::new();
    let mut j: usize = 0;
    while j < count
        invariant
            spec_valid(s),
            s == data@,
            is64 == spec_is_64(s),
            isle == spec_is_le(s),
            t < spec_shnum(s),
            spec_table_ok(s, t as int),
            t_off == spec_sec_offset(s, t as int),
            t_size == spec_sec_size(s, t as int),
            dynsize == spec_dynsize(s),
            count == count64 == spec_dyn_count(s, t as int),
            n == data@.len(),
            j <= count,
            r@.len() == j,
            forall|k: int| 0 <= k < j ==> dyn_matches(#[trigger] r@[k], s, t as int, k),
        decreases count - j,
    {
        proof {
            lemma_fundamental_div_mod(t_size as int, dynsize as int);
            lemma_mul_inequality(j + 1, count64 as int, dynsize as int);
            assert((j + 1) * dynsize == j * dynsize + dynsize) by (nonlinear_arith);
            lemma_mul_inequality(0, j as int, dynsize as int);
            assert(0 * (dynsize as int) == 0) by (nonlinear_arith);
        }
        let base64: u64 = t_off + (j as u64) * dynsize;
        let b = base64 as usize;
        proof {
            assert(base64 == dyn_base(s, t as int, j as int));
            assert(b + dynsize <= n);
        }
        let tag: u64;
        let val: u64;
        if is64 {
            tag = read_u64(data, b, isle);
            val = read_u64(data, b + 8, isle);
        } else {
            tag = read_u32(data, b, isle) as u64;
            val = read_u32(data, b + 4, isle) as u64;
        }
        r.push(DynEntry { tag, val });
        j = j + 1;
    }
    r
}

/// Parse an executable image.
///
/// Succeeds exactly on buffers whose identification bytes, file header and
/// header tables are valid; the returned image's materialized tables equal
/// the model of the bytes.
#[verifier::rlimit(100)]
pub fn parse(file_data: &Vec<u8>) -> (r: Result<ElfFile, ParseError>)
    ensures
        r is Ok <==> spec_valid(file_data@),
        r matches Ok(f) ==> f.wf() && f.data@ == file_data@,
        r matches Err(e) ==> e == spec_parse_error(file_data@),
{
    let ghost s = file_data@;
    let n = file_data.len();
    if n < 16 {
        return Err(ParseError::BadIdent);
    }
    if file_data[0] != 0x7f || file_data[1] != 0x45 || file_data[2] != 0x4c || file_data[3] != 0x46
    {
        return Err(ParseError::BadIdent);
    }
    let cls = file_data[4];
    let enc = file_data[5];
    if !(cls == 1 || cls == 2) || !(enc == 1 || enc == 2) || file_data[6] != 1 {
        return Err(ParseError::BadIdent);
    }
    let is64 = cls == 2;
    let isle = enc == 1;
    proof {
        assert(spec_ident_ok(s));
        assert(is64 == spec_is_64(s));
        assert(isle == spec_is_le(s));
    }
    let ehsize: usize = if is64 {
        64
    } else {
        52
    };
    if n < ehsize {
        return Err(ParseError::Truncated);
    }
    let e_type = read_u16(file_data, 16, isle);
    let e_machine = read_u16(file_data, 18, isle);
    let e_entry: u64 = if is64 {
        read_u64(file_data, 24, isle)
    } else {
        read_u32(file_data, 24, isle) as u64
    };
    let phoff: u64 = if is64 {
        read_u64(file_data, 32, isle)
    } else {
        read_u32(file_data, 28, isle) as u64
    };
    let shoff: u64 = if is64 {
        read_u64(file_data, 40, isle)
    } else {
        read_u32(file_data, 32, isle) as u64
    };
    let phentsize = read_u16(file_data, if is64 {
        54
    } else {
        42
    }, isle);
    let phnum = read_u16(file_data, if is64 {
        56
    } else {
        44
    }, isle);
    let shentsize = read_u16(file_data, if is64 {
        58
    } else {
        46
    }, isle);
    let shnum = read_u16(file_data, if is64 {
        60
    } else {
        48
    }, isle);
    let shstrndx = read_u16(file_data, if is64 {
        62
    } else {
        50
    }, isle);
    let n64 = n as u64;
    if shnum > 0 {
        let shent: u64 = if is64 {
            64
        } else {
            40
        };
        if shentsize as u64 != shent {
            return Err(ParseError::BadSectionTable);
        }
        let prod = (shnum as u64) * shent;
        if shoff > n64 || prod > n64 - shoff {
            return Err(ParseError::BadSectionTable);
        }
        if shstrndx >= shnum {
            return Err(ParseError::BadSectionTable);
        }
    }
    proof {
        assert(spec_sections_ok(s));
    }
    if phnum > 0 {
        let phent: u64 = if is64 {
            56
        } else {
            32
        };
        if phentsize as u64 != phent {
            return Err(ParseError::BadProgramTable);
        }
        let prod = (phnum as u64) * phent;
        if phoff > n64 || prod > n64 - phoff {
            return Err(ParseError::BadProgramTable);
        }
    }
    proof {
        assert(spec_segments_ok(s));
        assert(spec_valid(s));
    }
    let sections = parse_sections(file_data, is64, isle, shoff, shnum, shstrndx);
    let segments = parse_segments(file_data, is64, isle, phoff, phnum);
    let symbols: Option<Vec<SymbolEntry>> = match find_by_type(&sections, SHT_SYMTAB, Ghost(s)) {
        Some(t) => {
            let okt = sections[t].offset <= n64 && sections[t].size <= n64 - sections[t].offset;
            if okt {
                Some(
                    parse_symbol_entries(
                        file_data,
                        t,
                        sections[t].offset,
                        sections[t].size,
                        sections[t].link,
                        is64,
                        isle,
                        shoff,
                        shnum,
                    ),
                )
            } else {
                None
            }
        },
        None => None,
    };
    proof {
        assert(match spec_symtab(s) {
            Some(t) => symbols matches Some(v) && v@.len() == spec_sym_count(s, t) && forall|j: int|
                0 <= j < v@.len() ==> sym_matches(#[trigger] v@[j], s, t, j),
            None => symbols is None,
        });
    }
    let dynsym_found = find_by_type(&sections, SHT_DYNSYM, Ghost(s));
    let mut dyn_symbols: Option<Vec<SymbolEntry>> = None;
    let mut dynstr: Option<Vec<u8>> = None;
    match dynsym_found {
        Some(t) => {
            let okt = sections[t].offset <= n64 && sections[t].size <= n64 - sections[t].offset;
            if okt {
                dyn_symbols = Some(
                    parse_symbol_entries(
                        file_data,
                        t,
                        sections[t].offset,
                        sections[t].size,
                        sections[t].link,
                        is64,
                        isle,
                        shoff,
                        shnum,
                    ),
                );
                let li = sections[t].link as usize;
                if li < shnum as usize {
                    let okl = sections[li].offset <= n64 && sections[li].size <= n64
                        - sections[li].offset;
                    if okl {
                        dynstr = Some(
                            copy_range(
                                file_data,
                                sections[li].offset as usize,
                                (sections[li].offset + sections[li].size) as usize,
                            ),
                        );
                    }
                }
            }
        },
        None => {},
    }
    proof {
        assert(match spec_dynsym(s) {
            Some(t) => dyn_symbols matches Some(v) && v@.len() == spec_sym_count(s, t) && forall|
                j: int,
            | 0 <= j < v@.len() ==> sym_matches(#[trigger] v@[j], s, t, j),
            None => dyn_symbols is None,
        });
        assert(match spec_dynstr(s) {
            Some(b) => dynstr matches Some(v) && v@ == b,
            None => dynstr is None,
        });
    }
    let rname = {
        proof {
            reveal_strlit(".rela.plt");
        }
        str_bytes(".rela.plt")
    };
    let plt_relocs: Option<Vec<RelaEntry>> = match find_by_name(
        &sections,
        rname.as_slice(),
        Ghost(s),
    ) {
        Some(t) => {
            let okt = sections[t].offset <= n64 && sections[t].size <= n64 - sections[t].offset;
            if okt {
                Some(
                    parse_rela_entries(
                        file_data,
                        t,
                        sections[t].offset,
                        sections[t].size,
                        is64,
                        isle,
                    ),
                )
            } else {
                None
            }
        },
        None => None,
    };
    proof {
        assert(match spec_rela_plt(s) {
            Some(t) => plt_relocs matches Some(v) && v@.len() == spec_rela_count(s, t) && forall|
                j: int,
            | 0 <= j < v@.len() ==> rela_matches(#[trigger] v@[j], s, t, j),
            None => plt_relocs is None,
        });
    }
    let dynamic: Option<Vec<DynEntry>> = match find_by_type(&sections, SHT_DYNAMIC, Ghost(s)) {
        Some(t) => {
            let okt = sections[t].offset <= n64 && sections[t].size <= n64 - sections[t].offset;
            if okt {
                Some(
                    parse_dyn_entries(
                        file_data,
                        t,
                        sections[t].offset,
                        sections[t].size,
                        is64,
                        isle,
                    ),
                )
            } else {
                None
            }
        },
        None => None,
    };
    let data = copy_range(file_data, 0, n);
    proof {
        assert(data@ =~= file_data@);
    }
    Ok(
        ElfFile {
            data,
            is_64: is64,
            is_le: isle,
            e_type,
            e_machine,
            e_entry,
            sections,
            segments,
            symbols,
            dyn_symbols,
            plt_relocs,
            dynamic,
            dynstr,
        },
    )
}

/// The first section named `name`, case sensitively.
pub fn section_by_name(elf: &ElfFile, name: &[u8]) -> (r: Option<usize>)
    requires
        elf.wf(),
    ensures
        match r {
            Some(i) => spec_find_name_from(elf.data@, name@, 0) == Some(i as int) && i
                < elf.sections@.len(),
            None => spec_find_name_from(elf.data@, name@, 0) is None,
        },
{
    find_by_name(&elf.sections, name, Ghost(elf.data@))
}

/// The bytes of section `i`: the subrange `[offset, offset + size)` of the
/// buffer, or `None` when the index or the range is out of bounds.
pub fn section_bytes(elf: &ElfFile, i: usize) -> (r: Option<Vec<u8>>)
    requires
        elf.wf(),
    ensures
        match r {
            Some(b) => {
                &&& i < elf.sections@.len()
                &&& spec_table_ok(elf.data@, i as int)
                &&& b@ == elf.data@.subrange(
                    spec_sec_offset(elf.data@, i as int),
                    spec_sec_offset(elf.data@, i as int) + spec_sec_size(elf.data@, i as int),
                )
                &&& b@.len() == elf.sections@[i as int].size
            },
            None => i >= elf.sections@.len() || !spec_table_ok(elf.data@, i as int),
        },
{
    if i >= elf.sections.len() {
        return None;
    }
    let n64 = elf.data.len() as u64;
    let off = elf.sections[i].offset;
    let size = elf.sections[i].size;
    if off <= n64 && size <= n64 - off {
        Some(copy_range(&elf.data, off as usize, (off + size) as usize))
    } else {
        None
    }
}

/// The interpreter string from the first readable interpreter segment, with
/// trailing NUL bytes removed.
pub fn get_interpreter(elf: &ElfFile) -> (r: Option<Vec<u8>>)
    requires
        elf.wf(),
    ensures
        match r {
            Some(v) => spec_interpreter(elf.data@) == Some(v@),
            None => spec_interpreter(elf.data@) is None,
        },
{
    let ghost s = elf.data@;
    let n_us = elf.data.len();
    let n64 = n_us as u64;
    let mut i: usize = 0;
    while i < elf.segments.len()
        invariant
            elf.wf(),
            s == elf.data@,
            n_us == elf.data@.len(),
            n64 == n_us as u64,
            i <= elf.segments@.len(),
            spec_interp_seg(s, 0) == spec_interp_seg(s, i as int),
        decreases elf.segments@.len() - i,
    {
        let seg = &elf.segments[i];
        if seg.p_type == PT_INTERP && seg.offset <= n64 && seg.filesz <= n64 - seg.offset {
            let b = copy_range_trim_zeros(&elf.data, seg.offset as usize, (seg.offset
                + seg.filesz) as usize);
            proof {
                assert(spec_interp_seg(s, i as int) == Some(i as int));
            }
            return Some(b);
        }
        proof {
            assert(spec_interp_seg(s, i as int) == spec_interp_seg(s, i + 1));
        }
        i = i + 1;
    }
    proof {
        assert(spec_interp_seg(s, i as int) is None);
    }
    None
}

/// The bytes of the compiler-comment section, when present; whether they are
/// valid text is the caller's business.
pub fn comment_bytes(elf: &ElfFile) -> (r: Option<Vec<u8>>)
    requires
        elf.wf(),
    ensures
        match r {
            Some(v) => crate::elf::spec_comment(elf.data@) == Some(v@),
            None => crate::elf::spec_comment(elf.data@) is None,
        },
{
    let ghost s = elf.data@;
    let cname = {
        proof {
            reveal_strlit(".comment");
        }
        str_bytes(".comment")
    };
    let n64 = elf.data.len() as u64;
    match find_by_name(&elf.sections, cname.as_slice(), Ghost(s)) {
        Some(t) => {
            let off = elf.sections[t].offset;
            let size = elf.sections[t].size;
            if off <= n64 && size <= n64 - off {
                Some(copy_range(&elf.data, off as usize, (off + size) as usize))
            } else {
                None
            }
        },
        None => None,
    }
}

/// Law: for every section whose file range lies inside the buffer, the
/// section's bytes have exactly the section's size.
pub proof fn lemma_section_bytes_len(s: Seq<u8>, i: int)
    requires
        spec_valid(s),
        0 <= i < spec_shnum(s),
        spec_table_ok(s, i),
    ensures
        0 <= spec_sec_offset(s, i),
        s.subrange(spec_sec_offset(s, i), spec_sec_offset(s, i) + spec_sec_size(s, i)).len()
            == spec_sec_size(s, i),
{
    lemma_sec_base_bounds(s, i);
    if spec_is_64(s) {
        lemma_word_value_bound(s, 40, 8, spec_is_le(s));
        lemma_word_value_bound(s, sec_base(s, i) + 24, 8, spec_is_le(s));
        lemma_word_value_bound(s, sec_base(s, i) + 32, 8, spec_is_le(s));
    } else {
        lemma_word_value_bound(s, 32, 4, spec_is_le(s));
        lemma_word_value_bound(s, sec_base(s, i) + 16, 4, spec_is_le(s));
        lemma_word_value_bound(s, sec_base(s, i) + 20, 4, spec_is_le(s));
    }
}

} // verus!

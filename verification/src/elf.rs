//! The model of an ELF image.
//!
//! Every field the reader exposes is defined here as a specification
//! function of the raw byte sequence: header fields, section and program
//! headers, section names, symbol, relocation and dynamic entries.  The
//! parsed [`ElfFile`] carries the bytes together with materialized tables;
//! its well-formedness predicate says that each materialized value equals
//! the corresponding specification function of the bytes.

use vstd::prelude::*;
use crate::bytes::word_value;
use crate::text::{ascii_bytes, strz};

verus! {

/// Section header type of a static symbol table.
pub const SHT_SYMTAB: u32 = 2;

/// Section header type of the dynamic array.
pub const SHT_DYNAMIC: u32 = 6;

/// Section header type of the dynamic symbol table.
pub const SHT_DYNSYM: u32 = 11;

/// Program header type of the interpreter segment.
pub const PT_INTERP: u32 = 3;

/// Dynamic tag of a needed library.
pub const DT_NEEDED: u64 = 1;

/// Dynamic tag of the run-time search path.
pub const DT_RPATH: u64 = 15;

/// A section header with its resolved name.
#[derive(Debug)]
pub struct SectionHeader {
    pub name: Vec<u8>,
    pub sh_type: u32,
    pub addr: u64,
    pub offset: u64,
    pub size: u64,
    pub link: u32,
    pub entsize: u64,
}

/// A program header, reduced to what the reader consumes.
#[derive(Debug)]
pub struct ProgramHeader {
    pub p_type: u32,
    pub offset: u64,
    pub filesz: u64,
}

/// A symbol table entry with its resolved name.
#[derive(Debug)]
pub struct SymbolEntry {
    pub name: Vec<u8>,
    pub value: u64,
    pub size: u64,
    pub shndx: u16,
}

/// A relocation entry with an explicit addend.
#[derive(Debug)]
pub struct RelaEntry {
    pub offset: u64,
    pub sym: u32,
}

/// An entry of the dynamic array.
#[derive(Debug)]
pub struct DynEntry {
    pub tag: u64,
    pub val: u64,
}

/// The image is 64-bit class.
pub open spec fn spec_is_64(s: Seq<u8>) -> bool {
    s[4] == 2
}

/// The image is little endian.
pub open spec fn spec_is_le(s: Seq<u8>) -> bool {
    s[5] == 1
}

/// The identification bytes are valid: magic, class, encoding, version.
pub open spec fn spec_ident_ok(s: Seq<u8>) -> bool {
    &&& s.len() >= 16
    &&& s[0] == 0x7f
    &&& s[1] == 0x45
    &&& s[2] == 0x4c
    &&& s[3] == 0x46
    &&& (s[4] == 1 || s[4] == 2)
    &&& (s[5] == 1 || s[5] == 2)
    &&& s[6] == 1
}

/// A header field: `n` bytes at `off` in the image's byte order.
pub open spec fn hword(s: Seq<u8>, off: int, n: int) -> int {
    word_value(s, off, n, spec_is_le(s))
}

/// Size of the file header.
pub open spec fn spec_ehsize(s: Seq<u8>) -> int {
    if spec_is_64(s) {
        64
    } else {
        52
    }
}

pub open spec fn spec_e_type(s: Seq<u8>) -> int {
    hword(s, 16, 2)
}

pub open spec fn spec_e_machine(s: Seq<u8>) -> int {
    hword(s, 18, 2)
}

pub open spec fn spec_e_entry(s: Seq<u8>) -> int {
    if spec_is_64(s) {
        hword(s, 24, 8)
    } else {
        hword(s, 24, 4)
    }
}

pub open spec fn spec_phoff(s: Seq<u8>) -> int {
    if spec_is_64(s) {
        hword(s, 32, 8)
    } else {
        hword(s, 28, 4)
    }
}

pub open spec fn spec_shoff(s: Seq<u8>) -> int {
    if spec_is_64(s) {
        hword(s, 40, 8)
    } else {
        hword(s, 32, 4)
    }
}

pub open spec fn spec_phentsize(s: Seq<u8>) -> int {
    if spec_is_64(s) {
        hword(s, 54, 2)
    } else {
        hword(s, 42, 2)
    }
}

pub open spec fn spec_phnum(s: Seq<u8>) -> int {
    if spec_is_64(s) {
        hword(s, 56, 2)
    } else {
        hword(s, 44, 2)
    }
}

pub open spec fn spec_shentsize(s: Seq<u8>) -> int {
    if spec_is_64(s) {
        hword(s, 58, 2)
    } else {
        hword(s, 46, 2)
    }
}

pub open spec fn spec_shnum(s: Seq<u8>) -> int {
    if spec_is_64(s) {
        hword(s, 60, 2)
    } else {
        hword(s, 48, 2)
    }
}

pub open spec fn spec_shstrndx(s: Seq<u8>) -> int {
    if spec_is_64(s) {
        hword(s, 62, 2)
    } else {
        hword(s, 50, 2)
    }
}

/// Size of one section header for the image's class.
pub open spec fn spec_shent(s: Seq<u8>) -> int {
    if spec_is_64(s) {
        64
    } else {
        40
    }
}

/// Size of one program header for the image's class.
pub open spec fn spec_phent(s: Seq<u8>) -> int {
    if spec_is_64(s) {
        56
    } else {
        32
    }
}

/// The section header table lies inside the buffer and can be indexed.
pub open spec fn spec_sections_ok(s: Seq<u8>) -> bool {
    spec_shnum(s) == 0 || {
        &&& spec_shentsize(s) == spec_shent(s)
        &&& spec_shoff(s) + spec_shnum(s) * spec_shent(s) <= s.len()
        &&& spec_shstrndx(s) < spec_shnum(s)
    }
}

/// The program header table lies inside the buffer.
pub open spec fn spec_segments_ok(s: Seq<u8>) -> bool {
    spec_phnum(s) == 0 || {
        &&& spec_phentsize(s) == spec_phent(s)
        &&& spec_phoff(s) + spec_phnum(s) * spec_phent(s) <= s.len()
    }
}

/// The bytes are a container the reader accepts.
pub open spec fn spec_valid(s: Seq<u8>) -> bool {
    &&& spec_ident_ok(s)
    &&& s.len() >= spec_ehsize(s)
    &&& spec_sections_ok(s)
    &&& spec_segments_ok(s)
}

/// File offset of section header `i`.
pub open spec fn sec_base(s: Seq<u8>, i: int) -> int {
    spec_shoff(s) + i * spec_shent(s)
}

pub open spec fn spec_sec_name_off(s: Seq<u8>, i: int) -> int {
    hword(s, sec_base(s, i), 4)
}

pub open spec fn spec_sec_type(s: Seq<u8>, i: int) -> int {
    hword(s, sec_base(s, i) + 4, 4)
}

pub open spec fn spec_sec_addr(s: Seq<u8>, i: int) -> int {
    if spec_is_64(s) {
        hword(s, sec_base(s, i) + 16, 8)
    } else {
        hword(s, sec_base(s, i) + 12, 4)
    }
}

pub open spec fn spec_sec_offset(s: Seq<u8>, i: int) -> int {
    if spec_is_64(s) {
        hword(s, sec_base(s, i) + 24, 8)
    } else {
        hword(s, sec_base(s, i) + 16, 4)
    }
}

pub open spec fn spec_sec_size(s: Seq<u8>, i: int) -> int {
    if spec_is_64(s) {
        hword(s, sec_base(s, i) + 32, 8)
    } else {
        hword(s, sec_base(s, i) + 20, 4)
    }
}

pub open spec fn spec_sec_link(s: Seq<u8>, i: int) -> int {
    if spec_is_64(s) {
        hword(s, sec_base(s, i) + 40, 4)
    } else {
        hword(s, sec_base(s, i) + 24, 4)
    }
}

pub open spec fn spec_sec_entsize(s: Seq<u8>, i: int) -> int {
    if spec_is_64(s) {
        hword(s, sec_base(s, i) + 56, 8)
    } else {
        hword(s, sec_base(s, i) + 36, 4)
    }
}

/// Section `i`'s file range lies inside the buffer.
pub open spec fn spec_table_ok(s: Seq<u8>, i: int) -> bool {
    spec_sec_offset(s, i) + spec_sec_size(s, i) <= s.len()
}

/// Section `i`'s name, read out of the section-name string table; empty when
/// that table does not lie inside the buffer.
pub open spec fn spec_sec_name(s: Seq<u8>, i: int) -> Seq<u8> {
    let t = spec_shstrndx(s);
    if spec_table_ok(s, t) {
        strz(
            s,
            spec_sec_offset(s, t) + spec_sec_name_off(s, i),
            spec_sec_offset(s, t) + spec_sec_size(s, t),
        )
    } else {
        Seq::empty()
    }
}

/// File offset of program header `i`.
pub open spec fn ph_base(s: Seq<u8>, i: int) -> int {
    spec_phoff(s) + i * spec_phent(s)
}

pub open spec fn spec_ph_type(s: Seq<u8>, i: int) -> int {
    hword(s, ph_base(s, i), 4)
}

pub open spec fn spec_ph_offset(s: Seq<u8>, i: int) -> int {
    if spec_is_64(s) {
        hword(s, ph_base(s, i) + 8, 8)
    } else {
        hword(s, ph_base(s, i) + 4, 4)
    }
}

pub open spec fn spec_ph_filesz(s: Seq<u8>, i: int) -> int {
    if spec_is_64(s) {
        hword(s, ph_base(s, i) + 32, 8)
    } else {
        hword(s, ph_base(s, i) + 16, 4)
    }
}

/// The first section at or after `i` with header type `ty`.
pub open spec fn spec_find_type_from(s: Seq<u8>, ty: int, i: int) -> Option<int>
    decreases spec_shnum(s) - i,
{
    if i < 0 || i >= spec_shnum(s) {
        None
    } else if spec_sec_type(s, i) == ty {
        Some(i)
    } else {
        spec_find_type_from(s, ty, i + 1)
    }
}

/// The first section at or after `i` named `name`.
pub open spec fn spec_find_name_from(s: Seq<u8>, name: Seq<u8>, i: int) -> Option<int>
    decreases spec_shnum(s) - i,
{
    if i < 0 || i >= spec_shnum(s) {
        None
    } else if spec_sec_name(s, i) == name {
        Some(i)
    } else {
        spec_find_name_from(s, name, i + 1)
    }
}

/// The static symbol table section, when present with its bytes in range.
pub open spec fn spec_symtab(s: Seq<u8>) -> Option<int> {
    match spec_find_type_from(s, SHT_SYMTAB as int, 0) {
        Some(t) => if spec_table_ok(s, t) {
            Some(t)
        } else {
            None
        },
        None => None,
    }
}

/// The dynamic symbol table section, when present with its bytes in range.
pub open spec fn spec_dynsym(s: Seq<u8>) -> Option<int> {
    match spec_find_type_from(s, SHT_DYNSYM as int, 0) {
        Some(t) => if spec_table_ok(s, t) {
            Some(t)
        } else {
            None
        },
        None => None,
    }
}

/// The dynamic array section, when present with its bytes in range.
pub open spec fn spec_dynamic_sec(s: Seq<u8>) -> Option<int> {
    match spec_find_type_from(s, SHT_DYNAMIC as int, 0) {
        Some(t) => if spec_table_ok(s, t) {
            Some(t)
        } else {
            None
        },
        None => None,
    }
}

/// The relocation section that populates the procedure linkage table.
pub open spec fn spec_rela_plt(s: Seq<u8>) -> Option<int> {
    match spec_find_name_from(s, ascii_bytes(".rela.plt"), 0) {
        Some(t) => if spec_table_ok(s, t) {
            Some(t)
        } else {
            None
        },
        None => None,
    }
}

/// Size of one symbol entry for the image's class.
pub open spec fn spec_symsize(s: Seq<u8>) -> int {
    if spec_is_64(s) {
        24
    } else {
        16
    }
}

/// Number of symbol entries of the table in section `t`.
pub open spec fn spec_sym_count(s: Seq<u8>, t: int) -> int {
    spec_sec_size(s, t) / spec_symsize(s)
}

/// File offset of symbol `j` of the table in section `t`.
pub open spec fn sym_base(s: Seq<u8>, t: int, j: int) -> int {
    spec_sec_offset(s, t) + j * spec_symsize(s)
}

pub open spec fn spec_sym_name_off(s: Seq<u8>, t: int, j: int) -> int {
    hword(s, sym_base(s, t, j), 4)
}

pub open spec fn spec_sym_value(s: Seq<u8>, t: int, j: int) -> int {
    if spec_is_64(s) {
        hword(s, sym_base(s, t, j) + 8, 8)
    } else {
        hword(s, sym_base(s, t, j) + 4, 4)
    }
}

pub open spec fn spec_sym_size(s: Seq<u8>, t: int, j: int) -> int {
    if spec_is_64(s) {
        hword(s, sym_base(s, t, j) + 16, 8)
    } else {
        hword(s, sym_base(s, t, j) + 8, 4)
    }
}

pub open spec fn spec_sym_shndx(s: Seq<u8>, t: int, j: int) -> int {
    if spec_is_64(s) {
        hword(s, sym_base(s, t, j) + 6, 2)
    } else {
        hword(s, sym_base(s, t, j) + 14, 2)
    }
}

/// Name of symbol `j`, read out of the string table linked from section `t`;
/// empty when that table is absent or out of range.
pub open spec fn spec_sym_name(s: Seq<u8>, t: int, j: int) -> Seq<u8> {
    let li = spec_sec_link(s, t);
    if 0 <= li < spec_shnum(s) && spec_table_ok(s, li) {
        strz(
            s,
            spec_sec_offset(s, li) + spec_sym_name_off(s, t, j),
            spec_sec_offset(s, li) + spec_sec_size(s, li),
        )
    } else {
        Seq::empty()
    }
}

/// Size of one explicit-addend relocation entry for the image's class.
pub open spec fn spec_relasize(s: Seq<u8>) -> int {
    if spec_is_64(s) {
        24
    } else {
        12
    }
}

/// Number of relocation entries of the table in section `t`.
pub open spec fn spec_rela_count(s: Seq<u8>, t: int) -> int {
    spec_sec_size(s, t) / spec_relasize(s)
}

/// File offset of relocation `j` of the table in section `t`.
pub open spec fn rela_base(s: Seq<u8>, t: int, j: int) -> int {
    spec_sec_offset(s, t) + j * spec_relasize(s)
}

pub open spec fn spec_rela_offset(s: Seq<u8>, t: int, j: int) -> int {
    if spec_is_64(s) {
        hword(s, rela_base(s, t, j), 8)
    } else {
        hword(s, rela_base(s, t, j), 4)
    }
}

/// The symbol index packed into the relocation's info word.
pub open spec fn spec_rela_sym(s: Seq<u8>, t: int, j: int) -> int {
    if spec_is_64(s) {
        hword(s, rela_base(s, t, j) + 8, 8) / 0x1_0000_0000
    } else {
        hword(s, rela_base(s, t, j) + 4, 4) / 0x100
    }
}

/// Size of one dynamic entry for the image's class.
pub open spec fn spec_dynsize(s: Seq<u8>) -> int {
    if spec_is_64(s) {
        16
    } else {
        8
    }
}

/// Number of dynamic entries of the table in section `t`.
pub open spec fn spec_dyn_count(s: Seq<u8>, t: int) -> int {
    spec_sec_size(s, t) / spec_dynsize(s)
}

/// File offset of dynamic entry `j` of the table in section `t`.
pub open spec fn dyn_base(s: Seq<u8>, t: int, j: int) -> int {
    spec_sec_offset(s, t) + j * spec_dynsize(s)
}

pub open spec fn spec_dyn_tag(s: Seq<u8>, t: int, j: int) -> int {
    if spec_is_64(s) {
        hword(s, dyn_base(s, t, j), 8)
    } else {
        hword(s, dyn_base(s, t, j), 4)
    }
}

pub open spec fn spec_dyn_val(s: Seq<u8>, t: int, j: int) -> int {
    if spec_is_64(s) {
        hword(s, dyn_base(s, t, j) + 8, 8)
    } else {
        hword(s, dyn_base(s, t, j) + 4, 4)
    }
}

/// The bytes of the string table linked from the dynamic symbol table.
pub open spec fn spec_dynstr(s: Seq<u8>) -> Option<Seq<u8>> {
    match spec_dynsym(s) {
        Some(t) => {
            let li = spec_sec_link(s, t);
            if 0 <= li < spec_shnum(s) && spec_table_ok(s, li) {
                Some(s.subrange(spec_sec_offset(s, li), spec_sec_offset(s, li) + spec_sec_size(s, li)))
            } else {
                None
            }
        },
        None => None,
    }
}

/// The first interpreter segment at or after `i` whose bytes lie in range.
pub open spec fn spec_interp_seg(s: Seq<u8>, i: int) -> Option<int>
    decreases spec_phnum(s) - i,
{
    if i < 0 || i >= spec_phnum(s) {
        None
    } else if spec_ph_type(s, i) == PT_INTERP && spec_ph_offset(s, i) + spec_ph_filesz(s, i)
        <= s.len() {
        Some(i)
    } else {
        spec_interp_seg(s, i + 1)
    }
}

/// The interpreter string: the readable interpreter segment's bytes without
/// their trailing NUL bytes.
pub open spec fn spec_interpreter(s: Seq<u8>) -> Option<Seq<u8>> {
    match spec_interp_seg(s, 0) {
        Some(i) => Some(
            crate::text::trim_zeros(
                s.subrange(spec_ph_offset(s, i), spec_ph_offset(s, i) + spec_ph_filesz(s, i)),
            ),
        ),
        None => None,
    }
}

/// The bytes of the compiler-comment section, when present and in range.
pub open spec fn spec_comment(s: Seq<u8>) -> Option<Seq<u8>> {
    match spec_find_name_from(s, ascii_bytes(".comment"), 0) {
        Some(t) => if spec_table_ok(s, t) {
            Some(s.subrange(spec_sec_offset(s, t), spec_sec_offset(s, t) + spec_sec_size(s, t)))
        } else {
            None
        },
        None => None,
    }
}

/// A materialized section header equals the model of section `i`.
pub open spec fn sec_matches(h: SectionHeader, s: Seq<u8>, i: int) -> bool {
    &&& h.name@ == spec_sec_name(s, i)
    &&& h.sh_type == spec_sec_type(s, i)
    &&& h.addr == spec_sec_addr(s, i)
    &&& h.offset == spec_sec_offset(s, i)
    &&& h.size == spec_sec_size(s, i)
    &&& h.link == spec_sec_link(s, i)
    &&& h.entsize == spec_sec_entsize(s, i)
}

/// A materialized program header equals the model of segment `i`.
pub open spec fn seg_matches(h: ProgramHeader, s: Seq<u8>, i: int) -> bool {
    &&& h.p_type == spec_ph_type(s, i)
    &&& h.offset == spec_ph_offset(s, i)
    &&& h.filesz == spec_ph_filesz(s, i)
}

/// A materialized symbol equals the model of entry `j` of the table in `t`.
pub open spec fn sym_matches(e: SymbolEntry, s: Seq<u8>, t: int, j: int) -> bool {
    &&& e.name@ == spec_sym_name(s, t, j)
    &&& e.value == spec_sym_value(s, t, j)
    &&& e.size == spec_sym_size(s, t, j)
    &&& e.shndx == spec_sym_shndx(s, t, j)
}

pub open spec fn rela_matches(e: RelaEntry, s: Seq<u8>, t: int, j: int) -> bool {
    &&& e.offset == spec_rela_offset(s, t, j)
    &&& e.sym == spec_rela_sym(s, t, j)
}

pub open spec fn dyn_matches(e: DynEntry, s: Seq<u8>, t: int, j: int) -> bool {
    &&& e.tag == spec_dyn_tag(s, t, j)
    &&& e.val == spec_dyn_val(s, t, j)
}

/// A parsed image: the raw bytes plus materialized views of its tables.
#[derive(Debug)]
pub struct ElfFile {
    pub data: Vec<u8>,
    pub is_64: bool,
    pub is_le: bool,
    pub e_type: u16,
    pub e_machine: u16,
    pub e_entry: u64,
    pub sections: Vec<SectionHeader>,
    pub segments: Vec<ProgramHeader>,
    pub symbols: Option<Vec<SymbolEntry>>,
    pub dyn_symbols: Option<Vec<SymbolEntry>>,
    pub plt_relocs: Option<Vec<RelaEntry>>,
    pub dynamic: Option<Vec<DynEntry>>,
    pub dynstr: Option<Vec<u8>>,
}

impl ElfFile {
    pub open spec fn wf_header(self) -> bool {
        &&& spec_valid(self.data@)
        &&& self.is_64 == spec_is_64(self.data@)
        &&& self.is_le == spec_is_le(self.data@)
        &&& self.e_type == spec_e_type(self.data@)
        &&& self.e_machine == spec_e_machine(self.data@)
        &&& self.e_entry == spec_e_entry(self.data@)
    }

    pub open spec fn wf_sections(self) -> bool {
        &&& self.sections@.len() == spec_shnum(self.data@)
        &&& forall|i: int|
            0 <= i < self.sections@.len() ==> sec_matches(#[trigger] self.sections@[i], self.data@, i)
    }

    pub open spec fn wf_segments(self) -> bool {
        &&& self.segments@.len() == spec_phnum(self.data@)
        &&& forall|i: int|
            0 <= i < self.segments@.len() ==> seg_matches(#[trigger] self.segments@[i], self.data@, i)
    }

    pub open spec fn wf_symbols(self) -> bool {
        match spec_symtab(self.data@) {
            Some(t) => self.symbols matches Some(v) && v@.len() == spec_sym_count(self.data@, t)
                && forall|j: int|
                0 <= j < v@.len() ==> sym_matches(#[trigger] v@[j], self.data@, t, j),
            None => self.symbols is None,
        }
    }

    pub open spec fn wf_dyn_symbols(self) -> bool {
        match spec_dynsym(self.data@) {
            Some(t) => self.dyn_symbols matches Some(v) && v@.len() == spec_sym_count(self.data@, t)
                && forall|j: int|
                0 <= j < v@.len() ==> sym_matches(#[trigger] v@[j], self.data@, t, j),
            None => self.dyn_symbols is None,
        }
    }

    pub open spec fn wf_plt_relocs(self) -> bool {
        match spec_rela_plt(self.data@) {
            Some(t) => self.plt_relocs matches Some(v) && v@.len() == spec_rela_count(self.data@, t)
                && forall|j: int|
                0 <= j < v@.len() ==> rela_matches(#[trigger] v@[j], self.data@, t, j),
            None => self.plt_relocs is None,
        }
    }

    pub open spec fn wf_dynamic(self) -> bool {
        match spec_dynamic_sec(self.data@) {
            Some(t) => self.dynamic matches Some(v) && v@.len() == spec_dyn_count(self.data@, t)
                && forall|j: int|
                0 <= j < v@.len() ==> dyn_matches(#[trigger] v@[j], self.data@, t, j),
            None => self.dynamic is None,
        }
    }

    pub open spec fn wf_dynstr(self) -> bool {
        match spec_dynstr(self.data@) {
            Some(b) => self.dynstr matches Some(v) && v@ == b,
            None => self.dynstr is None,
        }
    }

    /// The materialized tables are exactly the model of the bytes.
    pub open spec fn wf(self) -> bool {
        &&& self.wf_header()
        &&& self.wf_sections()
        &&& self.wf_segments()
        &&& self.wf_symbols()
        &&& self.wf_dyn_symbols()
        &&& self.wf_plt_relocs()
        &&& self.wf_dynamic()
        &&& self.wf_dynstr()
    }
}

} // verus!

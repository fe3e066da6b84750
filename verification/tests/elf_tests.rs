use exeviewer::catalog::Catalog;
use exeviewer::disasm::DecodePlan;
use exeviewer::reader::{comment_bytes, get_interpreter, parse, section_by_name, section_bytes,
    ParseError};
use exeviewer::resolver::MySymbolResolver;

fn w16(out: &mut [u8], off: usize, v: u16) {
    out[off..off + 2].copy_from_slice(&v.to_le_bytes());
}

fn w32(out: &mut [u8], off: usize, v: u32) {
    out[off..off + 4].copy_from_slice(&v.to_le_bytes());
}

fn w64(out: &mut [u8], off: usize, v: u64) {
    out[off..off + 8].copy_from_slice(&v.to_le_bytes());
}

struct SecDef {
    name: &'static str,
    sh_type: u32,
    addr: u64,
    link: u32,
    entsize: u64,
    data: Vec<u8>,
}

/// Build a small 64-bit little-endian image: a null section, the given
/// sections, and a trailing section-name string table.
fn build_elf64(secs: &[SecDef], interp: Option<&[u8]>) -> Vec<u8> {
    let mut shstr: Vec<u8> = vec![0];
    let mut name_offs: Vec<u32> = Vec::new();
    for s in secs {
        name_offs.push(shstr.len() as u32);
        shstr.extend_from_slice(s.name.as_bytes());
        shstr.push(0);
    }
    let shstrtab_name_off = shstr.len() as u32;
    shstr.extend_from_slice(b".shstrtab");
    shstr.push(0);

    let phnum = if interp.is_some() { 1 } else { 0 };
    let phoff = if phnum > 0 { 64 } else { 0 };
    let mut pos = 64 + phnum * 56;
    let interp_off = pos;
    if let Some(ib) = interp {
        pos += ib.len();
    }
    let mut sec_offs: Vec<usize> = Vec::new();
    for s in secs {
        sec_offs.push(pos);
        pos += s.data.len();
    }
    let shstr_off = pos;
    pos += shstr.len();
    let shoff = pos;
    let shnum = secs.len() + 2;
    let total = shoff + shnum * 64;
    let mut out = vec![0u8; total];
    out[0] = 0x7f;
    out[1] = b'E';
    out[2] = b'L';
    out[3] = b'F';
    out[4] = 2;
    out[5] = 1;
    out[6] = 1;
    w16(&mut out, 16, 2);
    w16(&mut out, 18, 0x3E);
    w32(&mut out, 20, 1);
    w64(&mut out, 24, 0x1000);
    w64(&mut out, 32, phoff as u64);
    w64(&mut out, 40, shoff as u64);
    w16(&mut out, 52, 64);
    w16(&mut out, 54, 56);
    w16(&mut out, 56, phnum as u16);
    w16(&mut out, 58, 64);
    w16(&mut out, 60, shnum as u16);
    w16(&mut out, 62, (shnum - 1) as u16);
    if let Some(ib) = interp {
        let b = phoff;
        w32(&mut out, b, 3);
        w64(&mut out, b + 8, interp_off as u64);
        w64(&mut out, b + 32, ib.len() as u64);
        out[interp_off..interp_off + ib.len()].copy_from_slice(ib);
    }
    for (k, s) in secs.iter().enumerate() {
        out[sec_offs[k]..sec_offs[k] + s.data.len()].copy_from_slice(&s.data);
    }
    out[shstr_off..shstr_off + shstr.len()].copy_from_slice(&shstr);
    for (k, s) in secs.iter().enumerate() {
        let b = shoff + (k + 1) * 64;
        w32(&mut out, b, name_offs[k]);
        w32(&mut out, b + 4, s.sh_type);
        w64(&mut out, b + 16, s.addr);
        w64(&mut out, b + 24, sec_offs[k] as u64);
        w64(&mut out, b + 32, s.data.len() as u64);
        w32(&mut out, b + 40, s.link);
        w64(&mut out, b + 56, s.entsize);
    }
    let b = shoff + (shnum - 1) * 64;
    w32(&mut out, b, shstrtab_name_off);
    w32(&mut out, b + 4, 3);
    w64(&mut out, b + 24, shstr_off as u64);
    w64(&mut out, b + 32, shstr.len() as u64);
    out
}

fn sym64(name_off: u32, shndx: u16, value: u64, size: u64) -> Vec<u8> {
    let mut e = vec![0u8; 24];
    w32(&mut e, 0, name_off);
    w16(&mut e, 6, shndx);
    w64(&mut e, 8, value);
    w64(&mut e, 16, size);
    e
}

fn rela64(offset: u64, sym: u32, ty: u32) -> Vec<u8> {
    let mut e = vec![0u8; 24];
    w64(&mut e, 0, offset);
    w64(&mut e, 8, ((sym as u64) << 32) | ty as u64);
    e
}

fn text_elf() -> Vec<u8> {
    // .text at address 0x1000, 0x40 bytes of int3
    build_elf64(
        &[SecDef {
            name: ".text",
            sh_type: 1,
            addr: 0x1000,
            link: 0,
            entsize: 0,
            data: vec![0xCC; 0x40],
        }],
        None,
    )
}

fn plt_elf() -> Vec<u8> {
    let mut dynstr: Vec<u8> = vec![0];
    let printf_off = dynstr.len() as u32;
    dynstr.extend_from_slice(b"printf\0");
    let malloc_off = dynstr.len() as u32;
    dynstr.extend_from_slice(b"malloc\0");
    let free_off = dynstr.len() as u32;
    dynstr.extend_from_slice(b"free\0");
    let mut dynsym: Vec<u8> = sym64(0, 0, 0, 0);
    dynsym.extend_from_slice(&sym64(printf_off, 0, 0, 0));
    dynsym.extend_from_slice(&sym64(malloc_off, 0, 0, 0));
    dynsym.extend_from_slice(&sym64(free_off, 0, 0, 0));
    let mut relas: Vec<u8> = rela64(0x4018, 1, 7);
    relas.extend_from_slice(&rela64(0x4020, 2, 7));
    relas.extend_from_slice(&rela64(0x4028, 3, 7));
    build_elf64(
        &[
            SecDef {
                name: ".dynstr",
                sh_type: 3,
                addr: 0,
                link: 0,
                entsize: 0,
                data: dynstr,
            },
            SecDef {
                name: ".dynsym",
                sh_type: 11,
                addr: 0,
                link: 1,
                entsize: 24,
                data: dynsym,
            },
            SecDef {
                name: ".rela.plt",
                sh_type: 4,
                addr: 0,
                link: 2,
                entsize: 24,
                data: relas,
            },
            SecDef {
                name: ".plt",
                sh_type: 1,
                addr: 0x1020,
                link: 0,
                entsize: 0x10,
                data: vec![0x90; 0x40],
            },
        ],
        None,
    )
}

#[test]
fn parse_accepts_minimal_image() {
    let bytes = text_elf();
    let elf = parse(&bytes).expect("image should parse");
    assert!(elf.is_64);
    assert!(elf.is_le);
    assert_eq!(elf.e_type, 2);
    assert_eq!(elf.e_machine, 0x3E);
    assert_eq!(elf.e_entry, 0x1000);
    assert_eq!(elf.sections.len(), 3);
    assert_eq!(elf.sections[1].name, b".text".to_vec());
    assert_eq!(elf.sections[1].addr, 0x1000);
    assert_eq!(elf.sections[1].size, 0x40);
}

#[test]
fn parse_rejects_bad_magic() {
    let mut bytes = text_elf();
    bytes[0] = 0x7e;
    assert_eq!(parse(&bytes).unwrap_err(), ParseError::BadIdent);
}

#[test]
fn parse_rejects_bad_class() {
    let mut bytes = text_elf();
    bytes[4] = 3;
    assert_eq!(parse(&bytes).unwrap_err(), ParseError::BadIdent);
}

#[test]
fn parse_rejects_short_buffer() {
    let bytes = text_elf();
    let short = bytes[..40].to_vec();
    assert_eq!(parse(&short).unwrap_err(), ParseError::Truncated);
}

#[test]
fn parse_rejects_section_table_out_of_range() {
    let mut bytes = text_elf();
    let huge = (bytes.len() as u64) + 1;
    bytes[40..48].copy_from_slice(&huge.to_le_bytes());
    assert_eq!(parse(&bytes).unwrap_err(), ParseError::BadSectionTable);
}

#[test]
fn parse_rejects_program_table_out_of_range() {
    let mut bytes = text_elf();
    // claim one program header far outside the buffer
    w16(&mut bytes, 54, 56);
    w16(&mut bytes, 56, 1);
    let huge = (bytes.len() as u64) + 1;
    bytes[32..40].copy_from_slice(&huge.to_le_bytes());
    assert_eq!(parse(&bytes).unwrap_err(), ParseError::BadProgramTable);
}

#[test]
fn parse_reads_32_bit_sections() {
    // header (52) | ".data" content | shstrtab | 3 section headers of 40
    let content = b"abcd".to_vec();
    let shstr = b"\0.data\0.shstrtab\0".to_vec();
    let data_off = 52;
    let shstr_off = data_off + content.len();
    let shoff = shstr_off + shstr.len();
    let total = shoff + 3 * 40;
    let mut bytes = vec![0u8; total];
    bytes[0] = 0x7f;
    bytes[1] = b'E';
    bytes[2] = b'L';
    bytes[3] = b'F';
    bytes[4] = 1;
    bytes[5] = 1;
    bytes[6] = 1;
    w16(&mut bytes, 16, 2);
    w16(&mut bytes, 18, 3);
    w32(&mut bytes, 24, 0x8048000);
    w32(&mut bytes, 32, shoff as u32);
    w16(&mut bytes, 46, 40);
    w16(&mut bytes, 48, 3);
    w16(&mut bytes, 50, 2);
    bytes[data_off..data_off + content.len()].copy_from_slice(&content);
    bytes[shstr_off..shstr_off + shstr.len()].copy_from_slice(&shstr);
    // section 1: .data
    let b1 = shoff + 40;
    w32(&mut bytes, b1, 1);
    w32(&mut bytes, b1 + 4, 1);
    w32(&mut bytes, b1 + 12, 0x8049000);
    w32(&mut bytes, b1 + 16, data_off as u32);
    w32(&mut bytes, b1 + 20, content.len() as u32);
    // section 2: .shstrtab
    let b2 = shoff + 80;
    w32(&mut bytes, b2, 7);
    w32(&mut bytes, b2 + 4, 3);
    w32(&mut bytes, b2 + 16, shstr_off as u32);
    w32(&mut bytes, b2 + 20, shstr.len() as u32);
    let elf = parse(&bytes).expect("image should parse");
    assert!(!elf.is_64);
    assert!(elf.is_le);
    assert_eq!(elf.e_machine, 3);
    assert_eq!(elf.sections.len(), 3);
    assert_eq!(elf.sections[1].name, b".data".to_vec());
    assert_eq!(elf.sections[1].addr, 0x8049000);
    let i = section_by_name(&elf, b".data").unwrap();
    assert_eq!(section_bytes(&elf, i).unwrap(), content);
}

#[test]
fn parse_accepts_big_endian_32() {
    // a header-only 32-bit big-endian image: no tables at all
    let mut bytes = vec![0u8; 52];
    bytes[0] = 0x7f;
    bytes[1] = b'E';
    bytes[2] = b'L';
    bytes[3] = b'F';
    bytes[4] = 1;
    bytes[5] = 2;
    bytes[6] = 1;
    bytes[16..18].copy_from_slice(&3u16.to_be_bytes());
    bytes[18..20].copy_from_slice(&0x14u16.to_be_bytes());
    bytes[24..28].copy_from_slice(&0xDEAD_u32.to_be_bytes());
    let elf = parse(&bytes).expect("image should parse");
    assert!(!elf.is_64);
    assert!(!elf.is_le);
    assert_eq!(elf.e_type, 3);
    assert_eq!(elf.e_machine, 0x14);
    assert_eq!(elf.e_entry, 0xDEAD);
    assert_eq!(elf.sections.len(), 0);
}

#[test]
fn section_lookup_is_case_sensitive() {
    let bytes = text_elf();
    let elf = parse(&bytes).unwrap();
    assert!(section_by_name(&elf, b".text").is_some());
    assert!(section_by_name(&elf, b".TEXT").is_none());
    assert!(section_by_name(&elf, b".data").is_none());
}

#[test]
fn section_bytes_len_equals_section_size() {
    // every present section's bytes have exactly the section's size
    let bytes = plt_elf();
    let elf = parse(&bytes).unwrap();
    for i in 0..elf.sections.len() {
        let b = section_bytes(&elf, i).expect("section bytes in range");
        assert_eq!(b.len() as u64, elf.sections[i].size);
    }
}

#[test]
fn section_bytes_match_content() {
    let bytes = text_elf();
    let elf = parse(&bytes).unwrap();
    let i = section_by_name(&elf, b".text").unwrap();
    let b = section_bytes(&elf, i).unwrap();
    assert_eq!(b, vec![0xCC; 0x40]);
}

#[test]
fn interpreter_is_nul_trimmed() {
    let bytes = build_elf64(&[], Some(b"/lib64/ld-linux-x86-64.so.2\0"));
    let elf = parse(&bytes).unwrap();
    assert_eq!(
        get_interpreter(&elf),
        Some(b"/lib64/ld-linux-x86-64.so.2".to_vec())
    );
}

#[test]
fn interpreter_absent_without_segment() {
    let bytes = text_elf();
    let elf = parse(&bytes).unwrap();
    assert_eq!(get_interpreter(&elf), None);
}

#[test]
fn comment_section_bytes_are_returned() {
    let bytes = build_elf64(
        &[SecDef {
            name: ".comment",
            sh_type: 1,
            addr: 0,
            link: 0,
            entsize: 0,
            data: b"GCC: (GNU) 13.2.0\0".to_vec(),
        }],
        None,
    );
    let elf = parse(&bytes).unwrap();
    assert_eq!(comment_bytes(&elf), Some(b"GCC: (GNU) 13.2.0\0".to_vec()));
}

#[test]
fn out_of_range_below_section_start() {
    // one line, exactly "Symbol out of range: 00000FFF"
    let bytes = text_elf();
    let elf = parse(&bytes).unwrap();
    match exeviewer::disasm::plan_decompile(&elf, 0x0FFF, 1, b".text") {
        DecodePlan::Marker(line) => {
            assert_eq!(line.tokens.len(), 1);
            assert_eq!(line.tokens[0].text, "Symbol out of range: 00000FFF");
        }
        DecodePlan::Code { .. } => panic!("range check should fail"),
    }
}

#[test]
fn out_of_range_past_section_end() {
    let bytes = text_elf();
    let elf = parse(&bytes).unwrap();
    match exeviewer::disasm::plan_decompile(&elf, 0x1000, 0x41, b".text") {
        DecodePlan::Marker(line) => {
            assert_eq!(line.tokens.len(), 1);
            assert_eq!(line.tokens[0].text, "Symbol out of range: 00001000");
        }
        DecodePlan::Code { .. } => panic!("range check should fail"),
    }
}

#[test]
fn in_range_request_hands_back_the_bytes() {
    let bytes = text_elf();
    let elf = parse(&bytes).unwrap();
    match exeviewer::disasm::plan_decompile(&elf, 0x1010, 0x10, b".text") {
        DecodePlan::Code { ip, bytes } => {
            assert_eq!(ip, 0x1010);
            assert_eq!(bytes, vec![0xCC; 0x10]);
        }
        DecodePlan::Marker(_) => panic!("range check should pass"),
    }
}

#[test]
fn missing_section_is_a_range_failure() {
    let bytes = text_elf();
    let elf = parse(&bytes).unwrap();
    match exeviewer::disasm::plan_decompile(&elf, 0x1000, 1, b".plt") {
        DecodePlan::Marker(line) => {
            assert_eq!(line.tokens[0].text, "Symbol out of range: 00001000");
        }
        DecodePlan::Code { .. } => panic!(".plt does not exist here"),
    }
}

#[test]
fn plt_catalog_has_three_synthesized_entries() {
    // addresses 0x1030, 0x1040, 0x1050 and names printf, malloc, free
    let bytes = plt_elf();
    let elf = parse(&bytes).unwrap();
    let relocs = elf.plt_relocs.as_ref().expect("relocations parsed");
    let dsyms = elf.dyn_symbols.as_ref().expect("dynamic symbols parsed");
    assert_eq!(relocs.len(), 3);
    let cat = Catalog::new_for_plt(relocs, dsyms, 0x1020, 0x10);
    assert_eq!(cat.entries.len(), 3);
    assert_eq!(cat.entries[0].address, 0x1030);
    assert_eq!(cat.entries[1].address, 0x1040);
    assert_eq!(cat.entries[2].address, 0x1050);
    assert_eq!(cat.entries[0].name, b"printf@plt".to_vec());
    assert_eq!(cat.entries[1].name, b"malloc@plt".to_vec());
    assert_eq!(cat.entries[2].name, b"free@plt".to_vec());
    for e in &cat.entries {
        assert_eq!(e.size, 0x10);
        assert!(!e.decoded);
        assert_eq!(e.vertical_scroll, 0);
        assert!(e.lines.is_empty());
    }
}

#[test]
fn resolver_synthesizes_plt_names() {
    let bytes = plt_elf();
    let elf = parse(&bytes).unwrap();
    let r = MySymbolResolver::new(&elf);
    // 4 dynamic symbols contribute nothing (no static table); 3 plt pairs
    assert_eq!(r.entries.len(), 3);
    assert_eq!(r.resolve(true, 0x1030), Some(b"printf@plt".to_vec()));
    assert_eq!(r.resolve(true, 0x1040), Some(b"malloc@plt".to_vec()));
    assert_eq!(r.resolve(true, 0x1050), Some(b"free@plt".to_vec()));
    assert_eq!(r.resolve(true, 0x1020), None);
    // only call targets are decorated
    assert_eq!(r.resolve(false, 0x1030), None);
}

#[test]
fn resolver_prefers_later_insertions() {
    let r = MySymbolResolver {
        entries: vec![
            (0x1000, b"first".to_vec()),
            (0x2000, b"other".to_vec()),
            (0x1000, b"second".to_vec()),
        ],
    };
    assert_eq!(r.resolve(true, 0x1000), Some(b"second".to_vec()));
    assert_eq!(r.resolve(true, 0x2000), Some(b"other".to_vec()));
    assert_eq!(r.resolve(true, 0x3000), None);
}

#[test]
fn symbol_catalog_filters_undefined_symbols() {
    let mut strtab: Vec<u8> = vec![0];
    let main_off = strtab.len() as u32;
    strtab.extend_from_slice(b"main\0");
    let ext_off = strtab.len() as u32;
    strtab.extend_from_slice(b"external\0");
    let mut symtab = sym64(0, 0, 0, 0);
    symtab.extend_from_slice(&sym64(main_off, 1, 0x1000, 0x20));
    symtab.extend_from_slice(&sym64(ext_off, 0, 0, 0));
    let bytes = build_elf64(
        &[
            SecDef {
                name: ".strtab",
                sh_type: 3,
                addr: 0,
                link: 0,
                entsize: 0,
                data: strtab,
            },
            SecDef {
                name: ".symtab",
                sh_type: 2,
                addr: 0,
                link: 1,
                entsize: 24,
                data: symtab,
            },
        ],
        None,
    );
    let elf = parse(&bytes).unwrap();
    let syms = elf.symbols.as_ref().expect("symbol table parsed");
    assert_eq!(syms.len(), 3);
    let cat = Catalog::new_for_symbols(syms);
    // the null symbol and the undefined one are filtered out
    assert_eq!(cat.entries.len(), 1);
    assert_eq!(cat.entries[0].name, b"main".to_vec());
    assert_eq!(cat.entries[0].address, 0x1000);
    assert_eq!(cat.entries[0].size, 0x20);
}

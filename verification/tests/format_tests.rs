use exeviewer::disasm::{compose_line, out_of_range_line, Token, TokenKind};
use exeviewer::numfmt::{dec_min_width, dec_string, hex_min_width, hex_string};
use exeviewer::section::{generate_section_visualization, getDescription, Section};
use exeviewer::summary::SummaryPage;

#[test]
fn hex_is_upper_case_and_zero_filled() {
    assert_eq!(hex_string(0), "0");
    assert_eq!(hex_string(0xDEADBEEF), "DEADBEEF");
    assert_eq!(hex_min_width(0xFFF, 8), "00000FFF");
    assert_eq!(hex_min_width(0, 8), "00000000");
    assert_eq!(hex_min_width(0x123456789, 8), "123456789");
    assert_eq!(hex_min_width(0x1000, 16), "0000000000001000");
}

#[test]
fn decimal_rendering() {
    assert_eq!(dec_string(0), "0");
    assert_eq!(dec_string(9081726354), "9081726354");
    assert_eq!(dec_min_width(7, 2), "07");
    assert_eq!(dec_min_width(123, 2), "123");
}

#[test]
fn out_of_range_marker_text() {
    let line = out_of_range_line(0xFFF);
    assert_eq!(line.tokens.len(), 1);
    assert_eq!(line.tokens[0].text, "Symbol out of range: 00000FFF");
    // wide addresses keep all their digits
    let wide = out_of_range_line(0x1_2345_6789);
    assert_eq!(wide.tokens[0].text, "Symbol out of range: 123456789");
}

#[test]
fn composed_line_is_pad_then_tokens() {
    let tokens = vec![
        Token { text: "mov".to_string(), kind: TokenKind::Mnemonic },
        Token { text: " ".to_string(), kind: TokenKind::Other },
        Token { text: "rbp".to_string(), kind: TokenKind::Register },
    ];
    let line = compose_line(0x1000, tokens);
    assert_eq!(line.tokens.len(), 4);
    assert_eq!(line.tokens[0].text, "    0000000000001000    ");
    assert_eq!(line.tokens[0].kind, TokenKind::Other);
    assert_eq!(line.tokens[1].text, "mov");
    assert_eq!(line.tokens[3].text, "rbp");
    let joined: String = line.tokens.iter().map(|t| t.text.as_str()).collect();
    assert_eq!(joined, "    0000000000001000    mov rbp");
}

#[test]
fn known_section_descriptions() {
    assert_eq!(getDescription(b".text"), "Executable code");
    assert_eq!(getDescription(b".rodata"), "Read-only data");
    assert_eq!(getDescription(b".data"), "Initialized data");
    assert_eq!(getDescription(b".bss"), "Uninitialized data");
    assert_eq!(getDescription(b".symtab"), "Symbol table");
    assert_eq!(getDescription(b".strtab"), "String table");
    assert_eq!(getDescription(b".shstrtab"), "Section header string table");
    assert_eq!(getDescription(b".eh_frame"), "Unknown");
}

#[test]
fn visualization_marks_the_selected_section() {
    let sections = vec![
        Section { offset: 0, size: 50, description: getDescription(b".text") },
        Section { offset: 50, size: 50, description: getDescription(b".data") },
    ];
    // grid 10 by 2: twenty cells over a file of extent 100
    let first = generate_section_visualization(&sections, 0, 10, 2);
    assert_eq!(first, "        **********\n        ..........");
    let second = generate_section_visualization(&sections, 1, 10, 2);
    assert_eq!(second, "        ..........\n        **********");
}

#[test]
fn visualization_shows_tiny_sections_with_one_cell() {
    let sections = vec![
        Section { offset: 0, size: 1, description: getDescription(b".x") },
        Section { offset: 0, size: 1000, description: getDescription(b".y") },
    ];
    let vis = generate_section_visualization(&sections, 0, 10, 1);
    assert_eq!(vis, "        *.........");
}

#[test]
fn machine_and_file_type_names() {
    let page = SummaryPage::new(
        "a.out".to_string(),
        2048,
        "2024-01-01T00:00:00Z".to_string(),
        String::new(),
        0x3E,
        2,
        0x401000,
        None,
    );
    assert_eq!(page.get_machine_type(), "x86-64");
    assert_eq!(page.get_file_type(), "Executable");
    let other = SummaryPage::new(
        String::new(),
        0,
        String::new(),
        String::new(),
        0xB7,
        3,
        0,
        None,
    );
    assert_eq!(other.get_machine_type(), "AArch64");
    assert_eq!(other.get_file_type(), "Shared object");
    let unknown = SummaryPage::new(
        String::new(),
        0,
        String::new(),
        String::new(),
        0x77,
        9,
        0,
        None,
    );
    assert_eq!(unknown.get_machine_type(), "Unknown");
    assert_eq!(unknown.get_file_type(), "Unknown");
}

#[test]
fn sizes_scale_to_the_largest_unit() {
    assert_eq!(SummaryPage::format_size(512), "512 B");
    assert_eq!(SummaryPage::format_size(2048), "2.00 KB");
    assert_eq!(SummaryPage::format_size(1536), "1.50 KB");
    assert_eq!(SummaryPage::format_size(1024 * 1024), "1.00 MB");
    assert_eq!(SummaryPage::format_size(5 * 1024 * 1024 + 262144), "5.25 MB");
    assert_eq!(SummaryPage::format_size(1073741824), "1.00 GB");
}

#[test]
fn size_fraction_rounds_half_up() {
    // 1075 bytes is 104.98 hundredths of a kibibyte: rounds to 1.05
    assert_eq!(SummaryPage::format_size(1075), "1.05 KB");
    // 1029 bytes is 100.48 hundredths: rounds to 1.00
    assert_eq!(SummaryPage::format_size(1029), "1.00 KB");
}

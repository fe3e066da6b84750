use exeviewer::loader::{is_arch_match, shebang_interpreter};

#[test]
fn shebang_names_the_interpreter() {
    // the loader recurses on the named interpreter, here /usr/bin/env
    let buf = b"#!/usr/bin/env python3\nprint()\n".to_vec();
    assert_eq!(shebang_interpreter(&buf), Some(b"/usr/bin/env".to_vec()));
}

#[test]
fn shebang_takes_the_first_token_only() {
    let buf = b"#! /bin/sh -e\necho hi\n".to_vec();
    assert_eq!(shebang_interpreter(&buf), Some(b"/bin/sh".to_vec()));
}

#[test]
fn shebang_without_newline_still_parses() {
    let buf = b"#!/bin/dash".to_vec();
    assert_eq!(shebang_interpreter(&buf), Some(b"/bin/dash".to_vec()));
}

#[test]
fn binaries_have_no_shebang() {
    let buf = vec![0x7f, b'E', b'L', b'F', 2, 1, 1];
    assert_eq!(shebang_interpreter(&buf), None);
    let short = b"#!".to_vec();
    assert_eq!(shebang_interpreter(&short), None);
}

#[test]
fn blank_shebang_line_names_nothing() {
    let buf = b"#!   \nrest".to_vec();
    assert_eq!(shebang_interpreter(&buf), None);
}

#[test]
fn arch_names_match_only_themselves() {
    assert!(is_arch_match(b"x86_64", b"x86_64"));
    assert!(is_arch_match(b"aarch64", b"aarch64"));
    assert!(is_arch_match(b"x86", b"x86"));
    assert!(is_arch_match(b"arm", b"arm"));
    assert!(!is_arch_match(b"x86_64", b"aarch64"));
    assert!(!is_arch_match(b"riscv64", b"riscv64"));
}

use exeviewer::deps::{
    build_dependencies, get_search_path, is_critical_library, parse_resolved_paths,
};
use exeviewer::elf::DynEntry;

const DT_NEEDED: u64 = 1;
const DT_RPATH: u64 = 15;

fn strtab(names: &[&str]) -> (Vec<u8>, Vec<u64>) {
    let mut tab: Vec<u8> = vec![0];
    let mut offs = Vec::new();
    for n in names {
        offs.push(tab.len() as u64);
        tab.extend_from_slice(n.as_bytes());
        tab.push(0);
    }
    (tab, offs)
}

#[test]
fn rpath_and_needed_compose_the_search_path() {
    // DT_RPATH "/opt/lib" and three needed libraries, no library-path
    // variable: every entry's search path is the rpath plus the defaults
    let (tab, offs) = strtab(&["/opt/lib", "libc.so.6", "libm.so.6", "libfoo.so"]);
    let dynamic = vec![
        DynEntry { tag: DT_RPATH, val: offs[0] },
        DynEntry { tag: DT_NEEDED, val: offs[1] },
        DynEntry { tag: DT_NEEDED, val: offs[2] },
        DynEntry { tag: DT_NEEDED, val: offs[3] },
    ];
    let resolved: Vec<(Vec<u8>, Vec<u8>)> = Vec::new();
    let set = build_dependencies(Some(&dynamic), Some(&tab), None, false, &resolved);
    assert_eq!(set.rpath, Some(b"/opt/lib".to_vec()));
    assert_eq!(set.needed.len(), 3);
    for e in &set.needed {
        assert_eq!(
            e.search_path,
            b"/opt/lib:/lib:/usr/lib:/lib64:/usr/lib64".to_vec()
        );
        assert_eq!(e.actual_path, b"Not available on current platform".to_vec());
    }
    assert_eq!(set.needed[0].name, b"libc.so.6".to_vec());
    assert!(set.needed[0].is_critical);
    assert!(!set.needed[1].is_critical);
    assert!(!set.needed[2].is_critical);
}

#[test]
fn last_rpath_entry_wins() {
    let (tab, offs) = strtab(&["/first", "/second", "libx.so"]);
    let dynamic = vec![
        DynEntry { tag: DT_RPATH, val: offs[0] },
        DynEntry { tag: DT_NEEDED, val: offs[2] },
        DynEntry { tag: DT_RPATH, val: offs[1] },
    ];
    let resolved: Vec<(Vec<u8>, Vec<u8>)> = Vec::new();
    let set = build_dependencies(Some(&dynamic), Some(&tab), None, false, &resolved);
    assert_eq!(set.rpath, Some(b"/second".to_vec()));
}

#[test]
fn library_path_variable_is_spliced_in() {
    let ld = b"/home/u/lib".to_vec();
    let path = get_search_path(None, Some(&ld));
    assert_eq!(path, b"/home/u/lib:/lib:/usr/lib:/lib64:/usr/lib64".to_vec());
    let rp = b"/opt/lib".to_vec();
    let both = get_search_path(Some(&rp), Some(&ld));
    assert_eq!(
        both,
        b"/opt/lib:/home/u/lib:/lib:/usr/lib:/lib64:/usr/lib64".to_vec()
    );
}

#[test]
fn no_dynamic_array_means_no_dependencies() {
    let resolved: Vec<(Vec<u8>, Vec<u8>)> = Vec::new();
    let set = build_dependencies(None, None, None, true, &resolved);
    assert!(set.rpath.is_none());
    assert!(set.needed.is_empty());
}

#[test]
fn unmatched_names_show_not_found() {
    let (tab, offs) = strtab(&["libfoo.so", "libbar.so"]);
    let dynamic = vec![
        DynEntry { tag: DT_NEEDED, val: offs[0] },
        DynEntry { tag: DT_NEEDED, val: offs[1] },
    ];
    let resolved = vec![(b"libfoo.so".to_vec(), b"/usr/lib/libfoo.so".to_vec())];
    let set = build_dependencies(Some(&dynamic), Some(&tab), None, true, &resolved);
    assert_eq!(set.needed[0].actual_path, b"/usr/lib/libfoo.so".to_vec());
    assert_eq!(set.needed[1].actual_path, b"Not found".to_vec());
}

#[test]
fn failed_probe_on_supported_platform_shows_not_found() {
    // a spawn failure leaves the listing empty; the platform still runs the
    // probe, so every unmatched entry reads as not found
    let (tab, offs) = strtab(&["libfoo.so"]);
    let dynamic = vec![DynEntry { tag: DT_NEEDED, val: offs[0] }];
    let empty: Vec<(Vec<u8>, Vec<u8>)> = Vec::new();
    let set = build_dependencies(Some(&dynamic), Some(&tab), None, true, &empty);
    assert_eq!(set.needed[0].actual_path, b"Not found".to_vec());
}

#[test]
fn unsupported_platform_shows_not_available() {
    // off the supported platform the note is fixed, whatever was listed
    let (tab, offs) = strtab(&["libfoo.so"]);
    let dynamic = vec![DynEntry { tag: DT_NEEDED, val: offs[0] }];
    let resolved = vec![(b"libfoo.so".to_vec(), b"/usr/lib/libfoo.so".to_vec())];
    let set = build_dependencies(Some(&dynamic), Some(&tab), None, false, &resolved);
    assert_eq!(
        set.needed[0].actual_path,
        b"Not available on current platform".to_vec()
    );
}

#[test]
fn critical_prefixes_are_recognized() {
    assert!(is_critical_library(b"libc.so.6"));
    assert!(is_critical_library(b"libstdc++.so.6"));
    assert!(is_critical_library(b"libgcc_s.so.1"));
    assert!(is_critical_library(b"ld-linux-x86-64.so.2"));
    assert!(!is_critical_library(b"libm.so.6"));
    assert!(!is_critical_library(b"libcrypto.so"));
}

#[test]
fn listing_lines_parse_to_pairs() {
    let out = b"\tlinux-vdso.so.1 (0x00007ffc)\n\
\tlibc.so.6 => /lib/x86_64-linux-gnu/libc.so.6 (0x00007f71)\n\
\tlibm.so.6 => /lib/x86_64-linux-gnu/libm.so.6 (0x00007f70)\n"
        .to_vec();
    let pairs = parse_resolved_paths(&out);
    assert_eq!(pairs.len(), 2);
    assert_eq!(pairs[0].0, b"libc.so.6".to_vec());
    assert_eq!(pairs[0].1, b"/lib/x86_64-linux-gnu/libc.so.6".to_vec());
    assert_eq!(pairs[1].0, b"libm.so.6".to_vec());
    assert_eq!(pairs[1].1, b"/lib/x86_64-linux-gnu/libm.so.6".to_vec());
}

#[test]
fn listing_discards_empty_paths() {
    let out = b"libx.so => (0x1234)\nliby.so => /lib/liby.so (0x1)".to_vec();
    let pairs = parse_resolved_paths(&out);
    assert_eq!(pairs.len(), 1);
    assert_eq!(pairs[0].0, b"liby.so".to_vec());
}

#[test]
fn listing_without_arrows_is_empty() {
    let out = b"statically linked\n".to_vec();
    assert!(parse_resolved_paths(&out).is_empty());
    assert!(parse_resolved_paths(&Vec::new()).is_empty());
}

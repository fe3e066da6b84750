use exeviewer::catalog::{Catalog, CatalogEntry, Focus};
use exeviewer::disasm::{DisLine, Token, TokenKind};

fn entry(addr: u64) -> CatalogEntry {
    CatalogEntry {
        name: format!("sym{addr:x}").into_bytes(),
        address: addr,
        size: 0x10,
        decoded: false,
        vertical_scroll: 0,
        lines: Vec::new(),
    }
}

fn catalog(n: u64) -> Catalog {
    Catalog {
        entries: (0..n).map(|i| entry(0x1000 + i * 0x10)).collect(),
        cursor: None,
        focus: Focus::List,
    }
}

fn marker_lines(text: &str) -> Vec<DisLine> {
    vec![DisLine {
        tokens: vec![Token {
            text: text.to_string(),
            kind: TokenKind::Other,
        }],
    }]
}

#[test]
fn down_from_unselected_lands_on_first_entry() {
    let mut c = catalog(4);
    c.on_down();
    assert_eq!(c.cursor, Some(0));
}

#[test]
fn down_saturates_at_last_entry() {
    let mut c = catalog(4);
    c.cursor = Some(3);
    c.on_down();
    assert_eq!(c.cursor, Some(3));
}

#[test]
fn up_from_unselected_lands_on_last_entry() {
    let mut c = catalog(4);
    c.on_up();
    assert_eq!(c.cursor, Some(3));
}

#[test]
fn up_saturates_at_first_entry() {
    let mut c = catalog(4);
    c.cursor = Some(0);
    c.on_up();
    assert_eq!(c.cursor, Some(0));
}

#[test]
fn navigation_on_empty_catalog_selects_nothing() {
    let mut c = catalog(0);
    assert!(c.on_down().is_none());
    assert_eq!(c.cursor, None);
    assert!(c.on_up().is_none());
    assert_eq!(c.cursor, None);
}

#[test]
fn down_requests_decode_of_new_selection() {
    let mut c = catalog(3);
    let req = c.on_down().expect("fresh entry needs decoding");
    assert_eq!(req.idx, 0);
    assert_eq!(req.address, 0x1000);
    assert_eq!(req.size, 0x10);
}

#[test]
fn decoded_entry_is_not_requested_again() {
    let mut c = catalog(3);
    let req = c.on_down().unwrap();
    c.ensure_decoded(req.idx, marker_lines("x"));
    c.on_up();
    let again = c.request();
    assert!(again.is_none());
}

#[test]
fn ensure_decoded_is_idempotent() {
    // a second store, whatever its lines, changes nothing
    let mut c = catalog(2);
    c.ensure_decoded(0, marker_lines("first"));
    assert!(c.entries[0].decoded);
    assert_eq!(c.entries[0].lines.len(), 1);
    c.ensure_decoded(0, marker_lines("second"));
    assert!(c.entries[0].decoded);
    assert_eq!(c.entries[0].lines.len(), 1);
    assert_eq!(c.entries[0].lines[0].tokens[0].text, "first");
}

#[test]
fn ensure_decoded_out_of_range_is_a_no_op() {
    let mut c = catalog(2);
    c.ensure_decoded(7, marker_lines("x"));
    assert!(!c.entries[0].decoded);
    assert!(!c.entries[1].decoded);
}

#[test]
fn fresh_entries_show_nothing() {
    // decoded=false entries have an empty disassembly
    let c = catalog(5);
    for e in &c.entries {
        assert!(!e.decoded);
        assert!(e.lines.is_empty());
    }
}

#[test]
fn focus_switch_is_idempotent() {
    let mut c = catalog(2);
    c.on_right();
    assert_eq!(c.focus, Focus::Content);
    c.on_right();
    assert_eq!(c.focus, Focus::Content);
    c.on_left();
    assert_eq!(c.focus, Focus::List);
    c.on_left();
    assert_eq!(c.focus, Focus::List);
}

#[test]
fn content_focus_scrolls_selected_entry() {
    // cursor 5 of 10: right then down scrolls without moving the cursor;
    // left then down moves the cursor and leaves the scrolls alone
    let mut c = catalog(10);
    c.cursor = Some(5);
    c.on_right();
    let r = c.on_down();
    assert!(r.is_none());
    assert_eq!(c.cursor, Some(5));
    assert_eq!(c.entries[5].vertical_scroll, 1);
    c.on_left();
    c.on_down();
    assert_eq!(c.cursor, Some(6));
    assert_eq!(c.entries[5].vertical_scroll, 1);
    assert_eq!(c.entries[6].vertical_scroll, 0);
}

#[test]
fn scroll_saturates_at_zero() {
    let mut c = catalog(3);
    c.cursor = Some(1);
    c.on_right();
    c.on_up();
    assert_eq!(c.entries[1].vertical_scroll, 0);
    c.on_down();
    c.on_down();
    c.on_up();
    assert_eq!(c.entries[1].vertical_scroll, 1);
}

#[test]
fn content_focus_with_no_selection_is_inert() {
    let mut c = catalog(3);
    c.on_right();
    assert!(c.on_down().is_none());
    assert_eq!(c.cursor, None);
    for e in &c.entries {
        assert_eq!(e.vertical_scroll, 0);
    }
}

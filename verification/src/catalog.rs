//! The lazy symbol catalog: an ordered list of code-bearing entries, a
//! saturating selection cursor, a focus switch between the list and the
//! selected entry's content, a per-entry vertical scroll, and memoized
//! disassembly that is decoded at most once per entry.
//!
//! Navigation mutates the state; when a step lands on an entry that has not
//! been decoded yet, it hands back a [`DecodeRequest`] and the caller stores
//! the decoded lines with [`Catalog::ensure_decoded`].

use vstd::prelude::*;
use vstd::arithmetic::mul::{lemma_mul_inequality, lemma_mul_strict_inequality};
use crate::disasm::DisLine;
use crate::elf::{RelaEntry, SymbolEntry};
use crate::resolver::spec_plt_name;
use crate::text::{ascii_bytes, clone_bytes, str_bytes};

verus! {

/// Whether arrow keys move the selection or scroll the selected content.
#[derive(Clone, Copy, Debug, PartialEq, Eq, Structural)]
pub enum Focus {
    List,
    Content,
}

/// One catalog entry: a named code range and its memoized disassembly.
pub struct CatalogEntry {
    pub name: Vec<u8>,
    pub address: u64,
    pub size: u64,
    pub decoded: bool,
    pub vertical_scroll: usize,
    pub lines: Vec<DisLine>,
}

/// What still has to be decoded after a navigation step.
#[derive(Clone, Copy, Debug, PartialEq, Eq, Structural)]
pub struct DecodeRequest {
    pub idx: usize,
    pub address: u64,
    pub size: u64,
}

/// The catalog state.
pub struct Catalog {
    pub entries: Vec<CatalogEntry>,
    pub cursor: Option<usize>,
    pub focus: Focus,
}

/// The cursor after a step down: onto the first entry from nowhere, and
/// saturating at the last entry.
pub open spec fn spec_down(cur: Option<usize>, len: nat) -> Option<usize> {
    if len == 0 {
        None
    } else {
        match cur {
            None => Some(0usize),
            Some(i) => if i + 1 < len {
                Some((i + 1) as usize)
            } else {
                Some((len - 1) as usize)
            },
        }
    }
}

/// The cursor after a step up: onto the last entry from nowhere, and
/// saturating at the first entry.
pub open spec fn spec_up(cur: Option<usize>, len: nat) -> Option<usize> {
    if len == 0 {
        None
    } else {
        match cur {
            None => Some((len - 1) as usize),
            Some(i) => if i > 0 {
                Some((i - 1) as usize)
            } else {
                Some(0usize)
            },
        }
    }
}

/// Where the focus stands after a step left.
pub open spec fn spec_focus_left(f: Focus) -> Focus {
    Focus::List
}

/// Where the focus stands after a step right.
pub open spec fn spec_focus_right(f: Focus) -> Focus {
    Focus::Content
}

/// The entry with its scroll advanced by one (saturating at the top).
pub open spec fn spec_bump_scroll(e: CatalogEntry) -> CatalogEntry {
    CatalogEntry {
        vertical_scroll: if e.vertical_scroll < usize::MAX {
            (e.vertical_scroll + 1) as usize
        } else {
            usize::MAX
        },
        ..e
    }
}

/// The entry with its scroll retreated by one, saturating at zero.
pub open spec fn spec_drop_scroll(e: CatalogEntry) -> CatalogEntry {
    CatalogEntry {
        vertical_scroll: if e.vertical_scroll > 0 {
            (e.vertical_scroll - 1) as usize
        } else {
            0usize
        },
        ..e
    }
}

/// The decode request a state asks for: the selected entry, when it has not
/// been decoded yet.
pub open spec fn spec_request(c: Catalog) -> Option<DecodeRequest> {
    match c.cursor {
        Some(i) => if i < c.entries@.len() && !c.entries@[i as int].decoded {
            Some(
                DecodeRequest {
                    idx: i,
                    address: c.entries@[i as int].address,
                    size: c.entries@[i as int].size,
                },
            )
        } else {
            None
        },
        None => None,
    }
}

/// Storing decoded lines: marks the entry decoded exactly when the index is
/// in range and the entry was not decoded before; otherwise nothing moves.
pub open spec fn spec_store(entries: Seq<CatalogEntry>, idx: int, lines: Vec<DisLine>) -> Seq<
    CatalogEntry,
> {
    if 0 <= idx < entries.len() && !entries[idx].decoded {
        entries.update(
            idx,
            CatalogEntry {
                name: entries[idx].name,
                address: entries[idx].address,
                size: entries[idx].size,
                decoded: true,
                vertical_scroll: entries[idx].vertical_scroll,
                lines,
            },
        )
    } else {
        entries
    }
}

/// The defined symbols, in table order: entries whose section index names a
/// definition.
pub open spec fn spec_defined(syms: Seq<SymbolEntry>) -> Seq<SymbolEntry>
    decreases syms.len(),
{
    if syms.len() == 0 {
        Seq::empty()
    } else {
        spec_defined(syms.drop_last()) + (if syms.last().shndx != 0 {
            seq![syms.last()]
        } else {
            Seq::<SymbolEntry>::empty()
        })
    }
}

/// A fresh catalog entry built from a symbol.
pub open spec fn entry_from_sym(e: CatalogEntry, s: SymbolEntry) -> bool {
    &&& e.name@ == s.name@
    &&& e.address == s.value
    &&& e.size == s.size
    &&& !e.decoded
    &&& e.vertical_scroll == 0
    &&& e.lines@.len() == 0
}

/// All synthesized linkage addresses stay within an address word.
pub open spec fn spec_plt_fits(addr: u64, entsize: u64, n: int) -> bool {
    addr + n * entsize <= u64::MAX
}

impl Catalog {
    /// The catalog's invariant: the cursor names an entry, and an entry not
    /// yet decoded shows nothing.
    pub open spec fn inv(self) -> bool {
        &&& match self.cursor {
            Some(i) => i < self.entries@.len(),
            None => true,
        }
        &&& forall|i: int|
            0 <= i < self.entries@.len() ==> !(#[trigger] self.entries@[i]).decoded
                ==> self.entries@[i].lines@.len() == 0
    }

    /// Build the catalog of the static symbol table, keeping the defined
    /// symbols in table order.  Selection starts empty, focus on the list.
    pub fn new_for_symbols(symbols: &Vec<SymbolEntry>) -> (r: Catalog)
        ensures
            r.inv(),
            r.cursor is None,
            r.focus == Focus::List,
            r.entries@.len() == spec_defined(symbols@).len(),
            forall|i: int|
                0 <= i < r.entries@.len() ==> entry_from_sym(
                    #[trigger] r.entries@[i],
                    spec_defined(symbols@)[i],
                ),
    {
        let mut entries: Vec<CatalogEntry> = Vec::new();
        let mut i: usize = 0;
        proof {
            assert(symbols@.take(0) =~= Seq::<SymbolEntry>::empty());
        }
        while i < symbols.len()
            invariant
                i <= symbols@.len(),
                entries@.len() == spec_defined(symbols@.take(i as int)).len(),
                forall|k: int|
                    0 <= k < entries@.len() ==> entry_from_sym(
                        #[trigger] entries@[k],
                        spec_defined(symbols@.take(i as int))[k],
                    ),
            decreases symbols@.len() - i,
        {
            let ghost pre = symbols@.take(i as int);
            let ghost post = symbols@.take(i + 1);
            proof {
                assert(post.drop_last() =~= pre);
                assert(post.last() == symbols@[i as int]);
            }
            if symbols[i].shndx != 0 {
                entries.push(
                    CatalogEntry {
                        name: clone_bytes(&symbols[i].name),
                        address: symbols[i].value,
                        size: symbols[i].size,
                        decoded: false,
                        vertical_scroll: 0,
                        lines: Vec::new(),
                    },
                );
                proof {
                    assert(spec_defined(post) =~= spec_defined(pre) + seq![symbols@[i as int]]);
                }
            } else {
                proof {
                    assert(spec_defined(post) =~= spec_defined(pre));
                }
            }
            i = i + 1;
        }
        proof {
            assert(symbols@.take(symbols@.len() as int) =~= symbols@);
        }
        Catalog { entries, cursor: None, focus: Focus::List }
    }

    /// Build the catalog of synthesized procedure-linkage entries: one per
    /// relocation, at `addr + (i + 1) * entsize` (slot zero holds the header
    /// stub), each of one entry size, named `name@plt` after the imported
    /// symbol.  When the last address would not fit in an address word, the
    /// catalog is empty.
    pub fn new_for_plt(
        relocs: &Vec<RelaEntry>,
        dsyms: &Vec<SymbolEntry>,
        plt_addr: u64,
        plt_entsize: u64,
    ) -> (r: Catalog)
        ensures
            r.inv(),
            r.cursor is None,
            r.focus == Focus::List,
            spec_plt_fits(plt_addr, plt_entsize, relocs@.len() as int) ==> r.entries@.len()
                == relocs@.len() && forall|i: int|
                0 <= i < relocs@.len() ==> {
                    &&& (#[trigger] r.entries@[i]).address == plt_addr + (i + 1) * plt_entsize
                    &&& r.entries@[i].name@ == spec_plt_name(dsyms@, relocs@, i)
                    &&& r.entries@[i].size == plt_entsize
                    &&& !r.entries@[i].decoded
                    &&& r.entries@[i].vertical_scroll == 0
                    &&& r.entries@[i].lines@.len() == 0
                },
            !spec_plt_fits(plt_addr, plt_entsize, relocs@.len() as int) ==> r.entries@.len() == 0,
    {
        let mut entries: Vec<CatalogEntry> = Vec::new();
        let count = relocs.len();
        proof {
            let c = count as int;
            let e = plt_entsize as int;
            assert(c * e <= 0xFFFF_FFFF_FFFF_FFFF * 0xFFFF_FFFF_FFFF_FFFF) by (nonlinear_arith)
                requires
                    0 <= c <= 0xFFFF_FFFF_FFFF_FFFF,
                    0 <= e <= 0xFFFF_FFFF_FFFF_FFFF,
            ;
        }
        let prod: u128 = (count as u128) * (plt_entsize as u128);
        let fits = (plt_addr as u128) + prod <= (u64::MAX as u128);
        proof {
            assert(prod == (count as int) * (plt_entsize as int));
            assert(fits == spec_plt_fits(plt_addr, plt_entsize, relocs@.len() as int));
        }
        if fits {
            let suffix = {
                proof {
                    reveal_strlit("@plt");
                }
                str_bytes("@plt")
            };
            let mut i: usize = 0;
            while i < count
                invariant
                    count == relocs@.len(),
                    plt_addr + count * plt_entsize <= u64::MAX,
                    suffix@ == ascii_bytes("@plt"),
                    i <= count,
                    entries@.len() == i,
                    forall|k: int|
                        0 <= k < i ==> {
                            &&& (#[trigger] entries@[k]).address == plt_addr + (k + 1)
                                * plt_entsize
                            &&& entries@[k].name@ == spec_plt_name(dsyms@, relocs@, k)
                            &&& entries@[k].size == plt_entsize
                            &&& !entries@[k].decoded
                            &&& entries@[k].vertical_scroll == 0
                            &&& entries@[k].lines@.len() == 0
                        },
                decreases count - i,
            {
                proof {
                    lemma_mul_inequality(i + 1, count as int, plt_entsize as int);
                    lemma_mul_inequality(0, i + 1, plt_entsize as int);
                    assert(0 * (plt_entsize as int) == 0) by (nonlinear_arith);
                }
                let a: u64 = plt_addr + ((i as u64) + 1) * plt_entsize;
                let sym_idx = relocs[i].sym as usize;
                let mut name: Vec<u8> = if sym_idx < dsyms.len() {
                    clone_bytes(&dsyms[sym_idx].name)
                } else {
                    Vec::new()
                };
                let mut sfx = clone_bytes(&suffix);
                name.append(&mut sfx);
                entries.push(
                    CatalogEntry {
                        name,
                        address: a,
                        size: plt_entsize,
                        decoded: false,
                        vertical_scroll: 0,
                        lines: Vec::new(),
                    },
                );
                i = i + 1;
            }
        }
        Catalog { entries, cursor: None, focus: Focus::List }
    }

    /// Focus the list pane.
    pub fn on_left(&mut self)
        ensures
            final(self).focus == spec_focus_left(old(self).focus),
            final(self).entries == old(self).entries,
            final(self).cursor == old(self).cursor,
    {
        self.focus = Focus::List;
    }

    /// Focus the content pane.
    pub fn on_right(&mut self)
        ensures
            final(self).focus == spec_focus_right(old(self).focus),
            final(self).entries == old(self).entries,
            final(self).cursor == old(self).cursor,
    {
        self.focus = Focus::Content;
    }

    /// Step down.  With the list focused the cursor advances (saturating at
    /// the last entry) and the newly selected entry's decode request, if
    /// any, is handed back; with the content focused the selected entry's
    /// scroll advances by one.
    pub fn on_down(&mut self) -> (r: Option<DecodeRequest>)
        requires
            old(self).inv(),
        ensures
            final(self).inv(),
            final(self).focus == old(self).focus,
            old(self).focus == Focus::List ==> {
                &&& final(self).cursor == spec_down(old(self).cursor, old(self).entries@.len())
                &&& final(self).entries == old(self).entries
                &&& r == spec_request(*final(self))
            },
            old(self).focus == Focus::Content ==> {
                &&& final(self).cursor == old(self).cursor
                &&& r is None
                &&& match old(self).cursor {
                    Some(i) => final(self).entries@ == old(self).entries@.update(
                        i as int,
                        spec_bump_scroll(old(self).entries@[i as int]),
                    ),
                    None => final(self).entries == old(self).entries,
                }
            },
    {
        match self.focus {
            Focus::List => {
                let len = self.entries.len();
                let newcur: Option<usize> = if len == 0 {
                    None
                } else {
                    match self.cursor {
                        None => Some(0),
                        Some(i) => if i + 1 < len {
                            Some(i + 1)
                        } else {
                            Some(len - 1)
                        },
                    }
                };
                self.cursor = newcur;
                self.request()
            },
            Focus::Content => {
                match self.cursor {
                    Some(i) => {
                        let mut e = self.entries.remove(i);
                        if e.vertical_scroll < usize::MAX {
                            e.vertical_scroll = e.vertical_scroll + 1;
                        }
                        self.entries.insert(i, e);
                        proof {
                            assert(final(self).entries@ =~= old(self).entries@.update(
                                i as int,
                                spec_bump_scroll(old(self).entries@[i as int]),
                            ));
                        }
                    },
                    None => {},
                }
                None
            },
        }
    }

    /// Step up.  With the list focused the cursor retreats (saturating at
    /// the first entry); with the content focused the selected entry's
    /// scroll retreats by one, saturating at zero.
    pub fn on_up(&mut self) -> (r: Option<DecodeRequest>)
        requires
            old(self).inv(),
        ensures
            final(self).inv(),
            final(self).focus == old(self).focus,
            old(self).focus == Focus::List ==> {
                &&& final(self).cursor == spec_up(old(self).cursor, old(self).entries@.len())
                &&& final(self).entries == old(self).entries
                &&& r == spec_request(*final(self))
            },
            old(self).focus == Focus::Content ==> {
                &&& final(self).cursor == old(self).cursor
                &&& r is None
                &&& match old(self).cursor {
                    Some(i) => final(self).entries@ == old(self).entries@.update(
                        i as int,
                        spec_drop_scroll(old(self).entries@[i as int]),
                    ),
                    None => final(self).entries == old(self).entries,
                }
            },
    {
        match self.focus {
            Focus::List => {
                let len = self.entries.len();
                let newcur: Option<usize> = if len == 0 {
                    None
                } else {
                    match self.cursor {
                        None => Some(len - 1),
                        Some(i) => if i > 0 {
                            Some(i - 1)
                        } else {
                            Some(0)
                        },
                    }
                };
                self.cursor = newcur;
                self.request()
            },
            Focus::Content => {
                match self.cursor {
                    Some(i) => {
                        let mut e = self.entries.remove(i);
                        if e.vertical_scroll > 0 {
                            e.vertical_scroll = e.vertical_scroll - 1;
                        }
                        self.entries.insert(i, e);
                        proof {
                            assert(final(self).entries@ =~= old(self).entries@.update(
                                i as int,
                                spec_drop_scroll(old(self).entries@[i as int]),
                            ));
                        }
                    },
                    None => {},
                }
                None
            },
        }
    }

    /// The decode request the current state asks for.
    pub fn request(&self) -> (r: Option<DecodeRequest>)
        requires
            self.inv(),
        ensures
            r == spec_request(*self),
    {
        match self.cursor {
            Some(i) => if !self.entries[i].decoded {
                Some(
                    DecodeRequest {
                        idx: i,
                        address: self.entries[i].address,
                        size: self.entries[i].size,
                    },
                )
            } else {
                None
            },
            None => None,
        }
    }

    /// Record an entry's decoded lines.  Out of range or already decoded:
    /// nothing moves.  This is the only transition that sets `decoded`, and
    /// it never clears it.
    pub fn ensure_decoded(&mut self, idx: usize, lines: Vec<DisLine>)
        requires
            old(self).inv(),
        ensures
            final(self).inv(),
            final(self).focus == old(self).focus,
            final(self).cursor == old(self).cursor,
            final(self).entries@ == spec_store(old(self).entries@, idx as int, lines),
    {
        if idx >= self.entries.len() {
            return ;
        }
        if self.entries[idx].decoded {
            return ;
        }
        let mut e = self.entries.remove(idx);
        e.decoded = true;
        e.lines = lines;
        self.entries.insert(idx, e);
        proof {
            assert(final(self).entries@ =~= spec_store(old(self).entries@, idx as int, lines));
        }
    }
}

/// Law: decoding on demand is idempotent.  Storing lines a second time for
/// the same entry, whatever they are, changes nothing: the disassembly and
/// the `decoded` mark stay as the first store left them.
pub proof fn lemma_ensure_decoded_idempotent(
    entries: Seq<CatalogEntry>,
    idx: int,
    l1: Vec<DisLine>,
    l2: Vec<DisLine>,
)
    ensures
        spec_store(spec_store(entries, idx, l1), idx, l2) == spec_store(entries, idx, l1),
{
    if 0 <= idx < entries.len() && !entries[idx].decoded {
        let after = spec_store(entries, idx, l1);
        assert(after[idx].decoded);
    }
}

/// Law: a store that lands (the entry was not yet decoded) leaves the entry
/// decoded with at least one line whenever at least one line was handed in.
pub proof fn lemma_store_nonempty(entries: Seq<CatalogEntry>, idx: int, lines: Vec<DisLine>)
    requires
        0 <= idx < entries.len(),
        !entries[idx].decoded,
        lines@.len() >= 1,
    ensures
        spec_store(entries, idx, lines)[idx].decoded,
        spec_store(entries, idx, lines)[idx].lines@.len() >= 1,
{
}

/// Law: focusing a pane is idempotent — a second step left (or right)
/// changes nothing.
pub proof fn lemma_focus_idempotent(f: Focus)
    ensures
        spec_focus_left(spec_focus_left(f)) == spec_focus_left(f),
        spec_focus_right(spec_focus_right(f)) == spec_focus_right(f),
{
}

/// Law: the synthesized linkage addresses are strictly increasing, hence
/// pairwise distinct.  With `R` relocations against a linkage section of
/// base `A` and entry size `E >= 1`, entry `i` lives at `A + (i + 1) * E`,
/// so the addresses are exactly `A + E, A + 2E, ..., A + R * E` in order.
pub proof fn lemma_plt_addresses_increasing(addr: u64, entsize: u64, n: int, i: int, j: int)
    requires
        entsize >= 1,
        0 <= i < j < n,
        spec_plt_fits(addr, entsize, n),
    ensures
        addr + (i + 1) * entsize < addr + (j + 1) * entsize,
        addr + (j + 1) * entsize <= u64::MAX,
{
    lemma_mul_strict_inequality(i + 1, j + 1, entsize as int);
    lemma_mul_inequality(j + 1, n, entsize as int);
}

/// Law: cursor saturation.  From no selection a step down lands on the
/// first entry; from the last entry a step down stays on the last entry.
pub proof fn lemma_cursor_saturation(len: nat)
    requires
        0 < len <= usize::MAX,
    ensures
        spec_down(None, len) == Some(0usize),
        spec_down(Some((len - 1) as usize), len) == Some((len - 1) as usize),
{
}

} // verus!

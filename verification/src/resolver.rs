//! The symbol resolver: one map from code addresses to display names, built
//! from the static symbol table and the synthesized procedure-linkage-table
//! entries, queried by the disassembly formatter for call targets.

use vstd::prelude::*;
use vstd::arithmetic::mul::lemma_mul_inequality;
use crate::elf::{
    spec_find_name_from, spec_sec_addr, spec_sec_entsize, ElfFile, RelaEntry, SymbolEntry,
};
use crate::reader::section_by_name;
use crate::text::{ascii_bytes, clone_bytes, str_bytes};

verus! {

/// Where the procedure-linkage section stands in the section table.
pub open spec fn spec_plt_sec_idx(elf: ElfFile) -> Option<int> {
    spec_find_name_from(elf.data@, ascii_bytes(".plt"), 0)
}

/// Procedure-linkage entries are synthesized: the relocation table, the
/// dynamic symbol table and the linkage section are all present, and the
/// last entry's address fits in an address word.
pub open spec fn spec_plt_active(elf: ElfFile) -> bool {
    match (elf.plt_relocs, elf.dyn_symbols, spec_plt_sec_idx(elf)) {
        (Some(relocs), Some(dsyms), Some(p)) => spec_sec_addr(elf.data@, p) + relocs@.len()
            * spec_sec_entsize(elf.data@, p) <= u64::MAX,
        _ => false,
    }
}

/// Address of the `i`-th synthesized entry: slot `0` holds the header stub,
/// so relocation `i` maps to slot `i + 1`.
pub open spec fn spec_plt_addr(addr: int, entsize: int, i: int) -> int {
    addr + (i + 1) * entsize
}

/// Name of the `i`-th synthesized entry: the dynamic symbol's name (empty if
/// the relocation points outside the table) with `@plt` appended.
pub open spec fn spec_plt_name(dsyms: Seq<SymbolEntry>, relocs: Seq<RelaEntry>, i: int) -> Seq<
    u8,
> {
    (if relocs[i].sym < dsyms.len() {
        dsyms[relocs[i].sym as int].name@
    } else {
        Seq::empty()
    }) + ascii_bytes("@plt")
}

/// How many pairs the static symbol table contributes.
pub open spec fn spec_sym_len(elf: ElfFile) -> int {
    match elf.symbols {
        Some(v) => v@.len() as int,
        None => 0,
    }
}

/// How many pairs the synthesized linkage entries contribute.
pub open spec fn spec_plt_len(elf: ElfFile) -> int {
    if spec_plt_active(elf) {
        match elf.plt_relocs {
            Some(r) => r@.len() as int,
            None => 0,
        }
    } else {
        0
    }
}

/// The last pair with the looked-up address, so that later insertions win.
pub open spec fn spec_lookup(entries: Seq<(u64, Vec<u8>)>, a: u64) -> Option<int>
    decreases entries.len(),
{
    if entries.len() == 0 {
        None
    } else if entries.last().0 == a {
        Some(entries.len() - 1)
    } else {
        spec_lookup(entries.drop_last(), a)
    }
}

/// The address-to-name map consulted for call-target annotation.
pub struct MySymbolResolver {
    /// `(address, name)` pairs in insertion order; on a lookup the latest
    /// pair with the address wins.
    pub entries: Vec<(u64, Vec<u8>)>,
}

impl MySymbolResolver {
    /// Build the map: every static symbol in table order, then one
    /// `name@plt` pair per linkage relocation.
    pub fn new(elf: &ElfFile) -> (r: MySymbolResolver)
        requires
            elf.wf(),
        ensures
            r.entries@.len() == spec_sym_len(*elf) + spec_plt_len(*elf),
            elf.symbols matches Some(v) ==> forall|i: int|
                0 <= i < v@.len() ==> (#[trigger] r.entries@[i]).0 == v@[i].value
                    && r.entries@[i].1@ == v@[i].name@,
            spec_plt_active(*elf) ==> (elf.plt_relocs matches Some(relocs)
                && elf.dyn_symbols matches Some(dsyms) && spec_plt_sec_idx(*elf) matches Some(p)
                && forall|i: int|
                0 <= i < relocs@.len() ==> (#[trigger] r.entries@[spec_sym_len(*elf) + i]).0
                    == spec_plt_addr(
                    spec_sec_addr(elf.data@, p),
                    spec_sec_entsize(elf.data@, p),
                    i,
                ) && r.entries@[spec_sym_len(*elf) + i].1@ == spec_plt_name(dsyms@, relocs@, i)),
    {
        let mut entries: Vec<(u64, Vec<u8>)> = Vec::new();
        match &elf.symbols {
            Some(v) => {
                let mut i: usize = 0;
                while i < v.len()
                    invariant
                        i <= v@.len(),
                        entries@.len() == i,
                        forall|k: int|
                            0 <= k < i ==> (#[trigger] entries@[k]).0 == v@[k].value
                                && entries@[k].1@ == v@[k].name@,
                    decreases v@.len() - i,
                {
                    entries.push((v[i].value, clone_bytes(&v[i].name)));
                    i = i + 1;
                }
            },
            None => {},
        }
        let ghost n_sym = spec_sym_len(*elf);
        let plt_name = {
            proof {
                reveal_strlit(".plt");
            }
            str_bytes(".plt")
        };
        match section_by_name(elf, plt_name.as_slice()) {
            Some(p) => {
                match (&elf.plt_relocs, &elf.dyn_symbols) {
                    (Some(relocs), Some(dsyms)) => {
                        let addr = elf.sections[p].addr;
                        let entsize = elf.sections[p].entsize;
                        let count = relocs.len();
                        proof {
                            let c = count as int;
                            let e = entsize as int;
                            assert(c * e <= 0xFFFF_FFFF_FFFF_FFFF * 0xFFFF_FFFF_FFFF_FFFF)
                                by (nonlinear_arith)
                                requires
                                    0 <= c <= 0xFFFF_FFFF_FFFF_FFFF,
                                    0 <= e <= 0xFFFF_FFFF_FFFF_FFFF,
                            ;
                        }
                        let prod: u128 = (count as u128) * (entsize as u128);
                        let fits = (addr as u128) + prod <= (u64::MAX as u128);
                        proof {
                            assert(prod == (count as int) * (entsize as int));
                            assert(fits == spec_plt_active(*elf));
                        }
                        if fits {
                            let suffix = {
                                proof {
                                    reveal_strlit("@plt");
                                }
                                str_bytes("@plt")
                            };
                            let mut i: usize = 0;
                            while i < count
                                invariant
                                    elf.wf(),
                                    spec_plt_active(*elf),
                                    elf.plt_relocs matches Some(rr) && rr@ == relocs@,
                                    elf.dyn_symbols matches Some(dd) && dd@ == dsyms@,
                                    spec_plt_sec_idx(*elf) == Some(p as int),
                                    p < elf.sections@.len(),
                                    addr == spec_sec_addr(elf.data@, p as int),
                                    entsize == spec_sec_entsize(elf.data@, p as int),
                                    count == relocs@.len(),
                                    addr + count * entsize <= u64::MAX,
                                    suffix@ == ascii_bytes("@plt"),
                                    i <= count,
                                    entries@.len() == n_sym + i,
                                    n_sym == spec_sym_len(*elf),
                                    forall|k: int|
                                        0 <= k < n_sym ==> (#[trigger] entries@[k]).0
                                            == spec_entry_addr_at(*elf, k) && entries@[k].1@
                                            == spec_entry_name_at(*elf, k),
                                    forall|k: int|
                                        0 <= k < i ==> (#[trigger] entries@[n_sym + k]).0
                                            == spec_plt_addr(addr as int, entsize as int, k)
                                            && entries@[n_sym + k].1@ == spec_plt_name(
                                            dsyms@,
                                            relocs@,
                                            k,
                                        ),
                                decreases count - i,
                            {
                                proof {
                                    lemma_mul_inequality(i + 1, count as int, entsize as int);
                                    lemma_mul_inequality(0, i + 1, entsize as int);
                                    assert(0 * (entsize as int) == 0) by (nonlinear_arith);
                                }
                                let a: u64 = addr + ((i as u64) + 1) * entsize;
                                let sym_idx = relocs[i].sym as usize;
                                let mut nm: Vec<u8> = if sym_idx < dsyms.len() {
                                    clone_bytes(&dsyms[sym_idx].name)
                                } else {
                                    Vec::new()
                                };
                                let mut sfx = clone_bytes(&suffix);
                                nm.append(&mut sfx);
                                proof {
                                    assert(nm@ == spec_plt_name(dsyms@, relocs@, i as int));
                                }
                                entries.push((a, nm));
                                i = i + 1;
                            }
                        }
                    },
                    _ => {},
                }
            },
            None => {},
        }
        proof {
            if !spec_plt_active(*elf) {
                assert(entries@.len() == spec_sym_len(*elf) + spec_plt_len(*elf));
            }
        }
        MySymbolResolver { entries }
    }

    /// Resolve an address for annotation.  Only call targets are decorated:
    /// for any other instruction the answer is `None`; otherwise the latest
    /// inserted name for the address, if any.
    pub fn resolve(&self, is_call: bool, address: u64) -> (r: Option<Vec<u8>>)
        ensures
            !is_call ==> r is None,
            is_call ==> match spec_lookup(self.entries@, address) {
                Some(i) => r matches Some(v) && v@ == self.entries@[i].1@,
                None => r is None,
            },
    {
        if !is_call {
            return None;
        }
        let ghost full = self.entries@;
        let mut i: usize = self.entries.len();
        proof {
            assert(full.take(full.len() as int) =~= full);
        }
        while i > 0
            invariant
                is_call,
                full == self.entries@,
                i <= self.entries@.len(),
                spec_lookup(full, address) == spec_lookup(full.take(i as int), address),
            decreases i,
        {
            if self.entries[i - 1].0 == address {
                proof {
                    let pre = full.take(i as int);
                    assert(pre.last() == full[i - 1]);
                    assert(spec_lookup(pre, address) == Some(i - 1));
                }
                return Some(clone_bytes(&self.entries[i - 1].1));
            }
            proof {
                let pre = full.take(i as int);
                assert(pre.last() == full[i - 1]);
                assert(pre.drop_last() =~= full.take(i - 1));
                assert(spec_lookup(full.take(i as int), address) == spec_lookup(
                    full.take(i - 1),
                    address,
                ));
            }
            i = i - 1;
        }
        proof {
            assert(full.take(0) =~= Seq::<(u64, Vec<u8>)>::empty());
            assert(spec_lookup(full, address) is None);
        }
        None
    }
}

/// Law: lookups are won by the latest pair for an address.  Since the
/// synthesized linkage pairs are inserted after the static symbols, a
/// linkage entry that collides with a static symbol shadows it; two static
/// symbols at one address are won by the later one in table order.
pub proof fn lemma_lookup_last_wins(entries: Seq<(u64, Vec<u8>)>, a: u64, i: int)
    requires
        0 <= i < entries.len(),
        entries[i].0 == a,
        forall|j: int| i < j < entries.len() ==> (#[trigger] entries[j]).0 != a,
    ensures
        spec_lookup(entries, a) == Some(i),
    decreases entries.len(),
{
    if i == entries.len() - 1 {
    } else {
        assert(entries.last().0 != a);
        lemma_lookup_last_wins(entries.drop_last(), a, i);
    }
}

/// The address the finished map holds at position `k` of the symbol part.
pub open spec fn spec_entry_addr_at(elf: ElfFile, k: int) -> u64 {
    match elf.symbols {
        Some(v) => v@[k].value,
        None => 0,
    }
}

/// The name the finished map holds at position `k` of the symbol part.
pub open spec fn spec_entry_name_at(elf: ElfFile, k: int) -> Seq<u8> {
    match elf.symbols {
        Some(v) => v@[k].name@,
        None => Seq::empty(),
    }
}

} // verus!

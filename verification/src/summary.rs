//! The summary view's data: the file's display fields and the pure
//! formatting helpers behind them.  Gathering the fields (file metadata,
//! hashing, time formatting) happens at the program's edge; this type holds
//! them as plain values.

use vstd::prelude::*;
use vstd::string::*;
use vstd::arithmetic::div_mod::lemma_div_is_ordered_by_denominator;
use crate::numfmt::{dec_min_width, dec_string, spec_dec_digits, spec_dec_min};

verus! {

/// One kibibyte.
pub const KB: u64 = 1024;

/// One mebibyte.
pub const MB: u64 = KB * 1024;

/// One gibibyte.
pub const GB: u64 = MB * 1024;

/// The fields the summary view shows.
pub struct SummaryPage {
    pub file_name: String,
    pub file_size: u64,
    pub file_modified: String,
    pub file_hash: String,
    pub e_machine: u16,
    pub e_type: u16,
    pub e_entry: u64,
    pub compiler_info: Option<String>,
}

/// The display name of a machine type.
pub open spec fn spec_machine_name(m: int) -> Seq<char> {
    if m == 0x3E {
        "x86-64"@
    } else if m == 0x28 {
        "ARM"@
    } else if m == 0xB7 {
        "AArch64"@
    } else if m == 0x02 {
        "SPARC"@
    } else if m == 0x03 {
        "x86"@
    } else if m == 0x08 {
        "MIPS"@
    } else if m == 0x14 {
        "PowerPC"@
    } else if m == 0x15 {
        "PowerPC64"@
    } else if m == 0x32 {
        "IA-64"@
    } else {
        "Unknown"@
    }
}

/// The display name of a file type.
pub open spec fn spec_file_type_name(t: int) -> Seq<char> {
    if t == 1 {
        "Relocatable"@
    } else if t == 2 {
        "Executable"@
    } else if t == 3 {
        "Shared object"@
    } else if t == 4 {
        "Core dump"@
    } else {
        "Unknown"@
    }
}

/// A size scaled by `unit`, in hundredths rounded half up: the whole part,
/// a point, then exactly two fraction digits.
pub open spec fn spec_scaled(size: int, unit: int) -> Seq<char> {
    let h = (size * 200 / unit + 1) / 2;
    spec_dec_digits(h / 100) + "."@ + spec_dec_min(h % 100, 2)
}

/// A byte count for display: scaled to the largest unit it reaches, with
/// two fraction digits, or plain bytes below one kibibyte.
pub open spec fn spec_format_size(size: int) -> Seq<char> {
    if size >= GB {
        spec_scaled(size, GB as int) + " GB"@
    } else if size >= MB {
        spec_scaled(size, MB as int) + " MB"@
    } else if size >= KB {
        spec_scaled(size, KB as int) + " KB"@
    } else {
        spec_dec_digits(size) + " B"@
    }
}

impl SummaryPage {
    /// Collect the summary fields.
    pub fn new(
        file_name: String,
        file_size: u64,
        file_modified: String,
        file_hash: String,
        e_machine: u16,
        e_type: u16,
        e_entry: u64,
        compiler_info: Option<String>,
    ) -> (r: SummaryPage)
        ensures
            r.file_name == file_name,
            r.file_size == file_size,
            r.file_modified == file_modified,
            r.file_hash == file_hash,
            r.e_machine == e_machine,
            r.e_type == e_type,
            r.e_entry == e_entry,
            r.compiler_info == compiler_info,
    {
        SummaryPage {
            file_name,
            file_size,
            file_modified,
            file_hash,
            e_machine,
            e_type,
            e_entry,
            compiler_info,
        }
    }

    /// The architecture name of the image's machine type.
    pub fn get_machine_type(&self) -> (r: &'static str)
        ensures
            r@ == spec_machine_name(self.e_machine as int),
    {
        proof {
            reveal_strlit("x86-64");
            reveal_strlit("ARM");
            reveal_strlit("AArch64");
            reveal_strlit("SPARC");
            reveal_strlit("x86");
            reveal_strlit("MIPS");
            reveal_strlit("PowerPC");
            reveal_strlit("PowerPC64");
            reveal_strlit("IA-64");
            reveal_strlit("Unknown");
        }
        match self.e_machine {
            0x3E => "x86-64",
            0x28 => "ARM",
            0xB7 => "AArch64",
            0x02 => "SPARC",
            0x03 => "x86",
            0x08 => "MIPS",
            0x14 => "PowerPC",
            0x15 => "PowerPC64",
            0x32 => "IA-64",
            _ => "Unknown",
        }
    }

    /// The display name of the image's file type.
    pub fn get_file_type(&self) -> (r: &'static str)
        ensures
            r@ == spec_file_type_name(self.e_type as int),
    {
        proof {
            reveal_strlit("Relocatable");
            reveal_strlit("Executable");
            reveal_strlit("Shared object");
            reveal_strlit("Core dump");
            reveal_strlit("Unknown");
        }
        match self.e_type {
            1 => "Relocatable",
            2 => "Executable",
            3 => "Shared object",
            4 => "Core dump",
            _ => "Unknown",
        }
    }

    /// Render a byte count for display.
    pub fn format_size(size: u64) -> (r: String)
        ensures
            r@ == spec_format_size(size as int),
    {
        if size >= GB {
            let mut s = scaled(size, GB);
            proof {
                reveal_strlit(" GB");
            }
            s.append(" GB");
            s
        } else if size >= MB {
            let mut s = scaled(size, MB);
            proof {
                reveal_strlit(" MB");
            }
            s.append(" MB");
            s
        } else if size >= KB {
            let mut s = scaled(size, KB);
            proof {
                reveal_strlit(" KB");
            }
            s.append(" KB");
            s
        } else {
            let mut s = dec_string(size);
            proof {
                reveal_strlit(" B");
            }
            s.append(" B");
            s
        }
    }
}

/// Render `size / unit` with two fraction digits, rounding half up.
fn scaled(size: u64, unit: u64) -> (r: String)
    requires
        unit >= 1024,
    ensures
        r@ == spec_scaled(size as int, unit as int),
{
    proof {
        let z = size as int;
        assert(z * 200 <= 0xFFFF_FFFF_FFFF_FFFF * 200) by (nonlinear_arith)
            requires
                0 <= z <= 0xFFFF_FFFF_FFFF_FFFF,
        ;
        lemma_div_is_ordered_by_denominator(z * 200, 200, unit as int);
        assert((z * 200) / 200 == z) by (nonlinear_arith);
    }
    let h128: u128 = ((size as u128) * 200 / (unit as u128) + 1) / 2;
    proof {
        assert((size as u128) * 200 == (size as int) * 200) by (nonlinear_arith);
        assert(h128 <= size);
    }
    let h = h128 as u64;
    let mut r = dec_string(h / 100);
    proof {
        reveal_strlit(".");
    }
    r.append(".");
    let frac = dec_min_width(h % 100, 2);
    r.append(frac.as_str());
    r
}

} // verus!

//! Disassembly bookkeeping: the token model of a rendered line, the
//! range-checked plan for decoding a symbol's bytes, and the fixed marker
//! line shown when a requested range falls outside its section.
//!
//! The instruction decoding itself is an external collaborator; this module
//! fixes which bytes it is given and how its token stream is framed.

use vstd::prelude::*;
use vstd::string::*;
use crate::elf::{
    spec_find_name_from, spec_sec_addr, spec_sec_offset, spec_sec_size, ElfFile,
};
use crate::numfmt::{hex_min_width, spec_hex_min};
use crate::reader::section_by_name;
use crate::text::copy_range;

verus! {

/// The highlight class of a piece of instruction text.
#[derive(Clone, Copy, Debug, PartialEq, Eq, Structural)]
pub enum TokenKind {
    Directive,
    Keyword,
    Prefix,
    Mnemonic,
    Register,
    Number,
    Punctuation,
    Other,
}

/// One piece of a rendered line.
pub struct Token {
    pub text: String,
    pub kind: TokenKind,
}

/// One rendered line: a sequence of classified pieces of text.
pub struct DisLine {
    pub tokens: Vec<Token>,
}

/// The text of a line: its tokens' text, concatenated in order.
pub open spec fn spec_line_text(tokens: Seq<Token>) -> Seq<char>
    decreases tokens.len(),
{
    if tokens.len() == 0 {
        Seq::empty()
    } else {
        spec_line_text(tokens.drop_last()) + tokens.last().text@
    }
}

/// Concatenating token sequences concatenates their texts.
pub proof fn lemma_line_text_concat(a: Seq<Token>, b: Seq<Token>)
    ensures
        spec_line_text(a + b) == spec_line_text(a) + spec_line_text(b),
    decreases b.len(),
{
    if b.len() == 0 {
        assert(a + b =~= a);
        assert(spec_line_text(a) + Seq::<char>::empty() =~= spec_line_text(a));
    } else {
        lemma_line_text_concat(a, b.drop_last());
        assert((a + b).drop_last() =~= a + b.drop_last());
        assert((a + b).last() == b.last());
        assert(spec_line_text(a) + spec_line_text(b.drop_last()) + b.last().text@
            =~= spec_line_text(a) + (spec_line_text(b.drop_last()) + b.last().text@));
    }
}

/// The text of the marker line for a range failure: the address is written
/// in upper-case hexadecimal, at least eight digits.
pub open spec fn spec_out_of_range_text(address: int) -> Seq<char> {
    "Symbol out of range: "@ + spec_hex_min(address, 8)
}

/// The single marker line recorded when a range check fails.
pub fn out_of_range_line(address: u64) -> (r: DisLine)
    ensures
        r.tokens@.len() == 1,
        r.tokens@[0].text@ == spec_out_of_range_text(address as int),
        r.tokens@[0].kind == TokenKind::Other,
{
    proof {
        reveal_strlit("Symbol out of range: ");
    }
    let mut text = String::from_str("Symbol out of range: ");
    let hex = hex_min_width(address, 8);
    text.append(hex.as_str());
    let mut tokens: Vec<Token> = Vec::new();
    tokens.push(Token { text, kind: TokenKind::Other });
    DisLine { tokens }
}

/// The pad that precedes every instruction: four spaces, the instruction
/// pointer as sixteen upper-case hexadecimal digits, four spaces.
pub open spec fn spec_ip_prefix(ip: int) -> Seq<char> {
    "    "@ + spec_hex_min(ip, 16) + "    "@
}

/// Frame one decoded instruction as a line: the address pad first, then the
/// formatter's tokens unchanged.  The line's text is the pad followed by the
/// concatenation of the tokens' texts.
pub fn compose_line(ip: u64, tokens: Vec<Token>) -> (r: DisLine)
    ensures
        r.tokens@.len() == tokens@.len() + 1,
        r.tokens@[0].text@ == spec_ip_prefix(ip as int),
        r.tokens@[0].kind == TokenKind::Other,
        forall|i: int| 0 <= i < tokens@.len() ==> r.tokens@[i + 1] == tokens@[i],
        spec_line_text(r.tokens@) == spec_ip_prefix(ip as int) + spec_line_text(tokens@),
{
    proof {
        reveal_strlit("    ");
    }
    let mut text = String::from_str("    ");
    let hex = hex_min_width(ip, 16);
    text.append(hex.as_str());
    text.append("    ");
    let head = Token { text, kind: TokenKind::Other };
    let mut out: Vec<Token> = Vec::new();
    out.push(head);
    let ghost head_seq = out@;
    let mut rest = tokens;
    let ghost rest_seq = rest@;
    out.append(&mut rest);
    proof {
        assert(out@ =~= head_seq + rest_seq);
        lemma_line_text_concat(head_seq, rest_seq);
        assert(spec_line_text(head_seq) == spec_line_text(head_seq.drop_last())
            + head_seq.last().text@);
        assert(head_seq.drop_last() =~= Seq::<Token>::empty());
        assert(Seq::<char>::empty() + head_seq.last().text@ =~= head_seq.last().text@);
    }
    DisLine { tokens: out }
}

/// What the disassembler is asked to do for one symbol.
pub enum DecodePlan {
    /// The range check failed: record this single marker line instead.
    Marker(DisLine),
    /// Decode `bytes` with initial instruction pointer `ip`.
    Code { ip: u64, bytes: Vec<u8> },
}

/// The requested range does not name decodable bytes: the section is absent,
/// the range leaves the section's addresses, or the section's bytes leave
/// the buffer.
pub open spec fn spec_plan_marker(s: Seq<u8>, address: int, size: int, name: Seq<u8>) -> bool {
    match spec_find_name_from(s, name, 0) {
        None => true,
        Some(t) => address < spec_sec_addr(s, t) || address + size > spec_sec_addr(s, t)
            + spec_sec_size(s, t) || spec_sec_offset(s, t) + (address - spec_sec_addr(s, t))
            + size > s.len(),
    }
}

/// File offset of the first requested byte within the buffer.
pub open spec fn spec_code_start(s: Seq<u8>, t: int, address: int) -> int {
    spec_sec_offset(s, t) + (address - spec_sec_addr(s, t))
}

/// Check a symbol's address range against its section and hand back either
/// the marker line or the exact bytes to decode.
pub fn plan_decompile(elf: &ElfFile, address: u64, size: u64, section_name: &[u8]) -> (r:
    DecodePlan)
    requires
        elf.wf(),
    ensures
        match r {
            DecodePlan::Marker(line) => {
                &&& spec_plan_marker(elf.data@, address as int, size as int, section_name@)
                &&& line.tokens@.len() == 1
                &&& line.tokens@[0].text@ == spec_out_of_range_text(address as int)
                &&& line.tokens@[0].kind == TokenKind::Other
            },
            DecodePlan::Code { ip, bytes } => {
                &&& !spec_plan_marker(elf.data@, address as int, size as int, section_name@)
                &&& ip == address
                &&& spec_find_name_from(elf.data@, section_name@, 0) matches Some(t) && bytes@
                    == elf.data@.subrange(
                    spec_code_start(elf.data@, t, address as int),
                    spec_code_start(elf.data@, t, address as int) + size as int,
                )
                &&& bytes@.len() == size
            },
        },
{
    let ghost s = elf.data@;
    let n = elf.data.len();
    let n64 = n as u64;
    match section_by_name(elf, section_name) {
        None => DecodePlan::Marker(out_of_range_line(address)),
        Some(t) => {
            let sec_addr = elf.sections[t].addr;
            let sec_size = elf.sections[t].size;
            let sec_off = elf.sections[t].offset;
            if address < sec_addr {
                return DecodePlan::Marker(out_of_range_line(address));
            }
            let delta = address - sec_addr;
            if delta > sec_size || size > sec_size - delta {
                return DecodePlan::Marker(out_of_range_line(address));
            }
            let tot: u128 = (sec_off as u128) + (delta as u128) + (size as u128);
            if tot > n64 as u128 {
                return DecodePlan::Marker(out_of_range_line(address));
            }
            let start = (sec_off + delta) as usize;
            let bytes = copy_range(&elf.data, start, start + size as usize);
            proof {
                assert(!spec_plan_marker(s, address as int, size as int, section_name@));
            }
            DecodePlan::Code { ip: address, bytes }
        },
    }
}

} // verus!

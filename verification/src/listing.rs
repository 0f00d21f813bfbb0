//! Lines of the disassembly listing and lookups of lines by address.
use crate::blocks::wrap16;
use vstd::prelude::*;

verus! {

/// 6502 operand addressing modes.
#[derive(Clone, Copy, Debug, PartialEq, Eq, Structural)]
pub enum AddressingMode {
    Implied,
    Accumulator,
    Immediate,
    ZeroPage,
    ZeroPageX,
    ZeroPageY,
    Relative,
    Absolute,
    AbsoluteX,
    AbsoluteY,
    Indirect,
    IndirectX,
    IndirectY,
}

/// The part of a decoded instruction that the library reads.
#[derive(Clone, Copy, Debug, PartialEq, Eq, Structural)]
pub struct Opcode {
    pub mode: AddressingMode,
}

/// One line of the listing: an instruction, a data directive, a header or
/// an empty separator. Lines without bytes do not occupy memory.
#[derive(Clone, Debug)]
pub struct DisassemblyLine {
    pub address: u16,
    pub bytes: Vec<u8>,
    pub mnemonic: String,
    pub operand: String,
    pub comment: String,
    pub line_comment: Option<String>,
    pub label: Option<String>,
    pub opcode: Option<Opcode>,
    pub show_bytes: bool,
    pub target_address: Option<u16>,
    pub comment_address: Option<u16>,
    pub is_collapsed: bool,
}

/// A line without bytes (a header, separator or definition line).
pub fn empty_line(mnemonic: String, comment: String, comment_address: Option<u16>) -> (l:
    DisassemblyLine)
    ensures
        l.address == 0,
        l.bytes@.len() == 0,
        l.mnemonic == mnemonic,
        l.operand@.len() == 0,
        l.comment == comment,
        l.line_comment is None,
        l.label is None,
        l.opcode is None,
        l.show_bytes,
        l.target_address is None,
        l.comment_address == comment_address,
        !l.is_collapsed,
{
    DisassemblyLine {
        address: 0,
        bytes: Vec::new(),
        mnemonic,
        operand: String::new(),
        comment,
        line_comment: None,
        label: None,
        opcode: None,
        show_bytes: true,
        target_address: None,
        comment_address,
        is_collapsed: false,
    }
}

/// `r` is the index of the first element of `s` satisfying `p`, or `None`
/// when no element does.
pub open spec fn is_first_match<T>(s: Seq<T>, p: spec_fn(T) -> bool, r: Option<usize>) -> bool {
    match r {
        Some(i) => i < s.len() && p(s[i as int]) && forall|j: int| 0 <= j < i ==> !p(#[trigger] s[j]),
        None => forall|j: int| 0 <= j < s.len() ==> !p(#[trigger] s[j]),
    }
}

/// The line starts at `address` and holds bytes.
pub open spec fn starts_with_bytes(address: u16) -> spec_fn(DisassemblyLine) -> bool {
    |l: DisassemblyLine| l.address == address && l.bytes@.len() > 0
}

/// The line starts at `address`.
pub open spec fn starts_at(address: u16) -> spec_fn(DisassemblyLine) -> bool {
    |l: DisassemblyLine| l.address == address
}

/// The line starts at or after `address`.
pub open spec fn starts_at_or_after(address: u16) -> spec_fn(DisassemblyLine) -> bool {
    |l: DisassemblyLine| l.address >= address
}

/// The line covers `address`: a line without bytes covers only its own
/// address; otherwise the (16-bit, wrapping) range of its bytes.
pub open spec fn line_covers(l: DisassemblyLine, address: u16) -> bool {
    let len = wrap16(l.bytes@.len() as int);
    let start = l.address as int;
    let end = wrap16(start + len);
    if len == 0 {
        start == address
    } else if start < end {
        start <= address < end
    } else {
        address >= start || address < end
    }
}

/// The line covers `address`, as a predicate on lines.
pub open spec fn covers_address(address: u16) -> spec_fn(DisassemblyLine) -> bool {
    |l: DisassemblyLine| line_covers(l, address)
}

fn first_line_where_address(lines: &Vec<DisassemblyLine>, address: u16, need_bytes: bool) -> (r:
    Option<usize>)
    ensures
        need_bytes ==> is_first_match(lines@, starts_with_bytes(address), r),
        !need_bytes ==> is_first_match(lines@, starts_at(address), r),
{
    let mut i: usize = 0;
    while i < lines.len()
        invariant
            i <= lines@.len(),
            need_bytes ==> forall|j: int| 0 <= j < i ==> !starts_with_bytes(address)(#[trigger] lines@[j]),
            !need_bytes ==> forall|j: int| 0 <= j < i ==> !starts_at(address)(#[trigger] lines@[j]),
        decreases lines@.len() - i,
    {
        if lines[i].address == address && (!need_bytes || lines[i].bytes.len() > 0) {
            return Some(i);
        }
        i = i + 1;
    }
    None
}

fn first_line_at_or_after(lines: &Vec<DisassemblyLine>, address: u16) -> (r: Option<usize>)
    ensures
        is_first_match(lines@, starts_at_or_after(address), r),
{
    let mut i: usize = 0;
    while i < lines.len()
        invariant
            i <= lines@.len(),
            forall|j: int| 0 <= j < i ==> !starts_at_or_after(address)(#[trigger] lines@[j]),
        decreases lines@.len() - i,
    {
        if lines[i].address >= address {
            return Some(i);
        }
        i = i + 1;
    }
    None
}

/// Index of the line to show for `address`: the first line at the address
/// that holds bytes; else the first line at the address; else the first line
/// at a higher address.
pub open spec fn line_for_address_spec(lines: Seq<DisassemblyLine>, address: u16, r: Option<usize>) -> bool {
    if exists|j: int| 0 <= j < lines.len() && #[trigger] starts_with_bytes(address)(lines[j]) {
        is_first_match(lines, starts_with_bytes(address), r)
    } else if exists|j: int| 0 <= j < lines.len() && #[trigger] starts_at(address)(lines[j]) {
        is_first_match(lines, starts_at(address), r)
    } else {
        is_first_match(lines, starts_at_or_after(address), r)
    }
}

/// Index of the line to show for `address` (see `line_for_address_spec`).
pub fn line_index_for_address(lines: &Vec<DisassemblyLine>, address: u16) -> (r: Option<usize>)
    ensures
        line_for_address_spec(lines@, address, r),
{
    if let Some(idx) = first_line_where_address(lines, address, true) {
        return Some(idx);
    }
    if let Some(idx) = first_line_where_address(lines, address, false) {
        return Some(idx);
    }
    first_line_at_or_after(lines, address)
}

/// Index of the first line that covers `address`.
pub fn line_index_containing_address(lines: &Vec<DisassemblyLine>, address: u16) -> (r: Option<
    usize,
>)
    ensures
        is_first_match(lines@, covers_address(address), r),
{
    let mut i: usize = 0;
    while i < lines.len()
        invariant
            i <= lines@.len(),
            forall|j: int| 0 <= j < i ==> !covers_address(address)(#[trigger] lines@[j]),
        decreases lines@.len() - i,
    {
        let line = &lines[i];
        let start = line.address;
        let len = line.bytes.len() as u16;
        proof {
            crate::blocks::lemma_trunc16(line.bytes@.len() as usize);
        }
        let hit = if len == 0 {
            start == address
        } else {
            let end = start.wrapping_add(len);
            if start < end {
                address >= start && address < end
            } else {
                address >= start || address < end
            }
        };
        if hit {
            return Some(i);
        }
        i = i + 1;
    }
    None
}

} // verus!

//! Decoding of ELF section-header tables.
//!
//! A table comes in one of two wire layouts, with 40-byte or 64-byte
//! entries, selected once at construction by the declared entry size; any
//! other size is a construction-time error.  Iteration yields every section
//! except those of the unused type, which are skipped while still consuming
//! their stride.  Narrow 32-bit fields are widened to the 64-bit accessor
//! type without sign extension.

use crate::information::string_from_utf8;
use crate::wire::{le32_at, le64_at, read_u32, read_u64};
use vstd::prelude::*;
use vstd::utf8::{decode_utf8, valid_utf8};

verus! {

/// A single decoded ELF section header.
#[derive(Debug, Copy, Clone)]
pub struct ElfSection {
    pub name_index: u32,
    pub typ: u32,
    pub flags: u64,
    pub addr: u64,
    pub size: u64,
    pub addralign: u64,
}

/// An abstraction over the raw ELF section types.
#[derive(Debug, Copy, Clone, PartialEq, Eq, Structural)]
pub enum ElfSectionType {
    /// The section header is inactive and has no associated section; its
    /// other members have undefined values.
    Unused,
    /// The section holds information defined by the program.
    ProgramSection,
    /// The section holds a linker symbol table.
    LinkerSymbolTable,
    /// The section holds a string table.
    StringTable,
    /// The section holds relocation entries with explicit addends.
    RelaRelocation,
    /// The section holds a symbol hash table.
    SymbolHashTable,
    /// The section holds dynamic linking tables.
    DynamicLinkingTable,
    /// The section holds information that marks the file in some way.
    Note,
    /// The section occupies no space in the file but otherwise resembles a
    /// program section.
    Uninitialized,
    /// The section holds relocation entries without explicit addends.
    RelRelocation,
    /// Reserved with unspecified semantics.
    Reserved,
    /// The section holds a dynamic loader symbol table.
    DynamicLoaderSymbolTable,
    /// Type values reserved for environment-specific semantics.
    EnvironmentSpecific,
    /// Type values reserved for processor-specific semantics.
    ProcessorSpecific,
}

/// The section type a raw type word decodes to: the twelve fixed values,
/// the two reserved ranges, and `None` outside all known ranges.
pub open spec fn spec_section_type(typ: u32) -> Option<ElfSectionType> {
    if typ == 0 {
        Some(ElfSectionType::Unused)
    } else if typ == 1 {
        Some(ElfSectionType::ProgramSection)
    } else if typ == 2 {
        Some(ElfSectionType::LinkerSymbolTable)
    } else if typ == 3 {
        Some(ElfSectionType::StringTable)
    } else if typ == 4 {
        Some(ElfSectionType::RelaRelocation)
    } else if typ == 5 {
        Some(ElfSectionType::SymbolHashTable)
    } else if typ == 6 {
        Some(ElfSectionType::DynamicLinkingTable)
    } else if typ == 7 {
        Some(ElfSectionType::Note)
    } else if typ == 8 {
        Some(ElfSectionType::Uninitialized)
    } else if typ == 9 {
        Some(ElfSectionType::RelRelocation)
    } else if typ == 10 {
        Some(ElfSectionType::Reserved)
    } else if typ == 11 {
        Some(ElfSectionType::DynamicLoaderSymbolTable)
    } else if 0x6000_0000 <= typ && typ <= 0x6FFF_FFFF {
        Some(ElfSectionType::EnvironmentSpecific)
    } else if 0x7000_0000 <= typ && typ <= 0x7FFF_FFFF {
        Some(ElfSectionType::ProcessorSpecific)
    } else {
        None
    }
}

/// ELF section flags, truncated to the bits this crate knows.
#[derive(Debug, Copy, Clone, PartialEq, Eq, Structural)]
pub struct ElfSectionFlags {
    pub bits: u64,
}

impl ElfSectionFlags {
    /// The section contains data that should be writable during program
    /// execution.
    pub const WRITABLE: u64 = 0x1;

    /// The section occupies memory during process execution.
    pub const ALLOCATED: u64 = 0x2;

    /// The section contains executable machine instructions.
    pub const EXECUTABLE: u64 = 0x4;

    /// Keep only the three known flag bits of a raw flags word.
    pub fn from_bits_truncate(bits: u64) -> (r: Self)
        ensures
            r.bits == bits & 0x7,
    {
        ElfSectionFlags { bits: bits & 0x7 }
    }

    /// Whether every bit of `mask` is set.
    pub fn contains(&self, mask: u64) -> (r: bool)
        ensures
            r == (self.bits & mask == mask),
    {
        self.bits & mask == mask
    }
}

/// The section header stored at byte offset `off`, under the given entry
/// size.  In the 40-byte layout the flags, address, size and alignment
/// fields are 32 bits wide and widen to 64 bits without sign extension; in
/// the 64-byte layout they are stored as 64 bits.
pub open spec fn spec_parse_section(data: Seq<u8>, off: int, entry_size: u32) -> ElfSection {
    if entry_size == 40 {
        ElfSection {
            name_index: le32_at(data, off),
            typ: le32_at(data, off + 4),
            flags: le32_at(data, off + 8) as u64,
            addr: le32_at(data, off + 12) as u64,
            size: le32_at(data, off + 20) as u64,
            addralign: le32_at(data, off + 32) as u64,
        }
    } else {
        ElfSection {
            name_index: le32_at(data, off),
            typ: le32_at(data, off + 4),
            flags: le64_at(data, off + 8),
            addr: le64_at(data, off + 16),
            size: le64_at(data, off + 32),
            addralign: le64_at(data, off + 48),
        }
    }
}

/// The first section index at or after `i` whose entry is not of the unused
/// type; `count` when every remaining entry is unused.
pub open spec fn spec_next_live(data: Seq<u8>, entry_size: u32, i: int, count: int) -> int
    decreases count - i,
{
    if i < 0 || i >= count {
        count
    } else if spec_parse_section(data, i * entry_size, entry_size).typ != 0 {
        i
    } else {
        spec_next_live(data, entry_size, i + 1, count)
    }
}

/// Whichever index the skip rule selects within the table, the section
/// there is never of the unused type: iteration, for either entry stride,
/// never yields an unused section.
pub proof fn lemma_skips_unused(data: Seq<u8>, entry_size: u32, i: int, count: int)
    requires
        spec_next_live(data, entry_size, i, count) < count,
    ensures
        spec_parse_section(
            data,
            spec_next_live(data, entry_size, i, count) * entry_size,
            entry_size,
        ).typ != 0,
    decreases count - i,
{
    if 0 <= i < count && spec_parse_section(data, i * entry_size, entry_size).typ == 0 {
        lemma_skips_unused(data, entry_size, i + 1, count);
    }
}

/// The NUL-terminated byte string at offset `i` of a string table; `None`
/// when no NUL follows within the table.
pub open spec fn spec_table_cstr(table: Seq<u8>, i: int) -> Option<Seq<u8>>
    decreases table.len() - i,
{
    if !(0 <= i < table.len()) {
        None
    } else if table[i] == 0 {
        Some(Seq::empty())
    } else {
        match spec_table_cstr(table, i + 1) {
            None => None,
            Some(rest) => Some(seq![table[i]] + rest),
        }
    }
}

/// The name a string-table offset resolves to: the NUL-terminated bytes
/// there, decoded as UTF-8.  `None` for an out-of-table offset, a missing
/// terminator, or bytes that are not valid UTF-8.
pub open spec fn spec_section_name(table: Seq<u8>, i: int) -> Option<Seq<char>> {
    match spec_table_cstr(table, i) {
        None => None,
        Some(b) => if valid_utf8(b) {
            Some(decode_utf8(b))
        } else {
            None
        },
    }
}

/// Prepend `pre` to the payload of `r`, if any.
spec fn prepend_bytes(pre: Seq<u8>, r: Option<Seq<u8>>) -> Option<Seq<u8>> {
    match r {
        None => None,
        Some(s) => Some(pre + s),
    }
}

impl ElfSection {
    /// The section type, or `None` for a raw value outside all known
    /// ranges, which a caller should treat as a decode error.
    pub fn section_type(&self) -> (r: Option<ElfSectionType>)
        ensures
            r == spec_section_type(self.typ),
    {
        match self.typ {
            0 => Some(ElfSectionType::Unused),
            1 => Some(ElfSectionType::ProgramSection),
            2 => Some(ElfSectionType::LinkerSymbolTable),
            3 => Some(ElfSectionType::StringTable),
            4 => Some(ElfSectionType::RelaRelocation),
            5 => Some(ElfSectionType::SymbolHashTable),
            6 => Some(ElfSectionType::DynamicLinkingTable),
            7 => Some(ElfSectionType::Note),
            8 => Some(ElfSectionType::Uninitialized),
            9 => Some(ElfSectionType::RelRelocation),
            10 => Some(ElfSectionType::Reserved),
            11 => Some(ElfSectionType::DynamicLoaderSymbolTable),
            0x6000_0000..=0x6FFF_FFFF => Some(ElfSectionType::EnvironmentSpecific),
            0x7000_0000..=0x7FFF_FFFF => Some(ElfSectionType::ProcessorSpecific),
            _ => None,
        }
    }

    /// The raw section type word.
    pub fn section_type_raw(&self) -> (r: u32)
        ensures
            r == self.typ,
    {
        self.typ
    }

    /// Resolve the section's name: the NUL-terminated string its name index
    /// points at within the given string table.  Out-of-table indices,
    /// missing terminators and invalid encodings are decode errors and
    /// yield `None`.
    pub fn name(&self, string_table: &[u8]) -> (r: Option<String>)
        ensures
            match r {
                Some(s) => spec_section_name(string_table@, self.name_index as int) == Some(s@),
                None => spec_section_name(string_table@, self.name_index as int) is None,
            },
    {
        let n: usize = string_table.len();
        let start = self.name_index as usize;
        let mut acc: Vec<u8> = Vec::new();
        let mut j = start;
        proof {
            if spec_table_cstr(string_table@, start as int) is Some {
                assert(Seq::<u8>::empty() + spec_table_cstr(string_table@, start as int)->0
                    =~= spec_table_cstr(string_table@, start as int)->0);
            }
        }
        loop
            invariant
                start == self.name_index as usize,
                start <= j,
                n == string_table@.len(),
                prepend_bytes(acc@, spec_table_cstr(string_table@, j as int)) == spec_table_cstr(
                    string_table@,
                    start as int,
                ),
            decreases n - j,
        {
            if j >= n {
                return None;
            }
            let byte = string_table[j];
            if byte == 0 {
                proof {
                    assert(acc@ + Seq::<u8>::empty() =~= acc@);
                }
                return string_from_utf8(acc);
            }
            proof {
                let rest = spec_table_cstr(string_table@, j as int + 1);
                if rest is Some {
                    assert(acc@ + (seq![string_table@[j as int]] + rest->0) =~= acc@.push(byte)
                        + rest->0);
                }
            }
            acc.push(byte);
            j = j + 1;
        }
    }

    /// The physical start address of the section.
    pub fn start_address(&self) -> (r: u64)
        ensures
            r == self.addr,
    {
        self.addr
    }

    /// The physical end address of the section: its start address plus its
    /// size.
    pub fn end_address(&self) -> (r: u64)
        requires
            self.addr + self.size <= u64::MAX,
        ensures
            r == self.addr + self.size,
    {
        self.addr + self.size
    }

    /// The section's size in bytes.
    pub fn size(&self) -> (r: u64)
        ensures
            r == self.size,
    {
        self.size
    }

    /// The section's address alignment constraint: the start address must
    /// be congruent to 0 modulo this value.  The values 0 and 1 both mean
    /// the section has no alignment constraint.
    pub fn addralign(&self) -> (r: u64)
        ensures
            r == self.addralign,
    {
        self.addralign
    }

    /// The section's known flags, with bits outside the known set dropped.
    pub fn flags(&self) -> (r: ElfSectionFlags)
        ensures
            r.bits == self.flags & 0x7,
    {
        ElfSectionFlags::from_bits_truncate(self.flags)
    }

    /// Whether the allocated flag is set: the section occupies memory
    /// during process execution.
    pub fn is_allocated(&self) -> (r: bool)
        ensures
            r == (self.flags & 0x2 == 0x2),
    {
        self.flags & 0x2 == 0x2
    }
}

/// Iterator over the live sections of a section-header table.  Sections of
/// the unused type are skipped, never yielded, though each still consumes
/// its stride.
pub struct ElfSectionIter {
    sections: Vec<u8>,
    string_table: Vec<u8>,
    entry_size: u32,
    index: u32,
    count: u32,
}

impl ElfSectionIter {
    /// The raw bytes of the section-header table.
    pub closed spec fn sections(&self) -> Seq<u8> {
        self.sections@
    }

    /// The raw bytes of the associated string-table section's contents.
    pub closed spec fn table(&self) -> Seq<u8> {
        self.string_table@
    }

    /// The per-entry stride.
    pub closed spec fn stride(&self) -> u32 {
        self.entry_size
    }

    /// The index of the next entry to look at.
    pub closed spec fn idx(&self) -> int {
        self.index as int
    }

    /// The total number of entries.
    pub closed spec fn total(&self) -> int {
        self.count as int
    }

    /// The stride is one of the two wire layouts' and the buffer holds
    /// every declared entry.
    pub closed spec fn wf(&self) -> bool {
        &&& (self.entry_size == 40 || self.entry_size == 64)
        &&& self.count * self.entry_size <= self.sections@.len()
        &&& self.index <= self.count
    }

    /// Build an iterator over a section-header table: the table's raw
    /// bytes, the number of entries, the per-entry stride, and the contents
    /// of the string-table section that names resolve against.  Fails when
    /// the stride is neither of the two wire layouts' or the buffer is too
    /// short for the declared entries.
    pub fn new(
        sections: Vec<u8>,
        num_sections: u32,
        entry_size: u32,
        string_table: Vec<u8>,
    ) -> (r: Option<ElfSectionIter>)
        ensures
            match r {
                Some(it) => {
                    &&& (entry_size == 40 || entry_size == 64)
                    &&& num_sections * entry_size <= sections@.len()
                    &&& it.wf()
                    &&& it.sections() == sections@
                    &&& it.table() == string_table@
                    &&& it.stride() == entry_size
                    &&& it.idx() == 0
                    &&& it.total() == num_sections
                },
                None => !(entry_size == 40 || entry_size == 64) || num_sections * entry_size
                    > sections@.len(),
            },
    {
        if entry_size != 40 && entry_size != 64 {
            return None;
        }
        let n: usize = sections.len();
        if num_sections as u64 * entry_size as u64 > n as u64 {
            return None;
        }
        Some(ElfSectionIter { sections, string_table, entry_size, index: 0, count: num_sections })
    }

    /// The contents of the string-table section, for resolving names of the
    /// yielded sections.
    pub fn string_table(&self) -> (r: &[u8])
        ensures
            r@ == self.table(),
    {
        self.string_table.as_slice()
    }

    /// Yield the next section that is not of the unused type, skipping
    /// unused entries while still consuming their stride; `None` once every
    /// remaining entry is unused or consumed.
    pub fn next(&mut self) -> (r: Option<ElfSection>)
        requires
            old(self).wf(),
        ensures
            final(self).wf(),
            final(self).sections() == old(self).sections(),
            final(self).table() == old(self).table(),
            final(self).stride() == old(self).stride(),
            final(self).total() == old(self).total(),
            ({
                let live = spec_next_live(
                    old(self).sections(),
                    old(self).stride(),
                    old(self).idx(),
                    old(self).total(),
                );
                if live < old(self).total() {
                    &&& r == Some(
                        spec_parse_section(
                            old(self).sections(),
                            live * old(self).stride(),
                            old(self).stride(),
                        ),
                    )
                    &&& final(self).idx() == live + 1
                } else {
                    &&& r is None
                    &&& final(self).idx() == old(self).total()
                }
            }),
            r matches Some(s) ==> s.typ != 0,
    {
        while self.index < self.count
            invariant
                self.wf(),
                old(self).wf(),
                self.sections@ == old(self).sections(),
                self.entry_size == old(self).stride(),
                self.count as int == old(self).total(),
                old(self).idx() <= self.index as int,
                self.string_table@ == old(self).table(),
                spec_next_live(
                    self.sections@,
                    self.entry_size,
                    old(self).idx(),
                    self.count as int,
                ) == spec_next_live(
                    self.sections@,
                    self.entry_size,
                    self.index as int,
                    self.count as int,
                ),
            decreases self.count - self.index,
        {
            let i = self.index as usize;
            let stride = self.entry_size as usize;
            let total_len: usize = self.sections.len();
            proof {
                let ii = i as int;
                let ss = stride as int;
                let cc = self.count as int;
                assert(ii * ss + ss == (ii + 1) * ss) by (nonlinear_arith);
                assert((ii + 1) * ss <= cc * ss) by (nonlinear_arith)
                    requires
                        ii + 1 <= cc,
                        ss >= 0,
                ;
                assert(cc * ss <= total_len);
            }
            let off = i * stride;
            let section = if stride == 40 {
                ElfSection {
                    name_index: read_u32(self.sections.as_slice(), off),
                    typ: read_u32(self.sections.as_slice(), off + 4),
                    flags: read_u32(self.sections.as_slice(), off + 8) as u64,
                    addr: read_u32(self.sections.as_slice(), off + 12) as u64,
                    size: read_u32(self.sections.as_slice(), off + 20) as u64,
                    addralign: read_u32(self.sections.as_slice(), off + 32) as u64,
                }
            } else {
                ElfSection {
                    name_index: read_u32(self.sections.as_slice(), off),
                    typ: read_u32(self.sections.as_slice(), off + 4),
                    flags: read_u64(self.sections.as_slice(), off + 8),
                    addr: read_u64(self.sections.as_slice(), off + 16),
                    size: read_u64(self.sections.as_slice(), off + 32),
                    addralign: read_u64(self.sections.as_slice(), off + 48),
                }
            };
            self.index = self.index + 1;
            if section.typ != 0 {
                return Some(section);
            }
        }
        None
    }
}

} // verus!

//! Decoding and publishing of the dynamic Multiboot information record.
//!
//! The record is a fixed 120-byte block whose leading flags word gates
//! thirteen optional sub-records.  Pointer fields hold physical addresses
//! that must be translated through a caller-supplied [`MemoryManagement`]
//! capability before they are dereferenced.

use crate::wire::{
    le16_at, le32_at, le64_at, read_u16, read_u32, read_u64, round_up_page, set_flag_value,
    spec_flag, spec_round_up_page, update_flag,
};
use vstd::arithmetic::mul::lemma_mul_upper_bound;
use vstd::bytes::{
    lemma_auto_spec_u16_to_from_le_bytes, lemma_auto_spec_u32_to_from_le_bytes,
    spec_u16_from_le_bytes, spec_u16_to_le_bytes, spec_u32_from_le_bytes, spec_u32_to_le_bytes,
    u16_from_le_bytes, u16_to_le_bytes, u32_from_le_bytes, u32_to_le_bytes,
};
use vstd::prelude::*;
use vstd::slice::slice_index_get;
use vstd::string::{StrSliceExecFns, StringSliceAdditionalSpecFns};
use vstd::utf8::{decode_utf8, encode_utf8, valid_utf8};

verus! {

/// Value found in the accumulator register after a Multiboot bootloader
/// jumps to the kernel entry point.
pub const SIGNATURE_EAX: u32 = 0x2BADB002;

/// A physical address.
pub type PAddr = u64;

/// Size in bytes of the information record.
pub const INFO_SIZE: usize = 120;

/// Whether `mem` holds exactly `bytes` starting at address `addr`.
pub open spec fn mem_has_range(mem: Map<u64, u8>, addr: int, bytes: Seq<u8>) -> bool {
    &&& 0 <= addr
    &&& addr + bytes.len() <= 0x1_0000_0000_0000_0000
    &&& forall|i: int|
        0 <= i < bytes.len() ==> mem.contains_key(#[trigger] ((addr + i) as u64)) && mem[(addr
            + i) as u64] == bytes[i]
}

/// `mem` with `bytes` written at address `addr`; all other addresses keep
/// their contents.
pub open spec fn mem_written(mem: Map<u64, u8>, addr: u64, bytes: Seq<u8>) -> Map<u64, u8> {
    mem.union_prefer_right(
        Map::new(|k: u64| addr <= k < addr + bytes.len(), |k: u64| bytes[k - addr]),
    )
}

/// The `len` bytes of `mem` starting at address `addr` (unmapped addresses
/// read as zero).
pub open spec fn mem_range(mem: Map<u64, u8>, addr: int, len: nat) -> Seq<u8> {
    Seq::new(
        len,
        |i: int|
            if mem.contains_key((addr + i) as u64) {
                mem[(addr + i) as u64]
            } else {
                0
            },
    )
}

/// Whether the `len` addresses starting at `addr` are all mapped in `mem`.
pub open spec fn mem_maps_range(mem: Map<u64, u8>, addr: int, len: nat) -> bool {
    &&& 0 <= addr
    &&& addr + len <= 0x1_0000_0000_0000_0000
    &&& forall|i: int| 0 <= i < len ==> mem.contains_key(#[trigger] ((addr + i) as u64))
}

/// Writing a range makes it read back as the written bytes.
pub proof fn lemma_written_range(mem: Map<u64, u8>, addr: u64, bytes: Seq<u8>)
    requires
        addr + bytes.len() <= 0x1_0000_0000_0000_0000,
    ensures
        mem_has_range(mem_written(mem, addr, bytes), addr as int, bytes),
{
    let w = mem_written(mem, addr, bytes);
    assert forall|i: int| 0 <= i < bytes.len() implies w.contains_key((addr + i) as u64) && w[(addr
        + i) as u64] == bytes[i] by {
        let k = (addr + i) as u64;
        assert(addr <= k < addr + bytes.len());
    }
}

/// Writing a fresh range does not disturb an established one.
pub proof fn lemma_written_preserves_range(
    mem: Map<u64, u8>,
    waddr: u64,
    wbytes: Seq<u8>,
    raddr: int,
    rbytes: Seq<u8>,
)
    requires
        mem_has_range(mem, raddr, rbytes),
        forall|k: u64| waddr <= k < waddr + wbytes.len() ==> !mem.contains_key(k),
    ensures
        mem_has_range(mem_written(mem, waddr, wbytes), raddr, rbytes),
{
    let w = mem_written(mem, waddr, wbytes);
    assert forall|i: int| 0 <= i < rbytes.len() implies w.contains_key((raddr + i) as u64) && w[(
    raddr + i) as u64] == rbytes[i] by {
        assert(mem.contains_key((raddr + i) as u64) && mem[(raddr + i) as u64] == rbytes[i]);
        let k = (raddr + i) as u64;
        assert(!(waddr <= k < waddr + wbytes.len()));
    }
}

/// Address translation, allocation and deallocation for the physical memory
/// the information record points into.
///
/// Implemented by the embedding system; the decoders consume it and never
/// manage physical memory themselves.  `mem` is the abstract contents of the
/// live memory the implementation mediates: translation, where it succeeds,
/// returns exactly those bytes, and allocation hands out fresh ranges and
/// fills them.
pub trait MemoryManagement {
    /// The byte contents of the live physical memory this manager mediates.
    spec fn mem(&self) -> Map<u64, u8>;

    /// Translate the physical range `addr..addr + length` into a copy of the
    /// bytes stored there, or `None` when the range is not available.
    ///
    /// An implementation that is only used to set fields may always return
    /// `None`.
    fn paddr_to_slice(&self, addr: PAddr, length: usize) -> (r: Option<Vec<u8>>)
        requires
            addr + length <= 0x1_0000_0000_0000_0000,
        ensures
            r matches Some(bytes) ==> bytes@.len() == length && mem_has_range(
                self.mem(),
                addr as int,
                bytes@,
            ),
    ;

    /// Allocate `contents.len()` bytes, write `contents` into them, and
    /// return their physical address; `None` when allocation is not
    /// supported or space is exhausted.
    ///
    /// A successful allocation is never at address zero and lies below
    /// 4 GiB, since the record's pointer fields are 32 bits wide.  The range
    /// is fresh, that is, it was not part of the live memory before the
    /// call; afterwards it reads back as `contents` and every other address
    /// keeps its contents.
    ///
    /// An implementation that is only used to read fields may always return
    /// `None`.
    fn allocate(&mut self, contents: Vec<u8>) -> (r: Option<PAddr>)
        ensures
            r matches Some(addr) ==> {
                &&& 0 < addr
                &&& addr + contents@.len() <= 0x1_0000_0000
                &&& (forall|k: u64|
                    addr <= k < addr + contents@.len() ==> !old(self).mem().contains_key(k))
                &&& final(self).mem() == mem_written(old(self).mem(), addr, contents@)
            },
            r is None ==> final(self).mem() == old(self).mem(),
    ;

    /// Free memory previously handed out by `allocate`.  Must accept a zero
    /// address and do nothing for it.  Frees may drop addresses from the
    /// live memory but never change the contents of others.
    fn deallocate(&mut self, addr: PAddr)
        ensures
            final(self).mem().submap_of(old(self).mem()),
    ;
}

/// The four bytes of the boot-device field.
///
/// Partition numbers start from zero, and unused partition bytes hold 0xFF.
/// With a one-level DOS partitioning scheme, `partition1` holds the DOS
/// partition number and `partition2` and `partition3` are both 0xFF; with
/// BSD sub-partitions, `partition2` holds the sub-partition within the DOS
/// partition named by `partition1`.
#[derive(Debug, Copy, Clone)]
pub struct BootDevice {
    /// The BIOS drive number as understood by the BIOS low-level disk
    /// interface: for example 0x00 for the first floppy disk or 0x80 for
    /// the first hard disk.
    pub drive: u8,
    /// The top-level partition number.
    pub partition1: u8,
    /// A sub-partition in the top-level partition.
    pub partition2: u8,
    /// A sub-partition in the second-level partition.
    pub partition3: u8,
}

impl BootDevice {
    /// Is `partition1` a valid partition?  A partition byte is valid exactly
    /// when it is not 0xFF, whatever the drive byte holds.
    pub fn partition1_is_valid(&self) -> (r: bool)
        ensures
            r == (self.partition1 != 0xff),
    {
        self.partition1 != 0xff
    }

    /// Is `partition2` a valid partition?
    pub fn partition2_is_valid(&self) -> (r: bool)
        ensures
            r == (self.partition2 != 0xff),
    {
        self.partition2 != 0xff
    }

    /// Is `partition3` a valid partition?
    pub fn partition3_is_valid(&self) -> (r: bool)
        ensures
            r == (self.partition3 != 0xff),
    {
        self.partition3 != 0xff
    }
}

impl Default for BootDevice {
    /// The all-unused boot device: every byte 0xFF.
    fn default() -> (r: Self)
        ensures
            r.drive == 0xff && r.partition1 == 0xff && r.partition2 == 0xff && r.partition3
                == 0xff,
    {
        Self { drive: 0xff, partition1: 0xff, partition2: 0xff, partition3: 0xff }
    }
}

/// The four words of the symbol field, kept raw; flag bits 4 and 5 select
/// their interpretation as a.out or ELF symbol information.
#[derive(Debug, Copy, Clone)]
pub struct Symbols {
    pub w0: u32,
    pub w1: u32,
    pub w2: u32,
    pub w3: u32,
}

/// The six bytes of the framebuffer color-information union, kept raw; the
/// adjoining type tag selects their interpretation.
#[derive(Debug, Copy, Clone, PartialEq, Eq, Structural)]
pub struct ColorInfoBytes {
    pub b0: u8,
    pub b1: u8,
    pub b2: u8,
    pub b3: u8,
    pub b4: u8,
    pub b5: u8,
}

/// The framebuffer sub-record.
///
/// `ty` tags the interpretation of the color-information bytes: 0 indexed
/// palette, 1 direct RGB, 2 text.
#[derive(Debug, Copy, Clone)]
pub struct FramebufferTable {
    pub addr: u64,
    pub pitch: u32,
    pub width: u32,
    pub height: u32,
    pub bpp: u8,
    pub ty: u8,
    pub color: ColorInfoBytes,
}

/// The decoded 120-byte Multiboot information record.
///
/// Byte layout (fields little-endian): offset 0 flags; 4 mem_lower;
/// 8 mem_upper; 12 boot_device (4 bytes); 16 cmdline; 20 mods_count;
/// 24 mods_addr; 28..44 the symbol words; 44 mmap_length; 48 mmap_addr;
/// 52 drives_length; 56 drives_addr; 60 config_table; 64 boot_loader_name;
/// 68 apm_table; 72..88 the VBE fields; 88 framebuffer address (8 bytes);
/// 96 pitch; 100 width; 104 height; 108 bpp; 109 framebuffer type;
/// 112..118 color information.
#[derive(Debug, Copy, Clone)]
pub struct MultibootInfo {
    pub flags: u32,
    pub mem_lower: u32,
    pub mem_upper: u32,
    pub boot_device: BootDevice,
    pub cmdline: u32,
    pub mods_count: u32,
    pub mods_addr: u32,
    pub syms: Symbols,
    pub mmap_length: u32,
    pub mmap_addr: u32,
    pub drives_length: u32,
    pub drives_addr: u32,
    pub config_table: u32,
    pub boot_loader_name: u32,
    pub apm_table: u32,
    pub vbe_control_info: u32,
    pub vbe_mode_info: u32,
    pub vbe_mode: u16,
    pub vbe_interface_seg: u16,
    pub vbe_interface_off: u16,
    pub vbe_interface_len: u16,
    pub framebuffer_table: FramebufferTable,
}

impl Default for MultibootInfo {
    /// An empty record: every flag clear, every field zero, and the boot
    /// device marked unused.
    fn default() -> (r: Self)
        ensures
            r == spec_default_info(),
    {
        MultibootInfo {
            flags: 0,
            mem_lower: 0,
            mem_upper: 0,
            boot_device: BootDevice { drive: 0xff, partition1: 0xff, partition2: 0xff, partition3: 0xff },
            cmdline: 0,
            mods_count: 0,
            mods_addr: 0,
            syms: Symbols { w0: 0, w1: 0, w2: 0, w3: 0 },
            mmap_length: 0,
            mmap_addr: 0,
            drives_length: 0,
            drives_addr: 0,
            config_table: 0,
            boot_loader_name: 0,
            apm_table: 0,
            vbe_control_info: 0,
            vbe_mode_info: 0,
            vbe_mode: 0,
            vbe_interface_seg: 0,
            vbe_interface_off: 0,
            vbe_interface_len: 0,
            framebuffer_table: FramebufferTable {
                addr: 0,
                pitch: 0,
                width: 0,
                height: 0,
                bpp: 0,
                ty: 0,
                color: ColorInfoBytes { b0: 0, b1: 0, b2: 0, b3: 0, b4: 0, b5: 0 },
            },
        }
    }
}

/// The empty information record `MultibootInfo::default` returns.
pub open spec fn spec_default_info() -> MultibootInfo {
    MultibootInfo {
        flags: 0,
        mem_lower: 0,
        mem_upper: 0,
        boot_device: BootDevice { drive: 0xff, partition1: 0xff, partition2: 0xff, partition3: 0xff },
        cmdline: 0,
        mods_count: 0,
        mods_addr: 0,
        syms: Symbols { w0: 0, w1: 0, w2: 0, w3: 0 },
        mmap_length: 0,
        mmap_addr: 0,
        drives_length: 0,
        drives_addr: 0,
        config_table: 0,
        boot_loader_name: 0,
        apm_table: 0,
        vbe_control_info: 0,
        vbe_mode_info: 0,
        vbe_mode: 0,
        vbe_interface_seg: 0,
        vbe_interface_off: 0,
        vbe_interface_len: 0,
        framebuffer_table: spec_default_framebuffer(),
    }
}

/// The all-zero framebuffer table: tag 0, an indexed palette at address zero
/// with no colors.
pub open spec fn spec_default_framebuffer() -> FramebufferTable {
    FramebufferTable {
        addr: 0,
        pitch: 0,
        width: 0,
        height: 0,
        bpp: 0,
        ty: 0,
        color: ColorInfoBytes { b0: 0, b1: 0, b2: 0, b3: 0, b4: 0, b5: 0 },
    }
}

/// The information record stored in the 120-byte buffer `b`.
pub open spec fn spec_parse_info(b: Seq<u8>) -> MultibootInfo
    recommends
        b.len() >= 120,
{
    MultibootInfo {
        flags: le32_at(b, 0),
        mem_lower: le32_at(b, 4),
        mem_upper: le32_at(b, 8),
        boot_device: BootDevice {
            drive: b[12],
            partition1: b[13],
            partition2: b[14],
            partition3: b[15],
        },
        cmdline: le32_at(b, 16),
        mods_count: le32_at(b, 20),
        mods_addr: le32_at(b, 24),
        syms: Symbols {
            w0: le32_at(b, 28),
            w1: le32_at(b, 32),
            w2: le32_at(b, 36),
            w3: le32_at(b, 40),
        },
        mmap_length: le32_at(b, 44),
        mmap_addr: le32_at(b, 48),
        drives_length: le32_at(b, 52),
        drives_addr: le32_at(b, 56),
        config_table: le32_at(b, 60),
        boot_loader_name: le32_at(b, 64),
        apm_table: le32_at(b, 68),
        vbe_control_info: le32_at(b, 72),
        vbe_mode_info: le32_at(b, 76),
        vbe_mode: le16_at(b, 80),
        vbe_interface_seg: le16_at(b, 82),
        vbe_interface_off: le16_at(b, 84),
        vbe_interface_len: le16_at(b, 86),
        framebuffer_table: FramebufferTable {
            addr: le64_at(b, 88),
            pitch: le32_at(b, 96),
            width: le32_at(b, 100),
            height: le32_at(b, 104),
            bpp: b[108],
            ty: b[109],
            color: ColorInfoBytes {
                b0: b[112],
                b1: b[113],
                b2: b[114],
                b3: b[115],
                b4: b[116],
                b5: b[117],
            },
        },
    }
}

impl MultibootInfo {
    /// Decode the information record from a byte buffer that holds at least
    /// its 120 bytes.
    pub fn from_bytes(bytes: &[u8]) -> (r: Option<MultibootInfo>)
        ensures
            r == if bytes@.len() >= 120 {
                Some(spec_parse_info(bytes@))
            } else {
                None::<MultibootInfo>
            },
    {
        let n: usize = bytes.len();
        if n < INFO_SIZE {
            return None;
        }
        Some(
            MultibootInfo {
                flags: read_u32(bytes, 0),
                mem_lower: read_u32(bytes, 4),
                mem_upper: read_u32(bytes, 8),
                boot_device: BootDevice {
                    drive: bytes[12],
                    partition1: bytes[13],
                    partition2: bytes[14],
                    partition3: bytes[15],
                },
                cmdline: read_u32(bytes, 16),
                mods_count: read_u32(bytes, 20),
                mods_addr: read_u32(bytes, 24),
                syms: Symbols {
                    w0: read_u32(bytes, 28),
                    w1: read_u32(bytes, 32),
                    w2: read_u32(bytes, 36),
                    w3: read_u32(bytes, 40),
                },
                mmap_length: read_u32(bytes, 44),
                mmap_addr: read_u32(bytes, 48),
                drives_length: read_u32(bytes, 52),
                drives_addr: read_u32(bytes, 56),
                config_table: read_u32(bytes, 60),
                boot_loader_name: read_u32(bytes, 64),
                apm_table: read_u32(bytes, 68),
                vbe_control_info: read_u32(bytes, 72),
                vbe_mode_info: read_u32(bytes, 76),
                vbe_mode: read_u16(bytes, 80),
                vbe_interface_seg: read_u16(bytes, 82),
                vbe_interface_off: read_u16(bytes, 84),
                vbe_interface_len: read_u16(bytes, 86),
                framebuffer_table: FramebufferTable {
                    addr: read_u64(bytes, 88),
                    pitch: read_u32(bytes, 96),
                    width: read_u32(bytes, 100),
                    height: read_u32(bytes, 104),
                    bpp: bytes[108],
                    ty: bytes[109],
                    color: ColorInfoBytes {
                        b0: bytes[112],
                        b1: bytes[113],
                        b2: bytes[114],
                        b3: bytes[115],
                        b4: bytes[116],
                        b5: bytes[117],
                    },
                },
            },
        )
    }
}

/// The client's view over an information record together with the memory
/// capability through which its pointer fields are resolved.
///
/// Create one with [`Multiboot::from_ptr`] (the consumer side, decoding the
/// record from a physical address) or [`Multiboot::from_ref`] (the producer
/// side, filling a record in).
pub struct Multiboot<M: MemoryManagement> {
    header: MultibootInfo,
    memory_management: M,
}

impl<M: MemoryManagement> Multiboot<M> {
    /// The information record this view holds.
    pub closed spec fn info(&self) -> MultibootInfo {
        self.header
    }

    /// The contents of the live physical memory behind the view.
    pub closed spec fn mem(&self) -> Map<u64, u8> {
        self.memory_management.mem()
    }

    /// Initialize the view by decoding the record at a physical address.
    ///
    /// This is the way to go when writing a kernel: `mboot_ptr` is the
    /// physical address of the record handed over at entry.  Returns `None`
    /// when the translator cannot produce the record's 120 bytes.
    pub fn from_ptr(mboot_ptr: PAddr, memory_management: M) -> (r: Option<Multiboot<M>>)
        ensures
            mboot_ptr + 120 > 0x1_0000_0000_0000_0000 ==> r is None,
            r matches Some(mb) ==> {
                &&& mb.mem() == memory_management.mem()
                &&& mem_maps_range(memory_management.mem(), mboot_ptr as int, 120)
                &&& mb.info() == spec_parse_info(
                    mem_range(memory_management.mem(), mboot_ptr as int, 120),
                )
            },
    {
        if mboot_ptr > u64::MAX - 119 {
            return None;
        }
        let bytes = match memory_management.paddr_to_slice(mboot_ptr, INFO_SIZE) {
            Some(b) => b,
            None => {
                return None;
            },
        };
        proof {
            let m = memory_management.mem();
            let a = mboot_ptr as int;
            assert forall|i: int| 0 <= i < 120 implies m.contains_key(
                #[trigger] ((a + i) as u64),
            ) && bytes@[i] == m[(a + i) as u64] by {
                assert(m.contains_key((a + i) as u64) && m[(a + i) as u64] == bytes@[i]);
            }
            assert(bytes@ =~= mem_range(m, a, 120));
        }
        match MultibootInfo::from_bytes(bytes.as_slice()) {
            Some(info) => Some(Multiboot { header: info, memory_management }),
            None => None,
        }
    }

    /// Initialize the view from an already existing record.
    ///
    /// Together with [`MultibootInfo::default`] this is how a bootloader
    /// builds a record to publish.
    pub fn from_ref(info: MultibootInfo, memory_management: M) -> (r: Multiboot<M>)
        ensures
            r.info() == info,
            r.mem() == memory_management.mem(),
    {
        Multiboot { header: info, memory_management }
    }

    /// Hand the information record back, consuming the view.
    pub fn into_info(self) -> (r: MultibootInfo)
        ensures
            r == self.info(),
    {
        self.header
    }
}

impl<M: MemoryManagement> Multiboot<M> {
    /// If true, then the `mem_upper` and `mem_lower` fields are valid.
    pub fn has_memory_bounds(&self) -> (r: bool)
        ensures
            r == spec_flag(self.info().flags, 0x1),
    {
        self.header.flags & 0x1 > 0
    }

    /// Set whether the `mem_upper` and `mem_lower` fields are valid.
    pub fn set_has_memory_bounds(&mut self, flag: bool)
        ensures
            final(self).info() == (MultibootInfo {
                flags: update_flag(old(self).info().flags, 0x1, flag),
                ..old(self).info()
            }),
            final(self).mem() == old(self).mem(),
    {
        self.header.flags = set_flag_value(self.header.flags, 0x1, flag);
    }

    /// If true, then the `boot_device` field is valid.
    pub fn has_boot_device(&self) -> (r: bool)
        ensures
            r == spec_flag(self.info().flags, 0x2),
    {
        self.header.flags & 0x2 > 0
    }

    /// Set whether the `boot_device` field is valid.
    pub fn set_has_boot_device(&mut self, flag: bool)
        ensures
            final(self).info() == (MultibootInfo {
                flags: update_flag(old(self).info().flags, 0x2, flag),
                ..old(self).info()
            }),
            final(self).mem() == old(self).mem(),
    {
        self.header.flags = set_flag_value(self.header.flags, 0x2, flag);
    }

    /// If true, then the `cmdline` field is valid.
    pub fn has_cmdline(&self) -> (r: bool)
        ensures
            r == spec_flag(self.info().flags, 0x4),
    {
        self.header.flags & 0x4 > 0
    }

    /// Set whether the `cmdline` field is valid.
    pub fn set_has_cmdline(&mut self, flag: bool)
        ensures
            final(self).info() == (MultibootInfo {
                flags: update_flag(old(self).info().flags, 0x4, flag),
                ..old(self).info()
            }),
            final(self).mem() == old(self).mem(),
    {
        self.header.flags = set_flag_value(self.header.flags, 0x4, flag);
    }

    /// If true, then the `mods_addr` and `mods_count` fields are valid.
    pub fn has_modules(&self) -> (r: bool)
        ensures
            r == spec_flag(self.info().flags, 0x8),
    {
        self.header.flags & 0x8 > 0
    }

    /// Set whether the `mods_addr` and `mods_count` fields are valid.
    pub fn set_has_modules(&mut self, flag: bool)
        ensures
            final(self).info() == (MultibootInfo {
                flags: update_flag(old(self).info().flags, 0x8, flag),
                ..old(self).info()
            }),
            final(self).mem() == old(self).mem(),
    {
        self.header.flags = set_flag_value(self.header.flags, 0x8, flag);
    }

    /// If true, then the symbol field is valid and holds a.out symbols.
    pub fn has_aout_symbols(&self) -> (r: bool)
        ensures
            r == spec_flag(self.info().flags, 0x10),
    {
        self.header.flags & 0x10 > 0
    }

    /// Set whether the symbol field is valid and holds a.out symbols.
    pub fn set_has_aout_symbols(&mut self, flag: bool)
        ensures
            final(self).info() == (MultibootInfo {
                flags: update_flag(old(self).info().flags, 0x10, flag),
                ..old(self).info()
            }),
            final(self).mem() == old(self).mem(),
    {
        self.header.flags = set_flag_value(self.header.flags, 0x10, flag);
    }

    /// If true, then the symbol field is valid and holds ELF symbols.
    pub fn has_elf_symbols(&self) -> (r: bool)
        ensures
            r == spec_flag(self.info().flags, 0x20),
    {
        self.header.flags & 0x20 > 0
    }

    /// Set whether the symbol field is valid and holds ELF symbols.
    pub fn set_has_elf_symbols(&mut self, flag: bool)
        ensures
            final(self).info() == (MultibootInfo {
                flags: update_flag(old(self).info().flags, 0x20, flag),
                ..old(self).info()
            }),
            final(self).mem() == old(self).mem(),
    {
        self.header.flags = set_flag_value(self.header.flags, 0x20, flag);
    }

    /// If true, then the `mmap_addr` and `mmap_length` fields are valid.
    pub fn has_memory_map(&self) -> (r: bool)
        ensures
            r == spec_flag(self.info().flags, 0x40),
    {
        self.header.flags & 0x40 > 0
    }

    /// Set whether the `mmap_addr` and `mmap_length` fields are valid.
    pub fn set_has_memory_map(&mut self, flag: bool)
        ensures
            final(self).info() == (MultibootInfo {
                flags: update_flag(old(self).info().flags, 0x40, flag),
                ..old(self).info()
            }),
            final(self).mem() == old(self).mem(),
    {
        self.header.flags = set_flag_value(self.header.flags, 0x40, flag);
    }

    /// If true, then the `drives_addr` and `drives_length` fields are valid.
    pub fn has_drives(&self) -> (r: bool)
        ensures
            r == spec_flag(self.info().flags, 0x80),
    {
        self.header.flags & 0x80 > 0
    }

    /// Set whether the `drives_addr` and `drives_length` fields are valid.
    pub fn set_has_drives(&mut self, flag: bool)
        ensures
            final(self).info() == (MultibootInfo {
                flags: update_flag(old(self).info().flags, 0x80, flag),
                ..old(self).info()
            }),
            final(self).mem() == old(self).mem(),
    {
        self.header.flags = set_flag_value(self.header.flags, 0x80, flag);
    }

    /// If true, then the `config_table` field is valid.
    pub fn has_config_table(&self) -> (r: bool)
        ensures
            r == spec_flag(self.info().flags, 0x100),
    {
        self.header.flags & 0x100 > 0
    }

    /// Set whether the `config_table` field is valid.
    pub fn set_has_config_table(&mut self, flag: bool)
        ensures
            final(self).info() == (MultibootInfo {
                flags: update_flag(old(self).info().flags, 0x100, flag),
                ..old(self).info()
            }),
            final(self).mem() == old(self).mem(),
    {
        self.header.flags = set_flag_value(self.header.flags, 0x100, flag);
    }

    /// If true, then the `boot_loader_name` field is valid.
    pub fn has_boot_loader_name(&self) -> (r: bool)
        ensures
            r == spec_flag(self.info().flags, 0x200),
    {
        self.header.flags & 0x200 > 0
    }

    /// Set whether the `boot_loader_name` field is valid.
    pub fn set_has_boot_loader_name(&mut self, flag: bool)
        ensures
            final(self).info() == (MultibootInfo {
                flags: update_flag(old(self).info().flags, 0x200, flag),
                ..old(self).info()
            }),
            final(self).mem() == old(self).mem(),
    {
        self.header.flags = set_flag_value(self.header.flags, 0x200, flag);
    }

    /// If true, then the `apm_table` field is valid.
    pub fn has_apm_table(&self) -> (r: bool)
        ensures
            r == spec_flag(self.info().flags, 0x400),
    {
        self.header.flags & 0x400 > 0
    }

    /// Set whether the `apm_table` field is valid.
    pub fn set_has_apm_table(&mut self, flag: bool)
        ensures
            final(self).info() == (MultibootInfo {
                flags: update_flag(old(self).info().flags, 0x400, flag),
                ..old(self).info()
            }),
            final(self).mem() == old(self).mem(),
    {
        self.header.flags = set_flag_value(self.header.flags, 0x400, flag);
    }

    /// If true, then the VBE fields are valid.
    pub fn has_vbe(&self) -> (r: bool)
        ensures
            r == spec_flag(self.info().flags, 0x800),
    {
        self.header.flags & 0x800 > 0
    }

    /// Set whether the VBE fields are valid.
    pub fn set_has_vbe(&mut self, flag: bool)
        ensures
            final(self).info() == (MultibootInfo {
                flags: update_flag(old(self).info().flags, 0x800, flag),
                ..old(self).info()
            }),
            final(self).mem() == old(self).mem(),
    {
        self.header.flags = set_flag_value(self.header.flags, 0x800, flag);
    }

    /// If true, then the framebuffer table is valid.
    pub fn has_framebuffer_table(&self) -> (r: bool)
        ensures
            r == spec_flag(self.info().flags, 0x1000),
    {
        self.header.flags & 0x1000 > 0
    }

    /// Set whether the framebuffer table is valid.
    pub fn set_has_framebuffer_table(&mut self, flag: bool)
        ensures
            final(self).info() == (MultibootInfo {
                flags: update_flag(old(self).info().flags, 0x1000, flag),
                ..old(self).info()
            }),
            final(self).mem() == old(self).mem(),
    {
        self.header.flags = set_flag_value(self.header.flags, 0x1000, flag);
    }

}

/// Safe tagged wrapper for the symbol field: either a.out or ELF symbol
/// information.
#[derive(Debug, Copy, Clone)]
pub enum SymbolType {
    AOut(AOutSymbols),
    Elf(ElfSymbols),
}

/// The symbol field interpreted as a.out symbol information.
#[derive(Debug, Copy, Clone)]
pub struct AOutSymbols {
    pub tabsize: u32,
    pub strsize: u32,
    pub addr: u32,
    pub reserved: u32,
}

/// The symbol field interpreted as ELF section-header information.
#[derive(Debug, Copy, Clone)]
pub struct ElfSymbols {
    pub num: u32,
    pub size: u32,
    pub addr: u32,
    pub shndx: u32,
}

impl ElfSymbols {
    /// Build ELF symbol information from a section-header table address.
    ///
    /// The underlying memory has to stay intact; the parameters themselves
    /// are not checked for correctness.
    pub fn from_addr(num: u32, size: u32, addr: PAddr, shndx: u32) -> (r: Self)
        requires
            addr <= u32::MAX,
        ensures
            r == (ElfSymbols { num, size, addr: addr as u32, shndx }),
    {
        ElfSymbols { num, size, addr: addr as u32, shndx }
    }
}

/// The symbol information an information record carries: `None` when
/// neither symbol flag is set, and also when both are set at once, an
/// invalid state this crate reports as absent rather than guessing.
pub open spec fn spec_symbols(info: MultibootInfo) -> Option<SymbolType> {
    if spec_flag(info.flags, 0x10) && spec_flag(info.flags, 0x20) {
        None
    } else if spec_flag(info.flags, 0x20) {
        Some(
            SymbolType::Elf(
                ElfSymbols {
                    num: info.syms.w0,
                    size: info.syms.w1,
                    addr: info.syms.w2,
                    shndx: info.syms.w3,
                },
            ),
        )
    } else if spec_flag(info.flags, 0x10) {
        Some(
            SymbolType::AOut(
                AOutSymbols {
                    tabsize: info.syms.w0,
                    strsize: info.syms.w1,
                    addr: info.syms.w2,
                    reserved: info.syms.w3,
                },
            ),
        )
    } else {
        None
    }
}

impl<M: MemoryManagement> Multiboot<M> {
    /// The amount of lower memory in kilobytes, if the record carries it.
    ///
    /// Lower memory starts at address 0; its maximum possible amount is 640
    /// kilobytes.
    pub fn lower_memory_bound(&self) -> (r: Option<u32>)
        ensures
            r == if spec_flag(self.info().flags, 0x1) {
                Some(self.info().mem_lower)
            } else {
                None::<u32>
            },
    {
        if self.has_memory_bounds() {
            Some(self.header.mem_lower)
        } else {
            None
        }
    }

    /// The amount of upper memory in kilobytes, if the record carries it.
    ///
    /// Upper memory starts at address 1 megabyte.  The value is at most the
    /// address of the first upper memory hole minus 1 megabyte, but is not
    /// guaranteed to be that value.
    pub fn upper_memory_bound(&self) -> (r: Option<u32>)
        ensures
            r == if spec_flag(self.info().flags, 0x1) {
                Some(self.info().mem_upper)
            } else {
                None::<u32>
            },
    {
        if self.has_memory_bounds() {
            Some(self.header.mem_upper)
        } else {
            None
        }
    }

    /// Set the memory bounds as a (lower, upper) pair, in kilobytes.
    ///
    /// This is one call because the protocol requires both or none to be
    /// set.
    pub fn set_memory_bounds(&mut self, bounds: Option<(u32, u32)>)
        ensures
            final(self).info() == match bounds {
                Some((lower, upper)) => MultibootInfo {
                    flags: update_flag(old(self).info().flags, 0x1, true),
                    mem_lower: lower,
                    mem_upper: upper,
                    ..old(self).info()
                },
                None => MultibootInfo {
                    flags: update_flag(old(self).info().flags, 0x1, false),
                    ..old(self).info()
                },
            },
            final(self).mem() == old(self).mem(),
    {
        self.set_has_memory_bounds(bounds.is_some());
        if let Some((lower, upper)) = bounds {
            self.header.mem_lower = lower;
            self.header.mem_upper = upper;
        }
    }

    /// The BIOS disk device the bootloader loaded the image from, if the
    /// record carries one.
    ///
    /// The operating system may use this as a hint for determining its own
    /// root device, but is not required to.
    pub fn boot_device(&self) -> (r: Option<BootDevice>)
        ensures
            r == if spec_flag(self.info().flags, 0x2) {
                Some(self.info().boot_device)
            } else {
                None::<BootDevice>
            },
    {
        if self.has_boot_device() {
            Some(self.header.boot_device)
        } else {
            None
        }
    }

    /// The symbol information, if the record carries exactly one kind.
    ///
    /// Both symbol flags set at once is an invalid state and reads as
    /// absent.
    pub fn symbols(&self) -> (r: Option<SymbolType>)
        ensures
            r == spec_symbols(self.info()),
    {
        if self.has_elf_symbols() && self.has_aout_symbols() {
            return None;
        }
        if self.has_elf_symbols() {
            return Some(
                SymbolType::Elf(
                    ElfSymbols {
                        num: self.header.syms.w0,
                        size: self.header.syms.w1,
                        addr: self.header.syms.w2,
                        shndx: self.header.syms.w3,
                    },
                ),
            );
        }
        if self.has_aout_symbols() {
            return Some(
                SymbolType::AOut(
                    AOutSymbols {
                        tabsize: self.header.syms.w0,
                        strsize: self.header.syms.w1,
                        addr: self.header.syms.w2,
                        reserved: self.header.syms.w3,
                    },
                ),
            );
        }
        None
    }

    /// Set the symbol information, clearing the other kind's flag so that
    /// the two stay mutually exclusive; `None` clears both flags.
    ///
    /// The memory behind the address in the symbol information has to stay
    /// intact.
    pub fn set_symbols(&mut self, symbols: Option<SymbolType>)
        ensures
            final(self).info() == match symbols {
                None => MultibootInfo {
                    flags: update_flag(update_flag(old(self).info().flags, 0x10, false), 0x20, false),
                    ..old(self).info()
                },
                Some(SymbolType::AOut(a)) => MultibootInfo {
                    flags: update_flag(update_flag(old(self).info().flags, 0x10, true), 0x20, false),
                    syms: Symbols { w0: a.tabsize, w1: a.strsize, w2: a.addr, w3: a.reserved },
                    ..old(self).info()
                },
                Some(SymbolType::Elf(e)) => MultibootInfo {
                    flags: update_flag(update_flag(old(self).info().flags, 0x10, false), 0x20, true),
                    syms: Symbols { w0: e.num, w1: e.size, w2: e.addr, w3: e.shndx },
                    ..old(self).info()
                },
            },
            final(self).mem() == old(self).mem(),
    {
        match symbols {
            None => {
                self.set_has_aout_symbols(false);
                self.set_has_elf_symbols(false);
            },
            Some(SymbolType::AOut(a)) => {
                self.set_has_aout_symbols(true);
                self.set_has_elf_symbols(false);
                self.header.syms = Symbols { w0: a.tabsize, w1: a.strsize, w2: a.addr, w3: a.reserved };
            },
            Some(SymbolType::Elf(e)) => {
                self.set_has_aout_symbols(false);
                self.set_has_elf_symbols(true);
                self.header.syms = Symbols { w0: e.num, w1: e.size, w2: e.addr, w3: e.shndx };
            },
        }
    }

    /// Publish the memory regions: the address of the first entry and the
    /// number of 24-byte entries.  The underlying memory has to stay
    /// intact.
    pub fn set_memory_regions(&mut self, regions: Option<(PAddr, usize)>)
        requires
            regions matches Some((addr, count)) ==> addr <= u32::MAX && count * 24 <= u32::MAX,
        ensures
            final(self).info() == match regions {
                Some((addr, count)) => MultibootInfo {
                    flags: update_flag(old(self).info().flags, 0x40, true),
                    mmap_addr: addr as u32,
                    mmap_length: (count * 24) as u32,
                    ..old(self).info()
                },
                None => MultibootInfo {
                    flags: update_flag(old(self).info().flags, 0x40, false),
                    ..old(self).info()
                },
            },
            final(self).mem() == old(self).mem(),
    {
        self.set_has_memory_map(regions.is_some());
        if let Some((addr, count)) = regions {
            self.header.mmap_addr = addr as u32;
            self.header.mmap_length = (count * 24) as u32;
        }
    }

    /// The framebuffer table, if the record carries one.
    pub fn framebuffer_table(&self) -> (r: Option<&FramebufferTable>)
        ensures
            match r {
                Some(t) => spec_flag(self.info().flags, 0x1000) && *t
                    == self.info().framebuffer_table,
                None => !spec_flag(self.info().flags, 0x1000),
            },
    {
        if self.has_framebuffer_table() {
            Some(&self.header.framebuffer_table)
        } else {
            None
        }
    }

    /// Set the framebuffer table; `None` clears the flag and restores the
    /// all-zero default table (tag 0, an empty indexed palette).
    pub fn set_framebuffer_table(&mut self, table: Option<FramebufferTable>)
        ensures
            final(self).info() == (MultibootInfo {
                flags: update_flag(old(self).info().flags, 0x1000, table is Some),
                framebuffer_table: match table {
                    Some(t) => t,
                    None => spec_default_framebuffer(),
                },
                ..old(self).info()
            }),
            final(self).mem() == old(self).mem(),
    {
        self.set_has_framebuffer_table(table.is_some());
        self.header.framebuffer_table = match table {
            Some(t) => t,
            None => FramebufferTable {
                addr: 0,
                pitch: 0,
                width: 0,
                height: 0,
                bpp: 0,
                ty: 0,
                color: ColorInfoBytes { b0: 0, b1: 0, b2: 0, b3: 0, b4: 0, b5: 0 },
            },
        };
    }
}

/// Classification of a memory-map region.
#[derive(Debug, PartialEq, Eq, Structural, Copy, Clone)]
pub enum MemoryType {
    /// Memory available to the operating system.
    Available,
    /// Reserved, not available (ROM, memory-mapped devices).
    Reserved,
    /// ACPI reclaimable memory.
    ACPI,
    /// ACPI non-volatile storage memory.
    NVS,
    /// Defective RAM modules.
    Defect,
}

/// The wire code a memory type is written as.
pub open spec fn spec_memory_type_code(t: MemoryType) -> u32 {
    match t {
        MemoryType::Available => 1,
        MemoryType::Reserved => 2,
        MemoryType::ACPI => 3,
        MemoryType::NVS => 4,
        MemoryType::Defect => 5,
    }
}

/// The memory type a wire code decodes to; unrecognized codes read as
/// reserved memory.
pub open spec fn spec_memory_type(code: u32) -> MemoryType {
    if code == 1 {
        MemoryType::Available
    } else if code == 3 {
        MemoryType::ACPI
    } else if code == 4 {
        MemoryType::NVS
    } else if code == 5 {
        MemoryType::Defect
    } else {
        MemoryType::Reserved
    }
}

/// One memory-map entry as laid out in the MMAP buffer.
///
/// The size field holds the byte count of the remainder of the record,
/// excluding itself; the next entry starts `size + 4` bytes further on.
#[derive(Debug, Copy, Clone)]
pub struct MemoryEntry {
    pub size: u32,
    pub base_addr: u64,
    pub length: u64,
    pub mtype: u32,
}

/// The memory-map entry stored in the 24-byte buffer `b`.
pub open spec fn spec_parse_entry(b: Seq<u8>) -> MemoryEntry
    recommends
        b.len() >= 24,
{
    MemoryEntry {
        size: le32_at(b, 0),
        base_addr: le64_at(b, 4),
        length: le64_at(b, 12),
        mtype: le32_at(b, 20),
    }
}

impl Default for MemoryEntry {
    /// The default entry: zero bytes of reserved memory.
    fn default() -> (r: Self)
        ensures
            r == (MemoryEntry { size: 20, base_addr: 0, length: 0, mtype: 2 }),
    {
        MemoryEntry { size: 20, base_addr: 0, length: 0, mtype: 2 }
    }
}

impl MemoryEntry {
    /// Create a new entry from the given data.
    ///
    /// The stored size field is always 20: the fixed remainder of a 24-byte
    /// record.
    pub fn new(base_addr: PAddr, length: PAddr, ty: MemoryType) -> (r: Self)
        ensures
            r == (MemoryEntry { size: 20, base_addr, length, mtype: spec_memory_type_code(ty) }),
    {
        let code: u32 = match ty {
            MemoryType::Available => 1,
            MemoryType::Reserved => 2,
            MemoryType::ACPI => 3,
            MemoryType::NVS => 4,
            MemoryType::Defect => 5,
        };
        MemoryEntry { size: 20, base_addr, length, mtype: code }
    }

    /// The base address of the memory region.
    pub fn base_address(&self) -> (r: PAddr)
        ensures
            r == self.base_addr,
    {
        self.base_addr
    }

    /// The size of the memory region in bytes.
    pub fn length(&self) -> (r: u64)
        ensures
            r == self.length,
    {
        self.length
    }

    /// The region's classification; unrecognized type codes read as
    /// reserved.
    pub fn memory_type(&self) -> (r: MemoryType)
        ensures
            r == spec_memory_type(self.mtype),
    {
        match self.mtype {
            1 => MemoryType::Available,
            3 => MemoryType::ACPI,
            4 => MemoryType::NVS,
            5 => MemoryType::Defect,
            _ => MemoryType::Reserved,
        }
    }
}

/// The entries the variable-stride rule lays out between `cursor` and
/// `end`: while the cursor has not reached the end, the entry parsed where
/// the cursor stands, and after it the entries from `cursor + size + 4` on
/// (the size field itself occupies the extra 4 bytes).
pub open spec fn spec_memory_map_entries(mem: Map<u64, u8>, cursor: int, end: int) -> Seq<
    MemoryEntry,
>
    decreases end - cursor,
{
    if cursor >= end {
        Seq::empty()
    } else {
        let e = spec_parse_entry(mem_range(mem, cursor, 24));
        let next = cursor + e.size + 4;
        if next >= end {
            seq![e]
        } else {
            seq![e] + spec_memory_map_entries(mem, next, end)
        }
    }
}

/// Iterator over the memory regions of the memory map, advancing by the
/// variable-stride rule and re-translating the cursor address on every
/// step.
pub struct MemoryMapIter<'a, M: MemoryManagement> {
    mb: &'a Multiboot<M>,
    current: u64,
    end: u64,
}

impl<'a, M: MemoryManagement> MemoryMapIter<'a, M> {
    /// The address of the next entry to read.
    pub closed spec fn cursor(&self) -> u64 {
        self.current
    }

    /// The address at which the map ends.
    pub closed spec fn end_addr(&self) -> u64 {
        self.end
    }

    /// The live memory the entries are read from.
    pub closed spec fn mem(&self) -> Map<u64, u8> {
        self.mb.mem()
    }

    /// The map end lies within the 33-bit range two 32-bit fields can sum
    /// to, so advancing the cursor never overflows.
    pub closed spec fn wf(&self) -> bool {
        self.end <= 0x2_0000_0000
    }

    /// Read the entry at the cursor and advance by its declared size plus
    /// the 4 bytes of the size field.  Yields `None` once the cursor has
    /// reached the declared map end, or when the cursor address cannot be
    /// translated.
    pub fn next(&mut self) -> (r: Option<MemoryEntry>)
        requires
            old(self).wf(),
        ensures
            final(self).wf(),
            final(self).mem() == old(self).mem(),
            final(self).end_addr() == old(self).end_addr(),
            old(self).cursor() >= old(self).end_addr() ==> r is None && final(self).cursor()
                == old(self).cursor(),
            old(self).cursor() < old(self).end_addr() ==> match r {
                None => final(self).cursor() == old(self).cursor(),
                Some(e) => {
                    &&& mem_maps_range(old(self).mem(), old(self).cursor() as int, 24)
                    &&& e == spec_parse_entry(
                        mem_range(old(self).mem(), old(self).cursor() as int, 24),
                    )
                    &&& final(self).cursor() == old(self).cursor() + e.size + 4
                    &&& spec_memory_map_entries(
                        old(self).mem(),
                        old(self).cursor() as int,
                        old(self).end_addr() as int,
                    ) == seq![e] + spec_memory_map_entries(
                        old(self).mem(),
                        final(self).cursor() as int,
                        old(self).end_addr() as int,
                    )
                },
            },
    {
        if self.current >= self.end {
            return None;
        }
        let bytes = match self.mb.memory_management.paddr_to_slice(self.current, 24) {
            Some(b) => b,
            None => {
                return None;
            },
        };
        let entry = MemoryEntry {
            size: read_u32(bytes.as_slice(), 0),
            base_addr: read_u64(bytes.as_slice(), 4),
            length: read_u64(bytes.as_slice(), 12),
            mtype: read_u32(bytes.as_slice(), 20),
        };
        proof {
            let m = self.mb.mem();
            let a = self.current as int;
            assert forall|i: int| 0 <= i < 24 implies m.contains_key(#[trigger] ((a + i) as u64))
                && bytes@[i] == m[(a + i) as u64] by {
                assert(m.contains_key((a + i) as u64) && m[(a + i) as u64] == bytes@[i]);
            }
            assert(bytes@ =~= mem_range(m, a, 24));
        }
        self.current = self.current + entry.size as u64 + 4;
        Some(entry)
    }
}

impl<M: MemoryManagement> Multiboot<M> {
    /// Iterate over the memory regions of the multiboot memory map, if the
    /// record carries one.
    pub fn memory_regions<'a>(&'a self) -> (r: Option<MemoryMapIter<'a, M>>)
        ensures
            match r {
                Some(it) => {
                    &&& spec_flag(self.info().flags, 0x40)
                    &&& it.wf()
                    &&& it.cursor() == self.info().mmap_addr
                    &&& it.end_addr() == self.info().mmap_addr + self.info().mmap_length
                    &&& it.mem() == self.mem()
                },
                None => !spec_flag(self.info().flags, 0x40),
            },
    {
        if self.has_memory_map() {
            let start = self.header.mmap_addr as u64;
            let end = start + self.header.mmap_length as u64;
            Some(MemoryMapIter { mb: self, current: start, end })
        } else {
            None
        }
    }
}

/// Safe tagged wrapper for the framebuffer color information.
#[derive(Debug, Copy, Clone, PartialEq, Eq, Structural)]
pub enum ColorInfoType {
    Palette(ColorInfoPalette),
    Rgb(ColorInfoRgb),
    Text,
}

/// Indexed color mode: the address of an array of color descriptors and the
/// number of colors in it.
#[derive(Debug, Copy, Clone, PartialEq, Eq, Structural)]
pub struct ColorInfoPalette {
    pub palette_addr: u32,
    pub palette_num_colors: u16,
}

/// Direct RGB color mode: the bit position and mask size of each of the
/// three color channels.
#[derive(Debug, Copy, Clone, PartialEq, Eq, Structural)]
pub struct ColorInfoRgb {
    pub red_field_position: u8,
    pub red_mask_size: u8,
    pub green_field_position: u8,
    pub green_mask_size: u8,
    pub blue_field_position: u8,
    pub blue_mask_size: u8,
}

/// The type tag a color info is stored under: 0 palette, 1 RGB, 2 text.
pub open spec fn spec_color_tag(c: ColorInfoType) -> u8 {
    match c {
        ColorInfoType::Palette(_) => 0,
        ColorInfoType::Rgb(_) => 1,
        ColorInfoType::Text => 2,
    }
}

/// The six union bytes a color info is stored as.  A palette stores its
/// address and color count little-endian; RGB stores its six channel bytes
/// in order; text stores no payload and leaves the bytes zero.
pub open spec fn spec_color_bytes(c: ColorInfoType) -> ColorInfoBytes {
    match c {
        ColorInfoType::Palette(p) => {
            let a = spec_u32_to_le_bytes(p.palette_addr);
            let n = spec_u16_to_le_bytes(p.palette_num_colors);
            ColorInfoBytes { b0: a[0], b1: a[1], b2: a[2], b3: a[3], b4: n[0], b5: n[1] }
        },
        ColorInfoType::Rgb(r) => ColorInfoBytes {
            b0: r.red_field_position,
            b1: r.red_mask_size,
            b2: r.green_field_position,
            b3: r.green_mask_size,
            b4: r.blue_field_position,
            b5: r.blue_mask_size,
        },
        ColorInfoType::Text => ColorInfoBytes { b0: 0, b1: 0, b2: 0, b3: 0, b4: 0, b5: 0 },
    }
}

/// The color info six union bytes decode to under a type tag; `None` for an
/// unrecognized tag.
pub open spec fn spec_parse_color(ty: u8, cb: ColorInfoBytes) -> Option<ColorInfoType> {
    if ty == 0 {
        Some(
            ColorInfoType::Palette(
                ColorInfoPalette {
                    palette_addr: spec_u32_from_le_bytes(seq![cb.b0, cb.b1, cb.b2, cb.b3]),
                    palette_num_colors: spec_u16_from_le_bytes(seq![cb.b4, cb.b5]),
                },
            ),
        )
    } else if ty == 1 {
        Some(
            ColorInfoType::Rgb(
                ColorInfoRgb {
                    red_field_position: cb.b0,
                    red_mask_size: cb.b1,
                    green_field_position: cb.b2,
                    green_mask_size: cb.b3,
                    blue_field_position: cb.b4,
                    blue_mask_size: cb.b5,
                },
            ),
        )
    } else if ty == 2 {
        Some(ColorInfoType::Text)
    } else {
        None
    }
}

impl Default for FramebufferTable {
    /// The all-zero table: tag 0, an indexed palette at address zero with no
    /// colors.
    fn default() -> (r: Self)
        ensures
            r == spec_default_framebuffer(),
    {
        FramebufferTable {
            addr: 0,
            pitch: 0,
            width: 0,
            height: 0,
            bpp: 0,
            ty: 0,
            color: ColorInfoBytes { b0: 0, b1: 0, b2: 0, b3: 0, b4: 0, b5: 0 },
        }
    }
}

impl FramebufferTable {
    /// Create a table from a color info, storing the matching type tag and
    /// union bytes.  For a text color info, `bpp` has to be 16.
    pub fn new(
        addr: u64,
        pitch: u32,
        width: u32,
        height: u32,
        bpp: u8,
        color_info_type: ColorInfoType,
    ) -> (r: Self)
        ensures
            r == (FramebufferTable {
                addr,
                pitch,
                width,
                height,
                bpp,
                ty: spec_color_tag(color_info_type),
                color: spec_color_bytes(color_info_type),
            }),
    {
        let (ty, color) = match color_info_type {
            ColorInfoType::Palette(p) => {
                let a = u32_to_le_bytes(p.palette_addr);
                let n = u16_to_le_bytes(p.palette_num_colors);
                (
                    0u8,
                    ColorInfoBytes {
                        b0: a[0],
                        b1: a[1],
                        b2: a[2],
                        b3: a[3],
                        b4: n[0],
                        b5: n[1],
                    },
                )
            },
            ColorInfoType::Rgb(r) => (
                1u8,
                ColorInfoBytes {
                    b0: r.red_field_position,
                    b1: r.red_mask_size,
                    b2: r.green_field_position,
                    b3: r.green_mask_size,
                    b4: r.blue_field_position,
                    b5: r.blue_mask_size,
                },
            ),
            ColorInfoType::Text => (2u8, ColorInfoBytes { b0: 0, b1: 0, b2: 0, b3: 0, b4: 0, b5: 0 }),
        };
        FramebufferTable { addr, pitch, width, height, bpp, ty, color }
    }

    /// Decode the color info this table stores; `None` for an unrecognized
    /// type tag.
    pub fn color_info(&self) -> (r: Option<ColorInfoType>)
        ensures
            r == spec_parse_color(self.ty, self.color),
    {
        match self.ty {
            0 => {
                let mut a: Vec<u8> = Vec::new();
                a.push(self.color.b0);
                a.push(self.color.b1);
                a.push(self.color.b2);
                a.push(self.color.b3);
                let mut n: Vec<u8> = Vec::new();
                n.push(self.color.b4);
                n.push(self.color.b5);
                proof {
                    assert(a@ =~= seq![self.color.b0, self.color.b1, self.color.b2, self.color.b3]);
                    assert(n@ =~= seq![self.color.b4, self.color.b5]);
                }
                Some(
                    ColorInfoType::Palette(
                        ColorInfoPalette {
                            palette_addr: u32_from_le_bytes(a.as_slice()),
                            palette_num_colors: u16_from_le_bytes(n.as_slice()),
                        },
                    ),
                )
            },
            1 => Some(
                ColorInfoType::Rgb(
                    ColorInfoRgb {
                        red_field_position: self.color.b0,
                        red_mask_size: self.color.b1,
                        green_field_position: self.color.b2,
                        green_mask_size: self.color.b3,
                        blue_field_position: self.color.b4,
                        blue_mask_size: self.color.b5,
                    },
                ),
            ),
            2 => Some(ColorInfoType::Text),
            _ => None,
        }
    }
}

/// Framebuffer color-information round trip: whatever color info a table is
/// built from, palette, RGB or text, decoding the stored tag and union
/// bytes yields exactly that color info again.
pub proof fn lemma_color_info_round_trip(c: ColorInfoType)
    ensures
        spec_parse_color(spec_color_tag(c), spec_color_bytes(c)) == Some(c),
{
    match c {
        ColorInfoType::Palette(p) => {
            lemma_auto_spec_u32_to_from_le_bytes();
            lemma_auto_spec_u16_to_from_le_bytes();
            let a = spec_u32_to_le_bytes(p.palette_addr);
            let n = spec_u16_to_le_bytes(p.palette_num_colors);
            assert(seq![a[0], a[1], a[2], a[3]] =~= a);
            assert(seq![n[0], n[1]] =~= n);
        },
        ColorInfoType::Rgb(_) => {},
        ColorInfoType::Text => {},
    }
}

/// The NUL-terminated byte string stored at `addr`, excluding the
/// terminator, found by scanning at most `budget` bytes: `None` when the
/// budget runs out, the scan leaves the address space, or an address is
/// unmapped before a NUL is found.
pub open spec fn spec_cstr_from(mem: Map<u64, u8>, addr: int, budget: nat) -> Option<Seq<u8>>
    decreases budget,
{
    if budget == 0 {
        None
    } else if !(0 <= addr < 0x1_0000_0000_0000_0000) {
        None
    } else if !mem.contains_key(addr as u64) {
        None
    } else if mem[addr as u64] == 0 {
        Some(Seq::empty())
    } else {
        match spec_cstr_from(mem, addr + 1, (budget - 1) as nat) {
            None => None,
            Some(rest) => Some(seq![mem[addr as u64]] + rest),
        }
    }
}

/// The NUL-terminated byte string stored at `addr`, excluding the
/// terminator; `None` when no NUL is reachable through mapped memory within
/// 2^32 bytes.
pub open spec fn spec_cstr(mem: Map<u64, u8>, addr: u64) -> Option<Seq<u8>> {
    spec_cstr_from(mem, addr as int, 0x1_0000_0000)
}

/// Prepend `pre` to the payload of `r`, if any.
pub open spec fn opt_prepend(pre: Seq<u8>, r: Option<Seq<u8>>) -> Option<Seq<u8>> {
    match r {
        None => None,
        Some(s) => Some(pre + s),
    }
}

/// A scanned string is strictly shorter than the scan budget.
pub proof fn lemma_cstr_len(mem: Map<u64, u8>, addr: int, budget: nat)
    ensures
        spec_cstr_from(mem, addr, budget) matches Some(s) ==> s.len() < budget,
    decreases budget,
{
    if budget > 0 && 0 <= addr < 0x1_0000_0000_0000_0000 && mem.contains_key(addr as u64)
        && mem[addr as u64] != 0 {
        lemma_cstr_len(mem, addr + 1, (budget - 1) as nat);
    }
}

proof fn lemma_opt_prepend_empty(r: Option<Seq<u8>>)
    ensures
        opt_prepend(Seq::empty(), r) == r,
{
    if r is Some {
        assert(Seq::empty() + r->0 =~= r->0);
    }
}

proof fn lemma_opt_prepend_step(pre: Seq<u8>, b: u8, r: Option<Seq<u8>>)
    ensures
        opt_prepend(pre, opt_prepend(seq![b], r)) == opt_prepend(pre.push(b), r),
{
    if r is Some {
        assert(pre + (seq![b] + r->0) =~= pre.push(b) + r->0);
    }
}

/// Read the NUL-terminated byte string at `addr`, excluding the terminator,
/// translating every byte address anew.  `None` when translation fails, the
/// scan leaves the address space, or no NUL appears within 2^32 bytes.
fn read_cstr<M: MemoryManagement>(mm: &M, addr: u64) -> (r: Option<Vec<u8>>)
    ensures
        r matches Some(v) ==> spec_cstr(mm.mem(), addr) == Some(v@),
{
    let mut acc: Vec<u8> = Vec::new();
    let mut cur: u64 = addr;
    let mut budget: u64 = 0x1_0000_0000;
    proof {
        lemma_opt_prepend_empty(spec_cstr_from(mm.mem(), addr as int, 0x1_0000_0000));
    }
    loop
        invariant
            budget <= 0x1_0000_0000,
            spec_cstr(mm.mem(), addr) == opt_prepend(
                acc@,
                spec_cstr_from(mm.mem(), cur as int, budget as nat),
            ),
        decreases budget,
    {
        if budget == 0 {
            return None;
        }
        let bytes = match mm.paddr_to_slice(cur, 1) {
            Some(b) => b,
            None => {
                return None;
            },
        };
        let byte = bytes[0];
        proof {
            assert(mm.mem().contains_key((cur as int + 0) as u64) && mm.mem()[(cur as int
                + 0) as u64] == bytes@[0]);
            assert(mm.mem()[cur] == byte);
        }
        if byte == 0 {
            proof {
                assert(spec_cstr_from(mm.mem(), cur as int, budget as nat) == Some(
                    Seq::<u8>::empty(),
                ));
                assert(acc@ + Seq::<u8>::empty() =~= acc@);
            }
            return Some(acc);
        }
        proof {
            lemma_opt_prepend_step(
                acc@,
                byte,
                spec_cstr_from(mm.mem(), cur as int + 1, (budget - 1) as nat),
            );
            assert(spec_cstr_from(mm.mem(), cur as int, budget as nat) == opt_prepend(
                seq![byte],
                spec_cstr_from(mm.mem(), cur as int + 1, (budget - 1) as nat),
            ));
        }
        acc.push(byte);
        if cur == u64::MAX {
            return None;
        }
        cur = cur + 1;
        budget = budget - 1;
    }
}

/// Relies on String::from_utf8: it returns the decoded string exactly when
/// the bytes are valid UTF-8, and an error value otherwise.
#[verifier::external_body]
pub(crate) fn string_from_utf8(bytes: Vec<u8>) -> (r: Option<String>)
    ensures
        r matches Some(s) ==> valid_utf8(bytes@) && s@ == decode_utf8(bytes@),
        r is None ==> !valid_utf8(bytes@),
{
    String::from_utf8(bytes).ok()
}

/// The text a NUL-terminated string field decodes to: the bytes at the
/// field's address up to the NUL, interpreted as UTF-8.  Absent when the
/// field's flag is clear, the pointer is null, no NUL is reachable, or the
/// bytes are not valid UTF-8.
pub open spec fn spec_text_field(
    mem: Map<u64, u8>,
    flags: u32,
    mask: u32,
    addr: u32,
) -> Option<Seq<char>> {
    if spec_flag(flags, mask) && addr != 0 {
        match spec_cstr(mem, addr as u64) {
            None => None,
            Some(b) => if valid_utf8(b) {
                Some(decode_utf8(b))
            } else {
                None
            },
        }
    } else {
        None
    }
}

/// What `command_line` reads, at specification level.
pub open spec fn spec_command_line(info: MultibootInfo, mem: Map<u64, u8>) -> Option<Seq<char>> {
    spec_text_field(mem, info.flags, 0x4, info.cmdline)
}

/// What `boot_loader_name` reads, at specification level.
pub open spec fn spec_boot_loader_name(info: MultibootInfo, mem: Map<u64, u8>) -> Option<
    Seq<char>,
> {
    spec_text_field(mem, info.flags, 0x200, info.boot_loader_name)
}

impl<M: MemoryManagement> Multiboot<M> {
    /// Read the string field gated by `mask` whose pointer is `addr`.
    fn text_field(&self, mask: u32, addr: u32) -> (r: Option<String>)
        requires
            spec_flag(self.info().flags, mask),
        ensures
            r matches Some(s) ==> spec_text_field(self.mem(), self.info().flags, mask, addr)
                == Some(s@),
    {
        if addr == 0 {
            return None;
        }
        let bytes = match read_cstr(&self.memory_management, addr as u64) {
            Some(b) => b,
            None => {
                return None;
            },
        };
        string_from_utf8(bytes)
    }

    /// The command line passed to the kernel, if the record carries one and
    /// its bytes decode as text.
    pub fn command_line(&self) -> (r: Option<String>)
        ensures
            r matches Some(s) ==> spec_command_line(self.info(), self.mem()) == Some(s@),
            !spec_flag(self.info().flags, 0x4) ==> r is None,
    {
        if self.has_cmdline() {
            self.text_field(0x4, self.header.cmdline)
        } else {
            None
        }
    }

    /// The name of the bootloader, if the record carries one and its bytes
    /// decode as text.
    pub fn boot_loader_name(&self) -> (r: Option<String>)
        ensures
            r matches Some(s) ==> spec_boot_loader_name(self.info(), self.mem()) == Some(s@),
            !spec_flag(self.info().flags, 0x200) ==> r is None,
    {
        if self.has_boot_loader_name() {
            self.text_field(0x200, self.header.boot_loader_name)
        } else {
            None
        }
    }
}

impl<M: MemoryManagement> Multiboot<M> {
    /// Free the old string at `old_addr` (when `had` says one was there),
    /// then allocate a NUL-terminated copy of `text`.  Returns the new
    /// field value: the copy's address, 0 for `None`, and fails only when
    /// allocation does.
    fn replace_string(&mut self, old_addr: u32, had: bool, text: Option<&str>) -> (r: Option<u32>)
        ensures
            final(self).info() == old(self).info(),
            r is None ==> text is Some,
            r matches Some(a) ==> match text {
                None => a == 0,
                Some(s) => {
                    &&& a != 0
                    &&& a + s.spec_bytes().len() + 1 <= 0x1_0000_0000
                    &&& mem_has_range(final(self).mem(), a as int, s.spec_bytes().push(0))
                },
            },
    {
        if had {
            self.memory_management.deallocate(old_addr as u64);
        }
        match text {
            None => Some(0),
            Some(s) => {
                let mut bytes = s.as_bytes_vec();
                bytes.push(0);
                proof {
                    assert(bytes@ =~= s.spec_bytes().push(0));
                }
                let ghost gb = bytes@;
                match self.memory_management.allocate(bytes) {
                    Some(a) => {
                        proof {
                            lemma_written_range(
                                old(self).memory_management.mem(),
                                a,
                                gb,
                            );
                        }
                        Some(a as u32)
                    },
                    None => None,
                }
            },
        }
    }

    /// Publish the command line: free any previous string, copy the new one
    /// into newly allocated memory, and update the flag together with the
    /// pointer.  Returns false when allocation fails; the record then shows
    /// no command line at all rather than a torn one.
    pub fn set_command_line(&mut self, cmdline: Option<&str>) -> (r: bool)
        ensures
            cmdline is None ==> r,
            r ==> match cmdline {
                None => final(self).info() == (MultibootInfo {
                    flags: update_flag(old(self).info().flags, 0x4, false),
                    cmdline: 0,
                    ..old(self).info()
                }),
                Some(s) => {
                    let a = final(self).info().cmdline;
                    &&& a != 0
                    &&& a + s.spec_bytes().len() + 1 <= 0x1_0000_0000
                    &&& final(self).info() == (MultibootInfo {
                        flags: update_flag(old(self).info().flags, 0x4, true),
                        cmdline: a,
                        ..old(self).info()
                    })
                    &&& mem_has_range(final(self).mem(), a as int, s.spec_bytes().push(0))
                },
            },
            !r ==> final(self).info() == (MultibootInfo {
                flags: update_flag(old(self).info().flags, 0x4, false),
                cmdline: 0,
                ..old(self).info()
            }),
    {
        let had = self.has_cmdline();
        let old_addr = self.header.cmdline;
        match self.replace_string(old_addr, had, cmdline) {
            Some(a) => {
                self.set_has_cmdline(cmdline.is_some());
                self.header.cmdline = a;
                true
            },
            None => {
                self.set_has_cmdline(false);
                self.header.cmdline = 0;
                false
            },
        }
    }

    /// Publish the name of the bootloader: free any previous string, copy
    /// the new one into newly allocated memory, and update the flag together
    /// with the pointer.  Returns false when allocation fails; the record
    /// then shows no name at all rather than a torn one.
    pub fn set_boot_loader_name(&mut self, name: Option<&str>) -> (r: bool)
        ensures
            name is None ==> r,
            r ==> match name {
                None => final(self).info() == (MultibootInfo {
                    flags: update_flag(old(self).info().flags, 0x200, false),
                    boot_loader_name: 0,
                    ..old(self).info()
                }),
                Some(s) => {
                    let a = final(self).info().boot_loader_name;
                    &&& a != 0
                    &&& a + s.spec_bytes().len() + 1 <= 0x1_0000_0000
                    &&& final(self).info() == (MultibootInfo {
                        flags: update_flag(old(self).info().flags, 0x200, true),
                        boot_loader_name: a,
                        ..old(self).info()
                    })
                    &&& mem_has_range(final(self).mem(), a as int, s.spec_bytes().push(0))
                },
            },
            !r ==> final(self).info() == (MultibootInfo {
                flags: update_flag(old(self).info().flags, 0x200, false),
                boot_loader_name: 0,
                ..old(self).info()
            }),
    {
        let had = self.has_boot_loader_name();
        let old_addr = self.header.boot_loader_name;
        match self.replace_string(old_addr, had, name) {
            Some(a) => {
                self.set_has_boot_loader_name(name.is_some());
                self.header.boot_loader_name = a;
                true
            },
            None => {
                self.set_has_boot_loader_name(false);
                self.header.boot_loader_name = 0;
                false
            },
        }
    }
}

/// A NUL-free byte string written to memory with a terminator reads back
/// exactly as itself under the NUL scan.
proof fn lemma_cstr_of_range(mem: Map<u64, u8>, addr: int, bytes: Seq<u8>, budget: nat)
    requires
        mem_has_range(mem, addr, bytes.push(0)),
        forall|i: int| 0 <= i < bytes.len() ==> bytes[i] != 0,
        bytes.len() < budget,
    ensures
        spec_cstr_from(mem, addr, budget) == Some(bytes),
    decreases bytes.len(),
{
    assert(mem.contains_key((addr + 0) as u64) && mem[(addr + 0) as u64] == bytes.push(0)[0]);
    if bytes.len() == 0 {
        assert(mem[addr as u64] == 0);
        assert(bytes =~= Seq::<u8>::empty());
    } else {
        assert(mem[addr as u64] == bytes[0]);
        let rest = bytes.drop_first();
        assert(rest.push(0) =~= bytes.push(0).drop_first());
        assert forall|i: int|
            0 <= i < rest.push(0).len() implies mem.contains_key(
            #[trigger] ((addr + 1 + i) as u64),
        ) && mem[(addr + 1 + i) as u64] == rest.push(0)[i] by {
            assert(mem.contains_key(((addr + (i + 1)) as u64)) && mem[(addr + (i + 1)) as u64]
                == bytes.push(0)[i + 1]);
        }
        lemma_cstr_of_range(mem, addr + 1, rest, (budget - 1) as nat);
        assert(seq![bytes[0]] + rest =~= bytes);
    }
}

/// Command-line round trip, reading side: once a record's command-line flag
/// is set and its pointer holds the address of a NUL-terminated copy of a
/// string's bytes, as publishing the string leaves them, reading the
/// command line yields exactly that string, provided the string itself
/// carries no NUL byte.
pub proof fn lemma_command_line_round_trip(info: MultibootInfo, mem: Map<u64, u8>, s: &str)
    requires
        spec_flag(info.flags, 0x4),
        info.cmdline != 0,
        info.cmdline + s.spec_bytes().len() + 1 <= 0x1_0000_0000,
        mem_has_range(mem, info.cmdline as int, s.spec_bytes().push(0)),
        forall|i: int| 0 <= i < s.spec_bytes().len() ==> s.spec_bytes()[i] != 0,
    ensures
        spec_command_line(info, mem) == Some(s@),
{
    broadcast use vstd::utf8::encode_utf8_valid_utf8;
    broadcast use vstd::utf8::encode_utf8_decode_utf8;

    lemma_cstr_of_range(mem, info.cmdline as int, s.spec_bytes(), 0x1_0000_0000);
    assert(spec_cstr(mem, info.cmdline as u64) == Some(s.spec_bytes()));
    assert(valid_utf8(s.spec_bytes()));
    assert(decode_utf8(s.spec_bytes()) == s@);
}

/// Command-line round trip, absent side: a record whose command-line flag
/// is clear, as publishing `None` leaves it, reads as having no command
/// line.
pub proof fn lemma_command_line_cleared(info: MultibootInfo, mem: Map<u64, u8>)
    requires
        !spec_flag(info.flags, 0x4),
    ensures
        spec_command_line(info, mem) is None,
{
}

/// Information about one boot module.
#[derive(Debug)]
pub struct Module {
    /// Start address of the module in physical memory.
    pub start: PAddr,
    /// End address of the module in physical memory.
    pub end: PAddr,
    /// The string associated with the module: typically a command line or a
    /// pathname, its exact use is specific to the operating system.  Absent
    /// when the module carries none or its bytes do not decode as text.
    pub string: Option<String>,
}

impl Module {
    /// Build a module description.
    pub fn new(start: PAddr, end: PAddr, name: Option<String>) -> (r: Module)
        ensures
            r.start == start,
            r.end == end,
            r.string == name,
    {
        Module { start, end, string: name }
    }
}

/// The text a module's string pointer decodes to: absent for a null
/// pointer, an unterminated string, or bytes that are not valid UTF-8.
pub open spec fn spec_module_name(mem: Map<u64, u8>, addr: u32) -> Option<Seq<char>> {
    if addr == 0 {
        None
    } else {
        match spec_cstr(mem, addr as u64) {
            None => None,
            Some(b) => if valid_utf8(b) {
                Some(decode_utf8(b))
            } else {
                None
            },
        }
    }
}

/// Iterator over the modules of an information record.  The fixed-size
/// module records are read up front; each module's string is resolved
/// through the translator as the module is yielded.
pub struct ModuleIter<'a, M: MemoryManagement> {
    mb: &'a Multiboot<M>,
    records: Vec<u8>,
    index: usize,
    count: usize,
}

impl<'a, M: MemoryManagement> ModuleIter<'a, M> {
    /// The raw 16-byte module records.
    pub closed spec fn records(&self) -> Seq<u8> {
        self.records@
    }

    /// The index of the next module to yield.
    pub closed spec fn idx(&self) -> int {
        self.index as int
    }

    /// The number of modules.
    pub closed spec fn total(&self) -> int {
        self.count as int
    }

    /// The live memory module strings are read from.
    pub closed spec fn mem(&self) -> Map<u64, u8> {
        self.mb.mem()
    }

    /// The record buffer holds exactly the declared number of 16-byte
    /// records.
    pub closed spec fn wf(&self) -> bool {
        self.records@.len() == 16 * self.count
    }

    /// Yield the next module: its start and end addresses widened from the
    /// record, and its string resolved through the translator.  `None` once
    /// all records are consumed.
    pub fn next(&mut self) -> (r: Option<Module>)
        requires
            old(self).wf(),
        ensures
            final(self).wf(),
            final(self).mem() == old(self).mem(),
            final(self).records() == old(self).records(),
            final(self).total() == old(self).total(),
            old(self).idx() >= old(self).total() ==> r is None && final(self).idx() == old(
                self,
            ).idx(),
            old(self).idx() < old(self).total() ==> final(self).idx() == old(self).idx() + 1 && (
            r matches Some(m) && {
                let o = 16 * old(self).idx();
                &&& m.start == le32_at(old(self).records(), o) as u64
                &&& m.end == le32_at(old(self).records(), o + 4) as u64
                &&& (m.string matches Some(s) ==> spec_module_name(
                    old(self).mem(),
                    le32_at(old(self).records(), o + 8),
                ) == Some(s@))
                &&& (le32_at(old(self).records(), o + 8) == 0 ==> m.string is None)
            }),
    {
        if self.index >= self.count {
            return None;
        }
        let rl: usize = self.records.len();
        let o = 16 * self.index;
        let start = read_u32(self.records.as_slice(), o);
        let end = read_u32(self.records.as_slice(), o + 4);
        let string_addr = read_u32(self.records.as_slice(), o + 8);
        let name: Option<String> = if string_addr == 0 {
            None
        } else {
            match read_cstr(&self.mb.memory_management, string_addr as u64) {
                Some(bytes) => string_from_utf8(bytes),
                None => None,
            }
        };
        self.index = self.index + 1;
        Some(Module { start: start as u64, end: end as u64, string: name })
    }
}

impl<M: MemoryManagement> Multiboot<M> {
    /// Iterate over the boot modules, if the record carries any.  `None`
    /// when the flag is clear or the module records cannot be translated.
    pub fn modules<'a>(&'a self) -> (r: Option<ModuleIter<'a, M>>)
        ensures
            !spec_flag(self.info().flags, 0x8) ==> r is None,
            r matches Some(it) ==> {
                &&& spec_flag(self.info().flags, 0x8)
                &&& it.wf()
                &&& it.idx() == 0
                &&& it.total() == self.info().mods_count
                &&& it.mem() == self.mem()
                &&& mem_maps_range(
                    self.mem(),
                    self.info().mods_addr as int,
                    (16 * self.info().mods_count) as nat,
                )
                &&& it.records() == mem_range(
                    self.mem(),
                    self.info().mods_addr as int,
                    (16 * self.info().mods_count) as nat,
                )
            },
    {
        if !self.has_modules() {
            return None;
        }
        let count = self.header.mods_count as usize;
        if count as u64 * 16 > usize::MAX as u64 {
            return None;
        }
        let len = count * 16;
        let bytes = match self.memory_management.paddr_to_slice(
            self.header.mods_addr as u64,
            len,
        ) {
            Some(b) => b,
            None => {
                return None;
            },
        };
        proof {
            let m = self.mem();
            let a = self.header.mods_addr as int;
            assert forall|i: int| 0 <= i < len implies m.contains_key(#[trigger] ((a + i) as u64))
                && bytes@[i] == m[(a + i) as u64] by {
                assert(m.contains_key((a + i) as u64) && m[(a + i) as u64] == bytes@[i]);
            }
            assert(bytes@ =~= mem_range(m, a, (16 * self.info().mods_count) as nat));
        }
        Some(ModuleIter { mb: self, records: bytes, index: 0, count })
    }
}

/// What publishing a module list establishes: the flag is set, the count is
/// the list's length, and at the stored address lies an array of 16-byte
/// records, each holding the module's start and end addresses, a pointer to
/// a NUL-terminated copy of its string (zero where it has none), and a zero
/// reserved word.
pub open spec fn spec_modules_published(
    old_info: MultibootInfo,
    info: MultibootInfo,
    mem: Map<u64, u8>,
    ms: Seq<Module>,
) -> bool {
    let a = info.mods_addr;
    let recs = mem_range(mem, a as int, (16 * ms.len()) as nat);
    &&& info == (MultibootInfo {
        flags: update_flag(old_info.flags, 0x8, true),
        mods_addr: a,
        mods_count: ms.len() as u32,
        ..old_info
    })
    &&& a != 0
    &&& a + 16 * ms.len() <= 0x1_0000_0000
    &&& mem_maps_range(mem, a as int, (16 * ms.len()) as nat)
    &&& forall|i: int|
        0 <= i < ms.len() ==> {
            &&& le32_at(recs, 16 * i) == (#[trigger] ms[i]).start as u32
            &&& le32_at(recs, 16 * i + 4) == ms[i].end as u32
            &&& le32_at(recs, 16 * i + 12) == 0
            &&& match ms[i].string {
                None => le32_at(recs, 16 * i + 8) == 0,
                Some(s) => {
                    let sa = le32_at(recs, 16 * i + 8);
                    &&& sa != 0
                    &&& mem_has_range(mem, sa as int, encode_utf8(s@).push(0))
                },
            }
        }
}

/// Whether `w` is a correct string word for module `m`: zero when the
/// module has no string, else the address of a NUL-terminated copy of its
/// bytes.
spec fn word_ok(mem: Map<u64, u8>, m: Module, w: u32) -> bool {
    match m.string {
        None => w == 0,
        Some(s) => w != 0 && mem_has_range(mem, w as int, encode_utf8(s@).push(0)),
    }
}

/// The 16 bytes a module record is written as.
spec fn spec_record_bytes(m: Module, w: u32) -> Seq<u8> {
    spec_u32_to_le_bytes(m.start as u32) + spec_u32_to_le_bytes(m.end as u32)
        + spec_u32_to_le_bytes(w) + spec_u32_to_le_bytes(0)
}

/// The concatenation of the first `k` module records.
spec fn spec_records(ms: Seq<Module>, ws: Seq<u32>, k: int) -> Seq<u8>
    decreases k,
{
    if k <= 0 {
        Seq::empty()
    } else {
        spec_records(ms, ws, k - 1) + spec_record_bytes(ms[k - 1], ws[k - 1])
    }
}

/// The four fields of record `j` of `recs`.
spec fn rec_encoded(recs: Seq<u8>, j: int, m: Module, w: u32) -> bool {
    &&& le32_at(recs, 16 * j) == m.start as u32
    &&& le32_at(recs, 16 * j + 4) == m.end as u32
    &&& le32_at(recs, 16 * j + 8) == w
    &&& le32_at(recs, 16 * j + 12) == 0
}

/// A word read below the end of a prefix reads the same from any extension.
proof fn lemma_le32_stable(s1: Seq<u8>, s2: Seq<u8>, o: int)
    requires
        0 <= o,
        o + 4 <= s1.len(),
        s1.len() <= s2.len(),
        s2.subrange(0, s1.len() as int) == s1,
    ensures
        le32_at(s2, o) == le32_at(s1, o),
{
    assert forall|i: int| o <= i < o + 4 implies s2[i] == s1[i] by {
        assert(s2.subrange(0, s1.len() as int)[i] == s1[i]);
    }
    assert(s2.subrange(o, o + 4) =~= s1.subrange(o, o + 4));
}

/// The concatenated records decode field by field.
proof fn lemma_records_encoded(ms: Seq<Module>, ws: Seq<u32>, k: int)
    requires
        0 <= k <= ms.len(),
        ws.len() == ms.len(),
    ensures
        spec_records(ms, ws, k).len() == 16 * k,
        forall|j: int| 0 <= j < k ==> rec_encoded(spec_records(ms, ws, k), j, ms[j], ws[j]),
    decreases k,
{
    lemma_auto_spec_u32_to_from_le_bytes();
    if k > 0 {
        lemma_records_encoded(ms, ws, k - 1);
        let prev = spec_records(ms, ws, k - 1);
        let full = spec_records(ms, ws, k);
        let a0 = spec_u32_to_le_bytes(ms[k - 1].start as u32);
        let a1 = spec_u32_to_le_bytes(ms[k - 1].end as u32);
        let a2 = spec_u32_to_le_bytes(ws[k - 1]);
        let a3 = spec_u32_to_le_bytes(0);
        assert(full.subrange(16 * (k - 1), 16 * (k - 1) + 4) =~= a0);
        assert(full.subrange(16 * (k - 1) + 4, 16 * (k - 1) + 8) =~= a1);
        assert(full.subrange(16 * (k - 1) + 8, 16 * (k - 1) + 12) =~= a2);
        assert(full.subrange(16 * (k - 1) + 12, 16 * (k - 1) + 16) =~= a3);
        assert(rec_encoded(full, k - 1, ms[k - 1], ws[k - 1]));
        assert(full.subrange(0, prev.len() as int) =~= prev);
        assert forall|j: int| 0 <= j < k - 1 implies rec_encoded(full, j, ms[j], ws[j]) by {
            lemma_le32_stable(prev, full, 16 * j);
            lemma_le32_stable(prev, full, 16 * j + 4);
            lemma_le32_stable(prev, full, 16 * j + 8);
            lemma_le32_stable(prev, full, 16 * j + 12);
        }
    }
}

impl<M: MemoryManagement> Multiboot<M> {
    /// Free every module string behind the given words, on the failure
    /// path.  Null words are accepted and skipped by the manager.
    fn discard_strings(&mut self, words: &Vec<u32>)
        ensures
            final(self).info() == old(self).info(),
    {
        let ghost info0 = old(self).info();
        let mut j: usize = 0;
        while j < words.len()
            invariant
                self.info() == info0,
            decreases words@.len() - j,
        {
            self.memory_management.deallocate(words[j] as u64);
            j = j + 1;
        }
    }

    /// Free the previous module list's per-module strings and record array,
    /// where the records can still be read.
    fn free_old_modules(&mut self)
        ensures
            final(self).info() == old(self).info(),
    {
        let ghost info0 = old(self).info();
        if !self.has_modules() {
            return;
        }
        let old_addr = self.header.mods_addr;
        let old_count = self.header.mods_count as usize;
        if old_count as u64 * 16 > usize::MAX as u64 {
            return;
        }
        let recs = match self.memory_management.paddr_to_slice(old_addr as u64, old_count * 16) {
            Some(r) => r,
            None => {
                return;
            },
        };
        let mut j: usize = 0;
        while j < old_count
            invariant
                self.info() == info0,
                recs@.len() == 16 * old_count,
                j <= old_count,
                16 * old_count <= usize::MAX,
            decreases old_count - j,
        {
            let sa = read_u32(recs.as_slice(), 16 * j + 8);
            self.memory_management.deallocate(sa as u64);
            j = j + 1;
        }
        self.memory_management.deallocate(old_addr as u64);
    }

    /// Publish the module list: free the previous per-module strings and
    /// record array, allocate a NUL-terminated copy of each module's string
    /// and a fresh record array, and update the flag together with the
    /// count and address.  Returns false when an allocation fails; the
    /// record then shows no modules at all rather than a torn list.
    ///
    /// The addresses inside each module must stay valid.
    pub fn set_modules(&mut self, modules: Option<&[Module]>) -> (r: bool)
        requires
            modules matches Some(ms) ==> ms@.len() <= u32::MAX && forall|i: int|
                0 <= i < ms@.len() ==> (#[trigger] ms@[i]).start <= u32::MAX && ms@[i].end
                    <= u32::MAX,
        ensures
            modules is None ==> r && final(self).info() == (MultibootInfo {
                flags: update_flag(old(self).info().flags, 0x8, false),
                ..old(self).info()
            }),
            modules matches Some(ms) ==> {
                &&& (r ==> spec_modules_published(
                    old(self).info(),
                    final(self).info(),
                    final(self).mem(),
                    ms@,
                ))
                &&& (!r ==> final(self).info() == (MultibootInfo {
                    flags: update_flag(old(self).info().flags, 0x8, false),
                    mods_addr: 0,
                    mods_count: 0,
                    ..old(self).info()
                }))
            },
    {
        let ghost info0 = old(self).info();
        self.free_old_modules();
        let ms = match modules {
            None => {
                self.set_has_modules(false);
                return true;
            },
            Some(ms) => ms,
        };
        let n = ms.len();
        // allocate a NUL-terminated copy of each module's string
        let mut words: Vec<u32> = Vec::new();
        let mut i: usize = 0;
        while i < n
            invariant
                info0 == old(self).info(),
                modules == Some(ms),
                i <= n,
                n == ms@.len(),
                words@.len() == i,
                self.info() == info0,
                forall|j: int| 0 <= j < i ==> word_ok(self.mem(), ms@[j], words@[j]),
            decreases n - i,
        {
            let m = slice_index_get(ms, i);
            let mut failed = false;
            let mut w: u32 = 0;
            match &m.string {
                None => {},
                Some(s) => {
                    let mut bytes = s.as_str().as_bytes_vec();
                    bytes.push(0);
                    proof {
                        assert(bytes@ =~= encode_utf8(s@).push(0));
                    }
                    let ghost gb = bytes@;
                    let ghost pre = self.mem();
                    match self.memory_management.allocate(bytes) {
                        Some(a) => {
                            proof {
                                lemma_written_range(pre, a, gb);
                                assert forall|j: int| 0 <= j < i implies word_ok(
                                    self.mem(),
                                    ms@[j],
                                    words@[j],
                                ) by {
                                    if ms@[j].string is Some {
                                        let sj = ms@[j].string->0;
                                        lemma_written_preserves_range(
                                            pre,
                                            a,
                                            gb,
                                            words@[j] as int,
                                            encode_utf8(sj@).push(0),
                                        );
                                    }
                                }
                            }
                            w = a as u32;
                        },
                        None => {
                            failed = true;
                        },
                    }
                },
            }
            if failed {
                self.discard_strings(&words);
                self.set_has_modules(false);
                self.header.mods_addr = 0;
                self.header.mods_count = 0;
                return false;
            }
            words.push(w);
            i = i + 1;
        }
        // build the record array
        let mut recs: Vec<u8> = Vec::new();
        let mut k: usize = 0;
        while k < n
            invariant
                info0 == old(self).info(),
                modules == Some(ms),
                k <= n,
                n == ms@.len(),
                words@.len() == n,
                recs@ == spec_records(ms@, words@, k as int),
                recs@.len() == 16 * k,
                self.info() == info0,
                forall|j: int| 0 <= j < n ==> word_ok(self.mem(), ms@[j], words@[j]),
                forall|i2: int|
                    0 <= i2 < ms@.len() ==> (#[trigger] ms@[i2]).start <= u32::MAX && ms@[i2].end
                        <= u32::MAX,
            decreases n - k,
        {
            let m = slice_index_get(ms, k);
            proof {
                assert(ms@[k as int].start <= u32::MAX && ms@[k as int].end <= u32::MAX);
            }
            let ghost recs_before = recs@;
            let mut b0 = u32_to_le_bytes(m.start as u32);
            recs.append(&mut b0);
            let mut b1 = u32_to_le_bytes(m.end as u32);
            recs.append(&mut b1);
            let mut b2 = u32_to_le_bytes(words[k]);
            recs.append(&mut b2);
            let mut b3 = u32_to_le_bytes(0u32);
            recs.append(&mut b3);
            proof {
                assert(recs@ =~= recs_before + spec_record_bytes(ms@[k as int], words@[k as int]));
            }
            k = k + 1;
        }
        proof {
            lemma_records_encoded(ms@, words@, n as int);
        }
        // publish: allocate the array, then update flag, address and count
        let ghost recs_seq = recs@;
        let ghost pre = self.mem();
        match self.memory_management.allocate(recs) {
            Some(a) => {
                if a > 0xFFFF_FFFF {
                    // only possible for an empty list, when the allocator
                    // may answer with the very top of the 4 GiB range
                    self.memory_management.deallocate(a);
                    self.discard_strings(&words);
                    self.set_has_modules(false);
                    self.header.mods_addr = 0;
                    self.header.mods_count = 0;
                    return false;
                }
                proof {
                    lemma_written_range(pre, a, recs_seq);
                    assert forall|j: int| 0 <= j < n implies word_ok(self.mem(), ms@[j], words@[j]) by {
                        if ms@[j].string is Some {
                            let sj = ms@[j].string->0;
                            lemma_written_preserves_range(
                                pre,
                                a,
                                recs_seq,
                                words@[j] as int,
                                encode_utf8(sj@).push(0),
                            );
                        }
                    }
                }
                self.set_has_modules(true);
                self.header.mods_addr = a as u32;
                self.header.mods_count = n as u32;
                proof {
                    let fmem = self.mem();
                    let rr = mem_range(fmem, a as int, (16 * ms@.len()) as nat);
                    assert forall|t: int| 0 <= t < 16 * ms@.len() implies fmem.contains_key(
                        #[trigger] ((a as int + t) as u64),
                    ) && rr[t] == recs_seq[t] by {
                        assert(fmem.contains_key(((a as int + t) as u64)) && fmem[(a as int
                            + t) as u64] == recs_seq[t]);
                    }
                    assert(rr =~= recs_seq);
                    assert(mem_maps_range(fmem, a as int, (16 * ms@.len()) as nat));
                    assert forall|j: int| 0 <= j < ms@.len() implies {
                        &&& le32_at(rr, 16 * j) == (#[trigger] ms@[j]).start as u32
                        &&& le32_at(rr, 16 * j + 4) == ms@[j].end as u32
                        &&& le32_at(rr, 16 * j + 12) == 0
                        &&& match ms@[j].string {
                            None => le32_at(rr, 16 * j + 8) == 0,
                            Some(s) => le32_at(rr, 16 * j + 8) != 0 && mem_has_range(
                                fmem,
                                le32_at(rr, 16 * j + 8) as int,
                                encode_utf8(s@).push(0),
                            ),
                        }
                    } by {
                        assert(rec_encoded(recs_seq, j, ms@[j], words@[j]));
                        assert(word_ok(fmem, ms@[j], words@[j]));
                    }
                }
                true
            },
            None => {
                self.discard_strings(&words);
                self.set_has_modules(false);
                self.header.mods_addr = 0;
                self.header.mods_count = 0;
                false
            },
        }
    }
}

/// The larger of two values.
pub open spec fn spec_max(a: int, b: int) -> int {
    if a >= b {
        a
    } else {
        b
    }
}

/// The end address of the symbol information: for ELF symbols the table
/// address plus entry count times entry size, for a.out symbols the table
/// address plus both size fields plus the two leading size words, and zero
/// when the record carries no symbols.
pub open spec fn spec_sym_end(info: MultibootInfo) -> int {
    match spec_symbols(info) {
        Some(SymbolType::Elf(e)) => e.addr + e.num * e.size,
        Some(SymbolType::AOut(a)) => a.addr + a.tabsize + a.strsize + 8,
        None => 0,
    }
}

/// The end address of the information block: the largest end address over
/// its populated sub-records, rounded up to the next 4096-byte boundary.
/// A sub-record whose flag is clear contributes nothing.  The candidates
/// are the command line, the bootloader name, the symbol information, the
/// memory map, the drives table, the module record array and the last
/// module's contents.  The string lengths and the highest module end are
/// passed in, since they live behind the translator.
pub open spec fn spec_highest_address(
    info: MultibootInfo,
    cl_len: int,
    bl_len: int,
    mods_end: int,
) -> int {
    let m1 = spec_max(
        if spec_flag(info.flags, 0x4) {
            info.cmdline + cl_len
        } else {
            0
        },
        if spec_flag(info.flags, 0x200) {
            info.boot_loader_name + bl_len
        } else {
            0
        },
    );
    let m2 = spec_max(m1, spec_sym_end(info));
    let m3 = spec_max(
        m2,
        if spec_flag(info.flags, 0x40) {
            info.mmap_addr + info.mmap_length
        } else {
            0
        },
    );
    let m4 = spec_max(
        m3,
        if spec_flag(info.flags, 0x80) {
            info.drives_addr + info.drives_length
        } else {
            0
        },
    );
    let m5 = spec_max(
        m4,
        if spec_flag(info.flags, 0x8) {
            info.mods_addr + info.mods_count * 16
        } else {
            0
        },
    );
    let m6 = spec_max(
        m5,
        if spec_flag(info.flags, 0x8) {
            mods_end
        } else {
            0
        },
    );
    spec_round_up_page(m6)
}

/// A length that the translator can answer for a string field: zero when
/// the field or its string is unavailable, else the byte length of the
/// decoded text.
pub open spec fn plausible_text_len(
    mem: Map<u64, u8>,
    flags: u32,
    mask: u32,
    addr: u32,
    l: u64,
) -> bool {
    ||| l == 0
    ||| (spec_text_field(mem, flags, mask, addr) matches Some(t) && l == encode_utf8(t).len())
}

/// The largest end word among the first `count` 16-byte module records of
/// `recs`; zero over an empty list.
pub open spec fn spec_max_module_end(recs: Seq<u8>, count: int) -> int
    decreases count,
{
    if count <= 0 {
        0
    } else {
        spec_max(
            spec_max_module_end(recs, count - 1),
            le32_at(recs, 16 * (count - 1) + 4) as int,
        )
    }
}

/// A module content end that the translator can answer: zero when the
/// module list or its record array is unavailable, else the largest end
/// word among the module records at the stored address.
pub open spec fn plausible_mods_end(
    mem: Map<u64, u8>,
    flags: u32,
    mods_addr: u32,
    mods_count: u32,
    v: u64,
) -> bool {
    ||| v == 0
    ||| {
        &&& spec_flag(flags, 0x8)
        &&& mem_maps_range(mem, mods_addr as int, (16 * mods_count) as nat)
        &&& v == spec_max_module_end(
            mem_range(mem, mods_addr as int, (16 * mods_count) as nat),
            mods_count as int,
        )
    }
}

/// Compute the end address of an information block from its record plus the
/// translator-dependent quantities: the byte lengths of the command line
/// and bootloader name and the highest module content end.
pub fn compute_highest_address(info: &MultibootInfo, cl_len: u64, bl_len: u64, mods_end: u64) -> (r:
    u64)
    requires
        cl_len <= u32::MAX,
        bl_len <= u32::MAX,
        mods_end <= u32::MAX,
    ensures
        r == spec_highest_address(*info, cl_len as int, bl_len as int, mods_end as int),
{
    let mut end: u64 = if info.flags & 0x4 != 0 {
        info.cmdline as u64 + cl_len
    } else {
        0
    };
    let v: u64 = if info.flags & 0x200 != 0 {
        info.boot_loader_name as u64 + bl_len
    } else {
        0
    };
    if v > end {
        end = v;
    }
    let aout = info.flags & 0x10 != 0;
    let elf = info.flags & 0x20 != 0;
    let sym: u64 = if aout && elf {
        0
    } else if elf {
        proof {
            lemma_mul_upper_bound(
                info.syms.w0 as int,
                0xFFFF_FFFF,
                info.syms.w1 as int,
                0xFFFF_FFFF,
            );
        }
        info.syms.w2 as u64 + info.syms.w0 as u64 * info.syms.w1 as u64
    } else if aout {
        info.syms.w2 as u64 + info.syms.w0 as u64 + info.syms.w1 as u64 + 8
    } else {
        0
    };
    if sym > end {
        end = sym;
    }
    let v: u64 = if info.flags & 0x40 != 0 {
        info.mmap_addr as u64 + info.mmap_length as u64
    } else {
        0
    };
    if v > end {
        end = v;
    }
    let v: u64 = if info.flags & 0x80 != 0 {
        info.drives_addr as u64 + info.drives_length as u64
    } else {
        0
    };
    if v > end {
        end = v;
    }
    let v: u64 = if info.flags & 0x8 != 0 {
        info.mods_addr as u64 + info.mods_count as u64 * 16
    } else {
        0
    };
    if v > end {
        end = v;
    }
    if info.flags & 0x8 != 0 && mods_end > end {
        end = mods_end;
    }
    round_up_page(end)
}

impl<M: MemoryManagement> Multiboot<M> {
    /// The end address of the information block: the largest end address
    /// over every populated sub-record, rounded up to the next 4096-byte
    /// boundary.  A caller can treat memory beyond it as safe to claim.
    /// Recomputed in full on every call.  A sub-record whose flag is clear
    /// contributes nothing; a populated one whose contents the translator
    /// cannot produce contributes its raw fields alone.
    pub fn find_highest_address(&self) -> (r: PAddr)
        ensures
            exists|cl_len: u64, bl_len: u64, mods_end: u64|
                {
                    &&& plausible_text_len(
                        self.mem(),
                        self.info().flags,
                        0x4,
                        self.info().cmdline,
                        cl_len,
                    )
                    &&& plausible_text_len(
                        self.mem(),
                        self.info().flags,
                        0x200,
                        self.info().boot_loader_name,
                        bl_len,
                    )
                    &&& mods_end <= u32::MAX
                    &&& plausible_mods_end(
                        self.mem(),
                        self.info().flags,
                        self.info().mods_addr,
                        self.info().mods_count,
                        mods_end,
                    )
                    &&& r == spec_highest_address(
                        self.info(),
                        cl_len as int,
                        bl_len as int,
                        mods_end as int,
                    )
                },
    {
        broadcast use vstd::utf8::decode_utf8_encode_utf8;

        let cl_len: u64 = match self.command_line() {
            Some(s) => {
                proof {
                    lemma_cstr_len(self.mem(), self.info().cmdline as int, 0x1_0000_0000);
                }
                s.as_str().len() as u64
            },
            None => 0,
        };
        let bl_len: u64 = match self.boot_loader_name() {
            Some(s) => {
                proof {
                    lemma_cstr_len(self.mem(), self.info().boot_loader_name as int, 0x1_0000_0000);
                }
                s.as_str().len() as u64
            },
            None => 0,
        };
        let mut mods_end: u64 = 0;
        match self.modules() {
            Some(mut it) => {
                loop
                    invariant
                        it.wf(),
                        it.idx() <= it.total(),
                        mods_end <= u32::MAX,
                        spec_flag(self.info().flags, 0x8),
                        it.mem() == self.mem(),
                        it.total() == self.info().mods_count,
                        mem_maps_range(
                            self.mem(),
                            self.info().mods_addr as int,
                            (16 * self.info().mods_count) as nat,
                        ),
                        it.records() == mem_range(
                            self.mem(),
                            self.info().mods_addr as int,
                            (16 * self.info().mods_count) as nat,
                        ),
                        mods_end == spec_max_module_end(it.records(), it.idx()),
                    ensures
                        it.idx() == it.total(),
                    decreases it.total() - it.idx(),
                {
                    match it.next() {
                        Some(m) => {
                            if m.end > mods_end {
                                mods_end = m.end;
                            }
                        },
                        None => {
                            break ;
                        },
                    }
                }
                proof {
                    assert(plausible_mods_end(
                        self.mem(),
                        self.info().flags,
                        self.info().mods_addr,
                        self.info().mods_count,
                        mods_end,
                    ));
                }
            },
            None => {},
        }
        let r = compute_highest_address(&self.header, cl_len, bl_len, mods_end);
        proof {
            assert(plausible_text_len(
                self.mem(),
                self.info().flags,
                0x4,
                self.info().cmdline,
                cl_len,
            ));
            assert(plausible_text_len(
                self.mem(),
                self.info().flags,
                0x200,
                self.info().boot_loader_name,
                bl_len,
            ));
            assert(plausible_mods_end(
                self.mem(),
                self.info().flags,
                self.info().mods_addr,
                self.info().mods_count,
                mods_end,
            ));
            assert(r == spec_highest_address(
                self.info(),
                cl_len as int,
                bl_len as int,
                mods_end as int,
            ));
        }
        r
    }
}

} // verus!

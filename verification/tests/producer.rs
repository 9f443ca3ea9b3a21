//! Tests for the producer side: building an information record and reading
//! it back through a translator that supports allocation.

use multiboot::information::{
    ColorInfoPalette, ColorInfoRgb, ColorInfoType, ElfSymbols, FramebufferTable, MemoryEntry,
    MemoryManagement, MemoryType, Module, Multiboot, MultibootInfo, PAddr, SymbolType,
};

/// A translator over a growable set of regions, with a bump allocator.
struct AllocMem {
    regions: Vec<(u64, Vec<u8>)>,
    next: u64,
}

impl AllocMem {
    fn new() -> AllocMem {
        AllocMem { regions: Vec::new(), next: 0x100000 }
    }
}

impl MemoryManagement for AllocMem {
    fn mem(&self) -> vstd::map::Map<u64, u8> {
        panic!("never called at run time")
    }

    fn paddr_to_slice(&self, addr: PAddr, length: usize) -> Option<Vec<u8>> {
        let mut i = 0;
        while i < self.regions.len() {
            let (base, data) = &self.regions[i];
            if addr >= *base && addr - base < data.len() as u64 {
                let off = (addr - base) as usize;
                if off + length <= data.len() {
                    return Some(data[off..off + length].to_vec());
                }
            }
            i += 1;
        }
        None
    }

    fn allocate(&mut self, contents: Vec<u8>) -> Option<PAddr> {
        let addr = self.next;
        if addr + contents.len() as u64 > 0x1_0000_0000 {
            return None;
        }
        self.next = addr + contents.len() as u64 + 16;
        self.regions.push((addr, contents));
        Some(addr)
    }

    fn deallocate(&mut self, addr: PAddr) {
        if addr != 0 {
            self.regions.retain(|r| r.0 != addr);
        }
    }
}

/// A translator that can neither read nor allocate.
struct NoMem;

impl MemoryManagement for NoMem {
    fn mem(&self) -> vstd::map::Map<u64, u8> {
        panic!("never called at run time")
    }

    fn paddr_to_slice(&self, _addr: PAddr, _length: usize) -> Option<Vec<u8>> {
        None
    }

    fn allocate(&mut self, _contents: Vec<u8>) -> Option<PAddr> {
        None
    }

    fn deallocate(&mut self, _addr: PAddr) {}
}

#[test]
fn command_line_write_and_read_back() {
    let mut mb = Multiboot::from_ref(MultibootInfo::default(), AllocMem::new());
    assert!(!mb.has_cmdline());
    assert!(mb.set_command_line(Some("root=/dev/sda1")));
    assert!(mb.has_cmdline());
    assert_eq!(mb.command_line().unwrap(), "root=/dev/sda1");
}

#[test]
fn command_line_multibyte_text() {
    // a two-byte UTF-8 sequence must come back as the same character, not
    // as its raw bytes
    let mut mb = Multiboot::from_ref(MultibootInfo::default(), AllocMem::new());
    assert!(mb.set_command_line(Some("caf\u{e9}")));
    let read = mb.command_line().unwrap();
    assert_eq!(read, "caf\u{e9}");
    assert_eq!(read.chars().count(), 4);
    assert_eq!(read.len(), 5);
}

#[test]
fn command_line_cleared() {
    let mut mb = Multiboot::from_ref(MultibootInfo::default(), AllocMem::new());
    assert!(mb.set_command_line(Some("hello")));
    assert!(mb.set_command_line(None));
    assert!(!mb.has_cmdline());
    assert!(mb.command_line().is_none());
}

#[test]
fn command_line_allocation_failure_leaves_no_torn_record() {
    let mut mb = Multiboot::from_ref(MultibootInfo::default(), NoMem);
    assert!(!mb.set_command_line(Some("hello")));
    assert!(!mb.has_cmdline());
    assert!(mb.command_line().is_none());
}

#[test]
fn command_line_invalid_encoding_is_absent() {
    // 0xff never appears in valid UTF-8
    let mut regions = AllocMem::new();
    regions.regions.push((0x5000, vec![0x61, 0xff, 0x62, 0x00]));
    let mut info = vec![0u8; 120];
    info[0] = 0x04; // command-line flag
    info[16] = 0x00;
    info[17] = 0x50; // cmdline = 0x5000
    let parsed = MultibootInfo::from_bytes(&info).unwrap();
    let mb = Multiboot::from_ref(parsed, regions);
    assert!(mb.has_cmdline());
    assert!(mb.command_line().is_none());
}

#[test]
fn boot_loader_name_write_and_read_back() {
    let mut mb = Multiboot::from_ref(MultibootInfo::default(), AllocMem::new());
    assert!(mb.set_boot_loader_name(Some("boots 0.1")));
    assert!(mb.has_boot_loader_name());
    assert_eq!(mb.boot_loader_name().unwrap(), "boots 0.1");
    assert!(mb.set_boot_loader_name(None));
    assert!(mb.boot_loader_name().is_none());
}

#[test]
fn modules_write_and_read_back() {
    let mut mb = Multiboot::from_ref(MultibootInfo::default(), AllocMem::new());
    let modules = vec![
        Module::new(0x1000, 0x2000, Some(String::from("first"))),
        Module::new(0x3000, 0x4000, None),
    ];
    assert!(mb.set_modules(Some(&modules)));
    assert!(mb.has_modules());
    let mut it = mb.modules().unwrap();
    let m = it.next().unwrap();
    assert_eq!(m.start, 0x1000);
    assert_eq!(m.end, 0x2000);
    assert_eq!(m.string.unwrap(), "first");
    let m = it.next().unwrap();
    assert_eq!(m.start, 0x3000);
    assert_eq!(m.end, 0x4000);
    assert!(m.string.is_none());
    assert!(it.next().is_none());
}

#[test]
fn modules_cleared() {
    let mut mb = Multiboot::from_ref(MultibootInfo::default(), AllocMem::new());
    let modules = vec![Module::new(0x1000, 0x2000, None)];
    assert!(mb.set_modules(Some(&modules)));
    assert!(mb.set_modules(None));
    assert!(!mb.has_modules());
    assert!(mb.modules().is_none());
}

#[test]
fn modules_allocation_failure_leaves_no_torn_record() {
    let mut mb = Multiboot::from_ref(MultibootInfo::default(), NoMem);
    let modules = vec![Module::new(0x1000, 0x2000, Some(String::from("x")))];
    assert!(!mb.set_modules(Some(&modules)));
    assert!(!mb.has_modules());
    assert!(mb.modules().is_none());
}

#[test]
fn memory_bounds_round_trip() {
    let mut mb = Multiboot::from_ref(MultibootInfo::default(), NoMem);
    mb.set_memory_bounds(Some((640, 31744)));
    assert!(mb.has_memory_bounds());
    assert_eq!(mb.lower_memory_bound().unwrap(), 640);
    assert_eq!(mb.upper_memory_bound().unwrap(), 31744);
    mb.set_memory_bounds(None);
    assert!(mb.lower_memory_bound().is_none());
    assert!(mb.upper_memory_bound().is_none());
}

#[test]
fn symbols_round_trip_and_mutual_exclusion() {
    let mut mb = Multiboot::from_ref(MultibootInfo::default(), NoMem);
    let elf = ElfSymbols::from_addr(17, 40, 0x8000, 3);
    mb.set_symbols(Some(SymbolType::Elf(elf)));
    assert!(mb.has_elf_symbols());
    assert!(!mb.has_aout_symbols());
    match mb.symbols().unwrap() {
        SymbolType::Elf(e) => {
            assert_eq!(e.num, 17);
            assert_eq!(e.size, 40);
            assert_eq!(e.addr, 0x8000);
            assert_eq!(e.shndx, 3);
        },
        SymbolType::AOut(_) => panic!("wrong symbol type"),
    }
    mb.set_symbols(None);
    assert!(mb.symbols().is_none());
    assert!(!mb.has_elf_symbols());
    assert!(!mb.has_aout_symbols());
}

#[test]
fn symbols_both_flags_read_as_absent() {
    let mut info = vec![0u8; 120];
    info[0] = 0x30; // both symbol flags at once: an invalid state
    let parsed = MultibootInfo::from_bytes(&info).unwrap();
    let mb = Multiboot::from_ref(parsed, NoMem);
    assert!(mb.has_aout_symbols());
    assert!(mb.has_elf_symbols());
    assert!(mb.symbols().is_none());
}

#[test]
fn memory_regions_round_trip() {
    let mut mb = Multiboot::from_ref(MultibootInfo::default(), NoMem);
    mb.set_memory_regions(Some((0x7000, 3)));
    assert!(mb.has_memory_map());
    mb.set_memory_regions(None);
    assert!(!mb.has_memory_map());
    assert!(mb.memory_regions().is_none());
}

#[test]
fn memory_map_variable_stride() {
    // two entries, back to back: the second starts size + 4 bytes after
    // the first
    let mut map = Vec::new();
    map.extend_from_slice(&entry_bytes(&MemoryEntry::new(0x0, 0x9f000, MemoryType::Available)));
    map.extend_from_slice(&entry_bytes(
        &MemoryEntry::new(0x100000, 0x700000, MemoryType::Reserved),
    ));
    let mut mem = AllocMem::new();
    mem.regions.push((0x6000, map));
    let mut info = vec![0u8; 120];
    info[0] = 0x40; // memory-map flag
    info[44] = 48; // mmap_length: two 24-byte entries
    info[48] = 0x00;
    info[49] = 0x60; // mmap_addr = 0x6000
    let parsed = MultibootInfo::from_bytes(&info).unwrap();
    let mb = Multiboot::from_ref(parsed, mem);
    let mut it = mb.memory_regions().unwrap();
    let e = it.next().unwrap();
    assert_eq!(e.base_address(), 0x0);
    assert_eq!(e.length(), 0x9f000);
    assert_eq!(e.memory_type(), MemoryType::Available);
    let e = it.next().unwrap();
    assert_eq!(e.base_address(), 0x100000);
    assert_eq!(e.length(), 0x700000);
    assert_eq!(e.memory_type(), MemoryType::Reserved);
    assert!(it.next().is_none());
}

/// Encode a memory entry as its 24 wire bytes, for building test maps.
fn entry_bytes(e: &MemoryEntry) -> Vec<u8> {
    let mut v = Vec::new();
    v.extend_from_slice(&e.size.to_le_bytes());
    v.extend_from_slice(&e.base_addr.to_le_bytes());
    v.extend_from_slice(&e.length.to_le_bytes());
    v.extend_from_slice(&e.mtype.to_le_bytes());
    v
}

#[test]
fn memory_entry_fields_and_types() {
    let e = MemoryEntry::new(0x12345678, 0x1000, MemoryType::Defect);
    assert_eq!(e.base_address(), 0x12345678);
    assert_eq!(e.length(), 0x1000);
    assert_eq!(e.memory_type(), MemoryType::Defect);
    assert_eq!(e.size, 20);
    assert_eq!(
        MemoryEntry::new(0, 0, MemoryType::Available).memory_type(),
        MemoryType::Available
    );
    assert_eq!(MemoryEntry::new(0, 0, MemoryType::ACPI).memory_type(), MemoryType::ACPI);
    assert_eq!(MemoryEntry::new(0, 0, MemoryType::NVS).memory_type(), MemoryType::NVS);
    // an unrecognized type code reads as reserved memory
    let mut unknown = MemoryEntry::new(0, 0, MemoryType::Available);
    unknown.mtype = 77;
    assert_eq!(unknown.memory_type(), MemoryType::Reserved);
}

#[test]
fn framebuffer_rgb_round_trip() {
    let rgb = ColorInfoRgb {
        red_field_position: 0,
        red_mask_size: 8,
        green_field_position: 8,
        green_mask_size: 8,
        blue_field_position: 16,
        blue_mask_size: 8,
    };
    let table = FramebufferTable::new(0xfd000000, 3200, 800, 600, 32, ColorInfoType::Rgb(rgb));
    assert_eq!(table.addr, 0xfd000000);
    assert_eq!(table.pitch, 3200);
    assert_eq!(table.width, 800);
    assert_eq!(table.height, 600);
    assert_eq!(table.bpp, 32);
    assert_eq!(table.color_info().unwrap(), ColorInfoType::Rgb(rgb));
}

#[test]
fn framebuffer_palette_and_text_round_trip() {
    let palette = ColorInfoPalette { palette_addr: 0xabcd1234, palette_num_colors: 256 };
    let table = FramebufferTable::new(0, 0, 0, 0, 8, ColorInfoType::Palette(palette));
    assert_eq!(table.color_info().unwrap(), ColorInfoType::Palette(palette));
    let table = FramebufferTable::new(0xb8000, 160, 80, 25, 16, ColorInfoType::Text);
    assert_eq!(table.color_info().unwrap(), ColorInfoType::Text);
}

#[test]
fn framebuffer_unknown_tag_is_absent() {
    let mut info = vec![0u8; 120];
    info[1] = 0x10; // framebuffer flag (bit 12)
    info[109] = 0x07; // an unrecognized type tag
    let parsed = MultibootInfo::from_bytes(&info).unwrap();
    let mb = Multiboot::from_ref(parsed, NoMem);
    assert!(mb.framebuffer_table().unwrap().color_info().is_none());
}

#[test]
fn framebuffer_set_and_clear() {
    let mut mb = Multiboot::from_ref(MultibootInfo::default(), NoMem);
    let table = FramebufferTable::new(0x1000, 640, 160, 120, 32, ColorInfoType::Text);
    mb.set_framebuffer_table(Some(table));
    assert!(mb.has_framebuffer_table());
    assert_eq!(mb.framebuffer_table().unwrap().addr, 0x1000);
    mb.set_framebuffer_table(None);
    assert!(mb.framebuffer_table().is_none());
    // clearing restores the all-zero default: an empty indexed palette
    let mut mb2 = Multiboot::from_ref(MultibootInfo::default(), NoMem);
    mb2.set_framebuffer_table(Some(table));
    mb2.set_framebuffer_table(None);
    let info = mb2.into_info();
    assert_eq!(
        info.framebuffer_table.color_info().unwrap(),
        ColorInfoType::Palette(ColorInfoPalette { palette_addr: 0, palette_num_colors: 0 })
    );
}

#[test]
fn highest_address_covers_every_sub_record() {
    // ELF symbol information dominates: addr + num * size, rounded up
    let mut info = vec![0u8; 120];
    info[0] = 0x20; // ELF symbol flag
    info[28] = 0x10; // num = 16
    info[32] = 0x28; // size = 40
    info[36] = 0x00;
    info[37] = 0x90; // addr = 0x9000
    let parsed = MultibootInfo::from_bytes(&info).unwrap();
    let mb = Multiboot::from_ref(parsed, NoMem);
    // 0x9000 + 16 * 40 = 0x9280, rounded up to 0xa000
    assert_eq!(mb.find_highest_address(), 0xa000);
}

#[test]
fn from_bytes_rejects_short_buffers() {
    assert!(MultibootInfo::from_bytes(&[0u8; 119]).is_none());
    assert!(MultibootInfo::from_bytes(&[0u8; 120]).is_some());
}

#[test]
fn info_from_ptr_unavailable() {
    assert!(Multiboot::from_ptr(0x9500, NoMem).is_none());
}

#[test]
fn compute_highest_address_formula() {
    let mut info = MultibootInfo::default();
    info.flags = 0x4; // the command line is populated
    info.cmdline = 0x5000;
    // 0x5000 + 10 = 0x500a, rounded up to the next page
    assert_eq!(multiboot::information::compute_highest_address(&info, 10, 0, 0), 0x6000);
    // a module content end past every other candidate dominates
    info.flags = 0x4 | 0x8;
    assert_eq!(
        multiboot::information::compute_highest_address(&info, 10, 0, 0x12345),
        0x13000
    );
    // already page-aligned values stay put
    info.flags = 0x8;
    info.cmdline = 0;
    assert_eq!(multiboot::information::compute_highest_address(&info, 0, 0, 0x8000), 0x8000);
}

#[test]
fn highest_address_ignores_unpopulated_sub_records() {
    // raw fields of sub-records whose flags are clear contribute nothing
    let mut info = MultibootInfo::default();
    info.cmdline = 0x10000;
    info.mmap_addr = 0x20000;
    info.mmap_length = 0x100;
    info.drives_addr = 0x30000;
    info.drives_length = 0x100;
    info.mods_addr = 0x40000;
    info.mods_count = 4;
    assert_eq!(multiboot::information::compute_highest_address(&info, 64, 0, 0x50000), 0);
    let mb = Multiboot::from_ref(info, NoMem);
    assert_eq!(mb.find_highest_address(), 0);
}

#[test]
fn memory_entry_default_is_empty_reserved() {
    let e = MemoryEntry::default();
    assert_eq!(e.base_address(), 0);
    assert_eq!(e.length(), 0);
    assert_eq!(e.memory_type(), MemoryType::Reserved);
}

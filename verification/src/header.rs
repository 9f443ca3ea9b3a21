//! Decoding of the static Multiboot header embedded in a kernel image.
//!
//! The header is a fixed 48-byte record that starts with a magic word and
//! lives at a 4-byte-aligned offset within the first 8192 bytes of the
//! image.  Its flags word gates the interpretation of the address and video
//! mode fields; the fields themselves always occupy their slots.

use crate::wire::{le32_at, read_u32, set_flag_value, spec_flag, update_flag};
use vstd::arithmetic::div_mod::{lemma_add_mod_noop, lemma_small_mod, lemma_sub_mod_noop};
use vstd::prelude::*;

verus! {

/// The magic constant that opens a Multiboot header.
pub const MULTIBOOT_HEADER_MAGIC: u32 = 0x1BADB002;

/// Size in bytes of the full header record.
pub const HEADER_SIZE: usize = 48;

/// Number of bytes of the image that are searched for the magic word.
pub const HEADER_SEARCH_WINDOW: usize = 8192;

/// The raw 48-byte Multiboot header record.
///
/// Byte layout (all fields little-endian `u32`):
/// offset 0 magic, 4 flags, 8 checksum; 12..32 the five address fields
/// (meaningful iff flag bit 16 is set); 32..48 the four video-mode fields
/// (meaningful iff flag bit 2 is set).
#[derive(Debug, Copy, Clone)]
pub struct MultibootHeader {
    pub magic: u32,
    pub flags: u32,
    pub checksum: u32,
    pub addresses: MultibootAddresses,
    pub video_mode: MultibootVideoMode,
}

/// A decoded Multiboot header together with the offset at which it was found.
#[derive(Debug, Copy, Clone)]
pub struct Header {
    pub header: MultibootHeader,
    /// The byte index within the source image at which the magic was found.
    pub header_start: u32,
}

/// Load addresses specified in the Multiboot header.
///
/// If present, they must be used to load the kernel, regardless of what the
/// ELF header says.
#[derive(Debug, Copy, Clone)]
pub struct MultibootAddresses {
    pub header_address: u32,
    pub load_address: u32,
    pub load_end_address: u32,
    pub bss_end_address: u32,
    pub entry_address: u32,
}

/// Preferred video mode specified in the Multiboot header.
#[derive(Debug, Copy, Clone)]
pub struct MultibootVideoMode {
    pub mode_type: u32,
    pub width: u32,
    pub height: u32,
    pub depth: u32,
}

/// Preferred video mode type.
#[derive(Debug, Copy, Clone, PartialEq, Eq, Structural)]
pub enum VideoModeType {
    LinearGraphics,
    TextMode,
}

/// The address fields stored at byte offset `o` of `b`.
pub open spec fn spec_parse_addresses(b: Seq<u8>, o: int) -> MultibootAddresses {
    MultibootAddresses {
        header_address: le32_at(b, o),
        load_address: le32_at(b, o + 4),
        load_end_address: le32_at(b, o + 8),
        bss_end_address: le32_at(b, o + 12),
        entry_address: le32_at(b, o + 16),
    }
}

/// The video-mode fields stored at byte offset `o` of `b`.
pub open spec fn spec_parse_video_mode(b: Seq<u8>, o: int) -> MultibootVideoMode {
    MultibootVideoMode {
        mode_type: le32_at(b, o),
        width: le32_at(b, o + 4),
        height: le32_at(b, o + 8),
        depth: le32_at(b, o + 12),
    }
}

/// The full header record stored at byte offset `o` of `b`.
pub open spec fn spec_parse_header(b: Seq<u8>, o: int) -> MultibootHeader {
    MultibootHeader {
        magic: le32_at(b, o),
        flags: le32_at(b, o + 4),
        checksum: le32_at(b, o + 8),
        addresses: spec_parse_addresses(b, o + 12),
        video_mode: spec_parse_video_mode(b, o + 32),
    }
}

/// The checksum relation every valid header satisfies:
/// magic + flags + checksum is 0 modulo 2^32.
pub open spec fn checksum_ok(magic: u32, flags: u32, checksum: u32) -> bool {
    (magic + flags + checksum) % 0x1_0000_0000 == 0
}

/// Number of 4-byte words of `b` that fall inside the search window.
pub open spec fn spec_search_limit(b: Seq<u8>) -> int {
    if b.len() / 4 < 2048 {
        b.len() as int / 4
    } else {
        2048
    }
}

/// Whether the word at word index `w` of `b` holds the magic constant.
pub open spec fn magic_at(b: Seq<u8>, w: int) -> bool {
    le32_at(b, 4 * w) == MULTIBOOT_HEADER_MAGIC
}

/// The first word index at or after `w` within the search window whose word
/// holds the magic constant.
pub open spec fn spec_find_magic_from(b: Seq<u8>, w: int) -> Option<int>
    decreases spec_search_limit(b) - w,
{
    if w < 0 || w >= spec_search_limit(b) {
        None
    } else if magic_at(b, w) {
        Some(w)
    } else {
        spec_find_magic_from(b, w + 1)
    }
}

/// Why header decoding failed.
#[derive(Debug, Copy, Clone, PartialEq, Eq, Structural)]
pub enum HeaderDecodeError {
    /// No magic word lies in the search window.  A benign result: the
    /// binary carries no Multiboot header and has to be loaded as an ELF
    /// instead.
    NotFound,
    /// The magic was found, but the record runs past the end of the buffer.
    Truncated,
    /// The magic was found, but the checksum relation fails.
    BadChecksum,
}

/// What decoding a header from the byte buffer `b` yields: the header copied
/// from the first magic occurrence, provided the buffer holds all 48 bytes
/// of the record and the checksum relation is satisfied; otherwise the error
/// naming which of the three conditions failed.
pub open spec fn spec_decode(b: Seq<u8>) -> Result<Header, HeaderDecodeError> {
    match spec_find_magic_from(b, 0) {
        None => Err(HeaderDecodeError::NotFound),
        Some(w) => {
            let h = spec_parse_header(b, 4 * w);
            if 4 * w + 48 > b.len() {
                Err(HeaderDecodeError::Truncated)
            } else if !checksum_ok(h.magic, h.flags, h.checksum) {
                Err(HeaderDecodeError::BadChecksum)
            } else {
                Ok(Header { header: h, header_start: (4 * w) as u32 })
            }
        },
    }
}

/// `spec_decode` with the three failures collapsed to one: what
/// `from_slice` yields.
pub open spec fn spec_from_slice(b: Seq<u8>) -> Option<Header> {
    match spec_decode(b) {
        Ok(h) => Some(h),
        Err(_) => None,
    }
}

/// A found word index always lies inside the search window and carries the
/// magic constant.
proof fn lemma_find_magic_bounds(b: Seq<u8>, s: int, w: int)
    requires
        spec_find_magic_from(b, s) == Some(w),
    ensures
        s <= w < spec_search_limit(b),
        magic_at(b, w),
    decreases spec_search_limit(b) - s,
{
    if 0 <= s < spec_search_limit(b) && !magic_at(b, s) {
        lemma_find_magic_bounds(b, s + 1, w);
    }
}

/// A wrapping 32-bit sum is zero exactly when the mathematical sum is zero
/// modulo 2^32.
proof fn lemma_wrapping_checksum(m: u32, f: u32, c: u32)
    ensures
        (((m + f) % 0x1_0000_0000) + c) % 0x1_0000_0000 == (m + f + c) % 0x1_0000_0000,
{
    lemma_small_mod(c as nat, 0x1_0000_0000);
    lemma_add_mod_noop(m + f, c as int, 0x1_0000_0000);
}

impl Header {
    /// Decode the header from a byte slice, distinguishing the benign
    /// no-header result from a malformed record.
    ///
    /// The record is copied out of the slice.  An absent magic word is
    /// `NotFound`; a magic word whose record runs past the end of the slice
    /// or whose checksum relation fails is `Truncated` or `BadChecksum`.
    pub fn decode(buffer: &[u8]) -> (r: Result<Header, HeaderDecodeError>)
        ensures
            r == spec_decode(buffer@),
    {
        let w = match Self::find_magic(buffer) {
            Some(w) => w,
            None => {
                return Err(HeaderDecodeError::NotFound);
            },
        };
        proof {
            lemma_find_magic_bounds(buffer@, 0, w as int);
        }
        let o = w * 4;
        if buffer.len() < HEADER_SIZE || o > buffer.len() - HEADER_SIZE {
            return Err(HeaderDecodeError::Truncated);
        }
        let header = Self::parse_at(buffer, o);
        let sum = header.magic.wrapping_add(header.flags).wrapping_add(header.checksum);
        proof {
            lemma_wrapping_checksum(header.magic, header.flags, header.checksum);
        }
        if sum != 0 {
            return Err(HeaderDecodeError::BadChecksum);
        }
        Ok(Header { header, header_start: o as u32 })
    }

    /// Decode the header from a byte slice, collapsing the three failures
    /// of [`Header::decode`] into one `None`.
    pub fn from_slice(buffer: &[u8]) -> (r: Option<Header>)
        ensures
            r == spec_from_slice(buffer@),
    {
        match Self::decode(buffer) {
            Ok(header) => Some(header),
            Err(_) => None,
        }
    }

    /// Copy the 48-byte record that starts at byte offset `o`.
    fn parse_at(buffer: &[u8], o: usize) -> (r: MultibootHeader)
        requires
            o + 48 <= buffer@.len(),
        ensures
            r == spec_parse_header(buffer@, o as int),
    {
        let n: usize = buffer.len();
        MultibootHeader {
            magic: read_u32(buffer, o),
            flags: read_u32(buffer, o + 4),
            checksum: read_u32(buffer, o + 8),
            addresses: MultibootAddresses {
                header_address: read_u32(buffer, o + 12),
                load_address: read_u32(buffer, o + 16),
                load_end_address: read_u32(buffer, o + 20),
                bss_end_address: read_u32(buffer, o + 24),
                entry_address: read_u32(buffer, o + 28),
            },
            video_mode: MultibootVideoMode {
                mode_type: read_u32(buffer, o + 32),
                width: read_u32(buffer, o + 36),
                height: read_u32(buffer, o + 40),
                depth: read_u32(buffer, o + 44),
            },
        }
    }

    /// Scan the search window for the first 4-byte-aligned magic word.
    fn find_magic(buffer: &[u8]) -> (r: Option<usize>)
        ensures
            match r {
                Some(w) => spec_find_magic_from(buffer@, 0) == Some(w as int),
                None => spec_find_magic_from(buffer@, 0) is None,
            },
    {
        let n: usize = buffer.len();
        let limit: usize = if n / 4 < HEADER_SEARCH_WINDOW / 4 {
            n / 4
        } else {
            HEADER_SEARCH_WINDOW / 4
        };
        let mut w: usize = 0;
        while w < limit
            invariant
                0 <= w <= limit,
                limit == spec_search_limit(buffer@),
                4 * limit <= buffer@.len(),
                spec_find_magic_from(buffer@, 0) == spec_find_magic_from(buffer@, w as int),
            decreases limit - w,
        {
            let word = read_u32(buffer, 4 * w);
            if word == MULTIBOOT_HEADER_MAGIC {
                return Some(w);
            }
            w = w + 1;
        }
        None
    }

    /// If true, the bootloader has to page-align the modules.
    pub fn wants_modules_page_aligned(&self) -> (r: bool)
        ensures
            r == spec_flag(self.header.flags, 0x1),
    {
        self.header.flags & 0x1 > 0
    }

    /// Set whether the bootloader has to page-align the modules.
    pub fn set_wants_modules_page_aligned(&mut self, flag: bool)
        ensures
            *final(self) == (Header {
                header: MultibootHeader {
                    flags: update_flag(old(self).header.flags, 0x1, flag),
                    ..old(self).header
                },
                ..*old(self)
            }),
    {
        self.header.flags = set_flag_value(self.header.flags, 0x1, flag);
    }

    /// If true, memory information must be passed to the kernel.
    pub fn wants_memory_information(&self) -> (r: bool)
        ensures
            r == spec_flag(self.header.flags, 0x2),
    {
        self.header.flags & 0x2 > 0
    }

    /// Set whether memory information must be passed to the kernel.
    pub fn set_wants_memory_information(&mut self, flag: bool)
        ensures
            *final(self) == (Header {
                header: MultibootHeader {
                    flags: update_flag(old(self).header.flags, 0x2, flag),
                    ..old(self).header
                },
                ..*old(self)
            }),
    {
        self.header.flags = set_flag_value(self.header.flags, 0x2, flag);
    }

    /// If true, the video-mode fields are valid and video information has to
    /// be passed to the kernel.
    pub fn has_video_mode(&self) -> (r: bool)
        ensures
            r == spec_flag(self.header.flags, 0x4),
    {
        self.header.flags & 0x4 > 0
    }

    /// Set whether the video-mode fields are valid.
    pub fn set_has_video_mode(&mut self, flag: bool)
        ensures
            *final(self) == (Header {
                header: MultibootHeader {
                    flags: update_flag(old(self).header.flags, 0x4, flag),
                    ..old(self).header
                },
                ..*old(self)
            }),
    {
        self.header.flags = set_flag_value(self.header.flags, 0x4, flag);
    }

    /// If true, the address fields are valid and must be used to load the
    /// kernel.
    pub fn has_multiboot_addresses(&self) -> (r: bool)
        ensures
            r == spec_flag(self.header.flags, 0x10000),
    {
        self.header.flags & 0x10000 > 0
    }

    /// Set whether the address fields are valid.
    pub fn set_has_multiboot_addresses(&mut self, flag: bool)
        ensures
            *final(self) == (Header {
                header: MultibootHeader {
                    flags: update_flag(old(self).header.flags, 0x10000, flag),
                    ..old(self).header
                },
                ..*old(self)
            }),
    {
        self.header.flags = set_flag_value(self.header.flags, 0x10000, flag);
    }

    /// Get the load addresses specified in the Multiboot header.
    ///
    /// Returns `None` when the address flag is clear, and also when the
    /// stored addresses are inconsistent (the load address must not exceed
    /// the header address); in the latter case the header is malformed.  A
    /// `None` means the binary has to be loaded as an ELF instead.
    pub fn get_addresses(&self) -> (r: Option<MultibootAddresses>)
        ensures
            r == if spec_flag(self.header.flags, 0x10000)
                && self.header.addresses.load_address <= self.header.addresses.header_address {
                Some(self.header.addresses)
            } else {
                None::<MultibootAddresses>
            },
    {
        if self.has_multiboot_addresses()
            && self.header.addresses.load_address <= self.header.addresses.header_address {
            Some(self.header.addresses)
        } else {
            None
        }
    }

    /// Get the preferred video mode specified in the Multiboot header.
    pub fn get_preferred_video_mode(&self) -> (r: Option<MultibootVideoMode>)
        ensures
            r == if spec_flag(self.header.flags, 0x4) {
                Some(self.header.video_mode)
            } else {
                None::<MultibootVideoMode>
            },
    {
        if self.has_video_mode() {
            Some(self.header.video_mode)
        } else {
            None
        }
    }
}

impl MultibootAddresses {
    /// Compute the offset of the load address into the binary: the offset at
    /// which the header was found, minus the distance from the load address
    /// to the header address.  Both subtractions wrap modulo 2^32, so a
    /// malformed header yields a wrapped value rather than a failure.
    pub fn compute_load_offset(&self, header_start: u32) -> (r: u32)
        ensures
            r == (header_start - (self.header_address - self.load_address)) % 0x1_0000_0000,
    {
        proof {
            lemma_small_mod(self.load_address as nat, 0x1_0000_0000);
            lemma_small_mod(header_start as nat, 0x1_0000_0000);
            lemma_sub_mod_noop(
                self.header_address as int,
                self.load_address as int,
                0x1_0000_0000,
            );
            lemma_sub_mod_noop(
                header_start as int,
                self.header_address - self.load_address,
                0x1_0000_0000,
            );
        }
        header_start.wrapping_sub(self.header_address.wrapping_sub(self.load_address))
    }
}

/// The video mode type encoded by a raw mode-type word: 0 is linear
/// graphics, 1 is text mode, everything else is unrecognized.
pub open spec fn spec_mode_type(raw: u32) -> Option<VideoModeType> {
    if raw == 0 {
        Some(VideoModeType::LinearGraphics)
    } else if raw == 1 {
        Some(VideoModeType::TextMode)
    } else {
        None
    }
}

impl MultibootVideoMode {
    /// Get the preferred video mode type, or `None` for an unrecognized
    /// mode-type word.
    pub fn mode_type(&self) -> (r: Option<VideoModeType>)
        ensures
            r == spec_mode_type(self.mode_type),
    {
        match self.mode_type {
            0 => Some(VideoModeType::LinearGraphics),
            1 => Some(VideoModeType::TextMode),
            _ => None,
        }
    }

    /// Get the preferred depth.  Only pixel-based modes have a depth; text
    /// modes and unrecognized modes do not.
    pub fn depth(&self) -> (r: Option<u32>)
        ensures
            r == if self.mode_type == 0 {
                Some(self.depth)
            } else {
                None::<u32>
            },
    {
        if self.mode_type == 0 {
            Some(self.depth)
        } else {
            None
        }
    }
}

/// For every buffer whose first word already holds the magic constant and
/// that is long enough to hold a full header record, decoding succeeds
/// exactly when the checksum relation holds, and yields the record parsed at
/// offset 0; any deviation in the checksum makes decoding fail with a
/// checksum error, distinguishable from the benign no-header result.
pub proof fn lemma_header_checksum(b: Seq<u8>)
    requires
        b.len() >= 48,
        le32_at(b, 0) == MULTIBOOT_HEADER_MAGIC,
    ensures
        checksum_ok(le32_at(b, 0), le32_at(b, 4), le32_at(b, 8)) ==> spec_decode(b) == Ok::<
            Header,
            HeaderDecodeError,
        >(Header { header: spec_parse_header(b, 0), header_start: 0 }),
        !checksum_ok(le32_at(b, 0), le32_at(b, 4), le32_at(b, 8)) ==> spec_decode(b) == Err::<
            Header,
            HeaderDecodeError,
        >(HeaderDecodeError::BadChecksum),
{
    assert(spec_search_limit(b) >= 12);
    assert(magic_at(b, 0));
    assert(spec_find_magic_from(b, 0) == Some(0int));
}

} // verus!

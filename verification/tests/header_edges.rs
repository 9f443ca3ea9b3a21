//! Edge cases of header decoding: checksum failures, truncation, the
//! search window, the flag setters and the wrapping load-offset formula.

use multiboot::header::{Header, HeaderDecodeError, MultibootAddresses, MULTIBOOT_HEADER_MAGIC};

fn push_u32(v: &mut Vec<u8>, x: u32) {
    v.extend_from_slice(&x.to_le_bytes());
}

/// A buffer holding a header at offset 0: magic, the given flags, the
/// checksum that balances them, and twelve zero words.
fn header_bytes(flags: u32) -> Vec<u8> {
    let checksum = 0u32.wrapping_sub(MULTIBOOT_HEADER_MAGIC).wrapping_sub(flags);
    let mut v = Vec::new();
    push_u32(&mut v, MULTIBOOT_HEADER_MAGIC);
    push_u32(&mut v, flags);
    push_u32(&mut v, checksum);
    for _ in 0..9 {
        push_u32(&mut v, 0);
    }
    v
}

#[test]
fn valid_checksum_decodes() {
    let parsed = Header::from_slice(&header_bytes(0x3)).unwrap();
    assert_eq!(parsed.header_start, 0);
    assert!(parsed.wants_modules_page_aligned());
    assert!(parsed.wants_memory_information());
}

#[test]
fn bad_checksum_fails() {
    let mut bytes = header_bytes(0x3);
    bytes[8] = bytes[8].wrapping_add(1); // disturb the checksum
    assert!(Header::from_slice(&bytes).is_none());
}

#[test]
fn truncated_record_fails() {
    let mut bytes = header_bytes(0);
    bytes.truncate(47); // one byte short of a full record
    assert!(Header::from_slice(&bytes).is_none());
}

#[test]
fn magic_outside_search_window_fails() {
    let mut bytes = vec![0u8; 8192];
    bytes.extend_from_slice(&header_bytes(0));
    assert!(Header::from_slice(&bytes).is_none());
}

#[test]
fn magic_at_window_edge_decodes() {
    let mut bytes = vec![0u8; 8188];
    bytes.extend_from_slice(&header_bytes(0));
    let parsed = Header::from_slice(&bytes).unwrap();
    assert_eq!(parsed.header_start, 8188);
}

#[test]
fn unaligned_magic_is_not_found() {
    let mut bytes = vec![0u8; 2];
    bytes.extend_from_slice(&header_bytes(0));
    bytes.extend_from_slice(&[0, 0]);
    assert!(Header::from_slice(&bytes).is_none());
}

#[test]
fn header_flag_setters() {
    let mut parsed = Header::from_slice(&header_bytes(0)).unwrap();
    assert!(!parsed.has_video_mode());
    parsed.set_has_video_mode(true);
    assert!(parsed.has_video_mode());
    parsed.set_has_multiboot_addresses(true);
    assert!(parsed.has_multiboot_addresses());
    parsed.set_wants_modules_page_aligned(true);
    parsed.set_wants_memory_information(true);
    assert!(parsed.wants_modules_page_aligned());
    assert!(parsed.wants_memory_information());
    parsed.set_has_video_mode(false);
    assert!(!parsed.has_video_mode());
    assert!(parsed.wants_modules_page_aligned());
}

#[test]
fn inconsistent_addresses_are_rejected() {
    // address flag set, but the load address exceeds the header address
    let mut bytes = header_bytes(0x10000);
    bytes[12] = 0x64; // header_addr = 100
    bytes[16] = 0x68; // load_addr = 104
    let parsed = Header::from_slice(&bytes).unwrap();
    assert!(parsed.has_multiboot_addresses());
    assert!(parsed.get_addresses().is_none());
}

#[test]
fn compute_load_offset_wraps() {
    let addresses = MultibootAddresses {
        header_address: 0x100,
        load_address: 0x80,
        load_end_address: 0,
        bss_end_address: 0,
        entry_address: 0,
    };
    assert_eq!(addresses.compute_load_offset(0x90), 0x10);
    // an offset smaller than the distance wraps around
    assert_eq!(addresses.compute_load_offset(0x10), 0xffffff90);
}

#[test]
fn decode_distinguishes_the_three_failures() {
    // no magic in the window: the benign no-header result
    assert!(matches!(Header::decode(&[0xffu8; 64]), Err(HeaderDecodeError::NotFound)));
    // magic present but the checksum off by one: malformed, not absent
    let mut bytes = header_bytes(0);
    bytes[8] = bytes[8].wrapping_add(1);
    assert!(matches!(Header::decode(&bytes), Err(HeaderDecodeError::BadChecksum)));
    // magic present but the record cut short: malformed, not absent
    let mut bytes = header_bytes(0);
    bytes.truncate(40);
    assert!(matches!(Header::decode(&bytes), Err(HeaderDecodeError::Truncated)));
    // a well-formed record decodes
    let parsed = Header::decode(&header_bytes(0x2)).unwrap();
    assert_eq!(parsed.header_start, 0);
    assert!(parsed.wants_memory_information());
}

use ts_demux::SectionReassembler;
use ts_demux::TableParseError;

/// A blob that carries a section header declaring `total - 3` bytes of
/// section_length, so the whole framed section is `total` bytes.
fn framed_section(total: usize) -> Vec<u8> {
    let sec_len = total - 3;
    let mut s = vec![0x00, 0xB0 | ((sec_len >> 8) as u8 & 0x0F), (sec_len & 0xFF) as u8];
    for i in 0..total - 3 {
        s.push((i % 251) as u8);
    }
    s
}

#[test]
fn section_across_two_packets() {
    // 300 bytes exceed one packet's 184-byte payload capacity.
    let section = framed_section(300);
    let mut first_payload = vec![0x00u8];
    first_payload.extend_from_slice(&section[..183]);
    let second_payload = section[183..].to_vec();

    let mut r = SectionReassembler::new();
    let out1 = r.feed(true, &first_payload);
    assert!(!out1.discarded_incomplete);
    assert!(out1.completed.is_none());
    assert!(out1.error.is_none());
    let out2 = r.feed(false, &second_payload);
    assert!(out2.error.is_none());
    let completed = out2.completed.expect("section should complete");
    assert_eq!(completed, section);
}

#[test]
fn pointer_field_skips_bytes() {
    let section = framed_section(10);
    let mut payload = vec![0x02u8, 0xAA, 0xBB];
    payload.extend_from_slice(&section);
    let mut r = SectionReassembler::new();
    let out = r.feed(true, &payload);
    assert_eq!(out.completed.unwrap(), section);
}

#[test]
fn stuffing_after_section_dropped() {
    let section = framed_section(8);
    let mut payload = vec![0x00u8];
    payload.extend_from_slice(&section);
    payload.extend_from_slice(&[0xFF; 20]);
    let mut r = SectionReassembler::new();
    let out = r.feed(true, &payload);
    assert_eq!(out.completed.unwrap(), section);
}

#[test]
fn new_start_discards_incomplete() {
    let long_section = framed_section(500);
    let mut p1 = vec![0x00u8];
    p1.extend_from_slice(&long_section[..100]);
    let short_section = framed_section(6);
    let mut p2 = vec![0x00u8];
    p2.extend_from_slice(&short_section);

    let mut r = SectionReassembler::new();
    let out1 = r.feed(true, &p1);
    assert!(out1.completed.is_none());
    let out2 = r.feed(true, &p2);
    assert!(out2.discarded_incomplete);
    assert_eq!(out2.completed.unwrap(), short_section);
}

#[test]
fn oversize_section_rejected() {
    // section_length 4094 is above the legal maximum 4093.
    let payload = vec![0x00u8, 0x00, 0xBF, 0xFE, 0x01, 0x02];
    let mut r = SectionReassembler::new();
    let out = r.feed(true, &payload);
    assert!(matches!(out.error, Some(TableParseError::SectionTooLarge)));
    assert!(out.completed.is_none());
}

#[test]
fn continuation_without_start_ignored() {
    let mut r = SectionReassembler::new();
    let out = r.feed(false, &[1, 2, 3, 4, 5]);
    assert!(!out.discarded_incomplete);
    assert!(out.completed.is_none());
    assert!(out.error.is_none());
}

#[test]
fn empty_start_payload_resets() {
    let mut r = SectionReassembler::new();
    let long_section = framed_section(500);
    let mut p1 = vec![0x00u8];
    p1.extend_from_slice(&long_section[..50]);
    r.feed(true, &p1);
    let out = r.feed(true, &[]);
    assert!(out.discarded_incomplete);
    assert!(out.completed.is_none());
}

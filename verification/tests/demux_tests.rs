use ts_demux::crc32_mpeg2;
use ts_demux::DemuxEvent;
use ts_demux::Demuxer;
use ts_demux::HeaderParseError;
use ts_demux::TSPayload;
use ts_demux::TableParseError;

fn with_crc(mut body: Vec<u8>) -> Vec<u8> {
    let crc = crc32_mpeg2(&body);
    body.extend_from_slice(&crc.to_be_bytes());
    body
}

fn pat_section(tsid: u16, programs: &[(u16, u16)]) -> Vec<u8> {
    let sec_len = 5 + programs.len() * 4 + 4;
    let mut s = vec![0x00, 0xB0 | ((sec_len >> 8) as u8 & 0x0F), (sec_len & 0xFF) as u8];
    s.extend_from_slice(&tsid.to_be_bytes());
    s.push(0x01);
    s.push(0);
    s.push(0);
    for (pn, pid) in programs {
        s.extend_from_slice(&pn.to_be_bytes());
        s.push(0xE0 | (pid >> 8) as u8);
        s.push((pid & 0xFF) as u8);
    }
    with_crc(s)
}

fn pmt_section(program_num: u16, es: &[(u8, u16)]) -> Vec<u8> {
    let sec_len = 5 + 4 + es.len() * 5 + 4;
    let mut s = vec![0x02, 0xB0 | ((sec_len >> 8) as u8 & 0x0F), (sec_len & 0xFF) as u8];
    s.extend_from_slice(&program_num.to_be_bytes());
    s.push(0x01);
    s.push(0);
    s.push(0);
    s.push(0xE1);
    s.push(0x00);
    s.push(0xF0);
    s.push(0x00);
    for (code, pid) in es {
        s.push(*code);
        s.push(0xE0 | (pid >> 8) as u8);
        s.push((pid & 0xFF) as u8);
        s.push(0xF0);
        s.push(0x00);
    }
    with_crc(s)
}

fn packet(pid: u16, pusi: bool, cc: u8, payload: &[u8]) -> Vec<u8> {
    let mut p = vec![
        0x47,
        ((pusi as u8) << 6) | ((pid >> 8) as u8 & 0x1F),
        (pid & 0xFF) as u8,
        0x10 | (cc & 0x0F),
    ];
    p.extend_from_slice(payload);
    while p.len() < 188 {
        p.push(0xFF);
    }
    p
}

fn psi_packet(pid: u16, cc: u8, section: &[u8]) -> Vec<u8> {
    let mut payload = vec![0x00u8];
    payload.extend_from_slice(section);
    packet(pid, true, cc, &payload)
}

#[test]
fn pat_then_pmt_decoded() {
    let mut d = Demuxer::new(188);
    let events = d.feed(&psi_packet(0, 0, &pat_section(1, &[(1, 0x1000)])));
    assert_eq!(events.len(), 1);
    match &events[0] {
        DemuxEvent::TableDecoded(TSPayload::PAT(pat)) => {
            assert_eq!(pat.programs.len(), 1);
            assert_eq!(pat.programs[0].program_map_pid.as_u16(), 0x1000);
        }
        other => panic!("expected a decoded PAT, got {:?}", other),
    }
    // The PMT PID was learned from the PAT, so a section there decodes.
    let events = d.feed(&psi_packet(0x1000, 0, &pmt_section(1, &[(0x1B, 0x0101)])));
    assert_eq!(events.len(), 1);
    match &events[0] {
        DemuxEvent::TableDecoded(TSPayload::PMT(pmt)) => {
            assert_eq!(pmt.program_num, 1);
            assert_eq!(pmt.table.len(), 1);
            assert_eq!(pmt.table[0].elementary_pid.as_u16(), 0x0101);
        }
        other => panic!("expected a decoded PMT, got {:?}", other),
    }
}

#[test]
fn unclassified_pid_passed_through() {
    let mut d = Demuxer::new(188);
    let data = [0xAB; 10];
    let events = d.feed(&packet(0x0300, false, 0, &data));
    assert_eq!(events.len(), 1);
    match &events[0] {
        DemuxEvent::PayloadPacket(pid, bytes) => {
            assert_eq!(pid.as_u16(), 0x0300);
            assert_eq!(bytes.len(), 184);
            assert_eq!(&bytes[..10], &data);
            assert!(bytes[10..].iter().all(|b| *b == 0xFF));
        }
        other => panic!("expected a payload event, got {:?}", other),
    }
}

#[test]
fn bad_sync_byte_reported() {
    let mut d = Demuxer::new(188);
    let mut p = packet(0, false, 0, &[]);
    p[0] = 0x11;
    let events = d.feed(&p);
    assert_eq!(events.len(), 1);
    assert!(matches!(
        events[0],
        DemuxEvent::PacketHeaderError(HeaderParseError::SyncByteNotFound)
    ));
}

#[test]
fn short_packet_is_end_of_stream() {
    let mut d = Demuxer::new(188);
    assert!(d.feed(&[0x47, 0x00]).is_empty());
    assert!(d.feed(&[]).is_empty());
}

#[test]
fn discontinuity_reported_once_then_resyncs() {
    let mut d = Demuxer::new(188);
    let data = [1, 2, 3];
    assert_eq!(d.feed(&packet(0x0300, false, 0, &data)).len(), 1);
    let events = d.feed(&packet(0x0300, false, 5, &data));
    assert_eq!(events.len(), 2);
    match &events[0] {
        DemuxEvent::Discontinuity(pid) => assert_eq!(pid.as_u16(), 0x0300),
        other => panic!("expected a discontinuity, got {:?}", other),
    }
    assert!(matches!(events[1], DemuxEvent::PayloadPacket(..)));
    // Tracking resynced to 5, so 6 is continuous again.
    let events = d.feed(&packet(0x0300, false, 6, &data));
    assert_eq!(events.len(), 1);
    assert!(matches!(events[0], DemuxEvent::PayloadPacket(..)));
}

#[test]
fn duplicate_packet_payload_ignored() {
    let mut d = Demuxer::new(188);
    d.feed(&packet(0x0300, false, 7, &[1]));
    let events = d.feed(&packet(0x0300, false, 7, &[1]));
    assert!(events.is_empty());
}

#[test]
fn corrupt_crc_reported_as_table_error() {
    let mut d = Demuxer::new(188);
    let mut section = pat_section(1, &[(1, 0x1000)]);
    let n = section.len();
    section[n - 1] ^= 0x01;
    let events = d.feed(&psi_packet(0, 0, &section));
    assert_eq!(events.len(), 1);
    match &events[0] {
        DemuxEvent::TableError(pid, e) => {
            assert_eq!(pid.as_u16(), 0);
            assert_eq!(*e, TableParseError::CrcMismatch);
        }
        other => panic!("expected a table error, got {:?}", other),
    }
}

#[test]
fn section_split_across_packets_decodes() {
    // A PAT with 60 programs is 252 bytes framed: too long for one packet.
    let programs: Vec<(u16, u16)> = (1..=60).map(|i| (i as u16, 0x1000 + i as u16)).collect();
    let section = pat_section(9, &programs);
    assert!(section.len() > 184);
    let mut first_payload = vec![0x00u8];
    first_payload.extend_from_slice(&section[..183]);
    let mut d = Demuxer::new(188);
    let events = d.feed(&packet(0, true, 0, &first_payload));
    assert!(events.is_empty());
    let events = d.feed(&packet(0, false, 1, &section[183..]));
    assert_eq!(events.len(), 1);
    match &events[0] {
        DemuxEvent::TableDecoded(TSPayload::PAT(pat)) => {
            assert_eq!(pat.programs.len(), 60);
            assert_eq!(pat.programs[59].program_map_pid.as_u16(), 0x1000 + 60);
        }
        other => panic!("expected a decoded PAT, got {:?}", other),
    }
}

#[test]
fn new_start_reports_incomplete_section() {
    let mut d = Demuxer::new(188);
    let programs: Vec<(u16, u16)> = (1..=60).map(|i| (i as u16, 0x1000 + i as u16)).collect();
    let long_section = pat_section(9, &programs);
    let mut first_payload = vec![0x00u8];
    first_payload.extend_from_slice(&long_section[..183]);
    d.feed(&packet(0, true, 0, &first_payload));
    // A new start before completion discards the partial section.
    let events = d.feed(&psi_packet(0, 1, &pat_section(1, &[(1, 0x1000)])));
    assert_eq!(events.len(), 2);
    match &events[0] {
        DemuxEvent::IncompleteSection(pid) => assert_eq!(pid.as_u16(), 0),
        other => panic!("expected an incomplete-section event, got {:?}", other),
    }
    assert!(matches!(events[1], DemuxEvent::TableDecoded(_)));
}

#[test]
fn fec_tail_of_204_byte_packet_ignored() {
    let mut d = Demuxer::new(204);
    let mut p = psi_packet(0, 0, &pat_section(1, &[(1, 0x1000)]));
    p.extend_from_slice(&[0xEE; 16]);
    assert_eq!(p.len(), 204);
    let events = d.feed(&p);
    assert_eq!(events.len(), 1);
    assert!(matches!(events[0], DemuxEvent::TableDecoded(_)));
    assert_eq!(d.packet_size(), 204);
}

#[test]
fn adaptation_field_skipped_before_payload() {
    let mut d = Demuxer::new(188);
    // adaptation_field_control = both (0x30), adaptation field length 3.
    let mut p = vec![0x47, 0x03, 0x00, 0x30];
    p.push(3);
    p.extend_from_slice(&[0x00, 0x00, 0x00]);
    p.extend_from_slice(&[0xCD; 4]);
    while p.len() < 188 {
        p.push(0xFF);
    }
    let events = d.feed(&p);
    assert_eq!(events.len(), 1);
    match &events[0] {
        DemuxEvent::PayloadPacket(pid, bytes) => {
            assert_eq!(pid.as_u16(), 0x0300);
            assert_eq!(&bytes[..4], &[0xCD; 4]);
            assert_eq!(bytes.len(), 188 - 4 - 1 - 3);
        }
        other => panic!("expected a payload event, got {:?}", other),
    }
}

use ts_demux::crc32_mpeg2;
use ts_demux::tables::decode;
use ts_demux::StreamType;
use ts_demux::TSPayload;
use ts_demux::TableParseError;

fn with_crc(mut body: Vec<u8>) -> Vec<u8> {
    let crc = crc32_mpeg2(&body);
    body.extend_from_slice(&crc.to_be_bytes());
    body
}

fn pat_section(tsid: u16, version: u8, programs: &[(u16, u16)]) -> Vec<u8> {
    let sec_len = 5 + programs.len() * 4 + 4;
    let mut s = vec![0x00, 0xB0 | ((sec_len >> 8) as u8 & 0x0F), (sec_len & 0xFF) as u8];
    s.extend_from_slice(&tsid.to_be_bytes());
    s.push((version << 1) | 1);
    s.push(0);
    s.push(0);
    for (pn, pid) in programs {
        s.extend_from_slice(&pn.to_be_bytes());
        s.push(0xE0 | (pid >> 8) as u8);
        s.push((pid & 0xFF) as u8);
    }
    with_crc(s)
}

fn pmt_section(program_num: u16, version: u8, pcr: u16, es: &[(u8, u16, Vec<u8>)]) -> Vec<u8> {
    let es_total: usize = es.iter().map(|(_, _, d)| 5 + d.len()).sum();
    let sec_len = 5 + 4 + es_total + 4;
    let mut s = vec![0x02, 0xB0 | ((sec_len >> 8) as u8 & 0x0F), (sec_len & 0xFF) as u8];
    s.extend_from_slice(&program_num.to_be_bytes());
    s.push((version << 1) | 1);
    s.push(0);
    s.push(0);
    s.push(0xE0 | (pcr >> 8) as u8);
    s.push((pcr & 0xFF) as u8);
    s.push(0xF0);
    s.push(0x00);
    for (code, pid, desc) in es {
        s.push(*code);
        s.push(0xE0 | (pid >> 8) as u8);
        s.push((pid & 0xFF) as u8);
        s.push(0xF0 | ((desc.len() >> 8) as u8 & 0x0F));
        s.push((desc.len() & 0xFF) as u8);
        s.extend_from_slice(desc);
    }
    with_crc(s)
}

#[test]
fn crc32_mpeg2_check_value() {
    // The catalogued check value of CRC-32/MPEG-2.
    assert_eq!(crc32_mpeg2(b"123456789"), 0x0376E6E7);
}

#[test]
fn crc32_mpeg2_empty() {
    assert_eq!(crc32_mpeg2(&[]), 0xFFFF_FFFF);
}

#[test]
fn pat_round_trip_one_program() {
    let section = pat_section(0x0001, 5, &[(1, 0x1000)]);
    let table = decode(&section, 0x00).unwrap();
    match table {
        TSPayload::PAT(pat) => {
            assert_eq!(pat.transport_stream_id, 1);
            assert_eq!(pat.version_number, 5);
            assert_eq!(pat.programs.len(), 1);
            assert_eq!(pat.programs[0].program_num, 1);
            assert_eq!(pat.programs[0].program_map_pid.as_u16(), 0x1000);
        }
        TSPayload::PMT(_) => panic!("expected a PAT"),
    }
}

#[test]
fn pat_several_programs_ordered() {
    let section = pat_section(7, 0, &[(0, 0x0010), (1, 0x1000), (2, 0x1001)]);
    let table = decode(&section, 0x00).unwrap();
    match table {
        TSPayload::PAT(pat) => {
            assert_eq!(pat.programs.len(), 3);
            assert_eq!(pat.programs[0].program_num, 0);
            assert_eq!(pat.programs[0].program_map_pid.as_u16(), 0x0010);
            assert_eq!(pat.programs[2].program_map_pid.as_u16(), 0x1001);
        }
        TSPayload::PMT(_) => panic!("expected a PAT"),
    }
}

#[test]
fn crc_corruption_any_bit_fails_that_section_only() {
    let good = pat_section(1, 0, &[(1, 0x1000)]);
    let other = pat_section(2, 0, &[(3, 0x1100)]);
    let n = good.len();
    for bit in 0..32 {
        let mut bad = good.clone();
        bad[n - 4 + bit / 8] ^= 1 << (bit % 8);
        assert!(matches!(decode(&bad, 0x00), Err(TableParseError::CrcMismatch)));
        // An independent section still decodes.
        assert!(decode(&other, 0x00).is_ok());
    }
}

#[test]
fn unexpected_table_id() {
    let section = pat_section(1, 0, &[(1, 0x1000)]);
    assert!(matches!(decode(&section, 0x02), Err(TableParseError::UnexpectedTableId)));
}

#[test]
fn short_section_malformed() {
    assert!(matches!(decode(&[0x00; 8], 0x00), Err(TableParseError::MalformedSection)));
}

#[test]
fn inconsistent_length_malformed() {
    let mut section = pat_section(1, 0, &[(1, 0x1000)]);
    section[2] = section[2].wrapping_add(1);
    assert!(matches!(decode(&section, 0x00), Err(TableParseError::MalformedSection)));
}

#[test]
fn pat_body_not_whole_records_malformed() {
    // A body of 3 bytes between header and CRC is not a whole record.
    let sec_len = 5 + 3 + 4;
    let mut s = vec![0x00, 0xB0, sec_len as u8, 0, 1, 0x01, 0, 0, 0xAA, 0xBB, 0xCC];
    let crc = crc32_mpeg2(&s);
    s.extend_from_slice(&crc.to_be_bytes());
    assert!(matches!(decode(&s, 0x00), Err(TableParseError::MalformedSection)));
}

#[test]
fn pmt_round_trip_with_descriptor() {
    let section = pmt_section(42, 3, 0x0100, &[(0x1B, 0x0101, vec![0x0A, 0x01, 0x99])]);
    let table = decode(&section, 0x02).unwrap();
    match table {
        TSPayload::PMT(pmt) => {
            assert_eq!(pmt.program_num, 42);
            assert_eq!(pmt.version_number, 3);
            assert_eq!(pmt.pcr_pid.unwrap().as_u16(), 0x0100);
            assert_eq!(pmt.table.len(), 1);
            let es = &pmt.table[0];
            assert_eq!(es.stream_type_code, 0x1B);
            assert_eq!(es.stream_type, Some(StreamType::H264));
            assert_eq!(es.elementary_pid.as_u16(), 0x0101);
            assert_eq!(es.descriptors.len(), 1);
            assert_eq!(es.descriptors[0].tag, 0x0A);
            assert_eq!(es.descriptors[0].data, vec![0x99]);
        }
        TSPayload::PAT(_) => panic!("expected a PMT"),
    }
}

#[test]
fn pmt_pcr_absent_when_1fff() {
    let section = pmt_section(1, 0, 0x1FFF, &[(0x02, 0x0200, vec![])]);
    match decode(&section, 0x02).unwrap() {
        TSPayload::PMT(pmt) => {
            assert!(pmt.pcr_pid.is_none());
            assert_eq!(pmt.table[0].stream_type, Some(StreamType::MPEG2Video));
        }
        TSPayload::PAT(_) => panic!("expected a PMT"),
    }
}

#[test]
fn unknown_stream_type_retained_not_fatal() {
    let section = pmt_section(1, 0, 0x0100, &[(0x77, 0x0300, vec![]), (0x03, 0x0301, vec![])]);
    match decode(&section, 0x02).unwrap() {
        TSPayload::PMT(pmt) => {
            assert_eq!(pmt.table.len(), 2);
            assert_eq!(pmt.table[0].stream_type, None);
            assert_eq!(pmt.table[0].stream_type_code, 0x77);
            assert_eq!(pmt.table[1].stream_type, Some(StreamType::MPEG1Audio));
        }
        TSPayload::PAT(_) => panic!("expected a PMT"),
    }
}

#[test]
fn unknown_stream_type_error_on_inspection() {
    let section = pmt_section(1, 0, 0x0100, &[(0x77, 0x0300, vec![]), (0x1B, 0x0301, vec![])]);
    match decode(&section, 0x02).unwrap() {
        TSPayload::PMT(pmt) => {
            assert!(matches!(
                pmt.table[0].classified_stream_type(),
                Err(TableParseError::UnknownStreamType)
            ));
            assert!(matches!(pmt.table[1].classified_stream_type(), Ok(StreamType::H264)));
        }
        TSPayload::PAT(_) => panic!("expected a PMT"),
    }
}

#[test]
fn pmt_descriptor_overrun_malformed() {
    // The ES record declares 5 descriptor bytes but the body holds none.
    let sec_len = 5 + 4 + 5 + 4;
    let mut s = vec![0x02, 0xB0, sec_len as u8];
    s.extend_from_slice(&[0, 1, 0x01, 0, 0]);
    s.extend_from_slice(&[0xE1, 0x00, 0xF0, 0x00]);
    s.extend_from_slice(&[0x1B, 0xE1, 0x01, 0xF0, 0x05]);
    let crc = crc32_mpeg2(&s);
    s.extend_from_slice(&crc.to_be_bytes());
    assert!(matches!(decode(&s, 0x02), Err(TableParseError::MalformedSection)));
}

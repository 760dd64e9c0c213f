//! PSI table decoding: interpreting a complete, length-framed section as
//! a Program Association Table or a Program Map Table, verifying the
//! trailing MPEG-2 CRC-32, and framing descriptor lists.

use vstd::prelude::*;
use vstd::slice::slice_subrange;
use vstd::slice::slice_to_vec;
use crate::bitfield::BitFieldReader;
use crate::bitfield::spec_be_u16;
use crate::bitfield::spec_be_u32;
use crate::bitfield::lemma_be_u32_injective;
use crate::crc::crc32_mpeg2;
use crate::crc::spec_crc32;
use crate::header::PID;
use crate::header::StreamType;
use crate::header::lemma_mask13;
use crate::header::spec_stream_type;

verus! {

/// Errors of section reassembly and table decoding. The offending
/// section is dropped; sibling PIDs and later sections are unaffected.
#[derive(Debug, Clone, Copy, PartialEq, Eq, Structural)]
pub enum TableParseError {
    /// The section's table_id is not the one expected for its PID.
    UnexpectedTableId,
    /// The trailing CRC-32 does not match the section's bytes.
    CrcMismatch,
    /// A section declared a length above the legal PSI maximum.
    SectionTooLarge,
    /// The section's internal length fields are inconsistent.
    MalformedSection,
    /// An ES record carries a stream-type code this crate cannot classify.
    UnknownStreamType,
}

/// The 12-bit section_length field of a section or reassembly buffer:
/// bytes beyond the 3-byte section header that belong to the section.
pub open spec fn spec_section_len(s: Seq<u8>) -> int
    recommends
        s.len() >= 3,
{
    ((s[1] & 0x0F) as int) * 256 + s[2] as int
}

/// One program entry of a PAT. Program number 0 names the Network
/// Information Table PID, not a program.
#[derive(Debug, Clone, Copy)]
pub struct ProgramAssociation {
    pub program_num: u16,
    pub program_map_pid: PID,
}

/// A decoded Program Association Table.
#[derive(Debug, Clone)]
pub struct PAT {
    pub transport_stream_id: u16,
    pub version_number: u8,
    pub programs: Vec<ProgramAssociation>,
}

/// A tag-length-value descriptor. This crate frames it and never
/// interprets the payload beyond its length.
#[derive(Debug, Clone)]
pub struct Descriptor {
    pub tag: u8,
    pub data: Vec<u8>,
}

/// One elementary-stream record of a PMT. An unclassified stream-type
/// code is retained raw, with `stream_type` absent.
#[derive(Debug, Clone)]
pub struct ESInfo {
    pub stream_type_code: u8,
    pub stream_type: Option<StreamType>,
    pub elementary_pid: PID,
    pub descriptors: Vec<Descriptor>,
}

/// A decoded Program Map Table.
#[derive(Debug, Clone)]
pub struct PMT {
    pub program_num: u16,
    pub version_number: u8,
    pub pcr_pid: Option<PID>,
    pub table: Vec<ESInfo>,
}

/// A decoded PSI table of either kind.
#[derive(Debug, Clone)]
pub enum TSPayload {
    PAT(PAT),
    PMT(PMT),
}

/// Model of a program entry, with the PID as its plain value.
pub ghost struct SpecProgramAssociation {
    pub program_num: u16,
    pub program_map_pid: u16,
}

/// Model of a PAT.
pub ghost struct SpecPat {
    pub transport_stream_id: u16,
    pub version_number: u8,
    pub programs: Seq<SpecProgramAssociation>,
}

/// Model of a descriptor.
pub ghost struct SpecDescriptor {
    pub tag: u8,
    pub data: Seq<u8>,
}

/// Model of an ES record.
pub ghost struct SpecEsInfo {
    pub stream_type_code: u8,
    pub stream_type: Option<StreamType>,
    pub elementary_pid: u16,
    pub descriptors: Seq<SpecDescriptor>,
}

/// Model of a PMT.
pub ghost struct SpecPmt {
    pub program_num: u16,
    pub version_number: u8,
    pub pcr_pid: Option<u16>,
    pub table: Seq<SpecEsInfo>,
}

/// Model of a decoded table of either kind.
pub ghost enum SpecTable {
    Pat(SpecPat),
    Pmt(SpecPmt),
}

impl View for ProgramAssociation {
    type V = SpecProgramAssociation;

    open spec fn view(&self) -> SpecProgramAssociation {
        (SpecProgramAssociation {
            program_num: self.program_num,
            program_map_pid: self.program_map_pid@,
        })
    }
}

/// The models of a sequence of program entries.
pub open spec fn spec_pa_views(v: Seq<ProgramAssociation>) -> Seq<SpecProgramAssociation> {
    v.map_values(|p: ProgramAssociation| p@)
}

impl View for PAT {
    type V = SpecPat;

    open spec fn view(&self) -> SpecPat {
        (SpecPat {
            transport_stream_id: self.transport_stream_id,
            version_number: self.version_number,
            programs: spec_pa_views(self.programs@),
        })
    }
}

impl View for Descriptor {
    type V = SpecDescriptor;

    open spec fn view(&self) -> SpecDescriptor {
        (SpecDescriptor { tag: self.tag, data: self.data@ })
    }
}

/// The models of a sequence of descriptors.
pub open spec fn spec_desc_views(v: Seq<Descriptor>) -> Seq<SpecDescriptor> {
    v.map_values(|d: Descriptor| d@)
}

impl ESInfo {
    /// The record's stream type as a result: the classification, or
    /// `UnknownStreamType` for a code this crate cannot classify. The
    /// record itself was retained either way; only its interpretation
    /// fails.
    pub fn classified_stream_type(&self) -> (r: Result<StreamType, TableParseError>)
        ensures
            r == (match spec_stream_type(self.stream_type_code) {
                Some(t) => Ok::<StreamType, TableParseError>(t),
                None => Err::<StreamType, TableParseError>(TableParseError::UnknownStreamType),
            }),
    {
        match StreamType::from_u8(self.stream_type_code) {
            Ok(t) => Ok(t),
            Err(_) => Err(TableParseError::UnknownStreamType),
        }
    }
}

impl View for ESInfo {
    type V = SpecEsInfo;

    open spec fn view(&self) -> SpecEsInfo {
        (SpecEsInfo {
            stream_type_code: self.stream_type_code,
            stream_type: self.stream_type,
            elementary_pid: self.elementary_pid@,
            descriptors: spec_desc_views(self.descriptors@),
        })
    }
}

/// The models of a sequence of ES records.
pub open spec fn spec_es_views(v: Seq<ESInfo>) -> Seq<SpecEsInfo> {
    v.map_values(|e: ESInfo| e@)
}

impl View for PMT {
    type V = SpecPmt;

    open spec fn view(&self) -> SpecPmt {
        (SpecPmt {
            program_num: self.program_num,
            version_number: self.version_number,
            pcr_pid: match self.pcr_pid {
                Some(p) => Some(p@),
                None => None,
            },
            table: spec_es_views(self.table@),
        })
    }
}

impl View for TSPayload {
    type V = SpecTable;

    open spec fn view(&self) -> SpecTable {
        match self {
            TSPayload::PAT(pat) => SpecTable::Pat(pat@),
            TSPayload::PMT(pmt) => SpecTable::Pmt(pmt@),
        }
    }
}

/// The program entries a PAT body (between the 8-byte section header and
/// the CRC trailer) holds: 4-byte records, or nothing when the body is
/// not a whole number of records.
pub open spec fn spec_parse_pat_programs(b: Seq<u8>) -> Option<Seq<SpecProgramAssociation>>
    decreases b.len(),
{
    if b.len() == 0 {
        Some(Seq::empty())
    } else if b.len() < 4 {
        None
    } else {
        match spec_parse_pat_programs(b.skip(4)) {
            Some(rest) => Some(
                seq![
                    (SpecProgramAssociation {
                        program_num: spec_be_u16(b[0], b[1]),
                        program_map_pid: spec_be_u16(b[2], b[3]) & 0x1FFF,
                    }),
                ] + rest,
            ),
            None => None,
        }
    }
}

/// The descriptors a byte range holds: tag-length-value records, or
/// nothing when a declared length overruns the range.
pub open spec fn spec_parse_descriptors(d: Seq<u8>) -> Option<Seq<SpecDescriptor>>
    decreases d.len(),
{
    if d.len() == 0 {
        Some(Seq::empty())
    } else if d.len() < 2 {
        None
    } else {
        let dlen = d[1] as int;
        if 2 + dlen > d.len() {
            None
        } else {
            match spec_parse_descriptors(d.skip(2 + dlen)) {
                Some(rest) => Some(
                    seq![(SpecDescriptor { tag: d[0], data: d.subrange(2, 2 + dlen) })] + rest,
                ),
                None => None,
            }
        }
    }
}

/// The ES records a PMT body holds after the program-info descriptors:
/// a 5-byte record head followed by that record's descriptors.
pub open spec fn spec_parse_es_list(b: Seq<u8>) -> Option<Seq<SpecEsInfo>>
    decreases b.len(),
{
    if b.len() == 0 {
        Some(Seq::empty())
    } else if b.len() < 5 {
        None
    } else {
        let info_len = ((b[3] & 0x0F) as int) * 256 + b[4] as int;
        if 5 + info_len > b.len() {
            None
        } else {
            match spec_parse_descriptors(b.subrange(5, 5 + info_len)) {
                None => None,
                Some(ds) => match spec_parse_es_list(b.skip(5 + info_len)) {
                    None => None,
                    Some(rest) => Some(
                        seq![
                            (SpecEsInfo {
                                stream_type_code: b[0],
                                stream_type: spec_stream_type(b[0]),
                                elementary_pid: spec_be_u16(b[1], b[2]) & 0x1FFF,
                                descriptors: ds,
                            }),
                        ] + rest,
                    ),
                },
            }
        }
    }
}

/// The CRC-32 value stored in a section's 4-byte trailer.
pub open spec fn spec_stored_crc(s: Seq<u8>) -> u32
    recommends
        s.len() >= 4,
{
    spec_be_u32(s[s.len() - 4], s[s.len() - 3], s[s.len() - 2], s[s.len() - 1])
}

/// The 5-bit version_number of a section.
pub open spec fn spec_version(s: Seq<u8>) -> u8
    recommends
        s.len() >= 6,
{
    (s[5] >> 1) & 0x1F
}

/// What decoding a complete section yields. The table_id must match the
/// expectation (0x00 for a PAT, 0x02 for a PMT), the declared length
/// must frame exactly the given bytes, and the trailing CRC-32 must
/// match the bytes before it; then the body decodes as a PAT or a PMT.
pub open spec fn spec_decode(s: Seq<u8>, expected_table_id: u8) -> Result<
    SpecTable,
    TableParseError,
>
    recommends
        expected_table_id == 0x00 || expected_table_id == 0x02,
{
    if s.len() < 12 {
        Err(TableParseError::MalformedSection)
    } else if s[0] != expected_table_id {
        Err(TableParseError::UnexpectedTableId)
    } else if 3 + spec_section_len(s) != s.len() {
        Err(TableParseError::MalformedSection)
    } else if spec_stored_crc(s) != spec_crc32(s.take(s.len() - 4)) {
        Err(TableParseError::CrcMismatch)
    } else if expected_table_id == 0x00 {
        match spec_parse_pat_programs(s.subrange(8, s.len() - 4)) {
            Some(progs) => Ok(
                SpecTable::Pat(
                    (SpecPat {
                        transport_stream_id: spec_be_u16(s[3], s[4]),
                        version_number: spec_version(s),
                        programs: progs,
                    }),
                ),
            ),
            None => Err(TableParseError::MalformedSection),
        }
    } else {
        if s.len() < 16 {
            Err(TableParseError::MalformedSection)
        } else {
            let pcr_raw = spec_be_u16(s[8], s[9]) & 0x1FFF;
            let pil = ((s[10] & 0x0F) as int) * 256 + s[11] as int;
            if 12 + pil > s.len() - 4 {
                Err(TableParseError::MalformedSection)
            } else {
                match spec_parse_es_list(s.subrange(12 + pil, s.len() - 4)) {
                    Some(es) => Ok(
                        SpecTable::Pmt(
                            (SpecPmt {
                                program_num: spec_be_u16(s[3], s[4]),
                                version_number: spec_version(s),
                                pcr_pid: if pcr_raw == 0x1FFF {
                                    None
                                } else {
                                    Some(pcr_raw)
                                },
                                table: es,
                            }),
                        ),
                    ),
                    None => Err(TableParseError::MalformedSection),
                }
            }
        }
    }
}

/// Big-endian combination of two bytes.
pub fn be16(hi: u8, lo: u8) -> (r: u16)
    ensures
        r == spec_be_u16(hi, lo),
{
    ((hi as u16) << 8) | (lo as u16)
}

/// Parses the 4-byte program records of a PAT body.
pub fn parse_pat_programs(body: &[u8]) -> (r: Result<Vec<ProgramAssociation>, TableParseError>)
    ensures
        match (r, spec_parse_pat_programs(body@)) {
            (Ok(v), Some(ps)) => spec_pa_views(v@) == ps,
            (Err(e), None) => e == TableParseError::MalformedSection,
            _ => false,
        },
{
    let mut out: Vec<ProgramAssociation> = Vec::new();
    let mut pos: usize = 0;
    proof {
        assert(body@.skip(0) =~= body@);
        match spec_parse_pat_programs(body@) {
            Some(ps) => {
                assert(spec_pa_views(out@) + ps =~= ps);
            },
            None => {},
        }
    }
    while pos < body.len()
        invariant
            pos <= body@.len(),
            spec_parse_pat_programs(body@) == (match spec_parse_pat_programs(
                body@.skip(pos as int),
            ) {
                Some(rest) => Some(spec_pa_views(out@) + rest),
                None => None::<Seq<SpecProgramAssociation>>,
            }),
        decreases body@.len() - pos,
    {
        if body.len() - pos < 4 {
            return Err(TableParseError::MalformedSection);
        }
        let pn = be16(body[pos], body[pos + 1]);
        let pr = be16(body[pos + 2], body[pos + 3]);
        let pa = ProgramAssociation { program_num: pn, program_map_pid: PID::new(pr & 0x1FFF) };
        proof {
            lemma_mask13(pr);
            let rem = body@.skip(pos as int);
            assert(rem[0] == body@[pos as int]);
            assert(rem[1] == body@[pos as int + 1]);
            assert(rem[2] == body@[pos as int + 2]);
            assert(rem[3] == body@[pos as int + 3]);
            assert(rem.skip(4) =~= body@.skip(pos as int + 4));
            assert(pa@ == (SpecProgramAssociation {
                program_num: spec_be_u16(rem[0], rem[1]),
                program_map_pid: spec_be_u16(rem[2], rem[3]) & 0x1FFF,
            }));
            assert(spec_pa_views(out@.push(pa)) =~= spec_pa_views(out@) + seq![pa@]);
        }
        let ghost old_out = out@;
        out.push(pa);
        pos = pos + 4;
        proof {
            match spec_parse_pat_programs(body@.skip(pos as int)) {
                Some(rest) => {
                    assert(spec_pa_views(old_out) + (seq![pa@] + rest) =~= spec_pa_views(out@)
                        + rest);
                },
                None => {},
            }
        }
    }
    proof {
        assert(body@.skip(pos as int) =~= Seq::<u8>::empty());
        assert(spec_pa_views(out@) + Seq::<SpecProgramAssociation>::empty() =~= spec_pa_views(
            out@,
        ));
    }
    Ok(out)
}

/// Parses a descriptor list: tag, length, then that many value bytes.
pub fn parse_descriptors(d: &[u8]) -> (r: Result<Vec<Descriptor>, TableParseError>)
    ensures
        match (r, spec_parse_descriptors(d@)) {
            (Ok(v), Some(ds)) => spec_desc_views(v@) == ds,
            (Err(e), None) => e == TableParseError::MalformedSection,
            _ => false,
        },
{
    let mut out: Vec<Descriptor> = Vec::new();
    let mut pos: usize = 0;
    proof {
        assert(d@.skip(0) =~= d@);
        match spec_parse_descriptors(d@) {
            Some(ds) => {
                assert(spec_desc_views(out@) + ds =~= ds);
            },
            None => {},
        }
    }
    while pos < d.len()
        invariant
            pos <= d@.len(),
            spec_parse_descriptors(d@) == (match spec_parse_descriptors(d@.skip(pos as int)) {
                Some(rest) => Some(spec_desc_views(out@) + rest),
                None => None::<Seq<SpecDescriptor>>,
            }),
        decreases d@.len() - pos,
    {
        if d.len() - pos < 2 {
            return Err(TableParseError::MalformedSection);
        }
        let tag = d[pos];
        let dlen = d[pos + 1] as usize;
        if d.len() - pos - 2 < dlen {
            proof {
                let rem = d@.skip(pos as int);
                assert(rem[1] == d@[pos as int + 1]);
                assert(2 + (rem[1] as int) > rem.len());
            }
            return Err(TableParseError::MalformedSection);
        }
        let data = slice_to_vec(slice_subrange(d, pos + 2, pos + 2 + dlen));
        let desc = Descriptor { tag, data };
        proof {
            let rem = d@.skip(pos as int);
            assert(rem[0] == d@[pos as int]);
            assert(rem[1] == d@[pos as int + 1]);
            assert(rem.subrange(2, 2 + dlen as int) =~= d@.subrange(
                pos as int + 2,
                pos as int + 2 + dlen as int,
            ));
            assert(rem.skip(2 + dlen as int) =~= d@.skip(pos as int + 2 + dlen as int));
            assert(desc@ == (SpecDescriptor { tag: rem[0], data: rem.subrange(2, 2 + rem[1] as int) }));
            assert(spec_desc_views(out@.push(desc)) =~= spec_desc_views(out@) + seq![desc@]);
        }
        let ghost old_out = out@;
        out.push(desc);
        pos = pos + 2 + dlen;
        proof {
            match spec_parse_descriptors(d@.skip(pos as int)) {
                Some(rest) => {
                    assert(spec_desc_views(old_out) + (seq![desc@] + rest) =~= spec_desc_views(out@)
                        + rest);
                },
                None => {},
            }
        }
    }
    proof {
        assert(d@.skip(pos as int) =~= Seq::<u8>::empty());
        assert(spec_desc_views(out@) + Seq::<SpecDescriptor>::empty() =~= spec_desc_views(out@));
    }
    Ok(out)
}

/// Parses the ES records of a PMT body, keeping records with unknown
/// stream-type codes (their raw code is retained for the caller).
pub fn parse_es_list(body: &[u8]) -> (r: Result<Vec<ESInfo>, TableParseError>)
    ensures
        match (r, spec_parse_es_list(body@)) {
            (Ok(v), Some(es)) => spec_es_views(v@) == es,
            (Err(e), None) => e == TableParseError::MalformedSection,
            _ => false,
        },
{
    let mut out: Vec<ESInfo> = Vec::new();
    let mut pos: usize = 0;
    proof {
        assert(body@.skip(0) =~= body@);
        match spec_parse_es_list(body@) {
            Some(es) => {
                assert(spec_es_views(out@) + es =~= es);
            },
            None => {},
        }
    }
    while pos < body.len()
        invariant
            pos <= body@.len(),
            spec_parse_es_list(body@) == (match spec_parse_es_list(body@.skip(pos as int)) {
                Some(rest) => Some(spec_es_views(out@) + rest),
                None => None::<Seq<SpecEsInfo>>,
            }),
        decreases body@.len() - pos,
    {
        if body.len() - pos < 5 {
            return Err(TableParseError::MalformedSection);
        }
        let code = body[pos];
        let pr = be16(body[pos + 1], body[pos + 2]);
        let info_len = ((body[pos + 3] & 0x0F) as usize) * 256 + body[pos + 4] as usize;
        proof {
            let rem = body@.skip(pos as int);
            assert(rem[0] == body@[pos as int]);
            assert(rem[1] == body@[pos as int + 1]);
            assert(rem[2] == body@[pos as int + 2]);
            assert(rem[3] == body@[pos as int + 3]);
            assert(rem[4] == body@[pos as int + 4]);
        }
        if body.len() - pos - 5 < info_len {
            return Err(TableParseError::MalformedSection);
        }
        let descriptors = match parse_descriptors(
            slice_subrange(body, pos + 5, pos + 5 + info_len),
        ) {
            Ok(v) => v,
            Err(e) => {
                proof {
                    let rem = body@.skip(pos as int);
                    assert(rem.subrange(5, 5 + info_len as int) =~= body@.subrange(
                        pos as int + 5,
                        pos as int + 5 + info_len as int,
                    ));
                }
                return Err(TableParseError::MalformedSection);
            },
        };
        let stream_type = match StreamType::from_u8(code) {
            Ok(t) => Some(t),
            Err(_) => None,
        };
        let es = ESInfo {
            stream_type_code: code,
            stream_type,
            elementary_pid: PID::new(pr & 0x1FFF),
            descriptors,
        };
        proof {
            lemma_mask13(pr);
            let rem = body@.skip(pos as int);
            assert(rem.subrange(5, 5 + info_len as int) =~= body@.subrange(
                pos as int + 5,
                pos as int + 5 + info_len as int,
            ));
            assert(rem.skip(5 + info_len as int) =~= body@.skip(pos as int + 5 + info_len as int));
            assert(es@ == (SpecEsInfo {
                stream_type_code: rem[0],
                stream_type: spec_stream_type(rem[0]),
                elementary_pid: spec_be_u16(rem[1], rem[2]) & 0x1FFF,
                descriptors: spec_desc_views(descriptors@),
            }));
            assert(spec_es_views(out@.push(es)) =~= spec_es_views(out@) + seq![es@]);
        }
        let ghost old_out = out@;
        out.push(es);
        pos = pos + 5 + info_len;
        proof {
            match spec_parse_es_list(body@.skip(pos as int)) {
                Some(rest) => {
                    assert(spec_es_views(old_out) + (seq![es@] + rest) =~= spec_es_views(out@)
                        + rest);
                },
                None => {},
            }
        }
    }
    proof {
        assert(body@.skip(pos as int) =~= Seq::<u8>::empty());
        assert(spec_es_views(out@) + Seq::<SpecEsInfo>::empty() =~= spec_es_views(out@));
    }
    Ok(out)
}

/// Decodes a complete section as the table its PID announces: a PAT for
/// table_id 0x00, a PMT for 0x02.
pub fn decode(section: &[u8], expected_table_id: u8) -> (r: Result<TSPayload, TableParseError>)
    requires
        expected_table_id == 0x00 || expected_table_id == 0x02,
    ensures
        r is Ok <==> spec_decode(section@, expected_table_id) is Ok,
        r matches Ok(t) ==> t@ == spec_decode(section@, expected_table_id)->Ok_0,
        r matches Err(e) ==> Err::<SpecTable, TableParseError>(e) == spec_decode(
            section@,
            expected_table_id,
        ),
{
    let n = section.len();
    if n < 12 {
        return Err(TableParseError::MalformedSection);
    }
    if section[0] != expected_table_id {
        return Err(TableParseError::UnexpectedTableId);
    }
    let sec_len = ((section[1] & 0x0F) as usize) * 256 + section[2] as usize;
    if 3 + sec_len != n {
        return Err(TableParseError::MalformedSection);
    }
    let computed = crc32_mpeg2(slice_subrange(section, 0, n - 4));
    let mut trailer = BitFieldReader::new(slice_subrange(section, n - 4, n));
    let stored = match trailer.read_u32_be() {
        Ok(v) => v,
        Err(_) => {
            return Err(TableParseError::CrcMismatch);
        },
    };
    proof {
        assert(section@.subrange(0, n - 4) =~= section@.take(section@.len() - 4));
        let t = section@.subrange(n - 4, n as int);
        assert(t[0] == section@[n - 4] && t[1] == section@[n - 3] && t[2] == section@[n - 2]
            && t[3] == section@[n - 1]);
        assert(stored == spec_stored_crc(section@));
    }
    if stored != computed {
        return Err(TableParseError::CrcMismatch);
    }
    let version_number = (section[5] >> 1) & 0x1F;
    let id_value = be16(section[3], section[4]);
    if expected_table_id == 0x00 {
        let programs = match parse_pat_programs(slice_subrange(section, 8, n - 4)) {
            Ok(v) => v,
            Err(e) => {
                return Err(e);
            },
        };
        Ok(
            TSPayload::PAT(
                PAT { transport_stream_id: id_value, version_number, programs },
            ),
        )
    } else {
        if n < 16 {
            return Err(TableParseError::MalformedSection);
        }
        let pcr_raw = be16(section[8], section[9]) & 0x1FFF;
        proof {
            lemma_mask13(spec_be_u16(section@[8], section@[9]));
        }
        let pcr_pid = if pcr_raw == 0x1FFF {
            None
        } else {
            Some(PID::new(pcr_raw))
        };
        let pil = ((section[10] & 0x0F) as usize) * 256 + section[11] as usize;
        if n - 4 - 12 < pil {
            return Err(TableParseError::MalformedSection);
        }
        let table = match parse_es_list(slice_subrange(section, 12 + pil, n - 4)) {
            Ok(v) => v,
            Err(e) => {
                return Err(e);
            },
        };
        Ok(
            TSPayload::PMT(
                PMT { program_num: id_value, version_number, pcr_pid, table },
            ),
        )
    }
}

/// Corrupting any byte of a section's CRC trailer turns a section that
/// decoded into a `CrcMismatch` for that section — and only that
/// section, since decoding is a function of the section's own bytes.
pub proof fn lemma_crc_trailer_corruption(s1: Seq<u8>, s2: Seq<u8>, expected_table_id: u8, i: int)
    requires
        spec_decode(s1, expected_table_id) is Ok,
        s2.len() == s1.len(),
        s1.len() - 4 <= i < s1.len(),
        s2[i] != s1[i],
        forall|j: int| 0 <= j < s1.len() && j != i ==> s1[j] == s2[j],
    ensures
        spec_decode(s2, expected_table_id) == Err::<SpecTable, TableParseError>(
            TableParseError::CrcMismatch,
        ),
{
    let l = s1.len() as int;
    assert(s2.take(l - 4) =~= s1.take(l - 4));
    lemma_be_u32_injective(
        s1[l - 4],
        s1[l - 3],
        s1[l - 2],
        s1[l - 1],
        s2[l - 4],
        s2[l - 3],
        s2[l - 2],
        s2[l - 1],
    );
    assert(spec_stored_crc(s2) != spec_stored_crc(s1));
}

} // verus!

//! TS packet header parsing: the 4-byte fixed header of every packet.

use vstd::prelude::*;
use crate::bitfield::BitFieldReader;
use crate::bitfield::spec_be_u16;

verus! {

/// A 13-bit packet identifier. Always masked to 13 bits at construction,
/// so every value lies below 8192.
#[derive(Debug, Clone, Copy, PartialEq, Eq, Structural)]
pub struct PID(u16);

impl View for PID {
    type V = u16;

    closed spec fn view(&self) -> u16 {
        self.0
    }
}

/// Masking a 16-bit value to 13 bits bounds it by 8192, and doing it
/// twice is the same as doing it once.
pub proof fn lemma_mask13(x: u16)
    by (bit_vector)
    ensures
        (x & 0x1FFF) < 8192,
        ((x & 0x1FFF) & 0x1FFF) == (x & 0x1FFF),
        x < 8192 ==> (x & 0x1FFF) == x,
{
}

impl PID {
    #[verifier::type_invariant]
    pub open spec fn wf(self) -> bool {
        self@ < 8192
    }

    /// Builds a PID from a raw 16-bit value, masking it to 13 bits.
    pub fn new(pid: u16) -> (r: PID)
        ensures
            r@ == (pid & 0x1FFF),
            r@ < 8192,
    {
        proof {
            lemma_mask13(pid);
        }
        PID(pid & 0x1FFF)
    }

    /// The numeric value of the PID, always below 8192.
    pub fn as_u16(&self) -> (r: u16)
        ensures
            r == self@,
            r < 8192,
    {
        proof {
            use_type_invariant(self);
        }
        self.0
    }
}

/// The elementary-stream codecs this crate can classify.
#[derive(Debug, Clone, Copy, PartialEq, Eq, Structural)]
pub enum StreamType {
    MPEG1Video,
    MPEG2Video,
    MPEG1Audio,
    H264,
}

/// The stream type a raw code denotes, or `None` for a code this crate
/// does not classify.
pub open spec fn spec_stream_type(byte: u8) -> Option<StreamType> {
    if byte == 0x01 {
        Some(StreamType::MPEG1Video)
    } else if byte == 0x02 {
        Some(StreamType::MPEG2Video)
    } else if byte == 0x03 {
        Some(StreamType::MPEG1Audio)
    } else if byte == 0x1B {
        Some(StreamType::H264)
    } else {
        None
    }
}

impl StreamType {
    /// Classifies a raw stream-type code.
    pub fn from_u8(byte: u8) -> (r: Result<StreamType, String>)
        ensures
            match spec_stream_type(byte) {
                Some(t) => r matches Ok(v) && v == t,
                None => r is Err,
            },
    {
        match byte {
            0x01 => Ok(StreamType::MPEG1Video),
            0x02 => Ok(StreamType::MPEG2Video),
            0x03 => Ok(StreamType::MPEG1Audio),
            0x1B => Ok(StreamType::H264),
            _ => Err("unknown/unimplemented stream type".to_owned()),
        }
    }
}

/// The four legal values of the 2-bit transport-scrambling-control field.
/// All four decode; none is an error by itself.
#[derive(Debug, Clone, Copy, PartialEq, Eq, Structural)]
pub enum TransportScramblingControl {
    NotScrambled,
    ReservedForFutureUse,
    ScrambledWithEvenKey,
    ScrambledWithOddKey,
}

/// The scrambling control a 2-bit field value denotes.
pub open spec fn spec_scrambling(bits: u8) -> TransportScramblingControl
    recommends
        bits < 4,
{
    if bits == 0 {
        TransportScramblingControl::NotScrambled
    } else if bits == 1 {
        TransportScramblingControl::ReservedForFutureUse
    } else if bits == 2 {
        TransportScramblingControl::ScrambledWithEvenKey
    } else {
        TransportScramblingControl::ScrambledWithOddKey
    }
}

/// The three legal values of the 2-bit adaptation-field-control field;
/// the fourth (zero) is reserved and rejected.
#[derive(Debug, Clone, Copy, PartialEq, Eq, Structural)]
pub enum AdaptationFieldControl {
    PayloadOnly,
    AdaptationFieldOnly,
    AdaptationFieldAndPayload,
}

/// The adaptation field control a nonzero 2-bit field value denotes.
pub open spec fn spec_afc(bits: u8) -> AdaptationFieldControl
    recommends
        1 <= bits < 4,
{
    if bits == 1 {
        AdaptationFieldControl::PayloadOnly
    } else if bits == 2 {
        AdaptationFieldControl::AdaptationFieldOnly
    } else {
        AdaptationFieldControl::AdaptationFieldAndPayload
    }
}

impl AdaptationFieldControl {
    /// Decodes the 2-bit adaptation-field-control value; zero is reserved
    /// and fails, as does anything above 3.
    pub fn from_u8(n: u8) -> (r: Result<AdaptationFieldControl, String>)
        ensures
            1 <= n < 4 ==> (r matches Ok(a) && a == spec_afc(n)),
            (n == 0 || n >= 4) ==> r is Err,
    {
        match n {
            0b01 => Ok(AdaptationFieldControl::PayloadOnly),
            0b10 => Ok(AdaptationFieldControl::AdaptationFieldOnly),
            0b11 => Ok(AdaptationFieldControl::AdaptationFieldAndPayload),
            0b00 => Err("reserved for future use".to_owned()),
            _ => Err("unexpected adaptation field control value".to_owned()),
        }
    }

    /// Whether this control value announces payload bytes in the packet.
    pub fn has_payload(&self) -> (r: bool)
        ensures
            r == (*self == AdaptationFieldControl::PayloadOnly || *self
                == AdaptationFieldControl::AdaptationFieldAndPayload),
    {
        match self {
            AdaptationFieldControl::PayloadOnly => true,
            AdaptationFieldControl::AdaptationFieldOnly => false,
            AdaptationFieldControl::AdaptationFieldAndPayload => true,
        }
    }
}

/// Parse errors of the fixed packet header. Framing errors are fatal to
/// the one packet, never to the stream.
#[derive(Debug, Clone, Copy, PartialEq, Eq, Structural)]
pub enum HeaderParseError {
    SyncByteNotFound,
    ReservedAdaptationFieldControl,
}

/// The decoded 4-byte header of one TS packet.
#[derive(Debug, Clone, Copy, PartialEq, Eq, Structural)]
pub struct TSPacketHeader {
    pub transport_error_indicator: bool,
    pub payload_unit_start_indicator: bool,
    pub transport_priority: bool,
    pub pid: PID,
    pub transport_scrambling_control: TransportScramblingControl,
    pub adaptation_field_control: AdaptationFieldControl,
    pub continuity_counter: u8,
}

/// Mathematical model of a decoded header: the same fields, with the
/// PID as its plain 13-bit value.
pub ghost struct SpecHeader {
    pub transport_error_indicator: bool,
    pub payload_unit_start_indicator: bool,
    pub transport_priority: bool,
    pub pid: u16,
    pub transport_scrambling_control: TransportScramblingControl,
    pub adaptation_field_control: AdaptationFieldControl,
    pub continuity_counter: u8,
}

impl View for TSPacketHeader {
    type V = SpecHeader;

    open spec fn view(&self) -> SpecHeader {
        (SpecHeader {
            transport_error_indicator: self.transport_error_indicator,
            payload_unit_start_indicator: self.payload_unit_start_indicator,
            transport_priority: self.transport_priority,
            pid: self.pid@,
            transport_scrambling_control: self.transport_scrambling_control,
            adaptation_field_control: self.adaptation_field_control,
            continuity_counter: self.continuity_counter,
        })
    }
}

/// The 16-bit value of header bytes 1 and 2, which pack the indicator
/// flags and the PID.
pub open spec fn spec_header_upper(s: Seq<u8>) -> u16
    recommends
        s.len() >= 3,
{
    spec_be_u16(s[1], s[2])
}

/// The header a 4-byte prefix decodes to, field by field.
pub open spec fn spec_header_fields(s: Seq<u8>) -> SpecHeader
    recommends
        s.len() >= 4,
{
    (SpecHeader {
        transport_error_indicator: (spec_header_upper(s) & 0x8000) != 0,
        payload_unit_start_indicator: (spec_header_upper(s) & 0x4000) != 0,
        transport_priority: (spec_header_upper(s) & 0x2000) != 0,
        pid: spec_header_upper(s) & 0x1FFF,
        transport_scrambling_control: spec_scrambling(s[3] >> 6),
        adaptation_field_control: spec_afc((s[3] >> 4) & 0x3),
        continuity_counter: s[3] & 0x0F,
    })
}

/// What parsing a 4-byte header prefix yields: the sync byte must be
/// 0x47, and the 2-bit adaptation field control must not be the reserved
/// value zero; every other input decodes.
pub open spec fn spec_parse_header(s: Seq<u8>) -> Result<SpecHeader, HeaderParseError>
    recommends
        s.len() >= 4,
{
    if s[0] != 0x47 {
        Err(HeaderParseError::SyncByteNotFound)
    } else if (s[3] >> 4) & 0x3 == 0 {
        Err(HeaderParseError::ReservedAdaptationFieldControl)
    } else {
        Ok(spec_header_fields(s))
    }
}

impl TSPacketHeader {
    /// Decodes the 4-byte fixed header at the front of a packet.
    pub fn parse(bytes: &[u8]) -> (r: Result<TSPacketHeader, HeaderParseError>)
        requires
            bytes@.len() >= 4,
        ensures
            r is Ok <==> spec_parse_header(bytes@) is Ok,
            r matches Ok(h) ==> h@ == spec_parse_header(bytes@)->Ok_0,
            r matches Err(e) ==> Err::<SpecHeader, HeaderParseError>(e) == spec_parse_header(
                bytes@,
            ),
            r matches Ok(h) ==> h.continuity_counter < 16 && h.pid@ < 8192,
    {
        let mut reader = BitFieldReader::new(bytes);
        let sync_byte = match reader.read_u8() {
            Ok(b) => b,
            Err(_) => {
                return Err(HeaderParseError::SyncByteNotFound);
            },
        };
        if sync_byte != 0x47 {
            return Err(HeaderParseError::SyncByteNotFound);
        }
        let upper = match reader.read_u16_be() {
            Ok(v) => v,
            Err(_) => {
                return Err(HeaderParseError::SyncByteNotFound);
            },
        };
        let lower = match reader.read_u8() {
            Ok(b) => b,
            Err(_) => {
                return Err(HeaderParseError::SyncByteNotFound);
            },
        };
        let afc_bits = (lower >> 4) & 0x3;
        if afc_bits == 0 {
            return Err(HeaderParseError::ReservedAdaptationFieldControl);
        }
        proof {
            lemma_mask13(upper);
            assert(lower >> 6 < 4) by (bit_vector);
            assert((lower >> 4) & 0x3 < 4) by (bit_vector);
            assert(lower & 0x0F < 16) by (bit_vector);
        }
        let transport_scrambling_control = match lower >> 6 {
            0 => TransportScramblingControl::NotScrambled,
            1 => TransportScramblingControl::ReservedForFutureUse,
            2 => TransportScramblingControl::ScrambledWithEvenKey,
            _ => TransportScramblingControl::ScrambledWithOddKey,
        };
        let adaptation_field_control = match afc_bits {
            1 => AdaptationFieldControl::PayloadOnly,
            2 => AdaptationFieldControl::AdaptationFieldOnly,
            _ => AdaptationFieldControl::AdaptationFieldAndPayload,
        };
        Ok(TSPacketHeader {
            transport_error_indicator: (upper & 0x8000) != 0,
            payload_unit_start_indicator: (upper & 0x4000) != 0,
            transport_priority: (upper & 0x2000) != 0,
            pid: PID(upper & 0x1FFF),
            transport_scrambling_control,
            adaptation_field_control,
            continuity_counter: lower & 0x0F,
        })
    }
}

/// Sync-byte detection is exact: a 4-byte input fails with
/// `SyncByteNotFound` exactly when its first byte is not 0x47.
pub proof fn lemma_sync_byte_exact(s: Seq<u8>)
    requires
        s.len() >= 4,
    ensures
        (spec_parse_header(s) == Err::<SpecHeader, HeaderParseError>(
            HeaderParseError::SyncByteNotFound,
        )) <==> s[0] != 0x47,
{
}

/// PID extraction masks exactly 13 bits: every successfully parsed
/// header carries a PID below 8192, and masking it again changes nothing.
pub proof fn lemma_pid_masked(s: Seq<u8>)
    requires
        s.len() >= 4,
        spec_parse_header(s) is Ok,
    ensures
        spec_parse_header(s)->Ok_0.pid < 8192,
        spec_parse_header(s)->Ok_0.pid & 0x1FFF == spec_parse_header(s)->Ok_0.pid,
{
    lemma_mask13(spec_header_upper(s));
}

} // verus!


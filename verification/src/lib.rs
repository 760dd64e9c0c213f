//! Verified decoder core for MPEG transport streams (ISO/IEC 13818-1).
//!
//! The crate parses fixed-size TS packets, tracks per-PID continuity
//! counters, reassembles Program-Specific Information sections that span
//! packet boundaries, and decodes Program Association Tables and Program
//! Map Tables, checking the trailing CRC-32 of every section.

pub mod bitfield;
pub mod crc;
pub mod demux;
pub mod header;
pub mod reassembler;
pub mod registry;
pub mod tables;

pub use bitfield::BitFieldError;
pub use bitfield::BitFieldReader;
pub use crc::crc32_mpeg2;
pub use demux::DemuxEvent;
pub use demux::Demuxer;
pub use demux::TSPacket;
pub use header::AdaptationFieldControl;
pub use header::HeaderParseError;
pub use header::PID;
pub use header::StreamType;
pub use header::TSPacketHeader;
pub use header::TransportScramblingControl;
pub use reassembler::SectionReassembler;
pub use registry::ContinuityStatus;
pub use registry::PIDRegistry;
pub use registry::PidRole;
pub use tables::Descriptor;
pub use tables::ESInfo;
pub use tables::PAT;
pub use tables::PMT;
pub use tables::ProgramAssociation;
pub use tables::TSPayload;
pub use tables::TableParseError;

//! The demuxer: drives header parsing, continuity recording, PSI
//! routing, section reassembly and table decoding for a whole stream,
//! one packet at a time.

use vstd::prelude::*;
use vstd::slice::slice_subrange;
use vstd::slice::slice_to_vec;
use crate::header::AdaptationFieldControl;
use crate::header::HeaderParseError;
use crate::header::PID;
use crate::header::SpecHeader;
use crate::header::TSPacketHeader;
use crate::header::spec_parse_header;
use crate::reassembler::SectionReassembler;
use crate::reassembler::spec_reassemble;
use crate::registry::ContinuityStatus;
use crate::registry::PIDRegistry;
use crate::registry::PidRole;
use crate::registry::PID_SPACE;
use crate::registry::spec_record;
use crate::tables::SpecProgramAssociation;
use crate::tables::SpecTable;
use crate::tables::TSPayload;
use crate::tables::TableParseError;
use crate::tables::decode;
use crate::tables::spec_decode;

verus! {

/// The fixed part of a packet that matters: headers and payload live in
/// the first 188 bytes; a 204-byte packet ends in FEC bytes that the
/// demuxer ignores.
pub const PACKET_WINDOW: usize = 188;

/// The first 188 bytes of a packet, or all of it when shorter.
pub open spec fn spec_window(packet: Seq<u8>) -> Seq<u8> {
    if packet.len() > PACKET_WINDOW {
        packet.take(PACKET_WINDOW as int)
    } else {
        packet
    }
}

/// Whether a header announces payload bytes.
pub open spec fn spec_has_payload(h: SpecHeader) -> bool {
    h.adaptation_field_control == AdaptationFieldControl::PayloadOnly
        || h.adaptation_field_control == AdaptationFieldControl::AdaptationFieldAndPayload
}

/// The payload bytes of a packet window: everything after the 4-byte
/// header, minus the adaptation field when one is present. A malformed
/// adaptation-field length leaves no payload.
pub open spec fn spec_payload_bytes(w: Seq<u8>, h: SpecHeader) -> Seq<u8>
    recommends
        w.len() >= 4,
{
    match h.adaptation_field_control {
        AdaptationFieldControl::PayloadOnly => w.skip(4),
        AdaptationFieldControl::AdaptationFieldOnly => Seq::empty(),
        AdaptationFieldControl::AdaptationFieldAndPayload => {
            if w.len() >= 5 && 5 + w[4] as int <= w.len() {
                w.skip(5 + w[4] as int)
            } else {
                Seq::empty()
            }
        },
    }
}

/// One packet, parsed: its header and its payload bytes.
pub struct TSPacket {
    pub header: TSPacketHeader,
    pub payload: Vec<u8>,
}

impl TSPacket {
    /// Parses one packet window into header and payload.
    pub fn parse(bytes: &[u8]) -> (r: Result<TSPacket, HeaderParseError>)
        requires
            bytes@.len() >= 4,
        ensures
            r is Ok <==> spec_parse_header(bytes@) is Ok,
            r matches Ok(p) ==> {
                &&& p.header@ == spec_parse_header(bytes@)->Ok_0
                &&& p.payload@ == spec_payload_bytes(bytes@, p.header@)
                &&& p.header.continuity_counter < 16
            },
            r matches Err(e) ==> Err::<SpecHeader, HeaderParseError>(e) == spec_parse_header(
                bytes@,
            ),
    {
        let header = match TSPacketHeader::parse(bytes) {
            Ok(h) => h,
            Err(e) => {
                return Err(e);
            },
        };
        let payload: Vec<u8> = match header.adaptation_field_control {
            AdaptationFieldControl::PayloadOnly => {
                let v = slice_to_vec(slice_subrange(bytes, 4, bytes.len()));
                proof {
                    assert(bytes@.subrange(4, bytes@.len() as int) =~= bytes@.skip(4));
                }
                v
            },
            AdaptationFieldControl::AdaptationFieldOnly => Vec::new(),
            AdaptationFieldControl::AdaptationFieldAndPayload => {
                if bytes.len() >= 5 && bytes[4] as usize <= bytes.len() - 5 {
                    let start = 5 + bytes[4] as usize;
                    let v = slice_to_vec(slice_subrange(bytes, start, bytes.len()));
                    proof {
                        assert(bytes@.subrange(start as int, bytes@.len() as int) =~= bytes@.skip(
                            start as int,
                        ));
                    }
                    v
                } else {
                    Vec::new()
                }
            },
        };
        Ok(TSPacket { header, payload })
    }
}

/// One thing the demuxer observed or produced while digesting a packet.
#[derive(Debug, Clone)]
pub enum DemuxEvent {
    /// The packet's 4-byte header did not parse; the packet is skipped.
    PacketHeaderError(HeaderParseError),
    /// The continuity counter of this PID jumped: packets were lost.
    Discontinuity(PID),
    /// A new section started before the previous one was complete; the
    /// partial section is discarded.
    IncompleteSection(PID),
    /// A complete PSI section decoded to a table.
    TableDecoded(TSPayload),
    /// A section on this PID failed reassembly or decoding.
    TableError(PID, TableParseError),
    /// Payload of a PID not classified as PSI, passed through untouched.
    PayloadPacket(PID, Vec<u8>),
}

/// The roles sequence after learning the PMT PIDs a PAT announces:
/// every entry with a nonzero program number classifies its PID as PMT.
/// Program number 0 names the network PID and is not learned.
pub open spec fn spec_learned_roles(roles: Seq<PidRole>, progs: Seq<SpecProgramAssociation>) -> Seq<
    PidRole,
>
    decreases progs.len(),
{
    if progs.len() == 0 {
        roles
    } else {
        let next = if progs[0].program_num != 0 {
            roles.update(progs[0].program_map_pid as int, PidRole::Pmt)
        } else {
            roles
        };
        spec_learned_roles(next, progs.skip(1))
    }
}

/// Drives the whole pipeline over packets fed in arrival order. All
/// state is scoped to one stream; independent streams use independent
/// demuxers.
pub struct Demuxer {
    packet_size: usize,
    registry: PIDRegistry,
    reassemblers: Vec<SectionReassembler>,
}

impl Demuxer {
    /// The stored continuity counter of each PID.
    pub closed spec fn spec_counters(&self) -> Seq<Option<u8>> {
        self.registry.spec_counters()
    }

    /// The role of each PID.
    pub closed spec fn spec_roles(&self) -> Seq<PidRole> {
        self.registry.spec_roles()
    }

    /// The reassembly state of each PID.
    pub closed spec fn spec_reasm(&self) -> Seq<Option<Seq<u8>>> {
        self.reassemblers@.map_values(|r: SectionReassembler| r@)
    }

    /// The configured packet size (188, or 204 with trailing FEC).
    pub closed spec fn spec_packet_size(&self) -> usize {
        self.packet_size
    }

    /// Well-formedness of the per-PID state tables.
    pub closed spec fn wf(&self) -> bool {
        &&& self.registry.wf()
        &&& self.reassemblers@.len() == PID_SPACE
        &&& (self.packet_size == 188 || self.packet_size == 204)
    }

    /// A fresh demuxer for one stream of the given packet size.
    pub fn new(packet_size: usize) -> (r: Demuxer)
        requires
            packet_size == 188 || packet_size == 204,
        ensures
            r.wf(),
            r.spec_packet_size() == packet_size,
            forall|i: int| 0 <= i < PID_SPACE ==> #[trigger] r.spec_counters()[i] is None,
            r.spec_roles()[0] == PidRole::Pat,
            forall|i: int| 1 <= i < PID_SPACE ==> #[trigger] r.spec_roles()[i]
                == PidRole::Unclassified,
            forall|i: int| 0 <= i < PID_SPACE ==> #[trigger] r.spec_reasm()[i] is None,
    {
        let registry = PIDRegistry::new();
        let mut reassemblers: Vec<SectionReassembler> = Vec::new();
        let mut i: usize = 0;
        while i < PID_SPACE
            invariant
                i <= PID_SPACE,
                reassemblers@.len() == i,
                forall|k: int| 0 <= k < i ==> (#[trigger] reassemblers@[k])@ is None,
            decreases PID_SPACE - i,
        {
            reassemblers.push(SectionReassembler::new());
            i = i + 1;
        }
        Demuxer { packet_size, registry, reassemblers }
    }

    /// The packet size this demuxer was configured with.
    pub fn packet_size(&self) -> (r: usize)
        ensures
            r == self.spec_packet_size(),
    {
        self.packet_size
    }

    /// Digests one packet and reports what happened, as events in a
    /// fixed order: a continuity event first, then reassembly events,
    /// then the decoded table, the table error, or the passed-through
    /// payload. A packet shorter than a header is end of stream and
    /// produces nothing.
    #[verifier::rlimit(100)]
    pub fn feed(&mut self, packet: &[u8]) -> (events: Vec<DemuxEvent>)
        requires
            old(self).wf(),
        ensures
            final(self).wf(),
            final(self).spec_packet_size() == old(self).spec_packet_size(),
            packet@.len() < 4 ==> {
                &&& final(self).spec_counters() == old(self).spec_counters()
                &&& final(self).spec_roles() == old(self).spec_roles()
                &&& final(self).spec_reasm() == old(self).spec_reasm()
                &&& events@.len() == 0
            },
            packet@.len() >= 4 ==> (match spec_parse_header(spec_window(packet@)) {
                Err(e) => {
                    &&& final(self).spec_counters() == old(self).spec_counters()
                    &&& final(self).spec_roles() == old(self).spec_roles()
                    &&& final(self).spec_reasm() == old(self).spec_reasm()
                    &&& events@.len() == 1
                    &&& events@[0] == DemuxEvent::PacketHeaderError(e)
                },
                Ok(h) => {
                    let w = spec_window(packet@);
                    let hp = spec_has_payload(h);
                    let pl = spec_payload_bytes(w, h);
                    let (st, nc) = spec_record(
                        old(self).spec_counters()[h.pid as int],
                        h.continuity_counter,
                        hp,
                    );
                    let role = old(self).spec_roles()[h.pid as int];
                    let psi = role == PidRole::Pat || role == PidRole::Pmt;
                    let routed = hp && st != ContinuityStatus::Duplicate && psi;
                    let (rst, comp, rerr, disc) = spec_reassemble(
                        old(self).spec_reasm()[h.pid as int],
                        h.payload_unit_start_indicator,
                        pl,
                    );
                    let expected: u8 = if role == PidRole::Pat {
                        0x00
                    } else {
                        0x02
                    };
                    &&& final(self).spec_counters() == old(self).spec_counters().update(
                        h.pid as int,
                        nc,
                    )
                    &&& (st == ContinuityStatus::Discontinuity ==> events@.len() >= 1
                        && (events@[0] matches DemuxEvent::Discontinuity(p) && p@ == h.pid))
                    &&& (forall|i: int|
                        0 <= i < events@.len() ==> ((#[trigger] events@[i]) matches
                            DemuxEvent::Discontinuity(p) ==> st == ContinuityStatus::Discontinuity
                            && p@ == h.pid))
                    &&& (!routed ==> {
                        &&& final(self).spec_reasm() == old(self).spec_reasm()
                        &&& final(self).spec_roles() == old(self).spec_roles()
                    })
                    &&& (!routed && hp && st != ContinuityStatus::Duplicate && !psi ==> {
                        &&& events@.len() >= 1
                        &&& (events@[events@.len() - 1] matches DemuxEvent::PayloadPacket(p, b)
                            && p@ == h.pid && b@ == pl)
                    })
                    &&& (routed ==> {
                        &&& final(self).spec_reasm() == old(self).spec_reasm().update(
                            h.pid as int,
                            rst,
                        )
                        &&& (disc ==> exists|i: int|
                            0 <= i < events@.len() && ((#[trigger] events@[i]) matches
                                DemuxEvent::IncompleteSection(p) && p@ == h.pid))
                        &&& (rerr matches Some(e) ==> exists|i: int|
                            0 <= i < events@.len() && ((#[trigger] events@[i]) matches
                                DemuxEvent::TableError(p, e2) && p@ == h.pid && e2 == e))
                        &&& (comp is None ==> final(self).spec_roles() == old(self).spec_roles())
                        &&& (comp matches Some(section) ==> (match spec_decode(section, expected) {
                            Ok(t) => {
                                &&& events@.len() >= 1
                                &&& (events@[events@.len() - 1] matches DemuxEvent::TableDecoded(
                                    tbl,
                                ) && tbl@ == t)
                                &&& final(self).spec_roles() == (match t {
                                    SpecTable::Pat(pat) => spec_learned_roles(
                                        old(self).spec_roles(),
                                        pat.programs,
                                    ),
                                    SpecTable::Pmt(_) => old(self).spec_roles(),
                                })
                            },
                            Err(e) => {
                                &&& events@.len() >= 1
                                &&& (events@[events@.len() - 1] matches DemuxEvent::TableError(
                                    p,
                                    e2,
                                ) && p@ == h.pid && e2 == e)
                                &&& final(self).spec_roles() == old(self).spec_roles()
                            },
                        }))
                    })
                },
            }),
    {
        let mut events: Vec<DemuxEvent> = Vec::new();
        if packet.len() < 4 {
            return events;
        }
        let window_len = if packet.len() > PACKET_WINDOW {
            PACKET_WINDOW
        } else {
            packet.len()
        };
        let window = slice_subrange(packet, 0, window_len);
        proof {
            assert(window@ =~= spec_window(packet@));
        }
        let pkt = match TSPacket::parse(window) {
            Ok(p) => p,
            Err(e) => {
                events.push(DemuxEvent::PacketHeaderError(e));
                return events;
            },
        };
        let h = pkt.header;
        let has_payload = h.adaptation_field_control.has_payload();
        let status = self.registry.record(h.pid, h.continuity_counter, has_payload);
        if status == ContinuityStatus::Discontinuity {
            events.push(DemuxEvent::Discontinuity(h.pid));
        }
        let role = self.registry.role_of(h.pid);
        let psi = role == PidRole::Pat || role == PidRole::Pmt;
        let routed = has_payload && status != ContinuityStatus::Duplicate && psi;
        if routed {
            let idx = h.pid.as_u16() as usize;
            let mut reasm = self.reassemblers.remove(idx);
            let outcome = reasm.feed(h.payload_unit_start_indicator, pkt.payload.as_slice());
            self.reassemblers.insert(idx, reasm);
            proof {
                assert(self.reassemblers@.map_values(|r: SectionReassembler| r@) =~= old(
                    self,
                ).spec_reasm().update(
                    h.pid@ as int,
                    self.reassemblers@.map_values(|r: SectionReassembler| r@)[h.pid@ as int],
                ));
            }
            if outcome.discarded_incomplete {
                events.push(DemuxEvent::IncompleteSection(h.pid));
            }
            match outcome.error {
                Some(e) => {
                    events.push(DemuxEvent::TableError(h.pid, e));
                },
                None => {},
            }
            match outcome.completed {
                None => {},
                Some(section) => {
                    let expected: u8 = if role == PidRole::Pat {
                        0x00
                    } else {
                        0x02
                    };
                    match decode(section.as_slice(), expected) {
                        Ok(tbl) => {
                            match &tbl {
                                TSPayload::PAT(pat) => {
                                    let ghost roles0 = self.registry.spec_roles();
                                    let ghost progs = pat@.programs;
                                    let ghost reasm0 = self.reassemblers@;
                                    proof {
                                        assert(progs.skip(0) =~= progs);
                                    }
                                    let mut i: usize = 0;
                                    while i < pat.programs.len()
                                        invariant
                                            i <= pat.programs@.len(),
                                            self.registry.wf(),
                                            self.reassemblers@ == reasm0,
                                            self.packet_size == old(self).spec_packet_size(),
                                            progs == pat@.programs,
                                            pat@.programs.len() == pat.programs@.len(),
                                            forall|k: int|
                                                0 <= k < pat.programs@.len()
                                                    ==> #[trigger] pat.programs@[k]@ == progs[k],
                                            self.registry.spec_counters() == old(
                                                self,
                                            ).spec_counters().update(
                                                h.pid@ as int,
                                                spec_record(
                                                    old(self).spec_counters()[h.pid@ as int],
                                                    h.continuity_counter,
                                                    spec_has_payload(h@),
                                                ).1,
                                            ),
                                            spec_learned_roles(roles0, progs) == spec_learned_roles(
                                                self.registry.spec_roles(),
                                                progs.skip(i as int),
                                            ),
                                        decreases pat.programs@.len() - i,
                                    {
                                        let pa = pat.programs[i];
                                        proof {
                                            assert(progs.skip(i as int)[0] == progs[i as int]);
                                            assert(progs.skip(i as int).skip(1) =~= progs.skip(
                                                i as int + 1,
                                            ));
                                        }
                                        if pa.program_num != 0 {
                                            self.registry.learn_pmt_pid(pa.program_map_pid);
                                        }
                                        i = i + 1;
                                    }
                                    proof {
                                        assert(progs.skip(progs.len() as int)
                                            =~= Seq::<SpecProgramAssociation>::empty());
                                    }
                                },
                                TSPayload::PMT(_) => {},
                            }
                            events.push(DemuxEvent::TableDecoded(tbl));
                        },
                        Err(e) => {
                            events.push(DemuxEvent::TableError(h.pid, e));
                        },
                    }
                },
            }
        } else {
            if has_payload && status != ContinuityStatus::Duplicate {
                events.push(DemuxEvent::PayloadPacket(h.pid, pkt.payload));
            }
        }
        events
    }
}

} // verus!

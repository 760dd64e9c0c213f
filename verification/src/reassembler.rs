//! Cross-packet section reassembly: accumulates the payload bytes of one
//! PID until the length-framed PSI section they announce is complete.

use vstd::prelude::*;
use vstd::slice::slice_subrange;
use vstd::slice::slice_to_vec;
use crate::tables::TableParseError;
use crate::tables::spec_section_len;

verus! {

/// Largest legal value of the 12-bit PSI section_length field.
pub const MAX_SECTION_LEN: usize = 4093;

/// What one reassembly step reported.
pub struct FeedOutcome {
    /// A partial section was under way and had to be discarded because a
    /// new one started.
    pub discarded_incomplete: bool,
    /// A section completed in this step: its exact framed bytes.
    pub completed: Option<Vec<u8>>,
    /// The step rejected an oversize section.
    pub error: Option<TableParseError>,
}

/// What absorbing an accumulation buffer yields: the buffer kept (when
/// the section header or its framed bytes are still incomplete), the
/// completed section, and the oversize error.
pub open spec fn spec_absorb(buf: Seq<u8>) -> (Option<Seq<u8>>, Option<Seq<u8>>, Option<
    TableParseError,
>) {
    if buf.len() < 3 {
        (Some(buf), None, None)
    } else if spec_section_len(buf) > MAX_SECTION_LEN {
        (None, None, Some(TableParseError::SectionTooLarge))
    } else if buf.len() >= 3 + spec_section_len(buf) {
        (None, Some(buf.take(3 + spec_section_len(buf))), None)
    } else {
        (Some(buf), None, None)
    }
}

/// One reassembly step: the new per-PID state, the completed section if
/// any, the error if any, and whether a partial section was discarded.
/// A start-indicator packet discards any partial section, skips the
/// pointer field and the bytes it covers, and begins accumulating; a
/// continuation packet appends its payload to an open buffer and is
/// ignored when no section is open.
pub open spec fn spec_reassemble(state: Option<Seq<u8>>, pusi: bool, payload: Seq<u8>) -> (
    Option<Seq<u8>>,
    Option<Seq<u8>>,
    Option<TableParseError>,
    bool,
) {
    if pusi {
        let discarded = state is Some;
        if payload.len() == 0 {
            (None, None, None, discarded)
        } else {
            let start = 1 + payload[0] as int;
            if start > payload.len() {
                (None, None, None, discarded)
            } else {
                let (st, comp, err) = spec_absorb(payload.skip(start));
                (st, comp, err, discarded)
            }
        }
    } else {
        match state {
            None => (None, None, None, false),
            Some(buf) => {
                let (st, comp, err) = spec_absorb(buf + payload);
                (st, comp, err, false)
            },
        }
    }
}

/// Per-PID reassembly state machine: empty, or accumulating the bytes
/// of one section.
pub struct SectionReassembler {
    buf: Option<Vec<u8>>,
}

impl View for SectionReassembler {
    type V = Option<Seq<u8>>;

    closed spec fn view(&self) -> Option<Seq<u8>> {
        match self.buf {
            None => None,
            Some(v) => Some(v@),
        }
    }
}

/// Absorbs an accumulation buffer, emitting the section when complete.
fn absorb(buf: Vec<u8>) -> (r: (Option<Vec<u8>>, Option<Vec<u8>>, Option<TableParseError>))
    ensures
        ({
            let (st, comp, err) = spec_absorb(buf@);
            &&& (match (r.0, st) {
                (Some(v), Some(s)) => v@ == s,
                (None, None) => true,
                _ => false,
            })
            &&& (match (r.1, comp) {
                (Some(v), Some(s)) => v@ == s,
                (None, None) => true,
                _ => false,
            })
            &&& r.2 == err
        }),
{
    if buf.len() < 3 {
        (Some(buf), None, None)
    } else {
        let sec_len = ((buf[1] & 0x0F) as usize) * 256 + buf[2] as usize;
        if sec_len > MAX_SECTION_LEN {
            (None, None, Some(TableParseError::SectionTooLarge))
        } else if buf.len() >= 3 + sec_len {
            let mut out = buf;
            out.truncate(3 + sec_len);
            (None, Some(out), None)
        } else {
            (Some(buf), None, None)
        }
    }
}

impl SectionReassembler {
    /// A fresh, empty reassembler.
    pub fn new() -> (r: SectionReassembler)
        ensures
            r@ is None,
    {
        SectionReassembler { buf: None }
    }

    /// Feeds one packet's payload for this PID into the state machine,
    /// as `spec_reassemble` says.
    pub fn feed(&mut self, payload_unit_start: bool, payload: &[u8]) -> (r: FeedOutcome)
        ensures
            ({
                let (st, comp, err, disc) = spec_reassemble(old(self)@, payload_unit_start, payload@);
                &&& (match (final(self)@, st) {
                    (Some(v), Some(s)) => v == s,
                    (None, None) => true,
                    _ => false,
                })
                &&& (match (r.completed, comp) {
                    (Some(v), Some(s)) => v@ == s,
                    (None, None) => true,
                    _ => false,
                })
                &&& r.error == err
                &&& r.discarded_incomplete == disc
            }),
    {
        if payload_unit_start {
            let discarded = self.buf.is_some();
            self.buf = None;
            if payload.len() == 0 {
                return FeedOutcome {
                    discarded_incomplete: discarded,
                    completed: None,
                    error: None,
                };
            }
            let start = 1 + payload[0] as usize;
            if start > payload.len() {
                return FeedOutcome {
                    discarded_incomplete: discarded,
                    completed: None,
                    error: None,
                };
            }
            let fragment = slice_to_vec(slice_subrange(payload, start, payload.len()));
            proof {
                assert(payload@.subrange(start as int, payload@.len() as int) =~= payload@.skip(
                    start as int,
                ));
            }
            let (new_state, completed, error) = absorb(fragment);
            self.buf = new_state;
            FeedOutcome { discarded_incomplete: discarded, completed, error }
        } else {
            let cur = self.buf.take();
            match cur {
                None => FeedOutcome { discarded_incomplete: false, completed: None, error: None },
                Some(mut buffer) => {
                    let ghost prior = buffer@;
                    let mut i: usize = 0;
                    while i < payload.len()
                        invariant
                            i <= payload@.len(),
                            buffer@ == prior + payload@.take(i as int),
                        decreases payload@.len() - i,
                    {
                        buffer.push(payload[i]);
                        proof {
                            assert(prior + payload@.take(i + 1) =~= (prior + payload@.take(
                                i as int,
                            )).push(payload@[i as int]));
                        }
                        i = i + 1;
                    }
                    proof {
                        assert(payload@.take(payload@.len() as int) =~= payload@);
                    }
                    let (new_state, completed, error) = absorb(buffer);
                    self.buf = new_state;
                    FeedOutcome { discarded_incomplete: false, completed, error }
                },
            }
        }
    }
}

/// Reassembly state stays bounded: whatever one step leaves behind is a
/// buffer still below the largest legal framed-section size, so per-PID
/// memory never grows without bound.
pub proof fn lemma_reassembly_bounded(state: Option<Seq<u8>>, pusi: bool, payload: Seq<u8>)
    requires
        state matches Some(b) ==> b.len() < 3 + MAX_SECTION_LEN,
    ensures
        spec_reassemble(state, pusi, payload).0 matches Some(b2) ==> b2.len() < 3
            + MAX_SECTION_LEN + payload.len(),
{
}

/// A section split across two packets reassembles byte-for-byte: a
/// start packet whose fragment (after the pointer skip) holds the
/// section's head, followed by a continuation packet that completes the
/// declared length, emits exactly the framed prefix of the two
/// fragments' concatenation.
pub proof fn lemma_two_packet_reassembly(p1: Seq<u8>, p2: Seq<u8>)
    requires
        p1.len() > 0,
        1 + p1[0] as int <= p1.len(),
        ({
            let frag = p1.skip(1 + p1[0] as int);
            &&& frag.len() >= 3
            &&& spec_section_len(frag) <= MAX_SECTION_LEN
            &&& frag.len() < 3 + spec_section_len(frag)
            &&& frag.len() + p2.len() >= 3 + spec_section_len(frag)
        }),
    ensures
        ({
            let frag = p1.skip(1 + p1[0] as int);
            let (st1, comp1, err1, _) = spec_reassemble(None, true, p1);
            let (st2, comp2, err2, disc2) = spec_reassemble(st1, false, p2);
            &&& comp1 is None
            &&& err1 is None
            &&& st1 == Some(frag)
            &&& comp2 == Some((frag + p2).take(3 + spec_section_len(frag)))
            &&& err2 is None
            &&& disc2 == false
        }),
{
    let frag = p1.skip(1 + p1[0] as int);
    assert((frag + p2).len() == frag.len() + p2.len());
    assert((frag + p2)[1] == frag[1]);
    assert((frag + p2)[2] == frag[2]);
    assert(spec_section_len(frag + p2) == spec_section_len(frag));
}

} // verus!

//! Per-PID state: the last continuity counter seen and the semantic role
//! of each PID (PAT, a learned PMT, or unclassified).

use vstd::prelude::*;
use crate::header::PID;

verus! {

/// Number of distinct PIDs (13-bit space).
pub const PID_SPACE: usize = 8192;

/// What one continuity-counter observation means.
#[derive(Debug, Clone, Copy, PartialEq, Eq, Structural)]
pub enum ContinuityStatus {
    /// The counter is the expected next value (or the first for the PID).
    Continuous,
    /// The counter is not the successor of the last one: packets were lost.
    Discontinuity,
    /// The same counter seen again with payload: a retransmitted packet,
    /// whose payload must be ignored by reassembly.
    Duplicate,
}

/// The semantic role of a PID for PSI routing.
#[derive(Debug, Clone, Copy, PartialEq, Eq, Structural)]
pub enum PidRole {
    Unclassified,
    Pat,
    Pmt,
}

/// What recording a counter does: the status reported, and the counter
/// stored afterwards. The first observation for a PID is always
/// `Continuous`. A repeated counter is `Duplicate` when the packet
/// carries payload (the same packet retransmitted, whose payload
/// reassembly must ignore), and `Continuous` when it does not — the
/// counter only increments on payload-carrying packets. Anything other
/// than the successor mod 16 is a `Discontinuity`, after which tracking
/// resyncs to the new counter.
pub open spec fn spec_record(prev: Option<u8>, counter: u8, has_payload: bool) -> (
    ContinuityStatus,
    Option<u8>,
)
    recommends
        counter < 16,
{
    match prev {
        None => (ContinuityStatus::Continuous, Some(counter)),
        Some(last) => {
            if counter == last {
                if has_payload {
                    (ContinuityStatus::Duplicate, Some(last))
                } else {
                    (ContinuityStatus::Continuous, Some(last))
                }
            } else if counter == (last + 1) % 16 {
                (ContinuityStatus::Continuous, Some(counter))
            } else {
                (ContinuityStatus::Discontinuity, Some(counter))
            }
        },
    }
}

/// Tracks, per PID, the last continuity counter and the PID's role.
pub struct PIDRegistry {
    counters: Vec<Option<u8>>,
    roles: Vec<PidRole>,
}

impl PIDRegistry {
    /// The stored counter of each PID, indexed by PID value.
    pub closed spec fn spec_counters(&self) -> Seq<Option<u8>> {
        self.counters@
    }

    /// The role of each PID, indexed by PID value.
    pub closed spec fn spec_roles(&self) -> Seq<PidRole> {
        self.roles@
    }

    /// Well-formedness: one slot per PID, and every stored counter is a
    /// 4-bit value. Constructors establish it and methods preserve it.
    pub open spec fn wf(&self) -> bool {
        &&& self.spec_counters().len() == PID_SPACE
        &&& self.spec_roles().len() == PID_SPACE
        &&& forall|i: int|
            0 <= i < PID_SPACE ==> (match #[trigger] self.spec_counters()[i] {
                Some(c) => c < 16,
                None => true,
            })
    }

    /// A fresh registry: no counter seen yet, PID 0 classified as the
    /// PAT carrier, every other PID unclassified.
    pub fn new() -> (r: PIDRegistry)
        ensures
            r.wf(),
            r.spec_counters().len() == PID_SPACE,
            r.spec_roles().len() == PID_SPACE,
            forall|i: int| 0 <= i < PID_SPACE ==> #[trigger] r.spec_counters()[i] is None,
            r.spec_roles()[0] == PidRole::Pat,
            forall|i: int| 1 <= i < PID_SPACE ==> #[trigger] r.spec_roles()[i]
                == PidRole::Unclassified,
    {
        let mut counters: Vec<Option<u8>> = Vec::new();
        let mut i: usize = 0;
        while i < PID_SPACE
            invariant
                i <= PID_SPACE,
                counters@.len() == i,
                forall|k: int| 0 <= k < i ==> #[trigger] counters@[k] is None,
            decreases PID_SPACE - i,
        {
            counters.push(None);
            i = i + 1;
        }
        let mut roles: Vec<PidRole> = Vec::new();
        roles.push(PidRole::Pat);
        let mut j: usize = 1;
        while j < PID_SPACE
            invariant
                1 <= j <= PID_SPACE,
                roles@.len() == j,
                roles@[0] == PidRole::Pat,
                forall|k: int| 1 <= k < j ==> #[trigger] roles@[k] == PidRole::Unclassified,
            decreases PID_SPACE - j,
        {
            roles.push(PidRole::Unclassified);
            j = j + 1;
        }
        PIDRegistry { counters, roles }
    }

    /// Records one continuity-counter observation for a PID and reports
    /// what it means. Counters update as `spec_record` says; roles are
    /// untouched.
    pub fn record(&mut self, pid: PID, counter: u8, has_payload: bool) -> (r: ContinuityStatus)
        requires
            old(self).wf(),
            counter < 16,
        ensures
            final(self).wf(),
            ({
                let (st, nc) = spec_record(
                    old(self).spec_counters()[pid@ as int],
                    counter,
                    has_payload,
                );
                &&& r == st
                &&& final(self).spec_counters() == old(self).spec_counters().update(
                    pid@ as int,
                    nc,
                )
                &&& final(self).spec_roles() == old(self).spec_roles()
            }),
    {
        let idx = pid.as_u16() as usize;
        let prev = self.counters.remove(idx);
        let (status, stored) = match prev {
            None => (ContinuityStatus::Continuous, Some(counter)),
            Some(last) => {
                if counter == last {
                    if has_payload {
                        (ContinuityStatus::Duplicate, Some(last))
                    } else {
                        (ContinuityStatus::Continuous, Some(last))
                    }
                } else {
                    let expected = if last >= 15 {
                        0
                    } else {
                        last + 1
                    };
                    if counter == expected {
                        (ContinuityStatus::Continuous, Some(counter))
                    } else {
                        (ContinuityStatus::Discontinuity, Some(counter))
                    }
                }
            },
        };
        self.counters.insert(idx, stored);
        proof {
            assert(self.counters@ =~= old(self).spec_counters().update(pid@ as int, stored));
        }
        status
    }

    /// Classifies a PID as carrying a PMT, as learned from a decoded PAT.
    pub fn learn_pmt_pid(&mut self, pid: PID)
        requires
            old(self).wf(),
        ensures
            final(self).wf(),
            final(self).spec_roles() == old(self).spec_roles().update(pid@ as int, PidRole::Pmt),
            final(self).spec_counters() == old(self).spec_counters(),
    {
        let idx = pid.as_u16() as usize;
        self.roles.remove(idx);
        self.roles.insert(idx, PidRole::Pmt);
        proof {
            assert(self.roles@ =~= old(self).spec_roles().update(pid@ as int, PidRole::Pmt));
        }
    }

    /// The role of a PID.
    pub fn role_of(&self, pid: PID) -> (r: PidRole)
        requires
            self.wf(),
        ensures
            r == self.spec_roles()[pid@ as int],
    {
        let idx = pid.as_u16() as usize;
        self.roles[idx]
    }
}

/// How many discontinuities a run of payload-carrying packets with the
/// given counters produces, starting from a given stored counter.
pub open spec fn spec_count_discontinuities(prev: Option<u8>, counters: Seq<u8>) -> nat
    decreases counters.len(),
{
    if counters.len() == 0 {
        0
    } else {
        let (st, nc) = spec_record(prev, counters[0], true);
        (if st == ContinuityStatus::Discontinuity {
            1nat
        } else {
            0nat
        }) + spec_count_discontinuities(nc, counters.skip(1))
    }
}

/// Counters that follow each other mod 16 — each one the successor of
/// the one before, and the first the successor of the stored counter if
/// any — produce no discontinuity at all.
pub proof fn lemma_in_order_no_discontinuity(prev: Option<u8>, counters: Seq<u8>)
    requires
        forall|i: int| 0 <= i < counters.len() ==> #[trigger] counters[i] < 16,
        forall|i: int| 0 <= i < counters.len() - 1 ==> #[trigger] counters[i + 1] == (counters[i]
            + 1) % 16,
        prev matches Some(l) ==> l < 16 && (counters.len() > 0 ==> counters[0] == (l + 1) % 16),
    ensures
        spec_count_discontinuities(prev, counters) == 0,
    decreases counters.len(),
{
    if counters.len() > 0 {
        let (st, nc) = spec_record(prev, counters[0], true);
        assert(st != ContinuityStatus::Discontinuity);
        let rest = counters.skip(1);
        assert(forall|i: int| 0 <= i < rest.len() - 1 ==> #[trigger] rest[i + 1] == (rest[i] + 1)
            % 16) by {
            assert(forall|i: int| 0 <= i < rest.len() ==> #[trigger] rest[i] == counters[i + 1]);
        }
        lemma_in_order_no_discontinuity(nc, rest);
    }
}

/// Skipping exactly one counter value — the run is in order except that
/// at one position the counter jumps by two mod 16 — produces exactly
/// one discontinuity.
pub proof fn lemma_one_skip_one_discontinuity(last: u8, counters: Seq<u8>, k: int)
    requires
        last < 16,
        0 <= k < counters.len(),
        forall|i: int| 0 <= i < counters.len() ==> #[trigger] counters[i] < 16,
        forall|i: int| 0 <= i < counters.len() - 1 && i != k - 1 ==> #[trigger] counters[i + 1]
            == (counters[i] + 1) % 16,
        k == 0 ==> counters[0] == (last + 2) % 16,
        k > 0 ==> counters[0] == (last + 1) % 16,
        k > 0 ==> counters[k] == (counters[k - 1] + 2) % 16,
    ensures
        spec_count_discontinuities(Some(last), counters) == 1,
    decreases counters.len(),
{
    let (st, nc) = spec_record(Some(last), counters[0], true);
    let rest = counters.skip(1);
    assert(forall|i: int| 0 <= i < rest.len() ==> #[trigger] rest[i] == counters[i + 1]);
    if k == 0 {
        assert(counters[0] == (last + 2) % 16);
        assert(counters[0] != last);
        assert(counters[0] != (last + 1) % 16);
        assert(st == ContinuityStatus::Discontinuity);
        assert(forall|i: int| 0 <= i < rest.len() - 1 ==> #[trigger] rest[i + 1] == (rest[i] + 1)
            % 16);
        lemma_in_order_no_discontinuity(nc, rest);
    } else {
        assert(counters[0] == (last + 1) % 16);
        assert(counters[0] != last);
        assert(st == ContinuityStatus::Continuous);
        assert(forall|i: int| 0 <= i < rest.len() - 1 && i != k - 2 ==> #[trigger] rest[i + 1]
            == (rest[i] + 1) % 16);
        lemma_one_skip_one_discontinuity(counters[0], rest, k - 1);
    }
}

} // verus!

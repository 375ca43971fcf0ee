//! A fault in a demand-paged range from its first decision to its end: the chunk's memory is
//! committed, its bytes are read from the director, what is missing is zero, and only then is
//! the chunk there.

use crate::hookstats;
use crate::hookstats::Stats;
use crate::lazy_section;
use crate::lazy_section::ChunkFill;
use crate::lazy_section::FillPlan;
use crate::lazy_section::RegionTable;
use crate::lazy_section::RegionView;
use vstd::prelude::*;

verus! {

/// How far a fill is.
#[derive(Clone, Copy, Debug, PartialEq, Eq, Structural)]
pub enum FillPhase {
    /// The chunk's memory is committed.
    Committing(ChunkFill),
    /// The chunk's bytes are read.
    Reading(ChunkFill),
    /// What is missing is cleared.
    Settling(ChunkFill),
    /// Nothing more is to be done.
    Ended,
}

/// The next step of a fill.
#[derive(Clone, Copy, Debug, PartialEq, Eq, Structural)]
pub enum FillStep {
    /// Commit the chunk's memory.
    Commit(ChunkFill),
    /// Read the chunk's bytes from the director to its memory.
    Read(ChunkFill),
    /// Clear the chunk's memory behind what was read.
    Settle { chunk: ChunkFill, read: Option<u64> },
    /// The fill is over; whether the memory can be touched.
    Over(bool),
}

/// The outcome of a step.
#[derive(Clone, Copy, Debug, PartialEq, Eq, Structural)]
pub enum FillEvent {
    /// Whether the memory was committed.
    Committed(bool),
    /// How many bytes came, where the read succeeded, and how long it took.
    Read { read: Option<u64>, nanos: u64 },
    /// The memory is whole.
    Settled,
}

/// What a fault at `addr` begins.
pub open spec fn begun(m: Map<u64, RegionView>, addr: u64) -> (FillPhase, FillStep) {
    match lazy_section::fill_plan(m, addr) {
        FillPlan::NotOurs => (FillPhase::Ended, FillStep::Over(false)),
        FillPlan::Ready => (FillPhase::Ended, FillStep::Over(true)),
        FillPlan::Fill(c) => (FillPhase::Committing(c), FillStep::Commit(c)),
    }
}

/// Whether a chunk is there.
pub open spec fn is_there(m: Map<u64, RegionView>, c: ChunkFill) -> bool {
    m.contains_key(c.base) && m[c.base].committed.contains(c.chunk)
}

/// The phase and the step after `event`. Memory that cannot be committed may be another
/// thread's doing, which then brought the chunk in.
pub open spec fn advanced(m: Map<u64, RegionView>, phase: FillPhase, event: FillEvent) -> (
    FillPhase,
    FillStep,
) {
    match (phase, event) {
        (FillPhase::Committing(c), FillEvent::Committed(true)) => if c.readable > 0 {
            (FillPhase::Reading(c), FillStep::Read(c))
        } else {
            (FillPhase::Settling(c), FillStep::Settle { chunk: c, read: None })
        },
        (FillPhase::Committing(c), FillEvent::Committed(false)) => (
            FillPhase::Ended,
            FillStep::Over(is_there(m, c)),
        ),
        (FillPhase::Reading(c), FillEvent::Read { read, .. }) => (
            FillPhase::Settling(c),
            FillStep::Settle { chunk: c, read },
        ),
        (FillPhase::Settling(_), FillEvent::Settled) => (FillPhase::Ended, FillStep::Over(true)),
        _ => (FillPhase::Ended, FillStep::Over(false)),
    }
}

/// The ranges after `event`: a chunk is there once its memory is whole.
pub open spec fn regions_after(m: Map<u64, RegionView>, phase: FillPhase, event: FillEvent) -> Map<
    u64,
    RegionView,
> {
    match (phase, event) {
        (FillPhase::Settling(c), FillEvent::Settled) => if m.contains_key(c.base) {
            m.insert(c.base, lazy_section::with_chunk(m[c.base], c.chunk))
        } else {
            m
        },
        _ => m,
    }
}

/// The counters after `event`: a read is counted when it begins and when it ends.
pub open spec fn counted_after(
    c: hookstats::SnapshotView,
    phase: FillPhase,
    event: FillEvent,
) -> hookstats::SnapshotView {
    match (phase, event) {
        (FillPhase::Committing(chunk), FillEvent::Committed(true)) => if chunk.readable > 0 {
            hookstats::fill_begun(c)
        } else {
            c
        },
        (FillPhase::Reading(_), FillEvent::Read { read, nanos }) => hookstats::fill_over(
            c,
            match read {
                Some(n) => n,
                None => 0,
            },
            nanos,
            read is Some,
        ),
        _ => c,
    }
}

/// A chunk is brought in once: when its memory is whole it is there, and the next fault in it
/// finds it ready.
pub proof fn law_a_chunk_is_brought_in_once(m: Map<u64, RegionView>, addr: u64)
    requires
        lazy_section::ranges_fit(m),
        lazy_section::fill_plan(m, addr) is Fill,
    ensures
        ({
            let c = lazy_section::fill_plan(m, addr)->Fill_0;
            let after = regions_after(m, FillPhase::Settling(c), FillEvent::Settled);
            &&& is_there(after, c)
            &&& !is_there(m, c)
            &&& begun(after, addr) == (FillPhase::Ended, FillStep::Over(true))
        }),
{
    let k = lazy_section::region_at(m, addr)->0;
    let c = lazy_section::fill_plan(m, addr)->Fill_0;
    let after = regions_after(m, FillPhase::Settling(c), FillEvent::Settled);
    assert(c.base == k);
    assert(after.dom() =~= m.dom());
    assert(lazy_section::is_floor(after, k, addr));
    lazy_section::lemma_region_at(after, k, addr);
}

/// A fault whose chunk cannot be brought in is passed on: the fill ends with the memory ready
/// to be touched exactly where the chunk is there.
pub proof fn law_a_fill_that_ends_well_leaves_the_chunk(
    m: Map<u64, RegionView>,
    phase: FillPhase,
    event: FillEvent,
    c: ChunkFill,
)
    requires
        phase == FillPhase::Committing(c) || phase == FillPhase::Settling(c),
        m.contains_key(c.base),
        advanced(m, phase, event).1 is Over,
        event is Committed || event is Settled,
        phase is Settling <==> event is Settled,
    ensures
        advanced(m, phase, event).1 == FillStep::Over(is_there(regions_after(m, phase, event), c)),
{
}

/// Begins a fill: [`begun`].
pub fn fill_begin(t: &RegionTable, addr: u64) -> (r: (FillPhase, FillStep))
    requires
        t.wf(),
    ensures
        r == begun(t.regions(), addr),
{
    match lazy_section::fill_chunk_at(t, addr) {
        FillPlan::NotOurs => (FillPhase::Ended, FillStep::Over(false)),
        FillPlan::Ready => (FillPhase::Ended, FillStep::Over(true)),
        FillPlan::Fill(c) => (FillPhase::Committing(c), FillStep::Commit(c)),
    }
}

/// Takes in the outcome of the last step: [`advanced`].
pub fn fill_advance(
    phase: FillPhase,
    s: &mut Stats,
    t: &mut RegionTable,
    event: FillEvent,
) -> (r: (FillPhase, FillStep))
    requires
        old(s).wf(),
        old(t).wf(),
    ensures
        final(s).wf(),
        final(t).wf(),
        r == advanced(old(t).regions(), phase, event),
        final(t).regions() == regions_after(old(t).regions(), phase, event),
        final(s)@ == hookstats::counted(
            old(s)@,
            counted_after(old(s)@.counts, phase, event),
        ),
{
    match (phase, event) {
        (FillPhase::Committing(c), FillEvent::Committed(done)) => {
            if !done {
                let there = lazy_section::chunk_is_there(t, c.base, c.chunk);
                return (FillPhase::Ended, FillStep::Over(there));
            }
            if c.readable > 0 {
                hookstats::note_fill_start(s);
                (FillPhase::Reading(c), FillStep::Read(c))
            } else {
                (FillPhase::Settling(c), FillStep::Settle { chunk: c, read: None })
            }
        },
        (FillPhase::Reading(c), FillEvent::Read { read, nanos }) => {
            let n: u64 = match read {
                Some(n) => n,
                None => 0,
            };
            hookstats::note_fill_end(s, n, nanos, read.is_some());
            (FillPhase::Settling(c), FillStep::Settle { chunk: c, read })
        },
        (FillPhase::Settling(c), FillEvent::Settled) => {
            lazy_section::note_chunk(t, c.base, c.chunk);
            (FillPhase::Ended, FillStep::Over(true))
        },
        _ => (FillPhase::Ended, FillStep::Over(false)),
    }
}

/// A fault that belongs to no range, or whose chunk is there, is over at once; any other begins
/// with the chunk's memory.
pub proof fn law_a_fault_begins_with_its_memory(m: Map<u64, RegionView>, addr: u64)
    ensures
        lazy_section::fill_plan(m, addr) is NotOurs ==> begun(m, addr).1 == FillStep::Over(false),
        lazy_section::fill_plan(m, addr) is Ready ==> begun(m, addr).1 == FillStep::Over(true),
        lazy_section::fill_plan(m, addr) matches FillPlan::Fill(c) ==> begun(m, addr) == (
            FillPhase::Committing(c),
            FillStep::Commit(c),
        ),
{
}

/// A fill goes on from memory to bytes to what is left clear: what the file has is read, and
/// what it has not is not asked for; a read that failed still leaves the memory whole.
pub proof fn law_a_fill_goes_step_by_step(
    m: Map<u64, RegionView>,
    c: ChunkFill,
    read: Option<u64>,
    nanos: u64,
)
    ensures
        c.readable > 0 ==> advanced(m, FillPhase::Committing(c), FillEvent::Committed(true)) == (
            FillPhase::Reading(c),
            FillStep::Read(c),
        ),
        c.readable == 0 ==> advanced(m, FillPhase::Committing(c), FillEvent::Committed(true)) == (
            FillPhase::Settling(c),
            FillStep::Settle { chunk: c, read: None },
        ),
        advanced(m, FillPhase::Reading(c), FillEvent::Read { read, nanos }) == (
            FillPhase::Settling(c),
            FillStep::Settle { chunk: c, read },
        ),
        advanced(m, FillPhase::Settling(c), FillEvent::Settled) == (
            FillPhase::Ended,
            FillStep::Over(true),
        ),
        advanced(m, FillPhase::Committing(c), FillEvent::Committed(false)).1 == FillStep::Over(
            m.contains_key(c.base) && m[c.base].committed.contains(c.chunk),
        ),
{
}

/// A chunk is noted when its memory is whole and not before; nothing else of any range changes.
pub proof fn law_a_chunk_is_noted_when_whole(
    m: Map<u64, RegionView>,
    phase: FillPhase,
    event: FillEvent,
    c: ChunkFill,
)
    ensures
        !(phase is Settling && event is Settled) ==> regions_after(m, phase, event) == m,
        phase == FillPhase::Settling(c) && event is Settled && m.contains_key(c.base) ==> {
            let now = regions_after(m, phase, event);
            &&& now[c.base].committed == m[c.base].committed.insert(c.chunk)
            &&& now[c.base].base == m[c.base].base && now[c.base].reserved == m[c.base].reserved
            &&& now[c.base].file_size == m[c.base].file_size && now[c.base].fh == m[c.base].fh
            &&& now.remove(c.base) == m.remove(c.base)
        },
{
    if phase == FillPhase::Settling(c) && event is Settled && m.contains_key(c.base) {
        assert(regions_after(m, phase, event).remove(c.base) =~= m.remove(c.base));
    }
}

/// Every read for a fault is counted when it begins and when it ends, with the bytes that came
/// and the time that it took, and as failed where it did.
pub proof fn law_fills_are_counted(
    c: hookstats::SnapshotView,
    chunk: ChunkFill,
    n: u64,
    nanos: u64,
)
    ensures
        chunk.readable > 0 ==> counted_after(
            c,
            FillPhase::Committing(chunk),
            FillEvent::Committed(true),
        ).fills_started == c.fills_started.wrapping_add(1),
        counted_after(c, FillPhase::Committing(chunk), FillEvent::Committed(false)) == c,
        ({
            let now = counted_after(
                c,
                FillPhase::Reading(chunk),
                FillEvent::Read { read: Some(n), nanos },
            );
            &&& now.fills_completed == c.fills_completed.wrapping_add(1)
            &&& now.fills_failed == c.fills_failed
            &&& now.fill_bytes == c.fill_bytes.wrapping_add(n)
            &&& now.fill_nanos == c.fill_nanos.wrapping_add(nanos)
            &&& now.fills_started == c.fills_started
        }),
        ({
            let now = counted_after(
                c,
                FillPhase::Reading(chunk),
                FillEvent::Read { read: None, nanos },
            );
            &&& now.fills_completed == c.fills_completed.wrapping_add(1)
            &&& now.fills_failed == c.fills_failed.wrapping_add(1)
            &&& now.fill_bytes == c.fill_bytes.wrapping_add(0)
        }),
        counted_after(c, FillPhase::Settling(chunk), FillEvent::Settled) == c,
{
}

/// An outcome that does not belong to the step that was made ends the fill, and the memory is
/// not to be touched.
pub proof fn law_a_stray_outcome_ends_a_fill(
    m: Map<u64, RegionView>,
    phase: FillPhase,
    event: FillEvent,
)
    ensures
        (phase is Committing && !(event is Committed)) || (phase is Reading && !(event is Read)) || (
        phase is Settling && !(event is Settled)) || phase is Ended ==> advanced(m, phase, event)
            == (FillPhase::Ended, FillStep::Over(false)),
{
}

} // verus!

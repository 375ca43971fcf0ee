//! A section over a file from its first decision to its answer: an image is the system's over a
//! copy of the file, a small file is read in whole, and a large one is brought in by faults.

use crate::fuse_synth;
use crate::fuse_synth::FuseTable;
use crate::hook::section;
use crate::hook::section::SectionPlan;
use crate::hook::section::SectionRequest;
use crate::lazy_section;
use crate::lazy_section::RegionTable;
use crate::ntdef;
use crate::zipserve;
use crate::zipserve::SectionTable;
use vstd::prelude::*;

verus! {

/// How far the making of a section is.
#[derive(Clone, Copy, Debug, PartialEq, Eq, Structural)]
pub enum SectionPhase {
    /// The image's bytes were asked for.
    Image { size: u64 },
    /// The system was asked for a section over a copy of the image.
    Copied,
    /// The image is mapped by hand.
    ByHand,
    /// Memory for the whole file was asked for.
    Allocating { fh: u64, size: u64 },
    /// The whole file is read to this address.
    Filling { base: u64, size: u64 },
    /// A range of addresses was asked for.
    Reserving { fh: u64, size: u64 },
    /// The first part of the file is brought in.
    Warming { handle: u64 },
    /// Nothing more is asked.
    Ended,
}

/// The next step of the making of a section.
pub enum SectionStep {
    /// Hand the call to the system.
    Real,
    /// Read the image's bytes, and look whether they are one.
    ReadImage { fh: u64, size: u64 },
    /// Write the first `len` bytes of the image to a file, and have the system make a section
    /// over it.
    Copy { len: u64 },
    /// Map the image by hand.
    MapImage,
    /// Ask for memory.
    Allocate { size: u64 },
    /// Read the file to this address.
    Fill { fh: u64, base: u64, size: u64 },
    /// Reserve a range of addresses.
    Reserve { size: u64 },
    /// Bring in the chunks at these addresses, in order, until one fails.
    Warm { chunks: Vec<u64> },
    /// Answer the call, after the memory at `release` is given back.
    Finish { status: i32, handle: Option<u64>, release: Option<u64> },
}

/// The next step of the making of a section, as values.
#[verifier::ext_equal]
pub enum SectionStepView {
    Real,
    ReadImage { fh: u64, size: u64 },
    Copy { len: u64 },
    MapImage,
    Allocate { size: u64 },
    Fill { fh: u64, base: u64, size: u64 },
    Reserve { size: u64 },
    Warm { chunks: Seq<u64> },
    Finish { status: i32, handle: Option<u64>, release: Option<u64> },
}

impl View for SectionStep {
    type V = SectionStepView;

    open spec fn view(&self) -> SectionStepView {
        match *self {
            SectionStep::Real => SectionStepView::Real,
            SectionStep::ReadImage { fh, size } => SectionStepView::ReadImage { fh, size },
            SectionStep::Copy { len } => SectionStepView::Copy { len },
            SectionStep::MapImage => SectionStepView::MapImage,
            SectionStep::Allocate { size } => SectionStepView::Allocate { size },
            SectionStep::Fill { fh, base, size } => SectionStepView::Fill { fh, base, size },
            SectionStep::Reserve { size } => SectionStepView::Reserve { size },
            SectionStep::Warm { chunks } => SectionStepView::Warm { chunks: chunks@ },
            SectionStep::Finish { status, handle, release } => SectionStepView::Finish {
                status,
                handle,
                release,
            },
        }
    }
}

/// The outcome of a step.
#[derive(Clone, Copy, Debug, PartialEq, Eq)]
pub enum SectionEvent {
    /// How many bytes of the image came, and whether they look like one.
    ImageRead { read: Option<u64>, is_image: bool },
    /// What the system answered; none where it could not be asked.
    Copied(Option<i32>),
    /// Where the image was mapped by hand, and its size.
    Mapped(Option<(u64, u64)>),
    /// The memory.
    Allocated(Option<u64>),
    /// How many bytes of the file came.
    Filled(Option<u64>),
    /// The range.
    Reserved(Option<u64>),
    /// The first part of the file was brought in, as far as it could be.
    Warmed,
}

/// An answer that gives no handle.
pub open spec fn bare(status: i32, release: Option<u64>) -> (SectionPhase, SectionStepView) {
    (SectionPhase::Ended, SectionStepView::Finish { status, handle: None, release })
}

/// An answer that gives a handle.
pub open spec fn made(handle: u64) -> (SectionPhase, SectionStepView) {
    (
        SectionPhase::Ended,
        SectionStepView::Finish {
            status: ntdef::STATUS_SUCCESS,
            handle: Some(handle),
            release: None,
        },
    )
}

/// How the making of a section begins.
pub open spec fn begun(opens: Map<u64, fuse_synth::FuseOpen>, q: SectionRequest) -> (
    SectionPhase,
    SectionStepView,
) {
    match section::section_plan(opens, q) {
        SectionPlan::Real => (SectionPhase::Ended, SectionStepView::Real),
        SectionPlan::Refuse(status) => bare(status, None),
        SectionPlan::Image { fh, size } => (
            SectionPhase::Image { size },
            SectionStepView::ReadImage { fh, size },
        ),
        SectionPlan::Lazy { fh, size } => match lazy_section::lazy_reservation(size) {
            Some(n) => (
                SectionPhase::Reserving { fh, size },
                SectionStepView::Reserve { size: n },
            ),
            None => bare(ntdef::STATUS_SECTION_TOO_BIG, None),
        },
        SectionPlan::Eager { fh, size } => (
            SectionPhase::Allocating { fh, size },
            SectionStepView::Allocate { size },
        ),
    }
}

/// Whether memory at `base` ends inside the address space, with a page to spare.
pub open spec fn fits(base: u64, size: u64) -> bool {
    base + size + lazy_section::PAGE <= u64::MAX
}

/// The phase and the step after `event`; `h` is the handle that a new section gets.
pub open spec fn advanced(phase: SectionPhase, event: SectionEvent, h: u64) -> (
    SectionPhase,
    SectionStepView,
) {
    match (phase, event) {
        (
            SectionPhase::Image { size },
            SectionEvent::ImageRead { read, is_image },
        ) => match section::section_bytes(size, read) {
            Some(n) if is_image => (SectionPhase::Copied, SectionStepView::Copy { len: n }),
            _ => bare(ntdef::STATUS_INVALID_FILE_FOR_SECTION, None),
        },
        (SectionPhase::Copied, SectionEvent::Copied(Some(status))) if status >= 0 => bare(
            status,
            None,
        ),
        (SectionPhase::Copied, SectionEvent::Copied(_)) => (
            SectionPhase::ByHand,
            SectionStepView::MapImage,
        ),
        (SectionPhase::ByHand, SectionEvent::Mapped(Some(_))) => made(h),
        (SectionPhase::ByHand, SectionEvent::Mapped(None)) => bare(
            ntdef::STATUS_INVALID_FILE_FOR_SECTION,
            None,
        ),
        (SectionPhase::Allocating { fh, size }, SectionEvent::Allocated(Some(base))) => if fits(
            base,
            size,
        ) {
            (SectionPhase::Filling { base, size }, SectionStepView::Fill { fh, base, size })
        } else {
            bare(ntdef::STATUS_UNSUCCESSFUL, Some(base))
        },
        (SectionPhase::Filling { base, size }, SectionEvent::Filled(read)) => if fits(base, size)
            && section::section_bytes(size, read) is Some {
            made(h)
        } else {
            bare(ntdef::STATUS_UNSUCCESSFUL, Some(base))
        },
        (SectionPhase::Reserving { fh, size }, SectionEvent::Reserved(Some(base))) => if fits(
            base,
            size,
        ) && lazy_section::lazy_reservation(size) is Some {
            (
                SectionPhase::Warming { handle: h },
                SectionStepView::Warm {
                    chunks: lazy_section::chunks_of(base as int, 0, lazy_section::warmed(size)),
                },
            )
        } else {
            bare(ntdef::STATUS_SECTION_TOO_BIG, Some(base))
        },
        (SectionPhase::Reserving { .. }, SectionEvent::Reserved(None)) => bare(
            ntdef::STATUS_SECTION_TOO_BIG,
            None,
        ),
        (SectionPhase::Warming { handle }, SectionEvent::Warmed) => made(handle),
        _ => bare(ntdef::STATUS_UNSUCCESSFUL, None),
    }
}

/// The section that `event` makes: its memory and its length.
pub open spec fn section_made(phase: SectionPhase, event: SectionEvent) -> Option<
    zipserve::SynthSection,
> {
    match (phase, event) {
        (SectionPhase::ByHand, SectionEvent::Mapped(Some((base, size)))) => Some(
            zipserve::SynthSection { window: base, length: size },
        ),
        (SectionPhase::Filling { base, size }, SectionEvent::Filled(read)) => if fits(base, size)
            && section::section_bytes(size, read) is Some {
            Some(zipserve::SynthSection { window: base, length: size })
        } else {
            None
        },
        (SectionPhase::Reserving { fh, size }, SectionEvent::Reserved(Some(base))) => if fits(
            base,
            size,
        ) && lazy_section::lazy_reservation(size) is Some {
            Some(zipserve::SynthSection { window: base, length: size })
        } else {
            None
        },
        _ => None,
    }
}

/// The memory ranges after `event`: those of a section that the shim filled or will fill are
/// tracked, so that they are given back with the last use.
pub open spec fn regions_after(
    m: Map<u64, lazy_section::RegionView>,
    phase: SectionPhase,
    event: SectionEvent,
) -> Map<u64, lazy_section::RegionView> {
    match (phase, section_made(phase, event)) {
        (SectionPhase::Filling { base, size }, Some(_)) => m.insert(
            base,
            lazy_section::fresh_region(
                base,
                lazy_section::aligned(size as int, lazy_section::PAGE as int) as u64,
                size,
                0,
                false,
            ),
        ),
        (SectionPhase::Reserving { fh, size }, Some(made)) => m.insert(
            made.window,
            lazy_section::fresh_region(
                made.window,
                lazy_section::lazy_reservation(size)->0,
                size,
                fh,
                true,
            ),
        ),
        _ => m,
    }
}

/// A call that fails leaves nothing behind: no section is made, and memory that was taken for
/// it is given back.
pub proof fn law_a_refused_section_leaves_nothing(
    m: Map<u64, lazy_section::RegionView>,
    phase: SectionPhase,
    event: SectionEvent,
    h: u64,
)
    requires
        advanced(phase, event, h).1 matches SectionStepView::Finish { status, .. }
            && !ntdef::nt_success(status),
    ensures
        section_made(phase, event) is None,
        regions_after(m, phase, event) == m,
        (phase matches SectionPhase::Filling { base, size } && event is Filled) ==> (advanced(
            phase,
            event,
            h,
        ).1 matches SectionStepView::Finish { release, .. } && release == Some(phase->Filling_base)),
        (event matches SectionEvent::Allocated(Some(b)) && phase is Allocating) ==> (advanced(
            phase,
            event,
            h,
        ).1 matches SectionStepView::Finish { release, .. } && release is Some),
        (event matches SectionEvent::Reserved(Some(b)) && phase is Reserving) ==> (advanced(
            phase,
            event,
            h,
        ).1 matches SectionStepView::Finish { release, .. } && release is Some),
{
}

/// A handle is given out only for a section that was made, and a section over a file that was
/// not read is never one: of a file that is read in whole at least one byte came.
pub proof fn law_a_section_stands_on_what_was_read(phase: SectionPhase, event: SectionEvent, h: u64)
    requires
        advanced(phase, event, h).1 matches SectionStepView::Finish { handle, .. } && handle
            is Some,
    ensures
        section_made(phase, event) is Some || phase is Warming,
        event matches SectionEvent::Filled(read) ==> (read matches Some(n) && n > 0),
        event !is ImageRead,
{
}

/// A section of a file that the shim fills or will fill stands on a range that was added for it
/// as its owner: the range begins where the section does, covers it and ends inside the address
/// space. What becomes of such a range is said by
/// [`lazy_section::law_a_range_lives_until_its_last_use`].
pub proof fn law_a_section_owns_its_range(
    m: Map<u64, lazy_section::RegionView>,
    phase: SectionPhase,
    event: SectionEvent,
)
    requires
        phase is Filling || phase is Reserving,
    ensures
        section_made(phase, event) matches Some(made) ==> {
            let r = regions_after(m, phase, event)[made.window];
            &&& regions_after(m, phase, event) == m.insert(
                made.window,
                lazy_section::fresh_region(
                    made.window,
                    r.reserved,
                    made.length,
                    r.fh,
                    phase is Reserving,
                ),
            )
            &&& made.length <= r.reserved < made.length + lazy_section::PAGE
            &&& made.window + r.reserved <= u64::MAX
        },
{
}

/// Begins the making of a section: [`begun`].
pub fn create_section_hook(t: &FuseTable, q: SectionRequest) -> (r: (SectionPhase, SectionStep))
    ensures
        (r.0, r.1@) == begun(t.opens(), q),
{
    match section::fuse_create_section(t, q) {
        SectionPlan::Real => (SectionPhase::Ended, SectionStep::Real),
        SectionPlan::Refuse(status) => (
            SectionPhase::Ended,
            SectionStep::Finish { status, handle: None, release: None },
        ),
        SectionPlan::Image { fh, size } => (
            SectionPhase::Image { size },
            SectionStep::ReadImage { fh, size },
        ),
        SectionPlan::Lazy { fh, size } => match lazy_section::reserve_for(size) {
            Some(n) => (SectionPhase::Reserving { fh, size }, SectionStep::Reserve { size: n }),
            None => (
                SectionPhase::Ended,
                SectionStep::Finish {
                    status: ntdef::STATUS_SECTION_TOO_BIG,
                    handle: None,
                    release: None,
                },
            ),
        },
        SectionPlan::Eager { fh, size } => (
            SectionPhase::Allocating { fh, size },
            SectionStep::Allocate { size },
        ),
    }
}

/// An answer that gives no handle.
fn end_bare(status: i32, release: Option<u64>) -> (r: (SectionPhase, SectionStep))
    ensures
        (r.0, r.1@) == bare(status, release),
{
    (SectionPhase::Ended, SectionStep::Finish { status, handle: None, release })
}

/// An answer that gives a handle.
fn give(handle: u64) -> (r: (SectionPhase, SectionStep))
    ensures
        (r.0, r.1@) == made(handle),
{
    (
        SectionPhase::Ended,
        SectionStep::Finish {
            status: ntdef::STATUS_SUCCESS,
            handle: Some(handle),
            release: None,
        },
    )
}

/// [`fits`].
fn has_room(base: u64, size: u64) -> (r: bool)
    ensures
        r == fits(base, size),
{
    match base.checked_add(size) {
        Some(end) => end <= u64::MAX - lazy_section::PAGE,
        None => false,
    }
}

/// Takes in the outcome of the last step: [`advanced`], with the section that is made, and its
/// memory tracked as [`regions_after`] says.
pub fn advance_section(
    phase: SectionPhase,
    regions: &mut RegionTable,
    sections: &mut SectionTable,
    event: SectionEvent,
) -> (r: (SectionPhase, SectionStep))
    requires
        old(regions).wf(),
    ensures
        final(regions).wf(),
        (r.0, r.1@) == advanced(
            phase,
            event,
            zipserve::section_handle_of(old(sections).next_slot()),
        ),
        final(regions).regions() == regions_after(old(regions).regions(), phase, event),
        match section_made(phase, event) {
            Some(s) => final(sections).sections() == old(sections).sections().insert(
                zipserve::section_handle_of(old(sections).next_slot()),
                s,
            ) && final(sections).next_slot() == old(sections).next_slot().wrapping_add(1),
            None => *final(sections) == *old(sections),
        },
{
    match (phase, event) {
        (
            SectionPhase::Image { size },
            SectionEvent::ImageRead { read, is_image },
        ) => match section::filled(size, read) {
            Some(n) => if is_image {
                (SectionPhase::Copied, SectionStep::Copy { len: n })
            } else {
                end_bare(section::unfilled_status(true), None)
            },
            None => end_bare(section::unfilled_status(true), None),
        },
        (SectionPhase::Copied, SectionEvent::Copied(answer)) => {
            if let Some(status) = answer {
                if status >= 0 {
                    return end_bare(status, None);
                }
            }
            (SectionPhase::ByHand, SectionStep::MapImage)
        },
        (SectionPhase::ByHand, SectionEvent::Mapped(image)) => match image {
            Some((base, size)) => give(zipserve::register_mapped_image(sections, base, size)),
            None => end_bare(ntdef::STATUS_INVALID_FILE_FOR_SECTION, None),
        },
        (SectionPhase::Allocating { fh, size }, SectionEvent::Allocated(memory)) => match memory {
            Some(base) => if has_room(base, size) {
                (SectionPhase::Filling { base, size }, SectionStep::Fill { fh, base, size })
            } else {
                end_bare(ntdef::STATUS_UNSUCCESSFUL, Some(base))
            },
            None => end_bare(ntdef::STATUS_UNSUCCESSFUL, None),
        },
        (SectionPhase::Filling { base, size }, SectionEvent::Filled(read)) => {
            if has_room(base, size) && section::filled(size, read).is_some() {
                give(section::eager_section(regions, sections, base, size))
            } else {
                end_bare(section::unfilled_status(false), Some(base))
            }
        },
        (SectionPhase::Reserving { fh, size }, SectionEvent::Reserved(range)) => {
            if let Some(base) = range {
                if has_room(base, size) {
                    let warm: u64 = lazy_section::warm_bytes(size);
                    if let Some(h) = lazy_section::create_lazy_data_section(
                        regions,
                        sections,
                        range,
                        fh,
                        size,
                    ) {
                        let chunks = lazy_section::ensure_range(base, 0, warm);
                        return (SectionPhase::Warming { handle: h }, SectionStep::Warm { chunks });
                    }
                }
            }
            end_bare(ntdef::STATUS_SECTION_TOO_BIG, range)
        },
        (SectionPhase::Warming { handle }, SectionEvent::Warmed) => give(handle),
        _ => end_bare(ntdef::STATUS_UNSUCCESSFUL, None),
    }
}

/// How the making of a section begins: what is the system's goes there, what is refused is
/// answered, an image is read first, memory of the file's size is asked for a small file, and
/// whole pages for a large one.
pub proof fn law_a_section_begins_as_planned(
    opens: Map<u64, fuse_synth::FuseOpen>,
    q: SectionRequest,
)
    ensures
        section::section_plan(opens, q) is Real ==> begun(opens, q).1 == SectionStepView::Real,
        section::section_plan(opens, q) matches SectionPlan::Refuse(s) ==> begun(opens, q).1
            == (SectionStepView::Finish { status: s, handle: None, release: None }),
        section::section_plan(opens, q) matches SectionPlan::Image { fh, size } ==> begun(opens, q)
            == (SectionPhase::Image { size }, SectionStepView::ReadImage { fh, size }),
        section::section_plan(opens, q) matches SectionPlan::Eager { fh, size } ==> begun(opens, q)
            == (SectionPhase::Allocating { fh, size }, SectionStepView::Allocate { size }),
        section::section_plan(opens, q) matches SectionPlan::Lazy { fh, size } ==> (size > 0 && size
            <= 68719476736 ==> begun(opens, q) == (
            SectionPhase::Reserving { fh, size },
            SectionStepView::Reserve { size: ((size + 4095) / 4096 * 4096) as u64 },
        )),
{
}

/// An image that was read is copied for the system, as many bytes as came; where the system
/// will not have it, it is mapped by hand, and where that fails too the section is refused.
pub proof fn law_an_image_is_the_systems_first(size: u64, read: u64, status: i32, h: u64, base: u64)
    ensures
        0 < read <= size ==> advanced(
            SectionPhase::Image { size },
            SectionEvent::ImageRead { read: Some(read), is_image: true },
            h,
        ) == (SectionPhase::Copied, SectionStepView::Copy { len: read }),
        advanced(
            SectionPhase::Image { size },
            SectionEvent::ImageRead { read: Some(read), is_image: false },
            h,
        ).1 == (SectionStepView::Finish { status: ntdef::STATUS_INVALID_FILE_FOR_SECTION, handle: None, release: None }),
        advanced(
            SectionPhase::Image { size },
            SectionEvent::ImageRead { read: None, is_image: true },
            h,
        ).1 == (SectionStepView::Finish { status: ntdef::STATUS_INVALID_FILE_FOR_SECTION, handle: None, release: None }),
        status >= 0 ==> advanced(SectionPhase::Copied, SectionEvent::Copied(Some(status)), h).1
            == (SectionStepView::Finish { status, handle: None, release: None }),
        status < 0 ==> advanced(SectionPhase::Copied, SectionEvent::Copied(Some(status)), h) == (
            SectionPhase::ByHand,
            SectionStepView::MapImage,
        ),
        advanced(SectionPhase::Copied, SectionEvent::Copied(None), h) == (
            SectionPhase::ByHand,
            SectionStepView::MapImage,
        ),
        advanced(SectionPhase::ByHand, SectionEvent::Mapped(Some((base, size))), h).1
            == (SectionStepView::Finish { status: 0, handle: Some(h), release: None }),
        advanced(SectionPhase::ByHand, SectionEvent::Mapped(None), h).1
            == (SectionStepView::Finish { status: ntdef::STATUS_INVALID_FILE_FOR_SECTION, handle: None, release: None }),
        section_made(SectionPhase::ByHand, SectionEvent::Mapped(Some((base, size))))
            == Some(zipserve::SynthSection { window: base, length: size }),
{
}

/// A small file is read to the memory that was given for it, and the section stands on it and
/// has the file's size; where nothing came, the memory is given back.
pub proof fn law_a_small_file_is_read_in_whole(fh: u64, size: u64, base: u64, read: u64, h: u64)
    requires
        base + size + 4096 <= u64::MAX,
    ensures
        advanced(SectionPhase::Allocating { fh, size }, SectionEvent::Allocated(Some(base)), h) == (
            SectionPhase::Filling { base, size },
            SectionStepView::Fill { fh, base, size },
        ),
        advanced(SectionPhase::Allocating { fh, size }, SectionEvent::Allocated(None), h).1
            == (SectionStepView::Finish { status: ntdef::STATUS_UNSUCCESSFUL, handle: None, release: None }),
        read > 0 ==> advanced(
            SectionPhase::Filling { base, size },
            SectionEvent::Filled(Some(read)),
            h,
        ).1 == (SectionStepView::Finish { status: 0, handle: Some(h), release: None }),
        read > 0 ==> section_made(
            SectionPhase::Filling { base, size },
            SectionEvent::Filled(Some(read)),
        ) == Some(zipserve::SynthSection { window: base, length: size }),
        advanced(SectionPhase::Filling { base, size }, SectionEvent::Filled(None), h).1
            == (SectionStepView::Finish {
            status: ntdef::STATUS_UNSUCCESSFUL,
            handle: None,
            release: Some(base),
        }),
        advanced(SectionPhase::Filling { base, size }, SectionEvent::Filled(Some(0)), h).1
            == (SectionStepView::Finish {
            status: ntdef::STATUS_UNSUCCESSFUL,
            handle: None,
            release: Some(base),
        }),
{
}

/// A large file gets a range of addresses of its own, kept as a demand-paged one with the
/// file's size and the director's handle; its first chunks are brought in, and the section is
/// handed out under the handle that was made for it.
pub proof fn law_a_large_file_is_brought_in_by_faults(
    m: Map<u64, lazy_section::RegionView>,
    fh: u64,
    size: u64,
    base: u64,
    h: u64,
)
    requires
        0 < size <= 68719476736,
        base + size + 4096 <= u64::MAX,
    ensures
        ({
            let phase = SectionPhase::Reserving { fh, size };
            let event = SectionEvent::Reserved(Some(base));
            let now = regions_after(m, phase, event);
            &&& advanced(phase, event, h).0 == (SectionPhase::Warming { handle: h })
            &&& advanced(phase, event, h).1 is Warm
            &&& section_made(phase, event) == Some(
                zipserve::SynthSection { window: base, length: size },
            )
            &&& now.contains_key(base)
            &&& now[base].lazy && now[base].section_open
            &&& now[base].base == base
            &&& now[base].file_size == size
            &&& now[base].fh == fh
            &&& now[base].reserved == (size + 4095) / 4096 * 4096
            &&& now[base].committed == Set::<u64>::empty()
            &&& now.remove(base) == m.remove(base)
        }),
        advanced(SectionPhase::Warming { handle: h }, SectionEvent::Warmed, base).1
            == (SectionStepView::Finish { status: 0, handle: Some(h), release: None }),
        advanced(SectionPhase::Reserving { fh, size }, SectionEvent::Reserved(None), h).1
            == (SectionStepView::Finish { status: ntdef::STATUS_SECTION_TOO_BIG, handle: None, release: None }),
{
}

/// An outcome that does not belong to the step that was made fails the call, and makes nothing.
pub proof fn law_a_stray_outcome_fails_the_section(
    phase: SectionPhase,
    event: SectionEvent,
    h: u64,
)
    ensures
        (phase is Image && !(event is ImageRead)) || (phase is Copied && !(event is Copied)) || (
        phase is ByHand && !(event is Mapped)) || (phase is Allocating && !(event is Allocated))
            || (phase is Filling && !(event is Filled)) || (phase is Reserving && !(
        event is Reserved)) || (phase is Warming && !(event is Warmed)) || phase is Ended ==> {
            &&& advanced(phase, event, h).1 == (SectionStepView::Finish {
                status: ntdef::STATUS_UNSUCCESSFUL,
                handle: None,
                release: None,
            })
            &&& section_made(phase, event) is None
        },
{
}

} // verus!

//! Synthetic sections over address ranges that are mapped already, and the views mapped out of
//! them.

use std::collections::BTreeMap;
use vstd::prelude::*;

verus! {

/// The bit that marks a synthetic section handle, whose sign bit stays clear.
pub const SYNTH_SECTION_TAG: u64 = 0x0000_2000_0000_0000;

/// A synthetic section: the address range that it covers.
#[derive(Clone, Copy, Debug, PartialEq, Eq, Structural)]
pub struct SynthSection {
    /// First address.
    pub window: u64,
    /// Length in bytes.
    pub length: u64,
}

/// A view: its longest mapping and how often it is mapped.
#[derive(Clone, Copy, Debug, PartialEq, Eq, Structural)]
pub struct SynthView {
    /// Length in bytes.
    pub length: u64,
    /// How many mappings are outstanding.
    pub refs: u32,
}

/// The open synthetic sections.
pub struct SectionTable {
    next: u64,
    sections: BTreeMap<u64, SynthSection>,
}

/// The mapped synthetic views, by their base address.
pub struct ViewTable {
    views: BTreeMap<u64, SynthView>,
}

/// Whether a handle value is a section's: it carries the tag, and its sign bit is clear, so that
/// neither a pseudo-handle nor the invalid handle is taken for one.
pub open spec fn section_tagged(handle: u64) -> bool {
    handle & SYNTH_SECTION_TAG != 0 && handle < 0x8000_0000_0000_0000
}

/// The handle of a slot.
pub open spec fn section_handle_of(slot: u64) -> u64 {
    SYNTH_SECTION_TAG | (slot << 3)
}

/// What mapping `size` bytes at `base` makes of the views.
pub open spec fn views_mapped(views: Map<u64, SynthView>, base: u64, size: u64) -> Map<
    u64,
    SynthView,
> {
    if views.contains_key(base) {
        let v = views[base];
        views.insert(
            base,
            SynthView {
                length: if v.length >= size {
                    v.length
                } else {
                    size
                },
                refs: (v.refs + 1) as u32,
            },
        )
    } else {
        views.insert(base, SynthView { length: size, refs: 1 })
    }
}

/// What unmapping `base` once makes of the views.
pub open spec fn views_unmapped(views: Map<u64, SynthView>, base: u64) -> Map<u64, SynthView> {
    if views.contains_key(base) && views[base].refs > 1 {
        views.insert(base, SynthView { refs: (views[base].refs - 1) as u32, ..views[base] })
    } else {
        views.remove(base)
    }
}

/// Whether a view begins inside `[base, base + len)`.
pub open spec fn view_within(views: Map<u64, SynthView>, base: u64, len: u64) -> bool {
    exists|b: u64| #[trigger] views.contains_key(b) && base <= b < base.saturating_add(len)
}

/// The base and size of a mapping: the whole rest of the section for size zero, never more than
/// that rest. `None` at or behind the section's end.
pub open spec fn view_of(s: SynthSection, offset: u64, size: u64) -> Option<(u64, u64)> {
    if offset >= s.length || s.window + offset > u64::MAX {
        None
    } else {
        let rest = (s.length - offset) as u64;
        Some(
            (
                (s.window + offset) as u64,
                if size == 0 || size > rest {
                    rest
                } else {
                    size
                },
            ),
        )
    }
}

impl SectionTable {
    /// The open sections by their handles.
    pub closed spec fn sections(self) -> Map<u64, SynthSection> {
        self.sections@
    }

    /// The slot of the next section.
    pub closed spec fn next_slot(self) -> u64 {
        self.next
    }

    /// No section is open.
    pub fn new() -> (t: SectionTable)
        ensures
            t.sections() == Map::<u64, SynthSection>::empty(),
            t.next_slot() == 0,
    {
        SectionTable { next: 0, sections: BTreeMap::new() }
    }
}

impl ViewTable {
    /// The mapped views by their base addresses.
    pub closed spec fn views(self) -> Map<u64, SynthView> {
        self.views@
    }

    /// No view is mapped.
    pub fn new() -> (t: ViewTable)
        ensures
            t.views() == Map::<u64, SynthView>::empty(),
    {
        ViewTable { views: BTreeMap::new() }
    }
}

/// [`section_tagged`].
pub fn is_synth_section(handle: u64) -> (r: bool)
    ensures
        r == section_tagged(handle),
{
    handle & SYNTH_SECTION_TAG != 0 && handle < 0x8000_0000_0000_0000
}

/// Registers a mapped range as a section and gives back its handle.
pub fn register_mapped_image(t: &mut SectionTable, base: u64, size: u64) -> (h: u64)
    ensures
        h == section_handle_of(old(t).next_slot()),
        final(t).next_slot() == old(t).next_slot().wrapping_add(1),
        final(t).sections() == old(t).sections().insert(
            h,
            (SynthSection { window: base, length: size }),
        ),
{
    let handle: u64 = SYNTH_SECTION_TAG | (t.next << 3);
    t.next = t.next.wrapping_add(1);
    t.sections.insert(handle, SynthSection { window: base, length: size });
    handle
}

/// Closes a section and gives back the address range's start. Views may still be mapped.
pub fn close_section(t: &mut SectionTable, handle: u64) -> (r: Option<u64>)
    ensures
        final(t).next_slot() == old(t).next_slot(),
        final(t).sections() == old(t).sections().remove(handle),
        r == if old(t).sections().contains_key(handle) {
            Some(old(t).sections()[handle].window)
        } else {
            None
        },
{
    match t.sections.remove(&handle) {
        Some(s) => Some(s.window),
        None => None,
    }
}

/// Whether a mapping of `base` can be counted once more.
pub open spec fn countable(views: Map<u64, SynthView>, base: u64) -> bool {
    views.contains_key(base) ==> views[base].refs < u32::MAX
}

/// [`countable`].
pub fn can_count(v: &ViewTable, base: u64) -> (r: bool)
    ensures
        r == countable(v.views(), base),
{
    match v.views.get(&base) {
        Some(known) => {
            assert(v.views().contains_key(base));
            known.refs < u32::MAX
        },
        None => true,
    }
}

/// The view that a mapping would give: [`view_of`]. Nothing is mapped.
pub fn find_view(t: &SectionTable, section_handle: u64, section_offset: u64, view_size: u64) -> (r:
    Option<(u64, u64)>)
    ensures
        r == if t.sections().contains_key(section_handle) {
            view_of(t.sections()[section_handle], section_offset, view_size)
        } else {
            None
        },
{
    let s: SynthSection = match t.sections.get(&section_handle) {
        Some(s) => *s,
        None => {
            return None;
        },
    };
    if section_offset >= s.length {
        return None;
    }
    let rest: u64 = s.length - section_offset;
    let size: u64 = if view_size == 0 || view_size > rest {
        rest
    } else {
        view_size
    };
    match s.window.checked_add(section_offset) {
        Some(base) => Some((base, size)),
        None => None,
    }
}

/// Maps a view of a section: [`view_of`]. The view is counted.
pub fn map_view(
    t: &SectionTable,
    v: &mut ViewTable,
    section_handle: u64,
    section_offset: u64,
    view_size: u64,
) -> (r: Option<(u64, u64)>)
    requires
        t.sections().contains_key(section_handle) ==> (view_of(
            t.sections()[section_handle],
            section_offset,
            view_size,
        ) matches Some((base, _)) ==> countable(old(v).views(), base)),
    ensures
        r == if t.sections().contains_key(section_handle) {
            view_of(t.sections()[section_handle], section_offset, view_size)
        } else {
            None
        },
        final(v).views() == match r {
            Some((base, size)) => views_mapped(old(v).views(), base, size),
            None => old(v).views(),
        },
{
    let (base, size) = match find_view(t, section_handle, section_offset, view_size) {
        Some(found) => found,
        None => {
            return None;
        },
    };
    let now: SynthView = match v.views.get(&base) {
        Some(known) => {
            assert(v.views().contains_key(base));
            SynthView {
                length: if known.length >= size {
                    known.length
                } else {
                    size
                },
                refs: known.refs + 1,
            }
        },
        None => SynthView { length: size, refs: 1 },
    };
    v.views.insert(base, now);
    Some((base, size))
}

/// [`view_within`].
pub fn has_view_in(v: &ViewTable, base: u64, len: u64) -> (r: bool)
    ensures
        r == view_within(v.views(), base, len),
{
    let end: u64 = base.saturating_add(len);
    for kv in it: v.views.iter()
        invariant
            end == base.saturating_add(len),
            forall|j: int| 0 <= j < it.index() ==> !(base <= *(#[trigger] it.seq()[j]).0 < end),
    {
        let (b, _view) = kv;
        if base <= *b && *b < end {
            assert(v.views().contains_key(*b));
            return true;
        }
    }
    false
}

/// Whether `base` is a mapped view.
pub fn is_synth_view(v: &ViewTable, base: u64) -> (r: bool)
    ensures
        r == v.views().contains_key(base),
{
    v.views.contains_key(&base)
}

/// Unmaps a view once; true where that was its last mapping.
pub fn unmap_view(v: &mut ViewTable, base: u64) -> (r: bool)
    ensures
        final(v).views() == views_unmapped(old(v).views(), base),
        r == (old(v).views().contains_key(base) && old(v).views()[base].refs <= 1),
{
    match v.views.remove(&base) {
        Some(view) => {
            if view.refs > 1 {
                v.views.insert(base, SynthView { length: view.length, refs: view.refs - 1 });
                assert(v.views() =~= views_unmapped(old(v).views(), base));
                false
            } else {
                true
            }
        },
        None => false,
    }
}

/// The first 2^42 sections have handles of their own that are told as sections', are positive
/// and carry no file tag. No negative handle is told as one: not the pseudo-handles, and not the
/// invalid handle.
pub proof fn law_section_handles(a: u64, b: u64, negative: i64)
    ensures
        a < 0x400_0000_0000 ==> section_tagged(section_handle_of(a)),
        negative < 0 ==> !section_tagged(negative as u64),
        a < 0x400_0000_0000 && b < 0x400_0000_0000 && a != b ==> section_handle_of(a)
            != section_handle_of(b),
        a < 0x400_0000_0000 ==> !crate::fuse_synth::tagged(section_handle_of(a))
            && section_handle_of(a) < 0x8000_0000_0000_0000,
{
    assert(negative < 0i64 ==> negative as u64 >= 0x8000_0000_0000_0000u64) by (bit_vector);
    assert((0x0000_2000_0000_0000u64 | (a << 3)) & 0x0000_2000_0000_0000u64 != 0) by (bit_vector);
    assert(a < 0x400_0000_0000u64 && b < 0x400_0000_0000u64 && a != b ==> (0x0000_2000_0000_0000u64
        | (a << 3)) != (0x0000_2000_0000_0000u64 | (b << 3))) by (bit_vector);
    assert(a < 0x400_0000_0000u64 ==> (0x0000_2000_0000_0000u64 | (a << 3))
        & 0x0000_8000_0000_0000u64 == 0 && (0x0000_2000_0000_0000u64 | (a << 3))
        < 0x8000_0000_0000_0000u64) by (bit_vector);
}

/// The first 2^45 file handles carry no section tag, so a handle of one kind is never taken for
/// the other.
pub proof fn law_file_handles_are_no_sections(slot: u64)
    requires
        slot < SYNTH_SECTION_TAG,
    ensures
        !section_tagged(crate::fuse_synth::handle_of(slot)),
{
    assert(slot < 0x0000_2000_0000_0000u64 ==> ((slot & !0x0000_8000_0000_0000u64)
        | 0x0000_8000_0000_0000u64) & 0x0000_2000_0000_0000u64 == 0) by (bit_vector);
}

/// Mapping a base twice and unmapping it once leaves it mapped: a base is forgotten with its
/// last mapping only.
pub proof fn law_views_are_counted(views: Map<u64, SynthView>, base: u64, a: u64, b: u64)
    requires
        views.contains_key(base) ==> 0 < views[base].refs < u32::MAX - 1,
    ensures
        ({
            let once = views_mapped(views, base, a);
            let twice = views_mapped(once, base, b);
            &&& views_unmapped(twice, base).contains_key(base)
            &&& views_unmapped(twice, base)[base].refs == once[base].refs
            &&& !views.contains_key(base) ==> views_unmapped(once, base) == views
        }),
{
    assert(!views.contains_key(base) ==> views_unmapped(views_mapped(views, base, a), base)
        =~= views);
}

/// A view of a section starts at the offset asked for and has the size asked for, or the rest
/// of the section where no size is given or the rest is smaller. Nothing is seen behind the
/// section's end.
pub proof fn law_a_view_shows_what_was_asked_for(s: SynthSection, offset: u64, size: u64)
    requires
        s.window + s.length <= u64::MAX,
    ensures
        offset >= s.length <==> view_of(s, offset, size) is None,
        offset < s.length ==> (view_of(s, offset, size) matches Some((base, len)) && base
            == s.window + offset && len == (if size == 0 || offset + size > s.length {
            s.length - offset
        } else {
            size as int
        })),
{
}

/// A base is mapped once more with each view, with the longest of their lengths, and once less
/// with each that goes; the other bases stay as they are.
pub proof fn law_each_view_counts_once(
    views: Map<u64, SynthView>,
    base: u64,
    size: u64,
    other: u64,
)
    requires
        views.contains_key(base) ==> 0 < views[base].refs < u32::MAX,
    ensures
        views_mapped(views, base, size).contains_key(base),
        !views.contains_key(base) ==> views_mapped(views, base, size)[base] == (SynthView {
            length: size,
            refs: 1,
        }),
        views.contains_key(base) ==> views_mapped(views, base, size)[base].refs == views[base].refs
            + 1,
        views.contains_key(base) ==> views_mapped(views, base, size)[base].length >= size
            && views_mapped(views, base, size)[base].length >= views[base].length && (views_mapped(
            views,
            base,
            size,
        )[base].length == size || views_mapped(views, base, size)[base].length
            == views[base].length),
        views.contains_key(base) && views[base].refs == 1 ==> !views_unmapped(
            views,
            base,
        ).contains_key(base),
        views.contains_key(base) && views[base].refs > 1 ==> views_unmapped(views, base)[base]
            == (SynthView { length: views[base].length, refs: (views[base].refs - 1) as u32 }),
        other != base ==> views_mapped(views, base, size).contains_key(other)
            == views.contains_key(other) && views_unmapped(views, base).contains_key(other)
            == views.contains_key(other),
        other != base && views.contains_key(other) ==> views_mapped(views, base, size)[other]
            == views[other] && views_unmapped(views, base)[other] == views[other],
{
}

/// A view lies within a range where its base does.
pub proof fn law_views_are_found_in_their_range(
    views: Map<u64, SynthView>,
    view: u64,
    base: u64,
    len: u64,
)
    requires
        base + len <= u64::MAX,
    ensures
        views.contains_key(view) && base <= view < base + len ==> view_within(views, base, len),
        (forall|b: u64| #[trigger] views.contains_key(b) ==> b < base || base + len <= b)
            ==> !view_within(views, base, len),
{
}

} // verus!

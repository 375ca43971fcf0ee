//! Sections over synthetic files, their views, and the closing of handles.

use crate::bytes;
use crate::fuse_synth;
use crate::fuse_synth::FuseTable;
use crate::hook::tables;
use crate::hook::tables::HandleTables;
use crate::lazy_section;
use crate::lazy_section::RegionTable;
use crate::ntdef;
use crate::text;
use crate::zipserve;
use crate::zipserve::SectionTable;
use crate::zipserve::ViewTable;
use vstd::prelude::*;
use vstd::string::*;
use vstd::utf8::*;

verus! {

/// Files up to this size are read in whole when a section is created over them.
pub const EAGER_MAX: u64 = 268435456;

/// What becomes of a section over a file.
#[derive(Clone, Copy, Debug, PartialEq, Eq, Structural)]
pub enum SectionPlan {
    /// Hand the call to the system.
    Real,
    /// Fail the call.
    Refuse(i32),
    /// Map the file as an image.
    Image { fh: u64, size: u64 },
    /// Bring the file in by faults.
    Lazy { fh: u64, size: u64 },
    /// Read the file in whole.
    Eager { fh: u64, size: u64 },
}

/// What a section is asked for.
#[derive(Clone, Copy, Debug, PartialEq, Eq, Structural)]
pub struct SectionRequest {
    pub file: u64,
    pub alloc_attrs: u32,
    /// The size that the caller gives.
    pub max_size: Option<i64>,
    /// Whether sections over synthetic files are refused.
    pub reject_all: bool,
    /// Whether data sections over synthetic files are refused.
    pub reject_data: bool,
    /// Whether the director can be asked.
    pub has_client: bool,
}

/// What becomes of a section over a file.
pub open spec fn section_plan(opens: Map<u64, fuse_synth::FuseOpen>, q: SectionRequest) ->
    SectionPlan {
    let e = opens[q.file];
    if !fuse_synth::tagged(q.file) {
        SectionPlan::Real
    } else if q.reject_all {
        SectionPlan::Refuse(ntdef::STATUS_INVALID_FILE_FOR_SECTION)
    } else if !opens.contains_key(q.file) {
        SectionPlan::Refuse(ntdef::STATUS_INVALID_HANDLE)
    } else if e.is_dir || e.size == 0 {
        SectionPlan::Refuse(ntdef::STATUS_INVALID_FILE_FOR_SECTION)
    } else if (q.alloc_attrs & ntdef::SEC_IMAGE) != 0 {
        if e.size > EAGER_MAX {
            SectionPlan::Refuse(ntdef::STATUS_INVALID_FILE_FOR_SECTION)
        } else if !q.has_client {
            SectionPlan::Refuse(ntdef::STATUS_UNSUCCESSFUL)
        } else {
            SectionPlan::Image { fh: e.fh, size: e.size }
        }
    } else if q.max_size matches Some(want) && want > 0 && want > e.size {
        SectionPlan::Refuse(ntdef::STATUS_SECTION_TOO_BIG)
    } else if q.reject_data {
        SectionPlan::Refuse(ntdef::STATUS_INVALID_FILE_FOR_SECTION)
    } else if e.size > lazy_section::MAX_LAZY {
        SectionPlan::Refuse(ntdef::STATUS_SECTION_TOO_BIG)
    } else if e.size > EAGER_MAX {
        SectionPlan::Lazy { fh: e.fh, size: e.size }
    } else if !q.has_client {
        SectionPlan::Refuse(ntdef::STATUS_UNSUCCESSFUL)
    } else {
        SectionPlan::Eager { fh: e.fh, size: e.size }
    }
}

/// [`section_plan`].
pub fn fuse_create_section(t: &FuseTable, q: SectionRequest) -> (r: SectionPlan)
    ensures
        r == section_plan(t.opens(), q),
{
    if !fuse_synth::is_fuse_synth(q.file) {
        return SectionPlan::Real;
    }
    if q.reject_all {
        return SectionPlan::Refuse(ntdef::STATUS_INVALID_FILE_FOR_SECTION);
    }
    let (fh, size, is_dir, _, _) = match fuse_synth::lookup(t, q.file) {
        Some(e) => e,
        None => {
            return SectionPlan::Refuse(ntdef::STATUS_INVALID_HANDLE);
        },
    };
    if is_dir || size == 0 {
        return SectionPlan::Refuse(ntdef::STATUS_INVALID_FILE_FOR_SECTION);
    }
    if (q.alloc_attrs & ntdef::SEC_IMAGE) != 0 {
        if size > EAGER_MAX {
            return SectionPlan::Refuse(ntdef::STATUS_INVALID_FILE_FOR_SECTION);
        }
        if !q.has_client {
            return SectionPlan::Refuse(ntdef::STATUS_UNSUCCESSFUL);
        }
        return SectionPlan::Image { fh, size };
    }
    if let Some(want) = q.max_size {
        if want > 0 && want as u64 > size {
            return SectionPlan::Refuse(ntdef::STATUS_SECTION_TOO_BIG);
        }
    }
    if q.reject_data {
        return SectionPlan::Refuse(ntdef::STATUS_INVALID_FILE_FOR_SECTION);
    }
    if size > lazy_section::MAX_LAZY {
        return SectionPlan::Refuse(ntdef::STATUS_SECTION_TOO_BIG);
    }
    if size > EAGER_MAX {
        return SectionPlan::Lazy { fh, size };
    }
    if !q.has_client {
        return SectionPlan::Refuse(ntdef::STATUS_UNSUCCESSFUL);
    }
    SectionPlan::Eager { fh, size }
}

/// A file of any size up to the limit of demand-paged sections can be mapped as data; only what
/// is small enough is read in whole.
pub proof fn law_large_files_are_mapped_lazily(
    opens: Map<u64, fuse_synth::FuseOpen>,
    q: SectionRequest,
)
    requires
        fuse_synth::tagged(q.file),
        opens.contains_key(q.file),
        !opens[q.file].is_dir,
        0 < opens[q.file].size <= lazy_section::MAX_LAZY,
        !q.reject_all,
        !q.reject_data,
        q.has_client,
        q.max_size is None,
        (q.alloc_attrs & ntdef::SEC_IMAGE) == 0,
    ensures
        section_plan(opens, q) == (if opens[q.file].size > EAGER_MAX {
            SectionPlan::Lazy { fh: opens[q.file].fh, size: opens[q.file].size }
        } else {
            SectionPlan::Eager { fh: opens[q.file].fh, size: opens[q.file].size }
        }),
{
}

/// How much of what was asked for a section holds: what came back, where anything did. `None`
/// where nothing did; behind what came back an eager section reads as zeros.
pub open spec fn section_bytes(size: u64, read: Option<u64>) -> Option<u64> {
    match read {
        Some(n) => if n == 0 {
            None
        } else if n >= size {
            Some(size)
        } else {
            Some(n)
        },
        None => None,
    }
}

/// [`section_bytes`].
pub fn filled(size: u64, read: Option<u64>) -> (r: Option<u64>)
    ensures
        r == section_bytes(size, read),
{
    match read {
        Some(n) => if n == 0 {
            None
        } else if n >= size {
            Some(size)
        } else {
            Some(n)
        },
        None => None,
    }
}

/// The status of a section that was to be read in whole and was not.
pub fn unfilled_status(image: bool) -> (r: i32)
    ensures
        r == (if image {
            ntdef::STATUS_INVALID_FILE_FOR_SECTION
        } else {
            ntdef::STATUS_UNSUCCESSFUL
        }),
{
    if image {
        ntdef::STATUS_INVALID_FILE_FOR_SECTION
    } else {
        ntdef::STATUS_UNSUCCESSFUL
    }
}

/// Gives a file that was read in whole at `base` a section, and tracks its memory.
pub fn eager_section(
    regions: &mut RegionTable,
    sections: &mut SectionTable,
    base: u64,
    size: u64,
) -> (h: u64)
    requires
        old(regions).wf(),
        base + size + lazy_section::PAGE <= u64::MAX,
    ensures
        final(regions).wf(),
        h == zipserve::section_handle_of(old(sections).next_slot()),
        final(sections).next_slot() == old(sections).next_slot().wrapping_add(1),
        final(sections).sections() == old(sections).sections().insert(
            h,
            (zipserve::SynthSection { window: base, length: size }),
        ),
        final(regions).regions() == old(regions).regions().insert(
            base,
            lazy_section::fresh_region(
                base,
                lazy_section::aligned(size as int, lazy_section::PAGE as int) as u64,
                size,
                0,
                false,
            ),
        ),
{
    let _ = lazy_section::track_eager_section(regions, base, size);
    zipserve::register_mapped_image(sections, base, size)
}

// ---------------------------------------------------------------------------------------
// Images backed by files.

/// The hash of bytes that images are cached under.
pub open spec fn fnv(b: Seq<u8>) -> u64
    decreases b.len(),
{
    if b.len() == 0 {
        0xcbf2_9ce4_8422_2325
    } else {
        (fnv(b.drop_last()) ^ (b.last() as u64)).wrapping_mul(0x1000_0000_01b3)
    }
}

/// The hash of an image: of its path without regard to case, and of its length.
pub open spec fn image_hash(vpath: Seq<char>, len: u64) -> u64 {
    fnv(encode_utf8(text::ascii_lowered(vpath)) + bytes::le64(len))
}

/// [`fnv`].
fn hash_bytes(b: &[u8]) -> (h: u64)
    ensures
        h == fnv(b@),
{
    let mut h: u64 = 0xcbf2_9ce4_8422_2325;
    let mut i: usize = 0;
    assert(b@.take(0) =~= Seq::<u8>::empty());
    while i < b.len()
        invariant
            i <= b@.len(),
            h == fnv(b@.take(i as int)),
        decreases b@.len() - i,
    {
        assert(b@.take(i + 1).drop_last() =~= b@.take(i as int));
        assert(b@.take(i + 1).last() == b@[i as int]);
        h = (h ^ (b[i] as u64)).wrapping_mul(0x1000_0000_01b3);
        i = i + 1;
    }
    assert(b@.take(i as int) =~= b@);
    h
}

/// [`image_hash`].
fn hash_image(vpath: &str, len: u64) -> (h: u64)
    ensures
        h == image_hash(vpath@, len),
{
    let lower = text::lower_text(vpath);
    let mut b: Vec<u8> = Vec::new();
    bytes::push_bytes(&mut b, lower.as_str().as_bytes());
    bytes::push_u64(&mut b, len);
    assert(b@ =~= encode_utf8(text::ascii_lowered(vpath@)) + bytes::le64(len));
    hash_bytes(b.as_slice())
}

/// The name of the file that an image is cached in.
pub fn image_cache_name(vpath: &str, len: u64) -> (out: String)
    ensures
        out@ == text::hex_padded(image_hash(vpath@, len) as nat, 16) + ".bin"@,
{
    let mut out = String::new();
    text::push_hex(&mut out, hash_image(vpath, len), 16);
    assert(out@ =~= text::hex_padded(image_hash(vpath@, len) as nat, 16));
    out.append(".bin");
    out
}

/// The name of the file that process `pid` writes an image to before it is put in its place.
pub fn image_temp_name(vpath: &str, len: u64, pid: u32) -> (out: String)
    ensures
        out@ == text::hex_padded(image_hash(vpath@, len) as nat, 16) + "."@ + text::decimal(
            pid as nat,
        ) + ".tmp"@,
{
    let mut out = String::new();
    text::push_hex(&mut out, hash_image(vpath, len), 16);
    assert(out@ =~= text::hex_padded(image_hash(vpath@, len) as nat, 16));
    out.append(".");
    text::push_decimal(&mut out, pid as u128);
    out.append(".tmp");
    out
}

// ---------------------------------------------------------------------------------------
// Views.

/// What becomes of a view.
#[derive(Clone, Copy, Debug, PartialEq, Eq, Structural)]
pub enum MapStep {
    /// Hand the call to the system.
    Real,
    /// Fail the call.
    Fail(i32),
    /// The view's base, its size, and the offset that it shows.
    Mapped { base: u64, size: u64, offset: u64 },
}

/// What a view is asked for.
#[derive(Clone, Copy, Debug, PartialEq, Eq, Structural)]
pub struct MapRequest {
    pub section: u64,
    pub offset: Option<i64>,
    pub size: Option<u64>,
    /// The base that the caller demands; zero for any.
    pub preferred: u64,
}

/// The offset and the size that a request asks for.
pub open spec fn map_wanted(q: MapRequest) -> (i64, u64) {
    (
        match q.offset {
            Some(v) => v,
            None => 0,
        },
        match q.size {
            Some(n) => n,
            None => 0,
        },
    )
}

/// The view of a request, where the section has one there.
pub open spec fn map_found(sections: Map<u64, zipserve::SynthSection>, q: MapRequest) -> Option<
    (u64, u64),
> {
    let (off, want) = map_wanted(q);
    if off >= 0 && sections.contains_key(q.section) {
        zipserve::view_of(sections[q.section], off as u64, want)
    } else {
        None
    }
}

/// What becomes of a view. One at a base that the caller did not want is not mapped, nor one
/// that is mapped as often as can be counted.
pub open spec fn map_step(
    sections: Map<u64, zipserve::SynthSection>,
    views: Map<u64, zipserve::SynthView>,
    q: MapRequest,
) -> MapStep {
    if !zipserve::section_tagged(q.section) {
        MapStep::Real
    } else {
        match map_found(sections, q) {
            Some((base, size)) => if (q.preferred != 0 && q.preferred != base)
                || !zipserve::countable(views, base) {
                MapStep::Fail(ntdef::STATUS_UNSUCCESSFUL)
            } else {
                MapStep::Mapped { base, size, offset: map_wanted(q).0 as u64 }
            },
            None => MapStep::Fail(ntdef::STATUS_UNSUCCESSFUL),
        }
    }
}

/// Maps a view: [`map_step`].
pub fn map_view_hook(sections: &SectionTable, views: &mut ViewTable, q: MapRequest) -> (r: MapStep)
    ensures
        r == map_step(sections.sections(), old(views).views(), q),
        final(views).views() == (match r {
            MapStep::Mapped { base, size, offset } => zipserve::views_mapped(
                old(views).views(),
                base,
                size,
            ),
            MapStep::Fail(_) => match map_found(sections.sections(), q) {
                Some((base, size)) => if zipserve::countable(old(views).views(), base) {
                    zipserve::views_unmapped(
                        zipserve::views_mapped(old(views).views(), base, size),
                        base,
                    )
                } else {
                    old(views).views()
                },
                None => old(views).views(),
            },
            MapStep::Real => old(views).views(),
        }),
{
    if !zipserve::is_synth_section(q.section) {
        return MapStep::Real;
    }
    let off: i64 = match q.offset {
        Some(v) => v,
        None => 0,
    };
    if off < 0 {
        return MapStep::Fail(ntdef::STATUS_UNSUCCESSFUL);
    }
    let want: u64 = match q.size {
        Some(n) => n,
        None => 0,
    };
    if let Some((base, _)) = zipserve::find_view(sections, q.section, off as u64, want) {
        if !zipserve::can_count(views, base) {
            return MapStep::Fail(ntdef::STATUS_UNSUCCESSFUL);
        }
    }
    match zipserve::map_view(sections, views, q.section, off as u64, want) {
        Some((base, size)) => {
            if q.preferred != 0 && q.preferred != base {
                let _ = zipserve::unmap_view(views, base);
                return MapStep::Fail(ntdef::STATUS_UNSUCCESSFUL);
            }
            MapStep::Mapped { base, size, offset: off as u64 }
        },
        None => MapStep::Fail(ntdef::STATUS_UNSUCCESSFUL),
    }
}

/// Unmaps a view once; the range whose memory is to be released, where that was the last use
/// of it. `None` for what is no view of a synthetic section, which is the system's.
pub fn unmap_view_hook(regions: &mut RegionTable, views: &mut ViewTable, base: u64) -> (r: Option<
    Option<u64>,
>)
    requires
        old(regions).wf(),
    ensures
        final(regions).wf(),
        if base != 0 && old(views).views().contains_key(base) {
            &&& final(views).views() == zipserve::views_unmapped(old(views).views(), base)
            &&& final(regions).regions() == lazy_section::after_view_unmapped(
                old(regions).regions(),
                final(views).views(),
                base,
            )
            &&& r == Some(
                lazy_section::released(old(regions).regions(), final(regions).regions(), base),
            )
        } else {
            &&& r is None
            &&& final(views).views() == old(views).views()
            &&& final(regions).regions() == old(regions).regions()
        },
{
    if base == 0 || !zipserve::is_synth_view(views, base) {
        return None;
    }
    let _ = zipserve::unmap_view(views, base);
    Some(lazy_section::on_view_unmapped(regions, views, base))
}

// ---------------------------------------------------------------------------------------
// Closing.

/// What becomes of a handle that is closed.
#[derive(Clone, Copy, Debug, PartialEq, Eq, Structural)]
pub enum CloseStep {
    /// A synthetic file: succeed, and close the director's handle where there is one.
    File(Option<u64>),
    /// A synthetic section: succeed, and release this range where there is one.
    Section(Option<u64>),
    /// Any other: hand the call to the system.
    Real,
}

/// Closes a handle: what is remembered of it is forgotten, a synthetic file gives up its
/// director's handle, and a synthetic section its memory, unless views are left.
pub fn close_hook(
    t: &mut HandleTables,
    fuse: &mut FuseTable,
    sections: &mut SectionTable,
    regions: &mut RegionTable,
    views: &ViewTable,
    handle: u64,
) -> (r: CloseStep)
    requires
        old(fuse).wf(),
        old(regions).wf(),
    ensures
        final(fuse).wf(),
        final(regions).wf(),
        final(t)@ == tables::reclaimed(old(t)@, handle),
        final(fuse).next_slot() == old(fuse).next_slot(),
        final(sections).next_slot() == old(sections).next_slot(),
        if fuse_synth::tagged(handle) {
            &&& r == CloseStep::File(
                if old(fuse).opens().contains_key(handle) {
                    Some(old(fuse).opens()[handle].fh)
                } else {
                    None
                },
            )
            &&& final(fuse).opens() == old(fuse).opens().remove(handle)
            &&& final(sections).sections() == old(sections).sections()
            &&& final(regions).regions() == old(regions).regions()
        } else if zipserve::section_tagged(handle) {
            &&& final(fuse).opens() == old(fuse).opens()
            &&& final(sections).sections() == old(sections).sections().remove(handle)
            &&& if old(sections).sections().contains_key(handle) {
                let window = old(sections).sections()[handle].window;
                &&& final(regions).regions() == lazy_section::after_section_closed(
                    old(regions).regions(),
                    views.views(),
                    window,
                )
                &&& r == CloseStep::Section(
                    lazy_section::released(
                        old(regions).regions(),
                        final(regions).regions(),
                        window,
                    ),
                )
            } else {
                &&& final(regions).regions() == old(regions).regions()
                &&& r == CloseStep::Section(None)
            }
        } else {
            &&& r == CloseStep::Real
            &&& final(fuse).opens() == old(fuse).opens()
            &&& final(sections).sections() == old(sections).sections()
            &&& final(regions).regions() == old(regions).regions()
        },
{
    tables::reclaim(t, handle);
    if fuse_synth::is_fuse_synth(handle) {
        return CloseStep::File(fuse_synth::close_fuse(fuse, handle));
    }
    if zipserve::is_synth_section(handle) {
        return CloseStep::Section(
            match zipserve::close_section(sections, handle) {
                Some(window) => lazy_section::on_section_closed(regions, views, window),
                None => None,
            },
        );
    }
    CloseStep::Real
}

/// What becomes of a section over a handle of the director's: it is refused for a handle that
/// is not open, a directory and an empty file; an image of up to 256 MiB is mapped as one; a
/// file up to that size is read in whole, and a larger one is brought in by faults. What it
/// stands on is the director's handle and the whole size.
pub proof fn law_sections_show_the_file(
    opens: Map<u64, fuse_synth::FuseOpen>,
    file: u64,
    alloc_attrs: u32,
    max_size: Option<i64>,
)
    requires
        file & 0x0000_8000_0000_0000 != 0,
        opens.contains_key(file),
    ensures
        ({
            let e = opens[file];
            let q = SectionRequest {
                file,
                alloc_attrs,
                max_size,
                reject_all: false,
                reject_data: false,
                has_client: true,
            };
            let image = alloc_attrs & 0x0100_0000 != 0;
            let beyond = max_size matches Some(want) && want > 0 && want > e.size;
            &&& e.is_dir || e.size == 0 ==> section_plan(opens, q) == SectionPlan::Refuse(
                ntdef::STATUS_INVALID_FILE_FOR_SECTION,
            )
            &&& !e.is_dir && 0 < e.size <= 268435456 && image ==> section_plan(opens, q)
                == (SectionPlan::Image { fh: e.fh, size: e.size })
            &&& !e.is_dir && e.size > 268435456 && image ==> section_plan(opens, q)
                == SectionPlan::Refuse(ntdef::STATUS_INVALID_FILE_FOR_SECTION)
            &&& !e.is_dir && e.size > 0 && !image && beyond ==> section_plan(opens, q)
                == SectionPlan::Refuse(ntdef::STATUS_SECTION_TOO_BIG)
            &&& !e.is_dir && 0 < e.size <= 268435456 && !image && !beyond ==> section_plan(opens, q)
                == (SectionPlan::Eager { fh: e.fh, size: e.size })
            &&& !e.is_dir && 268435456 < e.size <= 68719476736 && !image && !beyond ==> section_plan(
                opens,
                q,
            ) == (SectionPlan::Lazy { fh: e.fh, size: e.size })
            &&& !e.is_dir && e.size > 68719476736 && !image ==> section_plan(opens, q)
                == SectionPlan::Refuse(ntdef::STATUS_SECTION_TOO_BIG)
        }),
{
    fuse_synth::law_the_tag_is_one_bit(file, 0);
}

/// A section over a handle of the system's is the system's. Over one of the director's none is
/// made where sections are refused altogether, where the handle is not open, or where the
/// director is needed and cannot be asked.
pub proof fn law_sections_are_refused_for_a_reason(
    opens: Map<u64, fuse_synth::FuseOpen>,
    q: SectionRequest,
)
    ensures
        q.file & 0x0000_8000_0000_0000 == 0 ==> section_plan(opens, q) == SectionPlan::Real,
        ({
            let own = q.file & 0x0000_8000_0000_0000 != 0;
            &&& own ==> section_plan(opens, q) !is Real
            &&& own && q.reject_all ==> section_plan(opens, q) == SectionPlan::Refuse(ntdef::STATUS_INVALID_FILE_FOR_SECTION)
            &&& own && !q.reject_all && !opens.contains_key(q.file) ==> section_plan(opens, q)
                == SectionPlan::Refuse(ntdef::STATUS_INVALID_HANDLE)
            &&& own && !q.has_client ==> section_plan(opens, q) is Refuse || section_plan(opens, q)
                is Lazy
            &&& own && q.reject_data ==> section_plan(opens, q) is Refuse || section_plan(opens, q)
                is Image
        }),
{
    fuse_synth::law_the_tag_is_one_bit(q.file, 0);
}

/// A section stands on what came of the file: nothing where the read failed or brought nothing,
/// and never more than the file's size.
pub proof fn law_a_section_has_what_came(size: u64, n: u64)
    ensures
        section_bytes(size, None) is None,
        section_bytes(size, Some(0)) is None,
        0 < n <= size ==> section_bytes(size, Some(n)) == Some(n),
        n > size && n > 0 ==> section_bytes(size, Some(n)) == Some(size),
{
}

/// The hash starts at its basis and takes in one byte after the other: xor, then times the
/// multiplier, modulo 2^64.
pub proof fn law_the_hash_takes_in_every_byte(b: Seq<u8>, last: u8)
    ensures
        fnv(seq![]) == 0xcbf2_9ce4_8422_2325,
        fnv(b.push(last)) == (fnv(b) ^ (last as u64)).wrapping_mul(17592186044851),
{
    let next = b.push(last);
    assert(next.drop_last() =~= b);
    assert(next.last() == last);
    assert(fnv(next) == (fnv(next.drop_last()) ^ (next.last() as u64)).wrapping_mul(
        0x1000_0000_01b3,
    ));
}

/// The hash of an image takes in its path in lower case, then its size; so two spellings of a
/// path that differ in case have the same.
pub proof fn law_an_image_is_told_by_path_and_size(a: Seq<char>, b: Seq<char>, len: u64)
    ensures
        text::ascii_lowered(a) == text::ascii_lowered(b) ==> image_hash(a, len) == image_hash(
            b,
            len,
        ),
        image_hash(a, len) == fnv(encode_utf8(text::ascii_lowered(a)) + bytes::le64(len)),
{
}

/// A view of a synthetic section shows it from the offset asked for, and has the size asked for
/// or the rest of the section. It fails before the start, behind the end, where the caller
/// demands another base, and where no further view can be counted. A view of any other section is the system's.
pub proof fn law_views_are_mapped_as_asked(
    sections: Map<u64, zipserve::SynthSection>,
    views: Map<u64, zipserve::SynthView>,
    q: MapRequest,
)
    requires
        sections.contains_key(q.section) ==> sections[q.section].window + sections[q.section].length
            <= u64::MAX,
    ensures
        q.section & 0x0000_2000_0000_0000 == 0 ==> map_step(sections, views, q) == MapStep::Real,
        q.section >= 0x8000_0000_0000_0000 ==> map_step(sections, views, q) == MapStep::Real,
        q.section & 0x0000_2000_0000_0000 != 0 && q.section < 0x8000_0000_0000_0000 ==> {
            let s = sections[q.section];
            let off: int = match q.offset {
                Some(v) => v as int,
                None => 0,
            };
            let want: int = match q.size {
                Some(n) => n as int,
                None => 0,
            };
            let known = sections.contains_key(q.section);
            let base = s.window + off;
            let size = if want == 0 || off + want > s.length {
                s.length - off
            } else {
                want
            };
            let step = map_step(sections, views, q);
            &&& !known || off < 0 || off >= s.length ==> step == MapStep::Fail(ntdef::STATUS_UNSUCCESSFUL)
            &&& known && 0 <= off < s.length && q.preferred != 0 && q.preferred != base ==> step
                == MapStep::Fail(ntdef::STATUS_UNSUCCESSFUL)
            &&& known && 0 <= off < s.length && views.contains_key(base as u64)
                && views[base as u64].refs == u32::MAX ==> step == MapStep::Fail(
                ntdef::STATUS_UNSUCCESSFUL,
            )
            &&& known && 0 <= off < s.length && (q.preferred == 0 || q.preferred == base) && (
            views.contains_key(base as u64) ==> views[base as u64].refs < u32::MAX) ==> step
                == (MapStep::Mapped { base: base as u64, size: size as u64, offset: off as u64 })
        },
{
}

} // verus!

//! Synthetic file handles: tagged values that stand for files which the director has open.

use crate::text;
use std::collections::BTreeMap;
use vstd::prelude::*;

verus! {

/// The bit that marks a synthetic file handle.
pub const FUSE_TAG: u64 = 0x0000_8000_0000_0000;

/// What is tracked of an open synthetic handle.
pub struct FuseOpen {
    /// The director's handle.
    pub fh: u64,
    /// The file's size in bytes.
    pub size: u64,
    /// Whether it is a directory.
    pub is_dir: bool,
    /// The current byte offset.
    pub position: u64,
    /// Whether every write goes to the end of the file.
    pub append_only: bool,
    /// The absolute path, for names relative to this handle.
    pub abs_path: Option<String>,
}

/// The open synthetic handles.
pub struct FuseTable {
    next: u64,
    opens: BTreeMap<u64, FuseOpen>,
}

/// Whether a handle value carries the tag. An invalid handle, all of whose bits are set, does.
pub open spec fn tagged(handle: u64) -> bool {
    handle & FUSE_TAG != 0
}

/// The handle of a slot.
pub open spec fn handle_of(slot: u64) -> u64 {
    (slot & !FUSE_TAG) | FUSE_TAG
}

/// The entry of a fresh handle.
pub open spec fn fresh(
    fh: u64,
    size: u64,
    is_dir: bool,
    abs_path: Option<String>,
    append_only: bool,
) -> FuseOpen {
    FuseOpen {
        fh,
        size,
        is_dir,
        position: if append_only {
            size
        } else {
            0
        },
        append_only,
        abs_path,
    }
}

/// An entry with a new size: the position never lies behind the end.
pub open spec fn resized(e: FuseOpen, size: u64) -> FuseOpen {
    FuseOpen {
        size,
        position: if e.position > size {
            size
        } else {
            e.position
        },
        ..e
    }
}

impl FuseTable {
    /// The open handles with their entries.
    pub closed spec fn opens(self) -> Map<u64, FuseOpen> {
        self.opens@
    }

    /// The slot of the next handle.
    pub closed spec fn next_slot(self) -> u64 {
        self.next
    }

    /// Every open handle carries the tag.
    pub open spec fn wf(self) -> bool {
        forall|h: u64| #[trigger] self.opens().contains_key(h) ==> tagged(h)
    }

    /// No handle is open, and the first slot is one.
    pub fn new() -> (t: FuseTable)
        ensures
            t.wf(),
            t.opens() == Map::<u64, FuseOpen>::empty(),
            t.next_slot() == 1,
    {
        FuseTable { next: 1, opens: BTreeMap::new() }
    }
}

/// [`tagged`].
pub fn is_fuse_synth(handle: u64) -> (r: bool)
    ensures
        r == tagged(handle),
{
    handle & FUSE_TAG != 0
}

/// Every slot's handle carries the tag, and slots that differ below the tag have different
/// handles: none is handed out twice before 2^47 opens.
pub proof fn law_handles_are_tagged_and_distinct(a: u64, b: u64)
    ensures
        tagged(handle_of(a)),
        a != b && a < FUSE_TAG && b < FUSE_TAG ==> handle_of(a) != handle_of(b),
{
    assert(((a & !0x0000_8000_0000_0000u64) | 0x0000_8000_0000_0000u64) & 0x0000_8000_0000_0000u64
        != 0) by (bit_vector);
    assert(a != b && a < 0x0000_8000_0000_0000u64 && b < 0x0000_8000_0000_0000u64 ==> (a
        & !0x0000_8000_0000_0000u64) | 0x0000_8000_0000_0000u64 != (b & !0x0000_8000_0000_0000u64)
        | 0x0000_8000_0000_0000u64) by (bit_vector);
}

/// Opens a handle without a path.
pub fn open_fuse(t: &mut FuseTable, fh: u64, size: u64, is_dir: bool) -> (h: u64)
    requires
        old(t).wf(),
    ensures
        final(t).wf(),
        h == handle_of(old(t).next_slot()),
        final(t).opens() == old(t).opens().insert(h, fresh(fh, size, is_dir, None, false)),
        final(t).next_slot() == old(t).next_slot().wrapping_add(1),
{
    open_fuse_at(t, fh, size, is_dir, None)
}

/// Opens a handle with an absolute path.
pub fn open_fuse_at(
    t: &mut FuseTable,
    fh: u64,
    size: u64,
    is_dir: bool,
    abs_path: Option<String>,
) -> (h: u64)
    requires
        old(t).wf(),
    ensures
        final(t).wf(),
        h == handle_of(old(t).next_slot()),
        final(t).opens() == old(t).opens().insert(h, fresh(fh, size, is_dir, abs_path, false)),
        final(t).next_slot() == old(t).next_slot().wrapping_add(1),
{
    open_fuse_at_ex(t, fh, size, is_dir, abs_path, false)
}

/// Opens a handle. One with append-only access starts at the file's current end.
pub fn open_fuse_at_ex(
    t: &mut FuseTable,
    fh: u64,
    size: u64,
    is_dir: bool,
    abs_path: Option<String>,
    append_only: bool,
) -> (h: u64)
    requires
        old(t).wf(),
    ensures
        final(t).wf(),
        h == handle_of(old(t).next_slot()),
        final(t).opens() == old(t).opens().insert(
            h,
            fresh(fh, size, is_dir, abs_path, append_only),
        ),
        final(t).next_slot() == old(t).next_slot().wrapping_add(1),
{
    let slot: u64 = t.next;
    t.next = slot.wrapping_add(1);
    let handle: u64 = (slot & !FUSE_TAG) | FUSE_TAG;
    proof {
        law_handles_are_tagged_and_distinct(slot, slot);
    }
    let position: u64 = if append_only {
        size
    } else {
        0
    };
    t.opens.insert(handle, FuseOpen { fh, size, is_dir, position, append_only, abs_path });
    assert(t.opens() == old(t).opens().insert(
        handle,
        fresh(fh, size, is_dir, abs_path, append_only),
    ));
    handle
}

/// Director handle, size, directory flag, position and append-only flag of an open handle.
pub fn lookup(t: &FuseTable, handle: u64) -> (r: Option<(u64, u64, bool, u64, bool)>)
    ensures
        match r {
            Some((fh, size, is_dir, position, append_only)) => t.opens().contains_key(handle) && ({
                let e = t.opens()[handle];
                e.fh == fh && e.size == size && e.is_dir == is_dir && e.position == position
                    && e.append_only == append_only
            }),
            None => !t.opens().contains_key(handle),
        },
{
    match t.opens.get(&handle) {
        Some(e) => Some((e.fh, e.size, e.is_dir, e.position, e.append_only)),
        None => None,
    }
}

/// The absolute path of an open handle, where one was recorded.
pub fn abs_path(t: &FuseTable, handle: u64) -> (r: Option<String>)
    ensures
        text::option_text(r) == if t.opens().contains_key(handle) {
            text::option_text(t.opens()[handle].abs_path)
        } else {
            None
        },
{
    match t.opens.get(&handle) {
        Some(e) => match &e.abs_path {
            Some(p) => Some(p.clone()),
            None => None,
        },
        None => None,
    }
}

/// Moves an open handle's position.
pub fn set_position(t: &mut FuseTable, handle: u64, pos: u64)
    requires
        old(t).wf(),
    ensures
        final(t).wf(),
        final(t).next_slot() == old(t).next_slot(),
        final(t).opens() == if old(t).opens().contains_key(handle) {
            old(t).opens().insert(
                handle,
                (FuseOpen { position: pos, ..old(t).opens()[handle] }),
            )
        } else {
            old(t).opens()
        },
{
    match t.opens.remove(&handle) {
        Some(e) => {
            let mut e = e;
            e.position = pos;
            t.opens.insert(handle, e);
            assert(t.opens() =~= old(t).opens().insert(
                handle,
                (FuseOpen { position: pos, ..old(t).opens()[handle] }),
            ));
        },
        None => {
            assert(t.opens() =~= old(t).opens());
        },
    }
}

/// Sets an open handle's size; the position is moved back to a smaller end.
pub fn set_size(t: &mut FuseTable, handle: u64, size: u64)
    requires
        old(t).wf(),
    ensures
        final(t).wf(),
        final(t).next_slot() == old(t).next_slot(),
        final(t).opens() == if old(t).opens().contains_key(handle) {
            old(t).opens().insert(handle, resized(old(t).opens()[handle], size))
        } else {
            old(t).opens()
        },
{
    match t.opens.remove(&handle) {
        Some(e) => {
            let mut e = e;
            e.size = size;
            if e.position > size {
                e.position = size;
            }
            t.opens.insert(handle, e);
            assert(t.opens() =~= old(t).opens().insert(
                handle,
                resized(old(t).opens()[handle], size),
            ));
        },
        None => {
            assert(t.opens() =~= old(t).opens());
        },
    }
}

/// Closes a handle and gives back the director's handle, which is to be closed too.
pub fn close_fuse(t: &mut FuseTable, handle: u64) -> (r: Option<u64>)
    requires
        old(t).wf(),
    ensures
        final(t).wf(),
        final(t).next_slot() == old(t).next_slot(),
        final(t).opens() == old(t).opens().remove(handle),
        r == if old(t).opens().contains_key(handle) {
            Some(old(t).opens()[handle].fh)
        } else {
            None
        },
{
    match t.opens.remove(&handle) {
        Some(e) => Some(e.fh),
        None => None,
    }
}

/// Closing a fresh handle gives back the director's handle that it was opened with and leaves
/// every other open handle as it was.
pub proof fn law_close_undoes_open(opens: Map<u64, FuseOpen>, h: u64, e: FuseOpen)
    requires
        !opens.contains_key(h),
    ensures
        opens.insert(h, e).contains_key(h),
        opens.insert(h, e)[h].fh == e.fh,
        opens.insert(h, e).remove(h) == opens,
{
    assert(opens.insert(h, e).remove(h) =~= opens);
}

/// A handle opened for appending only starts at the end, and a write that ends behind the old
/// end leaves it there: position and size move together.
pub proof fn law_append_position_is_the_end(e: FuseOpen, n: u64)
    requires
        e.append_only,
        e.position == e.size,
        e.position + n <= u64::MAX,
    ensures
        ({
            let moved = FuseOpen { position: (e.position + n) as u64, ..e };
            let grown = resized(moved, (e.position + n) as u64);
            grown.position == grown.size && grown.size == e.size + n
        }),
{
}

/// What an open records is what was given: the director's handle, the size, whether it is a
/// directory, its path and whether it may only append; it starts at the beginning of the file,
/// or at its end where it may only append.
pub proof fn law_a_fresh_handle_is_as_given(
    fh: u64,
    size: u64,
    is_dir: bool,
    abs_path: Option<String>,
)
    ensures
        fresh(fh, size, is_dir, abs_path, false) == (FuseOpen {
            fh,
            size,
            is_dir,
            position: 0,
            append_only: false,
            abs_path,
        }),
        fresh(fh, size, is_dir, abs_path, true) == (FuseOpen {
            fh,
            size,
            is_dir,
            position: size,
            append_only: true,
            abs_path,
        }),
{
}

/// A new size is the size; a position inside the file stays, one behind the end moves to it, and
/// nothing else changes.
pub proof fn law_a_new_size_keeps_the_rest(e: FuseOpen, size: u64)
    ensures
        resized(e, size).size == size,
        e.position <= size ==> resized(e, size).position == e.position,
        e.position > size ==> resized(e, size).position == size,
        resized(e, size).fh == e.fh,
        resized(e, size).is_dir == e.is_dir,
        resized(e, size).append_only == e.append_only,
        resized(e, size).abs_path == e.abs_path,
{
}

/// The tag is one bit; a handle is told by it alone, and a slot below it is found in its handle.
pub proof fn law_the_tag_is_one_bit(handle: u64, slot: u64)
    ensures
        tagged(handle) <==> handle & 0x0000_8000_0000_0000 != 0,
        slot < 0x0000_8000_0000_0000 ==> handle_of(slot) == slot + 0x0000_8000_0000_0000,
{
    assert(slot < 0x0000_8000_0000_0000u64 ==> (slot & !0x0000_8000_0000_0000u64)
        | 0x0000_8000_0000_0000u64 == slot + 0x0000_8000_0000_0000u64) by (bit_vector);
}

} // verus!

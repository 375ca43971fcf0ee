//! Reads, writes, locks and flushes of synthetic handles.

use crate::fuse_synth;
use crate::fuse_synth::FuseTable;
use crate::hook::tables;
use crate::hook::tables::HandleTables;
use crate::hookstats;
use crate::hookstats::Stats;
use crate::ntdef;
use crate::tally;
use vstd::prelude::*;
use vstd::string::*;

verus! {

/// The end of a call: its status, the information that is written where the call is completed,
/// and whether the caller's event is set.
#[derive(Clone, Copy, Debug, PartialEq, Eq, Structural)]
pub struct IoAnswer {
    pub status: i32,
    pub information: Option<u64>,
    pub signal: bool,
}

/// What becomes of a read or a write.
#[derive(Clone, Copy, Debug, PartialEq, Eq, Structural)]
pub enum IoStep {
    /// Hand the call to the system.
    Real,
    /// It is over.
    Done(IoAnswer),
    /// Move this many bytes from or to the director's file, from this offset on.
    Transfer { fh: u64, offset: u64, len: u64 },
    /// Nothing is moved; go on as after a transfer of nothing, at this offset.
    Nothing { offset: u64 },
}

/// A failure that completes the call, or leaves it.
pub open spec fn io_failed(status: i32, information: Option<u64>) -> IoAnswer {
    IoAnswer { status, information, signal: false }
}

/// Whether a handle is synthetic and open.
pub open spec fn is_open_synth(opens: Map<u64, fuse_synth::FuseOpen>, handle: u64) -> bool {
    fuse_synth::tagged(handle) && opens.contains_key(handle)
}

/// [`is_open_synth`].
pub fn open_synth(t: &FuseTable, handle: u64) -> (r: bool)
    ensures
        r == is_open_synth(t.opens(), handle),
{
    fuse_synth::is_fuse_synth(handle) && fuse_synth::lookup(t, handle).is_some()
}

/// The offset that a caller gives: none where it means the current position.
pub open spec fn explicit(offset: Option<i64>) -> Option<u64> {
    match offset {
        Some(v) => if v < 0 {
            None
        } else {
            Some(v as u64)
        },
        None => None,
    }
}

/// [`explicit`].
pub fn explicit_offset(offset: Option<i64>) -> (r: Option<u64>)
    ensures
        r == explicit(offset),
{
    match offset {
        Some(v) => if v < 0 {
            None
        } else {
            Some(v as u64)
        },
        None => None,
    }
}

// ---------------------------------------------------------------------------------------
// Writes.

/// Where a write goes: at the end of the file where the handle may only append, whatever the
/// caller says; else where the caller says, or at the current position.
pub open spec fn write_offset(e: fuse_synth::FuseOpen, given: Option<u64>) -> u64 {
    if e.append_only {
        e.size
    } else {
        match given {
            Some(v) => v,
            None => e.position,
        }
    }
}

/// What becomes of a write.
pub open spec fn write_begun(
    opens: Map<u64, fuse_synth::FuseOpen>,
    handle: u64,
    offset: Option<i64>,
    length: u32,
    has_buffer: bool,
) -> IoStep {
    if !fuse_synth::tagged(handle) {
        IoStep::Real
    } else if !opens.contains_key(handle) {
        IoStep::Done(io_failed(ntdef::STATUS_UNSUCCESSFUL, None))
    } else {
        let off = write_offset(opens[handle], explicit(offset));
        if length == 0 || !has_buffer {
            IoStep::Nothing { offset: off }
        } else {
            IoStep::Transfer { fh: opens[handle].fh, offset: off, len: length as u64 }
        }
    }
}

/// Begins a write: [`write_begun`]. One to a synthetic handle is counted by how its caller
/// expects to learn of its completion.
pub fn write_hook(
    s: &mut Stats,
    t: &FuseTable,
    handle: u64,
    has_apc: bool,
    has_event: bool,
    offset: Option<i64>,
    length: u32,
    has_buffer: bool,
) -> (r: IoStep)
    requires
        old(s).wf(),
    ensures
        final(s).wf(),
        r == write_begun(t.opens(), handle, offset, length, has_buffer),
        final(s)@ == (if fuse_synth::tagged(handle) {
            hookstats::counted(
                old(s)@,
                hookstats::read_completed(old(s)@.counts, has_apc, has_event),
            )
        } else {
            old(s)@
        }),
{
    if !fuse_synth::is_fuse_synth(handle) {
        return IoStep::Real;
    }
    hookstats::note_read_completion(s, has_apc, has_event);
    match fuse_synth::lookup(t, handle) {
        None => IoStep::Done(
            IoAnswer {
                status: ntdef::STATUS_UNSUCCESSFUL,
                information: None,
                signal: false,
            },
        ),
        Some((fh, size, _, position, append_only)) => {
            let off: u64 = if append_only {
                size
            } else {
                match explicit_offset(offset) {
                    Some(v) => v,
                    None => position,
                }
            };
            if length == 0 || !has_buffer {
                IoStep::Nothing { offset: off }
            } else {
                IoStep::Transfer { fh, offset: off, len: length as u64 }
            }
        },
    }
}

/// A handle's entry after `n` bytes were written at `off`: a write without an offset, and every
/// write that appends, moves the position behind it, and a write beyond the end moves the end.
pub open spec fn after_write(
    e: fuse_synth::FuseOpen,
    off: u64,
    n: u64,
    moves: bool,
) -> fuse_synth::FuseOpen {
    let end = off.saturating_add(n);
    let moved = if moves {
        fuse_synth::FuseOpen { position: end, ..e }
    } else {
        e
    };
    if end > e.size {
        fuse_synth::resized(moved, end)
    } else {
        moved
    }
}

/// Ends a write: `n` is how many bytes the director took, `None` where it failed. A handle that
/// was closed meanwhile gets the same answer, and nothing is left of it to change.
pub fn write_answer(
    t: &mut FuseTable,
    handle: u64,
    at: u64,
    offset: Option<i64>,
    n: Option<u64>,
) -> (r: IoAnswer)
    requires
        old(t).wf(),
    ensures
        final(t).wf(),
        final(t).next_slot() == old(t).next_slot(),
        match n {
            Some(k) => {
                let e = old(t).opens()[handle];
                &&& r == (IoAnswer {
                    status: ntdef::STATUS_SUCCESS,
                    information: Some(k),
                    signal: true,
                })
                &&& final(t).opens() == (if old(t).opens().contains_key(handle) {
                    old(t).opens().insert(
                        handle,
                        after_write(e, at, k, e.append_only || explicit(offset) is None),
                    )
                } else {
                    old(t).opens()
                })
            },
            None => {
                &&& r == io_failed(ntdef::STATUS_UNSUCCESSFUL, Some(0))
                &&& final(t).opens() == old(t).opens()
            },
        },
{
    let k: u64 = match n {
        Some(k) => k,
        None => {
            return IoAnswer {
                status: ntdef::STATUS_UNSUCCESSFUL,
                information: Some(0),
                signal: false,
            };
        },
    };
    let ghost before = t.opens();
    let end: u64 = at.saturating_add(k);
    if let Some((_, size, _, _, append_only)) = fuse_synth::lookup(t, handle) {
        if append_only || explicit_offset(offset).is_none() {
            fuse_synth::set_position(t, handle, end);
        }
        if end > size {
            fuse_synth::set_size(t, handle, end);
        }
        assert(t.opens() =~= before.insert(
            handle,
            after_write(
                before[handle],
                at,
                k,
                before[handle].append_only || explicit(offset) is None,
            ),
        ));
    }
    IoAnswer { status: ntdef::STATUS_SUCCESS, information: Some(k), signal: true }
}

/// A write through a handle that may only append goes to the end of the file and moves the end
/// by what was written, whatever offset the caller gives; what was there before stays.
pub proof fn law_appends_extend_the_file(
    opens: Map<u64, fuse_synth::FuseOpen>,
    handle: u64,
    offset: Option<i64>,
    length: u32,
    n: u64,
)
    requires
        is_open_synth(opens, handle),
        opens[handle].append_only,
        opens[handle].size + n <= u64::MAX,
    ensures
        ({
            let e = opens[handle];
            let after = after_write(e, write_offset(e, explicit(offset)), n, true);
            &&& write_begun(opens, handle, offset, length, true) matches IoStep::Transfer {
                fh,
                offset: at,
                len,
            } ==> at == e.size
            &&& after.size == e.size + n
            &&& after.position == after.size
        }),
{
}

/// The end of a file never moves back by a write.
pub proof fn law_writes_never_shrink(e: fuse_synth::FuseOpen, off: u64, n: u64, moves: bool)
    ensures
        after_write(e, off, n, moves).size >= e.size,
        after_write(e, off, n, moves).fh == e.fh,
        after_write(e, off, n, moves).is_dir == e.is_dir,
        !moves ==> after_write(e, off, n, moves).position <= e.position,
{
}

// ---------------------------------------------------------------------------------------
// Reads.

/// What becomes of a read.
pub open spec fn read_begun(
    opens: Map<u64, fuse_synth::FuseOpen>,
    handle: u64,
    offset: Option<i64>,
    length: u32,
    has_buffer: bool,
) -> IoStep {
    if !fuse_synth::tagged(handle) {
        IoStep::Real
    } else if !opens.contains_key(handle) {
        IoStep::Done(io_failed(ntdef::STATUS_UNSUCCESSFUL, None))
    } else {
        let e = opens[handle];
        let off = match explicit(offset) {
            Some(v) => v,
            None => e.position,
        };
        if off >= e.size {
            IoStep::Done(io_failed(ntdef::STATUS_END_OF_FILE, Some(0)))
        } else if length == 0 || !has_buffer {
            IoStep::Nothing { offset: off }
        } else {
            IoStep::Transfer {
                fh: e.fh,
                offset: off,
                len: if length < e.size - off {
                    length as u64
                } else {
                    (e.size - off) as u64
                },
            }
        }
    }
}

/// Begins a read: [`read_begun`]. One of a synthetic handle is counted by how its caller
/// expects to learn of its completion.
pub fn read_hook(
    s: &mut Stats,
    t: &FuseTable,
    handle: u64,
    has_apc: bool,
    has_event: bool,
    offset: Option<i64>,
    length: u32,
    has_buffer: bool,
) -> (r: IoStep)
    requires
        old(s).wf(),
    ensures
        final(s).wf(),
        r == read_begun(t.opens(), handle, offset, length, has_buffer),
        final(s)@ == (if fuse_synth::tagged(handle) {
            hookstats::counted(
                old(s)@,
                hookstats::read_completed(old(s)@.counts, has_apc, has_event),
            )
        } else {
            old(s)@
        }),
{
    if !fuse_synth::is_fuse_synth(handle) {
        return IoStep::Real;
    }
    hookstats::note_read_completion(s, has_apc, has_event);
    match fuse_synth::lookup(t, handle) {
        None => IoStep::Done(
            IoAnswer {
                status: ntdef::STATUS_UNSUCCESSFUL,
                information: None,
                signal: false,
            },
        ),
        Some((fh, size, _, position, _)) => {
            let off: u64 = match explicit_offset(offset) {
                Some(v) => v,
                None => position,
            };
            if off >= size {
                return IoStep::Done(
                    IoAnswer {
                        status: ntdef::STATUS_END_OF_FILE,
                        information: Some(0),
                        signal: false,
                    },
                );
            }
            if length == 0 || !has_buffer {
                return IoStep::Nothing { offset: off };
            }
            let want: u64 = length as u64;
            let left: u64 = size - off;
            IoStep::Transfer {
                fh,
                offset: off,
                len: if want < left {
                    want
                } else {
                    left
                },
            }
        },
    }
}

/// Ends a read: `n` is how many bytes came back, `None` where the read failed. A read without
/// an offset moves the position behind what it read. A read through a handle that was closed
/// meanwhile succeeds, and nothing is left of the handle to change.
pub fn read_answer(
    t: &mut FuseTable,
    handle: u64,
    at: u64,
    offset: Option<i64>,
    n: Option<u64>,
) -> (r: IoAnswer)
    requires
        old(t).wf(),
    ensures
        final(t).wf(),
        final(t).next_slot() == old(t).next_slot(),
        match n {
            Some(k) => {
                let e = old(t).opens()[handle];
                let end = at.saturating_add(k);
                &&& r == (IoAnswer {
                    status: if old(t).opens().contains_key(handle) && k == 0 && end >= e.size {
                        ntdef::STATUS_END_OF_FILE
                    } else {
                        ntdef::STATUS_SUCCESS
                    },
                    information: Some(k),
                    signal: true,
                })
                &&& final(t).opens() == (if old(t).opens().contains_key(handle) && explicit(
                    offset,
                ) is None {
                    old(t).opens().insert(
                        handle,
                        (fuse_synth::FuseOpen { position: end, ..e }),
                    )
                } else {
                    old(t).opens()
                })
            },
            None => {
                &&& r == io_failed(ntdef::STATUS_UNSUCCESSFUL, Some(0))
                &&& final(t).opens() == old(t).opens()
            },
        },
{
    let k: u64 = match n {
        Some(k) => k,
        None => {
            return IoAnswer {
                status: ntdef::STATUS_UNSUCCESSFUL,
                information: Some(0),
                signal: false,
            };
        },
    };
    let end: u64 = at.saturating_add(k);
    let ended = match fuse_synth::lookup(t, handle) {
        Some((_, size, _, _, _)) => k == 0 && end >= size,
        None => false,
    };
    if explicit_offset(offset).is_none() {
        fuse_synth::set_position(t, handle, end);
    }
    IoAnswer {
        status: if ended {
            ntdef::STATUS_END_OF_FILE
        } else {
            ntdef::STATUS_SUCCESS
        },
        information: Some(k),
        signal: true,
    }
}

/// A read never asks for more than the file holds behind the offset, nor for more than the
/// caller has room for.
pub proof fn law_reads_stay_in_the_file(
    opens: Map<u64, fuse_synth::FuseOpen>,
    handle: u64,
    offset: Option<i64>,
    length: u32,
)
    ensures
        read_begun(opens, handle, offset, length, true) matches IoStep::Transfer {
            fh,
            offset: at,
            len,
        } ==> 0 < len <= length && at + len <= opens[handle].size && fh == opens[handle].fh,
{
}

/// Two reads without an offset, one behind the other, read one stretch of the file: the second
/// begins where the first ended.
pub proof fn law_reads_follow_each_other(
    opens: Map<u64, fuse_synth::FuseOpen>,
    handle: u64,
    at: u64,
    k: u64,
    length: u32,
)
    requires
        is_open_synth(opens, handle),
        at + k < opens[handle].size,
        length > 0,
    ensures
        ({
            let moved = fuse_synth::FuseOpen { position: at.saturating_add(k), ..opens[handle] };
            read_begun(opens.insert(handle, moved), handle, None, length, true)
                matches IoStep::Transfer { fh, offset: next, len } && next == at + k
        }),
{
}

// ---------------------------------------------------------------------------------------
// Locks and flushes.

/// The counters after a lock, an unlock or a flush of a synthetic handle.
pub open spec fn lock_counted(
    c: hookstats::SnapshotView,
    op: Seq<char>,
    path: Option<Seq<char>>,
) -> hookstats::SnapshotView {
    hookstats::SnapshotView {
        synth_locks: tally::bumped(
            c.synth_locks,
            hookstats::lock_key(op, path),
            hookstats::SYNTH_LOCKS_MAX as int,
        ),
        ..c
    }
}

/// What a lock, an unlock or a flush comes to: a synthetic handle that is open is granted it
/// without a lock being taken, one that is not open is invalid, and any other is the system's.
pub open spec fn lock_step(
    opens: Map<u64, fuse_synth::FuseOpen>,
    handle: u64,
    signal: bool,
) -> IoStep {
    if !fuse_synth::tagged(handle) {
        IoStep::Real
    } else if !opens.contains_key(handle) {
        IoStep::Done(io_failed(ntdef::STATUS_INVALID_HANDLE, None))
    } else {
        IoStep::Done(
            IoAnswer { status: ntdef::STATUS_SUCCESS, information: Some(0), signal },
        )
    }
}

/// [`lock_step`], counted under `op` where it is granted.
fn grant(
    s: &mut Stats,
    t: &FuseTable,
    tables: &HandleTables,
    handle: u64,
    op: &str,
    signal: bool,
) -> (r: IoStep)
    requires
        old(s).wf(),
    ensures
        final(s).wf(),
        r == lock_step(t.opens(), handle, signal),
        final(s)@ == (if is_open_synth(t.opens(), handle) {
            hookstats::counted(
                old(s)@,
                lock_counted(old(s)@.counts, op@, tables::path_in(tables@.paths, handle)),
            )
        } else {
            old(s)@
        }),
{
    if !fuse_synth::is_fuse_synth(handle) {
        return IoStep::Real;
    }
    if !open_synth(t, handle) {
        return IoStep::Done(
            IoAnswer {
                status: ntdef::STATUS_INVALID_HANDLE,
                information: None,
                signal: false,
            },
        );
    }
    match tables::tracked_path(tables, handle) {
        Some(p) => hookstats::note_synthetic_lock(s, op, Some(p.as_str())),
        None => hookstats::note_synthetic_lock(s, op, None),
    }
    IoStep::Done(IoAnswer { status: ntdef::STATUS_SUCCESS, information: Some(0), signal })
}

/// The name of a lock in the counters.
pub open spec fn lock_op(exclusive: bool) -> Seq<char> {
    if exclusive {
        "lock-exclusive"@
    } else {
        "lock-shared"@
    }
}

/// A lock of a range of bytes. One of a synthetic handle that is granted is counted, also by
/// how its caller expects to learn of its completion.
pub fn lock_hook(
    s: &mut Stats,
    t: &FuseTable,
    tables: &HandleTables,
    handle: u64,
    has_apc: bool,
    has_event: bool,
    exclusive: bool,
) -> (r: IoStep)
    requires
        old(s).wf(),
    ensures
        final(s).wf(),
        r == lock_step(t.opens(), handle, true),
        final(s)@ == (if is_open_synth(t.opens(), handle) {
            hookstats::counted(
                old(s)@,
                lock_counted(
                    hookstats::read_completed(old(s)@.counts, has_apc, has_event),
                    lock_op(exclusive),
                    tables::path_in(tables@.paths, handle),
                ),
            )
        } else {
            old(s)@
        }),
{
    if open_synth(t, handle) {
        hookstats::note_read_completion(s, has_apc, has_event);
    }
    grant(
        s,
        t,
        tables,
        handle,
        if exclusive {
            "lock-exclusive"
        } else {
            "lock-shared"
        },
        true,
    )
}

/// The release of a lock.
pub fn unlock_hook(s: &mut Stats, t: &FuseTable, tables: &HandleTables, handle: u64) -> (r: IoStep)
    requires
        old(s).wf(),
    ensures
        final(s).wf(),
        r == lock_step(t.opens(), handle, false),
        final(s)@ == (if is_open_synth(t.opens(), handle) {
            hookstats::counted(
                old(s)@,
                lock_counted(old(s)@.counts, "unlock"@, tables::path_in(tables@.paths, handle)),
            )
        } else {
            old(s)@
        }),
{
    grant(s, t, tables, handle, "unlock", false)
}

/// A flush.
pub fn flush_hook(s: &mut Stats, t: &FuseTable, tables: &HandleTables, handle: u64) -> (r: IoStep)
    requires
        old(s).wf(),
    ensures
        final(s).wf(),
        r == lock_step(t.opens(), handle, false),
        final(s)@ == (if is_open_synth(t.opens(), handle) {
            hookstats::counted(
                old(s)@,
                lock_counted(old(s)@.counts, "flush"@, tables::path_in(tables@.paths, handle)),
            )
        } else {
            old(s)@
        }),
{
    grant(s, t, tables, handle, "flush", false)
}

/// A lock is never reported as held on a handle that is not open: not on a closed one, and not
/// on the invalid handle, which carries the tag too.
pub proof fn law_only_open_handles_are_locked(
    opens: Map<u64, fuse_synth::FuseOpen>,
    handle: u64,
    signal: bool,
)
    requires
        !opens.contains_key(handle),
    ensures
        lock_step(opens, handle, signal) matches IoStep::Done(a) ==> a.status
            == ntdef::STATUS_INVALID_HANDLE && a.information is None && !a.signal,
        fuse_synth::tagged(u64::MAX),
{
    assert(0xffff_ffff_ffff_ffffu64 & 0x0000_8000_0000_0000u64 != 0) by (bit_vector);
}

// ---------------------------------------------------------------------------------------
// What reads and writes are for.

/// Where an open file is read: at the offset that the caller gives, whatever the handle's
/// position is, and at the position where it gives none or a negative one. What is moved is what
/// the caller has room for, as far as the file goes; at the end there is nothing to read.
pub proof fn law_reads_go_where_the_caller_says(
    opens: Map<u64, fuse_synth::FuseOpen>,
    handle: u64,
    offset: Option<i64>,
    length: u32,
    has_buffer: bool,
)
    requires
        handle & 0x0000_8000_0000_0000 != 0,
        opens.contains_key(handle),
    ensures
        ({
            let e = opens[handle];
            let step = read_begun(opens, handle, offset, length, has_buffer);
            &&& offset matches Some(v) ==> (v >= 0 ==> {
                &&& v >= e.size ==> step == IoStep::Done(
                    IoAnswer {
                        status: ntdef::STATUS_END_OF_FILE,
                        information: Some(0),
                        signal: false,
                    },
                )
                &&& v < e.size && length > 0 && has_buffer ==> (step matches IoStep::Transfer {
                    fh,
                    offset: at,
                    len,
                } && fh == e.fh && at == v && len <= length && len <= e.size - v && (len == length
                    || len == e.size - v))
                &&& v < e.size && (length == 0 || !has_buffer) ==> step == (IoStep::Nothing {
                    offset: v as u64,
                })
            })
            &&& (offset is None || (offset matches Some(v) && v < 0)) ==> {
                &&& e.position >= e.size ==> step == IoStep::Done(
                    IoAnswer {
                        status: ntdef::STATUS_END_OF_FILE,
                        information: Some(0),
                        signal: false,
                    },
                )
                &&& e.position < e.size && length > 0 && has_buffer ==> (
                step matches IoStep::Transfer { fh, offset: at, len } && fh == e.fh && at
                    == e.position && len <= length && len <= e.size - e.position && (len == length
                    || len == e.size - e.position))
                &&& e.position < e.size && (length == 0 || !has_buffer) ==> step == (
                IoStep::Nothing { offset: e.position })
            }
        }),
{
}

/// A read at an offset is the read that a handle positioned there makes without one, and where
/// the position stands makes no difference to it.
pub proof fn law_a_positioned_read_needs_no_position(
    opens: Map<u64, fuse_synth::FuseOpen>,
    handle: u64,
    v: i64,
    elsewhere: u64,
    length: u32,
    has_buffer: bool,
)
    requires
        opens.contains_key(handle),
        v >= 0,
    ensures
        ({
            let there = opens.insert(
                handle,
                fuse_synth::FuseOpen { position: v as u64, ..opens[handle] },
            );
            let moved = opens.insert(
                handle,
                fuse_synth::FuseOpen { position: elsewhere, ..opens[handle] },
            );
            &&& read_begun(opens, handle, Some(v), length, has_buffer) == read_begun(
                there,
                handle,
                None,
                length,
                has_buffer,
            )
            &&& read_begun(opens, handle, Some(v), length, has_buffer) == read_begun(
                moved,
                handle,
                Some(v),
                length,
                has_buffer,
            )
        }),
{
}

/// Where an open file is written: at its end where the handle may only append; else at the
/// offset that the caller gives, and at the handle's position where it gives none or a negative
/// one. All that the caller hands over is moved, to the file that the handle stands for.
pub proof fn law_writes_go_where_the_caller_says(
    opens: Map<u64, fuse_synth::FuseOpen>,
    handle: u64,
    offset: Option<i64>,
    length: u32,
    has_buffer: bool,
)
    requires
        handle & 0x0000_8000_0000_0000 != 0,
        opens.contains_key(handle),
    ensures
        ({
            let e = opens[handle];
            let step = write_begun(opens, handle, offset, length, has_buffer);
            let at = match step {
                IoStep::Transfer { fh, offset: at, len } => at as int,
                IoStep::Nothing { offset: at } => at as int,
                _ => -1int,
            };
            &&& length > 0 && has_buffer ==> (step matches IoStep::Transfer {
                fh,
                offset: o,
                len,
            } && fh == e.fh && len == length)
            &&& length == 0 || !has_buffer ==> step is Nothing
            &&& e.append_only ==> at == e.size
            &&& !e.append_only ==> (offset matches Some(v) ==> (v >= 0 ==> at == v))
            &&& !e.append_only && (offset is None || (offset matches Some(v) && v < 0)) ==> at
                == e.position
        }),
{
}

/// Only handles that the shim gave out are read and written here, and one that is closed fails;
/// every other handle is the system's.
pub proof fn law_only_own_handles_are_read_and_written(
    opens: Map<u64, fuse_synth::FuseOpen>,
    handle: u64,
    offset: Option<i64>,
    length: u32,
    has_buffer: bool,
)
    ensures
        handle & 0x0000_8000_0000_0000 == 0 <==> read_begun(
            opens,
            handle,
            offset,
            length,
            has_buffer,
        ) is Real,
        handle & 0x0000_8000_0000_0000 == 0 <==> write_begun(
            opens,
            handle,
            offset,
            length,
            has_buffer,
        ) is Real,
        handle & 0x0000_8000_0000_0000 != 0 && !opens.contains_key(handle) ==> ({
            let failed = IoStep::Done(
                IoAnswer {
                    status: ntdef::STATUS_UNSUCCESSFUL,
                    information: None,
                    signal: false,
                },
            );
            read_begun(opens, handle, offset, length, has_buffer) == failed && write_begun(
                opens,
                handle,
                offset,
                length,
                has_buffer,
            ) == failed
        }),
{
}

/// What a write leaves of the handle: the file reaches at least to the end of what was written
/// and never less far than before; a write that moves the position leaves it behind what was
/// written, any other leaves it, but never behind the end; nothing else of the handle changes.
pub proof fn law_a_write_moves_end_and_position(
    e: fuse_synth::FuseOpen,
    off: u64,
    n: u64,
    moves: bool,
)
    requires
        off + n <= u64::MAX,
    ensures
        ({
            let after = after_write(e, off, n, moves);
            &&& off + n > e.size ==> after.size == off + n
            &&& off + n <= e.size ==> after.size == e.size
            &&& moves ==> after.position == off + n
            &&& !moves && e.position <= e.size ==> after.position == e.position
            &&& after.fh == e.fh && after.is_dir == e.is_dir && after.append_only == e.append_only
                && after.abs_path == e.abs_path
        }),
{
}

/// Two writes without an offset, one behind the other, write one stretch of the file: the second
/// begins where the first ended.
pub proof fn law_writes_follow_each_other(
    opens: Map<u64, fuse_synth::FuseOpen>,
    handle: u64,
    k: u64,
    length: u32,
)
    requires
        handle & 0x0000_8000_0000_0000 != 0,
        opens.contains_key(handle),
        !opens[handle].append_only,
        opens[handle].position + k <= u64::MAX,
        length > 0,
    ensures
        ({
            let first = write_begun(opens, handle, None, length, true);
            let at = first->Transfer_offset;
            let now = opens.insert(handle, after_write(opens[handle], at, k, true));
            let second = write_begun(now, handle, None, length, true);
            &&& first is Transfer && at == opens[handle].position
            &&& second is Transfer && second->Transfer_offset == at + k
            &&& second->Transfer_fh == first->Transfer_fh
        }),
{
}

/// What was written can be read back: a read at the offset of a write of `k` bytes, with room
/// for them, moves as many from there.
pub proof fn law_what_was_written_can_be_read(
    opens: Map<u64, fuse_synth::FuseOpen>,
    handle: u64,
    v: i64,
    k: u32,
    moves: bool,
)
    requires
        handle & 0x0000_8000_0000_0000 != 0,
        opens.contains_key(handle),
        v >= 0,
        k > 0,
    ensures
        ({
            let now = opens.insert(handle, after_write(opens[handle], v as u64, k as u64, moves));
            read_begun(now, handle, Some(v), k, true) == (IoStep::Transfer {
                fh: opens[handle].fh,
                offset: v as u64,
                len: k as u64,
            })
        }),
{
}

/// A lock, an unlock or a flush of an open file is granted, with nothing reported as moved; on
/// any other handle of the shim's it is invalid, and the rest is the system's.
pub proof fn law_locks_are_granted_on_open_files(
    opens: Map<u64, fuse_synth::FuseOpen>,
    handle: u64,
    signal: bool,
)
    ensures
        handle & 0x0000_8000_0000_0000 == 0 <==> lock_step(opens, handle, signal) is Real,
        handle & 0x0000_8000_0000_0000 != 0 && opens.contains_key(handle) ==> lock_step(
            opens,
            handle,
            signal,
        ) == IoStep::Done(IoAnswer { status: 0, information: Some(0), signal }),
        handle & 0x0000_8000_0000_0000 != 0 && !opens.contains_key(handle) ==> lock_step(
            opens,
            handle,
            signal,
        ) == IoStep::Done(
            IoAnswer {
                status: ntdef::STATUS_INVALID_HANDLE,
                information: None,
                signal: false,
            },
        ),
{
}

/// Exclusive and shared locks are told apart where they are counted, and each counts once.
pub proof fn law_locks_are_counted_by_kind(
    c: hookstats::SnapshotView,
    op: Seq<char>,
    path: Option<Seq<char>>,
)
    ensures
        lock_op(true) == "lock-exclusive"@,
        lock_op(false) == "lock-shared"@,
        lock_op(true) != lock_op(false),
        lock_counted(c, op, path).synth_locks == tally::bumped(
            c.synth_locks,
            hookstats::lock_key(op, path),
            hookstats::SYNTH_LOCKS_MAX as int,
        ),
        (hookstats::SnapshotView { synth_locks: c.synth_locks, ..lock_counted(c, op, path) }) == c,
{
    reveal_strlit("lock-exclusive");
    reveal_strlit("lock-shared");
    assert("lock-exclusive"@.len() != "lock-shared"@.len());
}

} // verus!

//! Opens and creates: which requests the director gets, what its answers come to, and what is
//! done with an open that it does not answer.

use crate::engine;
use crate::engine::Decision;
use crate::fuse_client;
use crate::fuse_client::Attr;
use crate::fuse_client::OpenFlags;
use crate::fuse_client::OpenReply;
use crate::fuse_client::RingStatus;
use crate::fuse_synth;
use crate::fuse_synth::FuseTable;
use crate::hook::tables;
use crate::hook::tables::HandleTables;
use crate::hookstats;
use crate::hookstats::OpenOutcome;
use crate::hookstats::Stats;
use crate::ntdef;
use crate::ntdef::ObjectAttributes;
use crate::ntdef::UnicodeString;
use crate::paths;
use crate::text;
use vstd::prelude::*;
use vstd::string::*;

verus! {

/// The disposition of an open that neither creates nor cuts.
pub const FILE_OPEN: u32 = 1;

/// The mode of directories that are made.
pub const DIR_MODE: u32 = 493;

// ---------------------------------------------------------------------------------------
// Access and disposition.

/// Whether an open may change something: it asks for write or append access, or its disposition
/// creates or cuts.
pub open spec fn writes(access: u32, disposition: u32) -> bool {
    (access & 0x4000_0006) != 0 || disposition == 0 || 2 <= disposition <= 5
}

/// [`writes`].
pub fn is_write_open(access: u32, disposition: u32) -> (r: bool)
    ensures
        r == writes(access, disposition),
{
    (access & 0x4000_0006) != 0 || disposition == 0 || (2 <= disposition && disposition <= 5)
}

/// Whether an open may only append: append access without write access, the general one
/// included.
pub open spec fn appends_only(access: u32) -> bool {
    (access & 0x4) != 0 && (access & 0x4000_0002) == 0
}

/// [`appends_only`].
pub fn is_append_only(access: u32) -> (r: bool)
    ensures
        r == appends_only(access),
{
    (access & 0x4) != 0 && (access & 0x4000_0002) == 0
}

/// What a disposition asks of the director.
pub open spec fn flags_of(disposition: u32) -> OpenFlags {
    OpenFlags {
        write: false,
        create: disposition == 0 || disposition == 2 || disposition == 3 || disposition == 5,
        excl: disposition == 2,
        trunc: disposition == 0 || disposition == 4 || disposition == 5,
    }
}

/// [`flags_of`].
pub fn open_create_flags(disposition: u32) -> (r: OpenFlags)
    ensures
        r == flags_of(disposition),
{
    OpenFlags {
        write: false,
        create: disposition == 0 || disposition == 2 || disposition == 3 || disposition == 5,
        excl: disposition == 2,
        trunc: disposition == 0 || disposition == 4 || disposition == 5,
    }
}

/// Whether an open for writing that meets a directory is an open of that directory: only where
/// the disposition does not mean to create or to replace.
pub open spec fn downgrades(disposition: u32) -> bool {
    disposition == 1 || disposition == 3
}

/// [`downgrades`].
pub fn dir_open_downgrades(disposition: u32) -> (r: bool)
    ensures
        r == downgrades(disposition),
{
    disposition == 1 || disposition == 3
}

/// Whether what a successful open reports depends on whether the file was there before.
pub open spec fn needs_probe(disposition: u32) -> bool {
    disposition == 0 || disposition == 3 || disposition == 5
}

/// [`needs_probe`].
pub fn disposition_needs_existence_probe(disposition: u32) -> (r: bool)
    ensures
        r == needs_probe(disposition),
{
    disposition == 0 || disposition == 3 || disposition == 5
}

/// What a successful open reports.
pub open spec fn information_of(disposition: u32, existed: bool) -> u64 {
    if disposition == 2 || (needs_probe(disposition) && !existed) {
        ntdef::FILE_CREATED
    } else if disposition == 0 {
        ntdef::FILE_SUPERSEDED
    } else if disposition == 4 || disposition == 5 {
        ntdef::FILE_OVERWRITTEN
    } else {
        ntdef::FILE_OPENED
    }
}

/// [`information_of`].
pub fn disposition_information(disposition: u32, existed_before: bool) -> (r: u64)
    ensures
        r == information_of(disposition, existed_before),
{
    match disposition {
        0 => if existed_before {
            ntdef::FILE_SUPERSEDED
        } else {
            ntdef::FILE_CREATED
        },
        2 => ntdef::FILE_CREATED,
        3 => if existed_before {
            ntdef::FILE_OPENED
        } else {
            ntdef::FILE_CREATED
        },
        4 => ntdef::FILE_OVERWRITTEN,
        5 => if existed_before {
            ntdef::FILE_OVERWRITTEN
        } else {
            ntdef::FILE_CREATED
        },
        _ => ntdef::FILE_OPENED,
    }
}

/// A disposition that may create is an open for writing with whatever access, and exactly those
/// dispositions ask the director to create or to cut; only the three whose outcome varies are
/// probed, and for the others what is reported does not depend on the probe.
pub proof fn law_dispositions(access: u32, disposition: u32, existed: bool)
    ensures
        flags_of(disposition).create || flags_of(disposition).trunc ==> writes(access, disposition),
        disposition <= 5 && disposition != 1 ==> flags_of(disposition).create || flags_of(
            disposition,
        ).trunc,
        !needs_probe(disposition) ==> information_of(disposition, existed) == information_of(
            disposition,
            !existed,
        ),
        needs_probe(disposition) ==> information_of(disposition, existed) != information_of(
            disposition,
            !existed,
        ),
{
}

/// Append-only access is write access, and never carries the right to write elsewhere.
pub proof fn law_append_only_is_a_write(access: u32, disposition: u32)
    ensures
        appends_only(access) ==> writes(access, disposition),
{
    assert((access & 0x4) != 0 ==> (access & 0x4000_0006) != 0) by (bit_vector);
}

// ---------------------------------------------------------------------------------------
// The director's answer to an open.

/// An open under a managed root that the director is asked to answer.
#[derive(Clone, Copy, Debug, PartialEq, Eq, Structural)]
pub struct OpenRun {
    pub write: bool,
    pub disposition: u32,
    pub flags: OpenFlags,
    /// Whether an open that nothing serves may go to the system. Off unless switched on.
    pub allow_disk_fallthrough: bool,
    /// Whether the file was there before.
    pub existed: bool,
    pub phase: OpenPhase,
}

/// What the director was asked last.
#[derive(Clone, Copy, Debug, PartialEq, Eq, Structural)]
pub enum OpenPhase {
    /// Whether the file is there.
    Probing,
    /// To open it.
    Opening,
    /// Whether what it refused to open for writing, with this status, is a directory.
    DirProbing(RingStatus),
    /// To open that directory.
    Reopening,
    /// Nothing more.
    Ended,
}

/// What the director answered.
#[derive(Clone, Copy, Debug)]
pub enum OpenEvent {
    Attr(Result<Attr, RingStatus>),
    Opened(Result<OpenReply, RingStatus>),
}

/// What to do next.
#[derive(Clone, Copy, Debug, PartialEq, Eq, Structural)]
pub enum OpenStep {
    /// Ask for the path's attributes.
    Getattr,
    /// Open it for writing.
    OpenWrite(OpenFlags),
    /// Open it for reading.
    OpenRead,
    /// Give the open a synthetic handle, and report this.
    Serve(OpenReply, u64),
    /// Fail the open.
    Refuse(i32),
    /// Leave it to the engine. The flag says whether its outcome was counted already.
    FallThrough(bool),
}

/// The status of an open that the director refused.
pub open spec fn refusal(status: RingStatus, write: bool, create: bool) -> i32 {
    if status == RingStatus::NotFound {
        if write && create {
            ntdef::STATUS_OBJECT_PATH_NOT_FOUND
        } else {
            ntdef::STATUS_OBJECT_NAME_NOT_FOUND
        }
    } else if status == RingStatus::Exists {
        ntdef::STATUS_OBJECT_NAME_COLLISION
    } else if write && status == RingStatus::ReadOnly {
        ntdef::STATUS_ACCESS_DENIED
    } else if write && status == RingStatus::IsDir {
        ntdef::STATUS_FILE_IS_A_DIRECTORY
    } else {
        ntdef::STATUS_UNSUCCESSFUL
    }
}

/// What an answer to an open comes to. Only what nothing serves can fall through, and only
/// where that is switched on.
pub open spec fn open_settled(run: OpenRun, write: bool, r: Result<OpenReply, RingStatus>) ->
    OpenStep {
    match r {
        Ok(reply) => OpenStep::Serve(
            reply,
            if write {
                information_of(run.disposition, run.existed)
            } else {
                ntdef::FILE_OPENED
            },
        ),
        Err(status) => if status == RingStatus::NotFound && run.allow_disk_fallthrough {
            OpenStep::FallThrough(write)
        } else {
            OpenStep::Refuse(refusal(status, write, run.flags.create))
        },
    }
}

/// How the director is asked to open the file.
pub open spec fn open_asked(run: OpenRun) -> OpenStep {
    if run.write {
        OpenStep::OpenWrite(run.flags)
    } else {
        OpenStep::OpenRead
    }
}

/// Whether the director found the path.
pub open spec fn is_found(r: Result<Attr, RingStatus>) -> bool {
    r matches Ok(a) && a.found
}

/// Whether the director found a directory.
pub open spec fn is_found_dir(r: Result<Attr, RingStatus>) -> bool {
    r matches Ok(a) && a.found && a.is_dir
}

/// Whether the answer is one to what was asked.
pub open spec fn open_follows(run: OpenRun, event: OpenEvent) -> bool {
    match event {
        OpenEvent::Attr(_) => run.phase == OpenPhase::Probing || run.phase is DirProbing,
        OpenEvent::Opened(_) => run.phase == OpenPhase::Opening || run.phase
            == OpenPhase::Reopening,
    }
}

/// The run and the step after an answer.
pub open spec fn open_advanced(run: OpenRun, event: OpenEvent) -> (OpenRun, OpenStep) {
    match event {
        OpenEvent::Attr(r) => match run.phase {
            OpenPhase::DirProbing(status) => if is_found_dir(r) {
                (OpenRun { phase: OpenPhase::Reopening, ..run }, OpenStep::OpenRead)
            } else {
                (
                    OpenRun { phase: OpenPhase::Ended, ..run },
                    open_settled(run, run.write, Err(status)),
                )
            },
            _ => (
                OpenRun { phase: OpenPhase::Opening, existed: is_found(r), ..run },
                open_asked(run),
            ),
        },
        OpenEvent::Opened(r) => {
            let ended = OpenRun { phase: OpenPhase::Ended, ..run };
            if run.phase == OpenPhase::Reopening {
                (ended, open_settled(run, false, r))
            } else {
                match r {
                    Err(status) => if run.write && downgrades(run.disposition) {
                        (
                            OpenRun { phase: OpenPhase::DirProbing(status), ..run },
                            OpenStep::Getattr,
                        )
                    } else {
                        (ended, open_settled(run, run.write, r))
                    },
                    Ok(_) => (ended, open_settled(run, run.write, r)),
                }
            }
        },
    }
}

/// The counters after a step: repeating an open for a directory is counted as the shim's own
/// open, and a write that falls through as such.
pub open spec fn open_counted(
    c: hookstats::SnapshotView,
    run: OpenRun,
    step: OpenStep,
    path: Seq<char>,
) -> hookstats::SnapshotView {
    if run.phase is DirProbing && step == OpenStep::OpenRead {
        hookstats::SnapshotView {
            unrouted_director_opens: c.unrouted_director_opens.wrapping_add(1),
            ..c
        }
    } else if step == OpenStep::FallThrough(true) {
        hookstats::opened(c, OpenOutcome::FellThroughWriteFallback, path)
    } else {
        c
    }
}

impl OpenRun {
    /// An open that the director has not been asked about yet, and the first question.
    pub fn start(
        write: bool,
        disposition: u32,
        flags: OpenFlags,
        allow_disk_fallthrough: bool,
    ) -> (r: (OpenRun, OpenStep))
        ensures
            r.0 == (OpenRun {
                write,
                disposition,
                flags,
                allow_disk_fallthrough,
                existed: false,
                phase: if write && needs_probe(disposition) {
                    OpenPhase::Probing
                } else {
                    OpenPhase::Opening
                },
            }),
            r.1 == (if write && needs_probe(disposition) {
                OpenStep::Getattr
            } else {
                open_asked(r.0)
            }),
    {
        let probe = write && disposition_needs_existence_probe(disposition);
        let run = OpenRun {
            write,
            disposition,
            flags,
            allow_disk_fallthrough,
            existed: false,
            phase: if probe {
                OpenPhase::Probing
            } else {
                OpenPhase::Opening
            },
        };
        let step = if probe {
            OpenStep::Getattr
        } else {
            run.asked()
        };
        (run, step)
    }

    /// [`open_asked`].
    fn asked(&self) -> (r: OpenStep)
        ensures
            r == open_asked(*self),
    {
        if self.write {
            OpenStep::OpenWrite(self.flags)
        } else {
            OpenStep::OpenRead
        }
    }

    /// [`open_settled`].
    fn settle(&self, write: bool, answer: Result<OpenReply, RingStatus>) -> (r: OpenStep)
        ensures
            r == open_settled(*self, write, answer),
    {
        match answer {
            Ok(reply) => OpenStep::Serve(
                reply,
                if write {
                    disposition_information(self.disposition, self.existed)
                } else {
                    ntdef::FILE_OPENED
                },
            ),
            Err(status) => {
                if status == RingStatus::NotFound && self.allow_disk_fallthrough {
                    return OpenStep::FallThrough(write);
                }
                OpenStep::Refuse(
                    match status {
                        RingStatus::NotFound => if write && self.flags.create {
                            ntdef::STATUS_OBJECT_PATH_NOT_FOUND
                        } else {
                            ntdef::STATUS_OBJECT_NAME_NOT_FOUND
                        },
                        RingStatus::Exists => ntdef::STATUS_OBJECT_NAME_COLLISION,
                        RingStatus::ReadOnly => if write {
                            ntdef::STATUS_ACCESS_DENIED
                        } else {
                            ntdef::STATUS_UNSUCCESSFUL
                        },
                        RingStatus::IsDir => if write {
                            ntdef::STATUS_FILE_IS_A_DIRECTORY
                        } else {
                            ntdef::STATUS_UNSUCCESSFUL
                        },
                        _ => ntdef::STATUS_UNSUCCESSFUL,
                    },
                )
            },
        }
    }
}

/// Takes the director's answer and says what to do next: [`open_advanced`], counted as
/// [`open_counted`] says.
pub fn try_fuse_create(s: &mut Stats, run: &mut OpenRun, event: OpenEvent, path: &str) -> (r:
    OpenStep)
    requires
        old(s).wf(),
        open_follows(*old(run), event),
    ensures
        final(s).wf(),
        (*final(run), r) == open_advanced(*old(run), event),
        final(s)@ == hookstats::counted(
            old(s)@,
            open_counted(old(s)@.counts, *old(run), r, path@),
        ),
{
    let ghost before = s@;
    let step = match event {
        OpenEvent::Attr(r) => match run.phase {
            OpenPhase::DirProbing(status) => {
                let dir = match r {
                    Ok(a) => a.found && a.is_dir,
                    Err(_) => false,
                };
                if dir {
                    hookstats::note_unrouted_director_open(s);
                    run.phase = OpenPhase::Reopening;
                    return OpenStep::OpenRead;
                }
                let step = run.settle(run.write, Err(status));
                run.phase = OpenPhase::Ended;
                step
            },
            _ => {
                run.existed = match r {
                    Ok(a) => a.found,
                    Err(_) => false,
                };
                run.phase = OpenPhase::Opening;
                run.asked()
            },
        },
        OpenEvent::Opened(r) => {
            if run.phase == OpenPhase::Reopening {
                let step = run.settle(false, r);
                run.phase = OpenPhase::Ended;
                step
            } else {
                match r {
                    Err(status) => {
                        if run.write && dir_open_downgrades(run.disposition) {
                            run.phase = OpenPhase::DirProbing(status);
                            OpenStep::Getattr
                        } else {
                            let step = run.settle(run.write, r);
                            run.phase = OpenPhase::Ended;
                            step
                        }
                    },
                    Ok(_) => {
                        let step = run.settle(run.write, r);
                        run.phase = OpenPhase::Ended;
                        step
                    },
                }
            }
        },
    };
    if let OpenStep::FallThrough(recorded) = step {
        if recorded {
            hookstats::note_open_outcome(s, OpenOutcome::FellThroughWriteFallback, path);
        }
    }
    assert(s@ =~= hookstats::counted(
        before,
        open_counted(before.counts, *old(run), step, path@),
    ));
    step
}

/// With the switch off, which is the default, an open under a managed root that reaches the
/// director never goes on to the file system beneath it: it is served or it fails, whatever the
/// director answers. With the switch on, only what nothing serves goes on.
pub proof fn law_under_root_opens_are_sealed(run: OpenRun, event: OpenEvent)
    requires
        open_follows(run, event),
    ensures
        open_advanced(run, event).1 is FallThrough ==> run.allow_disk_fallthrough && (
        event matches OpenEvent::Opened(Err(RingStatus::NotFound)) || run.phase
            == OpenPhase::DirProbing(RingStatus::NotFound)),
        open_advanced(run, event).1 matches OpenStep::Refuse(status) ==> !ntdef::nt_success(status),
        open_advanced(run, event).0.allow_disk_fallthrough == run.allow_disk_fallthrough,
{
}

/// An open of something that is there with the disposition to create it fails with a collision,
/// whatever access it asks for.
pub proof fn law_exclusive_create_collides(run: OpenRun)
    requires
        run.phase == OpenPhase::Opening,
        !downgrades(run.disposition),
    ensures
        open_advanced(run, OpenEvent::Opened(Err(RingStatus::Exists))).1 == OpenStep::Refuse(
            ntdef::STATUS_OBJECT_NAME_COLLISION,
        ),
{
}

/// How far an open is: each answer brings it nearer to its end.
pub open spec fn open_remaining(phase: OpenPhase) -> nat {
    match phase {
        OpenPhase::Probing => 4,
        OpenPhase::Opening => 3,
        OpenPhase::DirProbing(_) => 2,
        OpenPhase::Reopening => 1,
        OpenPhase::Ended => 0,
    }
}

/// An open ends after at most four answers, and it has ended exactly when nothing is left to be
/// asked.
pub proof fn law_opens_end(run: OpenRun, event: OpenEvent)
    requires
        open_follows(run, event),
    ensures
        ({
            let (next, step) = open_advanced(run, event);
            &&& open_remaining(next.phase) < open_remaining(run.phase)
            &&& next.phase == OpenPhase::Ended <==> (step is Serve || step is Refuse
                || step is FallThrough)
        }),
{
}

// ---------------------------------------------------------------------------------------
// Synthetic handles.

/// What is remembered of a synthetic handle for an open that was served. `stored` says whether
/// the caller took the handle.
pub open spec fn served_tables(
    t: tables::TablesView,
    h: u64,
    path: Seq<char>,
    is_dir: bool,
    ours: bool,
    stored: bool,
) -> tables::TablesView {
    let taken = if stored {
        Some(h)
    } else {
        None
    };
    let t1 = tables::TablesView { paths: t.paths.insert(h, path), ..t };
    let t2 = tables::path_recorded(t1, taken, Some(path), ours, ntdef::STATUS_SUCCESS);
    if is_dir {
        tables::tagged(t2, taken, Some(path), ours, ntdef::STATUS_SUCCESS)
    } else {
        t2
    }
}

/// Gives an open that was served a synthetic handle. Its path is remembered, so that a later
/// open may name its file against it.
pub fn open_synth(
    fuse: &mut FuseTable,
    t: &mut HandleTables,
    reply: OpenReply,
    path: &str,
    append_only: bool,
    ours: bool,
    stored: bool,
) -> (h: u64)
    requires
        old(fuse).wf(),
    ensures
        final(fuse).wf(),
        h == fuse_synth::handle_of(old(fuse).next_slot()),
        final(fuse).opens().contains_key(h),
        final(fuse).opens()[h].fh == reply.fh,
        final(fuse).opens()[h].size == reply.size,
        final(fuse).opens()[h].is_dir == reply.is_dir,
        final(fuse).opens()[h].append_only == append_only,
        final(fuse).opens()[h].position == (if append_only {
            reply.size
        } else {
            0
        }),
        text::option_text(final(fuse).opens()[h].abs_path) == Some(path@),
        final(fuse).opens().remove(h) == old(fuse).opens().remove(h),
        final(fuse).next_slot() == old(fuse).next_slot().wrapping_add(1),
        final(t)@ == served_tables(old(t)@, h, path@, reply.is_dir, ours, stored),
{
    let ghost before = fuse.opens();
    let h: u64 = fuse_synth::open_fuse_at_ex(
        fuse,
        reply.fh,
        reply.size,
        reply.is_dir,
        Some(path.to_owned()),
        append_only,
    );
    assert(fuse.opens().remove(h) =~= before.remove(h));
    let taken = if stored {
        Some(h)
    } else {
        None
    };
    tables::record_path(t, Some(h), Some(path), true, ntdef::STATUS_SUCCESS);
    tables::record_path(t, taken, Some(path), ours, ntdef::STATUS_SUCCESS);
    if reply.is_dir {
        tables::tag_under_root(t, taken, Some(path), ours, ntdef::STATUS_SUCCESS);
    }
    h
}

/// Gives a directory that was made a synthetic handle. The director is not asked to open it.
pub fn open_synth_dir(
    fuse: &mut FuseTable,
    t: &mut HandleTables,
    path: &str,
    ours: bool,
    stored: bool,
) -> (h: u64)
    requires
        old(fuse).wf(),
    ensures
        final(fuse).wf(),
        h == fuse_synth::handle_of(old(fuse).next_slot()),
        final(fuse).opens() == old(fuse).opens().insert(
            h,
            fuse_synth::fresh(0, 0, true, None, false),
        ),
        final(fuse).next_slot() == old(fuse).next_slot().wrapping_add(1),
        final(t)@ == ({
            let taken = if stored {
                Some(h)
            } else {
                None
            };
            tables::tagged(
                tables::path_recorded(old(t)@, taken, Some(path@), ours, ntdef::STATUS_SUCCESS),
                taken,
                Some(path@),
                ours,
                ntdef::STATUS_SUCCESS,
            )
        }),
{
    let h: u64 = fuse_synth::open_fuse(fuse, 0, 0, true);
    let taken = if stored {
        Some(h)
    } else {
        None
    };
    tables::record_path(t, taken, Some(path), ours, ntdef::STATUS_SUCCESS);
    tables::tag_under_root(t, taken, Some(path), ours, ntdef::STATUS_SUCCESS);
    h
}

// ---------------------------------------------------------------------------------------
// Making directories.

/// Whether a create makes a directory: it asks for one, and its disposition creates what is
/// absent.
pub fn mkdir_applies(opts: u32, disp: u32) -> (r: bool)
    ensures
        r == ((opts & ntdef::FILE_DIRECTORY_FILE) != 0 && (disp == 2 || disp == 3 || disp == 5)),
{
    (opts & ntdef::FILE_DIRECTORY_FILE) != 0 && (disp == 2 || disp == 3 || disp == 5)
}

/// What to do next about a directory that is made.
#[derive(Clone, Copy, Debug, PartialEq, Eq, Structural)]
pub enum MkdirStep {
    /// Give a synthetic directory handle, and report this.
    Serve(u64),
    /// Fail the call.
    Refuse(i32),
    /// Ask for the path's attributes.
    Getattr,
}

/// What the director answered about a directory.
#[derive(Clone, Copy, Debug)]
pub enum MkdirEvent {
    Made(Result<(), RingStatus>),
    Attr(Result<Attr, RingStatus>),
}

/// What an answer about a directory comes to. One that is there already is a collision for a
/// create and is opened by the other dispositions.
pub open spec fn mkdir_advanced(disp: u32, event: MkdirEvent) -> MkdirStep {
    match event {
        MkdirEvent::Made(Ok(_)) => MkdirStep::Serve(ntdef::FILE_CREATED),
        MkdirEvent::Made(Err(status)) => if status == RingStatus::NotFound {
            MkdirStep::Refuse(ntdef::STATUS_OBJECT_NAME_NOT_FOUND)
        } else {
            MkdirStep::Getattr
        },
        MkdirEvent::Attr(r) => if !is_found_dir(r) {
            MkdirStep::Refuse(ntdef::STATUS_UNSUCCESSFUL)
        } else if disp == 2 {
            MkdirStep::Refuse(ntdef::STATUS_OBJECT_NAME_COLLISION)
        } else {
            MkdirStep::Serve(ntdef::FILE_OPENED)
        },
    }
}

/// [`mkdir_advanced`].
pub fn try_fuse_mkdir(disp: u32, event: MkdirEvent) -> (r: MkdirStep)
    ensures
        r == mkdir_advanced(disp, event),
{
    match event {
        MkdirEvent::Made(Ok(_)) => MkdirStep::Serve(ntdef::FILE_CREATED),
        MkdirEvent::Made(Err(status)) => if status == RingStatus::NotFound {
            MkdirStep::Refuse(ntdef::STATUS_OBJECT_NAME_NOT_FOUND)
        } else {
            MkdirStep::Getattr
        },
        MkdirEvent::Attr(r) => {
            let dir = match r {
                Ok(a) => a.found && a.is_dir,
                Err(_) => false,
            };
            if !dir {
                MkdirStep::Refuse(ntdef::STATUS_UNSUCCESSFUL)
            } else if disp == 2 {
                MkdirStep::Refuse(ntdef::STATUS_OBJECT_NAME_COLLISION)
            } else {
                MkdirStep::Serve(ntdef::FILE_OPENED)
            }
        },
    }
}

/// A directory under a managed root is never made beneath it on disk: whatever the director
/// answers, the call is served or fails.
pub proof fn law_directories_are_never_made_on_disk(disp: u32, event: MkdirEvent)
    ensures
        mkdir_advanced(disp, event) matches MkdirStep::Refuse(status) ==> !ntdef::nt_success(
            status,
        ),
        event is Attr ==> mkdir_advanced(disp, event) !is Getattr,
{
}

// ---------------------------------------------------------------------------------------
// Around the director.

/// How an intercepted call begins.
#[derive(Clone, Copy, Debug, PartialEq, Eq, Structural)]
pub enum Gate {
    /// The system's own function is not known.
    Fail(i32),
    /// The shim's own call: straight to the system.
    Real,
    /// Decide it.
    Decide,
}

/// How an intercepted open begins.
pub fn gate(has_real: bool, inside: bool) -> (r: Gate)
    ensures
        r == (if !has_real {
            Gate::Fail(ntdef::STATUS_UNSUCCESSFUL)
        } else if inside {
            Gate::Real
        } else {
            Gate::Decide
        }),
{
    if !has_real {
        Gate::Fail(ntdef::STATUS_UNSUCCESSFUL)
    } else if inside {
        Gate::Real
    } else {
        Gate::Decide
    }
}

/// The path that the director gets for a path below its root: the root itself is `.`.
pub open spec fn director_path(vpath: Seq<char>) -> Seq<char> {
    if vpath.len() == 0 {
        "."@
    } else {
        vpath
    }
}

/// [`director_path`].
pub fn vpath_or_dot<'a>(vpath: &'a str) -> (r: &'a str)
    ensures
        r@ == director_path(vpath@),
{
    if vpath.unicode_len() == 0 {
        "."
    } else {
        vpath
    }
}

/// The root and the path that a question to the director carries, for a path that lies under a
/// managed root.
pub open spec fn director_target(hit: Option<(u32, String)>) -> Option<(u32, Seq<char>)> {
    match hit {
        Some((root, vpath)) => Some((root, director_path(vpath@))),
        None => None,
    }
}

/// [`director_target`].
pub fn target_of(hit: &Option<(u32, String)>) -> (r: Option<(u32, String)>)
    ensures
        match r {
            Some((root, vpath)) => director_target(*hit) == Some((root, vpath@)),
            None => director_target(*hit) is None,
        },
{
    match hit {
        Some((root, vpath)) => Some((*root, vpath_or_dot(vpath.as_str()).to_owned())),
        None => None,
    }
}

/// The counters after an open was decoded, or not.
pub open spec fn attempt_counted(
    c: hookstats::SnapshotView,
    path: Option<Seq<char>>,
    name: Option<Seq<char>>,
) -> hookstats::SnapshotView {
    match path {
        Some(p) => hookstats::SnapshotView {
            passthrough: tally_path(c.passthrough, p),
            ..c
        },
        None => hookstats::SnapshotView {
            undecodable: hookstats::undecodable_bumped(c.undecodable, name),
            ..c
        },
    }
}

/// The rows of opened paths after one more.
pub open spec fn tally_path(rows: Seq<crate::tally::RowView>, path: Seq<char>) -> Seq<
    crate::tally::RowView,
> {
    crate::tally::bumped(rows, text::ascii_lowered(path), hookstats::PATHS_MAX as int)
}

/// Counts an open by its path, or by its bare name where it has none.
pub fn note_attempt(s: &mut Stats, path: Option<&str>, name: Option<&str>)
    requires
        old(s).wf(),
    ensures
        final(s).wf(),
        final(s)@ == hookstats::counted(
            old(s)@,
            attempt_counted(
                old(s)@.counts,
                hookstats::optional(path),
                hookstats::optional(name),
            ),
        ),
{
    match path {
        Some(p) => hookstats::note_passthrough(s, p),
        None => hookstats::note_undecodable(s, name),
    }
}

/// The counters after the director answered an open.
pub open spec fn answer_counted(
    c: hookstats::SnapshotView,
    path: Seq<char>,
    status: i32,
) -> hookstats::SnapshotView {
    hookstats::opened(
        hookstats::SnapshotView {
            trace: hookstats::traced(
                c.trace,
                "open"@,
                path,
                if ntdef::nt_success(status) {
                    "ok"@
                } else {
                    "FAIL"@
                },
            ),
            ..c
        },
        OpenOutcome::Routed,
        path,
    )
}

/// Counts an open that the director answered.
pub fn note_routed(s: &mut Stats, path: &str, status: i32)
    requires
        old(s).wf(),
    ensures
        final(s).wf(),
        final(s)@ == hookstats::counted(old(s)@, answer_counted(old(s)@.counts, path@, status)),
{
    let ghost before = s@;
    hookstats::note_trace(
        s,
        "open",
        path,
        if status >= 0 {
            "ok"
        } else {
            "FAIL"
        },
    );
    hookstats::note_open_outcome(s, OpenOutcome::Routed, path);
    assert(s@ =~= hookstats::counted(before, answer_counted(before.counts, path@, status)));
}

/// Whether a create asks for synchronous completion.
pub fn is_synchronous(opts: u32) -> (r: bool)
    ensures
        r == ((opts & 0x30) != 0),
{
    (opts & 0x30) != 0
}

/// Counts how the engine decided an open, unless its outcome was counted already or its path
/// is not known.
pub fn note_decision_outcome(
    s: &mut Stats,
    path: Option<&str>,
    already: bool,
    outcome: OpenOutcome,
)
    requires
        old(s).wf(),
    ensures
        final(s).wf(),
        final(s)@ == (match path {
            Some(p) => if already {
                old(s)@
            } else {
                hookstats::counted(old(s)@, hookstats::opened(old(s)@.counts, outcome, p@))
            },
            None => old(s)@,
        }),
{
    if already {
        return;
    }
    if let Some(p) = path {
        hookstats::note_open_outcome(s, outcome, p);
    }
}

/// Counts an open that is left to the system, where its path is under a managed root.
pub fn note_passthrough_outcome(s: &mut Stats, path: Option<&str>, already: bool, ours: bool)
    requires
        old(s).wf(),
    ensures
        final(s).wf(),
        final(s)@ == (match path {
            Some(p) => if already || !ours {
                old(s)@
            } else {
                hookstats::counted(
                    old(s)@,
                    hookstats::opened(old(s)@.counts, OpenOutcome::FellThroughPassthrough, p@),
                )
            },
            None => old(s)@,
        }),
{
    if ours {
        note_decision_outcome(s, path, already, OpenOutcome::FellThroughPassthrough);
    }
}

/// What becomes of an open that the director does not answer.
pub enum RouteStep {
    /// Open this file in its place.
    Redirect { target: String },
    /// Fail the call.
    Refuse(i32),
    /// Open this path, without the directory handle.
    Absolute { path: String },
    /// Hand the call to the system as it is.
    Unchanged,
}

/// What becomes of an open that the director does not answer, as values.
pub enum RouteView {
    Redirect { target: Seq<char> },
    Refuse(i32),
    Absolute { path: Seq<char> },
    Unchanged,
}

impl View for RouteStep {
    type V = RouteView;

    open spec fn view(&self) -> RouteView {
        match *self {
            RouteStep::Redirect { target } => RouteView::Redirect { target: target@ },
            RouteStep::Refuse(status) => RouteView::Refuse(status),
            RouteStep::Absolute { path } => RouteView::Absolute { path: path@ },
            RouteStep::Unchanged => RouteView::Unchanged,
        }
    }
}

/// What becomes of an open with this decision; none where there is no engine or no path. A name
/// against a synthetic directory handle never reaches the system as it is.
pub open spec fn routed(
    decision: Option<engine::DecisionView>,
    path: Option<Seq<char>>,
    synthetic_root: bool,
) -> RouteView {
    match decision {
        Some(engine::DecisionView::Redirect { target_nt }) => RouteView::Redirect {
            target: target_nt,
        },
        Some(engine::DecisionView::Deny) => RouteView::Refuse(ntdef::STATUS_OBJECT_NAME_NOT_FOUND),
        _ => if !synthetic_root {
            RouteView::Unchanged
        } else {
            match path {
                Some(p) => RouteView::Absolute { path: nt_path(p) },
                None => RouteView::Refuse(ntdef::STATUS_OBJECT_NAME_NOT_FOUND),
            }
        },
    }
}

/// The counters after an open was routed.
pub open spec fn route_counted(
    c: hookstats::SnapshotView,
    decision: Option<engine::DecisionView>,
    path: Option<Seq<char>>,
    already: bool,
    ours: bool,
) -> hookstats::SnapshotView {
    match (decision, path) {
        (Some(d), Some(p)) => if already {
            c
        } else {
            match d {
                engine::DecisionView::Redirect { target_nt } => hookstats::opened(
                    c,
                    OpenOutcome::FellThroughRedirect,
                    p,
                ),
                engine::DecisionView::Deny => hookstats::opened(c, OpenOutcome::Denied, p),
                engine::DecisionView::PassThrough => if ours {
                    hookstats::opened(c, OpenOutcome::FellThroughPassthrough, p)
                } else {
                    c
                },
            }
        },
        _ => c,
    }
}

/// [`routed`], counted once: an open whose outcome was counted already is not counted again.
pub fn route_open(
    s: &mut Stats,
    decision: Option<Decision>,
    path: Option<&str>,
    already: bool,
    ours: bool,
    synthetic_root: bool,
) -> (r: RouteStep)
    requires
        old(s).wf(),
    ensures
        final(s).wf(),
        r@ == routed(
            engine::decision_view(decision),
            hookstats::optional(path),
            synthetic_root,
        ),
        final(s)@ == hookstats::counted(
            old(s)@,
            route_counted(
                old(s)@.counts,
                engine::decision_view(decision),
                hookstats::optional(path),
                already,
                ours,
            ),
        ),
{
    match decision {
        Some(Decision::Redirect { target_nt }) => {
            note_decision_outcome(s, path, already, OpenOutcome::FellThroughRedirect);
            return RouteStep::Redirect { target: target_nt };
        },
        Some(Decision::Deny) => {
            note_decision_outcome(s, path, already, OpenOutcome::Denied);
            return RouteStep::Refuse(ntdef::STATUS_OBJECT_NAME_NOT_FOUND);
        },
        Some(Decision::PassThrough) => {
            note_passthrough_outcome(s, path, already, ours);
        },
        None => {},
    }
    if !synthetic_root {
        return RouteStep::Unchanged;
    }
    match path {
        Some(p) => RouteStep::Absolute { path: to_nt_path(p) },
        None => RouteStep::Refuse(ntdef::STATUS_OBJECT_NAME_NOT_FOUND),
    }
}

/// A synthetic directory handle is never handed to the system.
pub proof fn law_synthetic_roots_stay_inside(
    decision: Option<engine::DecisionView>,
    path: Option<Seq<char>>,
)
    ensures
        routed(decision, path, true) !is Unchanged,
{
}

/// The absolute path in NT's form.
pub open spec fn nt_path(path: Seq<char>) -> Seq<char> {
    paths::nt_form(paths::without_device(text::trimmed(path)))
}

/// [`nt_path`].
pub fn to_nt_path(path: &str) -> (out: String)
    ensures
        out@ == nt_path(path@),
{
    paths::to_nt(fuse_client::strip_nt_device(text::trim(path)))
}

/// The attributes of a call with `target` as its name, against no directory. A name that its
/// counted form cannot hold fails the call.
pub fn redirected_attributes(oa: &ObjectAttributes, target: &str) -> (r: Result<
    ObjectAttributes,
    i32,
>)
    ensures
        match r {
            Ok(a) => {
                &&& text::utf16_units(target@).len() <= 32767
                &&& a.wf()
                &&& a.root_directory == 0
                &&& a.attributes == oa.attributes
                &&& a.name() == Some(target@)
                &&& a.object_name matches Some(n) && n.maximum_length == n.length
            },
            Err(status) => text::utf16_units(target@).len() > 32767 && status
                == ntdef::STATUS_UNSUCCESSFUL,
        },
{
    if text::encode_utf16(target).len() > 32767 {
        return Err(ntdef::STATUS_UNSUCCESSFUL);
    }
    proof {
        ntdef::law_counted_text_reads_back(target@);
    }
    Ok(
        ObjectAttributes {
            root_directory: 0,
            object_name: Some(UnicodeString::of_text(target)),
            attributes: oa.attributes,
        },
    )
}

/// The attributes of a call with the absolute path `path` as its name, terminated, against no
/// directory. A name that its counted form cannot hold fails the call.
pub fn absolute_attributes(oa: &ObjectAttributes, path: &str) -> (r: Result<ObjectAttributes, i32>)
    ensures
        match r {
            Ok(a) => {
                &&& text::utf16_units(path@).len() <= 32766
                &&& a.wf()
                &&& a.root_directory == 0
                &&& a.attributes == oa.attributes
                &&& a.name() == Some(path@)
                &&& a.object_name matches Some(n) && n.maximum_length == n.length + 2 && (
                n.buffer matches Some(b) && b@ == text::utf16_units(path@).push(0u16))
            },
            Err(status) => text::utf16_units(path@).len() > 32766 && status
                == ntdef::STATUS_UNSUCCESSFUL,
        },
{
    if text::encode_utf16(path).len() > 32766 {
        return Err(ntdef::STATUS_UNSUCCESSFUL);
    }
    proof {
        ntdef::law_counted_text_reads_back(path@);
    }
    Ok(
        ObjectAttributes {
            root_directory: 0,
            object_name: Some(UnicodeString::of_text_terminated(path)),
            attributes: oa.attributes,
        },
    )
}

/// Remembers a redirected open that the system answered.
pub fn after_redirect(
    t: &mut HandleTables,
    handle: Option<u64>,
    path: Option<&str>,
    identity: Option<&str>,
    ours: bool,
    status: i32,
)
    ensures
        final(t)@ == tables::path_recorded(
            tables::identified(old(t)@, handle, hookstats::optional(identity), status),
            handle,
            hookstats::optional(path),
            ours,
            status,
        ),
{
    tables::record_identity(t, handle, identity, status);
    tables::record_path(t, handle, path, ours, status);
}

/// Remembers an open that was left to the system.
pub fn after_real(
    t: &mut HandleTables,
    handle: Option<u64>,
    path: Option<&str>,
    ours: bool,
    status: i32,
)
    ensures
        final(t)@ == tables::path_recorded(
            tables::tagged(old(t)@, handle, hookstats::optional(path), ours, status),
            handle,
            hookstats::optional(path),
            ours,
            status,
        ),
{
    tables::tag_under_root(t, handle, path, ours, status);
    tables::record_path(t, handle, path, ours, status);
}

// ---------------------------------------------------------------------------------------
// Traces.

/// A path as the traces write it: without its device prefix, with backslashes.
pub open spec fn trace_path(path: Seq<char>) -> Seq<char> {
    text::replaced(paths::without_device(text::trimmed(path)), '/', '\\')
}

/// [`trace_path`].
fn traced_path(path: &str) -> (out: String)
    ensures
        out@ == trace_path(path@),
{
    text::replace_char(fuse_client::strip_nt_device(text::trim(path)), '/', '\\')
}

/// Whether opens of a path are traced: content, plugins, archives, programs and the
/// application's id.
pub open spec fn is_traced(path: Seq<char>) -> bool {
    let p = text::ascii_lowered(trace_path(path));
    ||| text::occurs(p, "\\data\\"@)
    ||| ".esm"@.is_suffix_of(p)
    ||| ".esl"@.is_suffix_of(p)
    ||| ".esp"@.is_suffix_of(p)
    ||| ".bsa"@.is_suffix_of(p)
    ||| ".exe"@.is_suffix_of(p)
    ||| ".dll"@.is_suffix_of(p)
    ||| "steam_appid.txt"@.is_suffix_of(p)
}

/// The trace line of an open that the director answered, at `seconds` since 1970; `None` for a
/// path that is not traced.
pub fn director_open_trace(path: &str, size: u64, seconds: u64) -> (r: Option<String>)
    ensures
        text::option_text(r) == (if is_traced(path@) {
            Some(
                text::decimal(seconds as nat) + "\tdirector-open\tsize="@ + text::decimal(
                    size as nat,
                ) + "\t"@ + trace_path(path@) + "\n"@,
            )
        } else {
            None
        }),
{
    let p = traced_path(path);
    let lower = text::lower_text(p.as_str());
    let l = lower.as_str();
    if !(text::contains_text(l, "\\data\\") || text::has_suffix(l, ".esm") || text::has_suffix(
        l,
        ".esl",
    ) || text::has_suffix(l, ".esp") || text::has_suffix(l, ".bsa") || text::has_suffix(l, ".exe")
        || text::has_suffix(l, ".dll") || text::has_suffix(l, "steam_appid.txt")) {
        return None;
    }
    let mut line = text::decimal_text(seconds);
    line.append("\tdirector-open\tsize=");
    text::push_decimal(&mut line, size as u128);
    line.append("\t");
    line.append(p.as_str());
    line.append("\n");
    Some(line)
}

/// The name of the file that a path leads to; separators behind it do not count.
pub open spec fn file_name_of(path: Seq<char>) -> Seq<char> {
    text::last_component(text::drop_trailing(path, text::CharClass::Separator))
}

/// The trace line of an open of the game's own program, at `seconds` since 1970; `None` for any
/// other path. `rel` says whether the name was relative to a synthetic handle.
pub fn drm_exe_trace(path: &str, rel: bool, write: bool, seconds: u64) -> (r: Option<String>)
    ensures
        text::option_text(r) == (if text::ascii_lowered(file_name_of(path@)) == text::ascii_lowered(
            "SkyrimSE.exe"@,
        ) {
            Some(
                text::decimal(seconds as nat) + "\tskyrimse-exe\toa="@ + (if rel {
                    "fuse-relative"@
                } else {
                    "absolute"@
                }) + "\taccess="@ + (if write {
                    "write"@
                } else {
                    "read"@
                }) + "\t"@ + trace_path(path@) + "\n"@,
            )
        } else {
            None
        }),
{
    let base = text::final_component(text::trim_end(path, text::CharClass::Separator));
    if !text::same_ignoring_ascii_case(base.as_str(), "SkyrimSE.exe") {
        return None;
    }
    let p = traced_path(path);
    let mut line = text::decimal_text(seconds);
    line.append("\tskyrimse-exe\toa=");
    line.append(
        if rel {
            "fuse-relative"
        } else {
            "absolute"
        },
    );
    line.append("\taccess=");
    line.append(
        if write {
            "write"
        } else {
            "read"
        },
    );
    line.append("\t");
    line.append(p.as_str());
    line.append("\n");
    Some(line)
}

// ---------------------------------------------------------------------------------------
// What an open is for.

/// The director is asked to create, to fail on what is there, and to cut exactly as the caller's
/// disposition says: the numbers are those of supersede, create, open-if, overwrite and
/// overwrite-if. Nothing else is ever asked of it by a disposition.
pub proof fn law_only_replacing_dispositions_cut(disposition: u32)
    ensures
        flags_of(disposition).trunc <==> disposition == 0 || disposition == 4 || disposition == 5,
        flags_of(disposition).create <==> disposition == 0 || disposition == 2 || disposition == 3
            || disposition == 5,
        flags_of(disposition).excl <==> disposition == 2,
        !flags_of(disposition).write,
{
}

/// What the director is asked to open with does not depend on what it said of the file before:
/// whatever a probe answers, the flags are those that the open began with, and an open for
/// reading stays one. A probe changes nothing but what is known of the file.
pub proof fn law_a_probe_does_not_change_the_question(run: OpenRun, r: Result<Attr, RingStatus>)
    requires
        run.phase == OpenPhase::Probing,
    ensures
        ({
            let (next, step) = open_advanced(run, OpenEvent::Attr(r));
            &&& run.write ==> step == OpenStep::OpenWrite(run.flags)
            &&& !run.write ==> step == OpenStep::OpenRead
            &&& next.flags == run.flags
            &&& next.disposition == run.disposition
            &&& next.write == run.write
            &&& next.allow_disk_fallthrough == run.allow_disk_fallthrough
            &&& next.phase == OpenPhase::Opening
            &&& next.existed <==> (r matches Ok(a) && a.found)
        }),
{
}

/// What is asked without a probe is the same: an open for writing carries its own flags, an open
/// for reading none.
pub proof fn law_an_open_is_asked_with_its_own_flags(run: OpenRun)
    ensures
        run.write ==> open_asked(run) == OpenStep::OpenWrite(run.flags),
        !run.write ==> open_asked(run) == OpenStep::OpenRead,
{
}

/// No answer of the director changes what the caller asked for, and only a probe says whether
/// the file was there.
pub proof fn law_answers_keep_the_request(run: OpenRun, event: OpenEvent)
    requires
        open_follows(run, event),
    ensures
        ({
            let next = open_advanced(run, event).0;
            &&& next.flags == run.flags
            &&& next.disposition == run.disposition
            &&& next.write == run.write
            &&& run.phase != OpenPhase::Probing ==> next.existed == run.existed
        }),
        open_advanced(run, event).1 matches OpenStep::OpenWrite(flags) ==> run.write && flags
            == run.flags && run.phase == OpenPhase::Probing,
        open_advanced(run, event).1 == OpenStep::OpenRead ==> (run.phase == OpenPhase::Probing
            && !run.write) || (run.phase is DirProbing && (event matches OpenEvent::Attr(r) && (
        r matches Ok(a) && a.found && a.is_dir))),
        open_advanced(run, event).1 == OpenStep::Getattr ==> run.write && (run.disposition == 1
            || run.disposition == 3) && (event matches OpenEvent::Opened(r) && r is Err),
{
}

/// Whatever the director opens is served, as the director described it, and nothing is served
/// that the director did not open.
pub proof fn law_what_the_director_opens_is_served(run: OpenRun, event: OpenEvent)
    requires
        open_follows(run, event),
    ensures
        event matches OpenEvent::Opened(r) ==> (r matches Ok(reply) ==> (open_advanced(
            run,
            event,
        ).1 matches OpenStep::Serve(given, information) && given == reply)),
        open_advanced(run, event).1 matches OpenStep::Serve(given, information) ==> event
            == OpenEvent::Opened(Ok(given)),
{
}

/// What a served open reports: a read of what is there opens it; a create creates; the others
/// create what was absent, and of what was there supersede replaces it, overwrite and
/// overwrite-if cut it, and the rest open it. The numbers are those of the call's own protocol.
pub proof fn law_what_a_served_open_reports(run: OpenRun, reply: OpenReply)
    requires
        run.phase == OpenPhase::Opening || run.phase == OpenPhase::Reopening,
    ensures
        open_advanced(run, OpenEvent::Opened(Ok(reply))).1 matches OpenStep::Serve(given, n) && ({
            let d = run.disposition;
            &&& !run.write || run.phase == OpenPhase::Reopening ==> n == 1
            &&& run.write && run.phase == OpenPhase::Opening ==> {
                &&& d == 2 ==> n == 2
                &&& d == 4 ==> n == 3
                &&& (d == 0 || d == 3 || d == 5) && !run.existed ==> n == 2
                &&& d == 0 && run.existed ==> n == 0
                &&& d == 3 && run.existed ==> n == 1
                &&& d == 5 && run.existed ==> n == 3
                &&& d == 1 || d > 5 ==> n == 1
            }
        }),
{
}

/// What a refused open fails with, where no directory can stand behind the refusal: a missing
/// file is a missing name, or for a create a missing parent; an existing one a collision; what
/// may not be written is denied; a directory is told as one; and every other refusal, and every
/// refusal of a read beyond these, is a plain failure.
pub proof fn law_refused_opens_say_why(run: OpenRun, status: RingStatus)
    requires
        run.phase == OpenPhase::Opening,
        !run.allow_disk_fallthrough,
        !run.write || (run.disposition != 1 && run.disposition != 3),
    ensures
        ({
            let step = open_advanced(run, OpenEvent::Opened(Err(status))).1;
            &&& status == RingStatus::NotFound ==> step == OpenStep::Refuse(
                if run.write && run.flags.create {
                    ntdef::STATUS_OBJECT_PATH_NOT_FOUND
                } else {
                    ntdef::STATUS_OBJECT_NAME_NOT_FOUND
                },
            )
            &&& status == RingStatus::Exists ==> step == OpenStep::Refuse(
                ntdef::STATUS_OBJECT_NAME_COLLISION,
            )
            &&& status == RingStatus::ReadOnly && run.write ==> step == OpenStep::Refuse(
                ntdef::STATUS_ACCESS_DENIED,
            )
            &&& status == RingStatus::IsDir && run.write ==> step == OpenStep::Refuse(
                ntdef::STATUS_FILE_IS_A_DIRECTORY,
            )
            &&& status != RingStatus::NotFound && status != RingStatus::Exists && (!run.write || (
            status != RingStatus::ReadOnly && status != RingStatus::IsDir)) ==> step
                == OpenStep::Refuse(ntdef::STATUS_UNSUCCESSFUL)
        }),
{
}

/// A refused open for writing of what may be a directory is looked at again, and nothing is lost
/// by that: a directory is opened for reading, and where none is found the open ends as it would
/// have without the look.
pub proof fn law_a_directory_is_opened_in_place_of_a_refusal(
    run: OpenRun,
    status: RingStatus,
    r: Result<Attr, RingStatus>,
    other: u32,
)
    requires
        run.phase == OpenPhase::Opening,
        run.write,
        run.disposition == 1 || run.disposition == 3,
        other != 1 && other != 3,
    ensures
        ({
            let (probing, asks) = open_advanced(run, OpenEvent::Opened(Err(status)));
            let (next, step) = open_advanced(probing, OpenEvent::Attr(r));
            let plain = open_advanced(
                OpenRun { disposition: other, ..run },
                OpenEvent::Opened(Err(status)),
            ).1;
            &&& asks == OpenStep::Getattr
            &&& (r matches Ok(a) && a.found && a.is_dir) ==> step == OpenStep::OpenRead
            &&& !(r matches Ok(a) && a.found && a.is_dir) ==> step == plain
        }),
{
}

/// What nothing serves goes on to the engine where that is switched on, and only that.
pub proof fn law_falling_through_is_for_what_is_missing(run: OpenRun, status: RingStatus)
    requires
        run.phase == OpenPhase::Opening,
        run.allow_disk_fallthrough,
        !run.write || (run.disposition != 1 && run.disposition != 3),
    ensures
        open_advanced(run, OpenEvent::Opened(Err(status))).1 == OpenStep::FallThrough(run.write)
            <==> status == RingStatus::NotFound,
        open_advanced(run, OpenEvent::Opened(Err(status))).1 is FallThrough <==> status
            == RingStatus::NotFound,
{
}

/// An open is one for writing where it asks for the right to write or to append, in general or
/// in particular, or where its disposition may change what is there; reading what is there is
/// not. It may only append where it asks to append and in no way to write.
pub proof fn law_access_is_read_as_asked(access: u32, disposition: u32)
    ensures
        access & 0x4000_0000 != 0 || access & 0x2 != 0 || access & 0x4 != 0 ==> writes(
            access,
            disposition,
        ),
        disposition == 0 || disposition == 2 || disposition == 3 || disposition == 4
            || disposition == 5 ==> writes(access, disposition),
        access & 0x4000_0000 == 0 && access & 0x2 == 0 && access & 0x4 == 0 && (disposition == 1
            || disposition > 5) ==> !writes(access, disposition),
        appends_only(access) <==> access & 0x4 != 0 && access & 0x2 == 0 && access & 0x4000_0000
            == 0,
        needs_probe(disposition) <==> disposition == 0 || disposition == 3 || disposition == 5,
        downgrades(disposition) <==> disposition == 1 || disposition == 3,
{
    assert((access & 0x4000_0006 != 0) == (access & 0x4000_0000 != 0 || access & 0x2 != 0 || access
        & 0x4 != 0)) by (bit_vector);
    assert((access & 0x4000_0002 == 0) == (access & 0x4000_0000 == 0 && access & 0x2 == 0))
        by (bit_vector);
}

/// A directory that the director made is reported as created. One that was there is a collision
/// for a create and is reported as opened otherwise; a missing parent is a missing name; and
/// whatever else is in the way fails the call.
pub proof fn law_a_directory_is_made_or_found(
    disp: u32,
    status: RingStatus,
    r: Result<Attr, RingStatus>,
)
    ensures
        mkdir_advanced(disp, MkdirEvent::Made(Ok(()))) == MkdirStep::Serve(2),
        mkdir_advanced(disp, MkdirEvent::Made(Err(status))) == (if status == RingStatus::NotFound {
            MkdirStep::Refuse(ntdef::STATUS_OBJECT_NAME_NOT_FOUND)
        } else {
            MkdirStep::Getattr
        }),
        (r matches Ok(a) && a.found && a.is_dir) && disp == 2 ==> mkdir_advanced(
            disp,
            MkdirEvent::Attr(r),
        ) == MkdirStep::Refuse(ntdef::STATUS_OBJECT_NAME_COLLISION),
        (r matches Ok(a) && a.found && a.is_dir) && disp != 2 ==> mkdir_advanced(
            disp,
            MkdirEvent::Attr(r),
        ) == MkdirStep::Serve(1),
        !(r matches Ok(a) && a.found && a.is_dir) ==> mkdir_advanced(disp, MkdirEvent::Attr(r))
            == MkdirStep::Refuse(ntdef::STATUS_UNSUCCESSFUL),
{
}

/// The director gets the path below its root unchanged, but for the root itself, which is `.`;
/// the root is the one that was found.
pub proof fn law_the_director_gets_the_path_itself(root: u32, vpath: String)
    ensures
        director_target(Some((root, vpath))) matches Some((r, p)) && r == root && (if vpath@.len()
            == 0 {
            p == seq!['.']
        } else {
            p == vpath@
        }),
        director_target(None) is None,
{
    reveal_strlit(".");
    assert("."@ =~= seq!['.']);
}

/// An engine's decision is carried out: a redirected open goes to its target, a denied one is
/// missing, and any other is the system's, as it is where its name stands alone, and under its
/// full path where it is named against a synthetic directory.
pub proof fn law_decisions_are_carried_out(
    target: Seq<char>,
    path: Seq<char>,
    synthetic_root: bool,
)
    ensures
        routed(
            Some(engine::DecisionView::Redirect { target_nt: target }),
            Some(path),
            synthetic_root,
        ) == (RouteView::Redirect { target }),
        routed(Some(engine::DecisionView::Redirect { target_nt: target }), None, synthetic_root)
            == (RouteView::Redirect { target }),
        routed(Some(engine::DecisionView::Deny), Some(path), synthetic_root) == RouteView::Refuse(
            ntdef::STATUS_OBJECT_NAME_NOT_FOUND,
        ),
        routed(Some(engine::DecisionView::PassThrough), Some(path), false) == RouteView::Unchanged,
        routed(None, Some(path), false) == RouteView::Unchanged,
        routed(None, None, false) == RouteView::Unchanged,
        routed(Some(engine::DecisionView::PassThrough), Some(path), true) == (RouteView::Absolute {
            path: nt_path(path),
        }),
        routed(None, Some(path), true) == (RouteView::Absolute { path: nt_path(path) }),
        routed(None, None, true) is Refuse,
{
}

/// A full path in NT's form is the same path: it begins with the NT prefix, and a path that
/// neither begins nor ends with blanks is found behind that prefix, without the device prefix
/// that it may have had. A path already in that form stays as it is.
pub proof fn law_nt_paths_name_the_same_file(path: Seq<char>)
    requires
        text::trimmed(path) == path,
    ensures
        seq!['\\', '?', '?', '\\'].is_prefix_of(nt_path(path)),
        seq!['\\', '?', '?', '\\'].is_prefix_of(path) && !seq!['\\', '?', '?', '\\'].is_prefix_of(
            path.skip(4),
        ) ==> nt_path(path) == path,
        !seq!['\\', '?', '?', '\\'].is_prefix_of(path) && !seq!['\\', '\\', '?', '\\'].is_prefix_of(
            path,
        ) ==> nt_path(path) == seq!['\\', '?', '?', '\\'] + path,
{
    let prefix = seq!['\\', '?', '?', '\\'];
    let bare = paths::without_device(path);
    if prefix.is_prefix_of(path) {
        assert(path =~= prefix + path.skip(4));
    }
    if !prefix.is_prefix_of(bare) {
        assert(prefix.is_prefix_of(prefix + bare)) by {
            assert((prefix + bare).subrange(0, 4) =~= prefix);
        }
    }
}

/// A served open is remembered under the path that it was opened by, a directory among those
/// that may be listed, and nothing is remembered of any other handle that was not before.
pub proof fn law_a_served_open_is_remembered(
    t: tables::TablesView,
    h: u64,
    path: Seq<char>,
    is_dir: bool,
    ours: bool,
    stored: bool,
    other: u64,
)
    requires
        other != h,
    ensures
        ({
            let after = served_tables(t, h, path, is_dir, ours, stored);
            &&& after.paths.contains_key(h) && after.paths[h] == path
            &&& is_dir && ours && stored ==> after.dirs.contains_key(h) && after.dirs[h].path
                == path && after.dirs[h].state is None
            &&& !(is_dir && ours && stored) ==> after.dirs == t.dirs
            &&& after.identities == t.identities
            &&& after.paths.contains_key(other) == t.paths.contains_key(other)
            &&& t.paths.contains_key(other) ==> after.paths[other] == t.paths[other]
            &&& after.dirs.contains_key(other) == t.dirs.contains_key(other)
            &&& t.dirs.contains_key(other) ==> after.dirs[other] == t.dirs[other]
            &&& t.handle_paths.contains_key(other) ==> after.handle_paths.contains_key(other)
                && after.handle_paths[other] == t.handle_paths[other]
        }),
{
}

/// What an open that is under way counts as: a directory that is opened in place of a refusal
/// is an open that was not routed, a write that falls through is counted as one under its path,
/// and any other step counts nothing.
pub proof fn law_detours_of_an_open_are_counted(
    c: hookstats::SnapshotView,
    run: OpenRun,
    step: OpenStep,
    path: Seq<char>,
)
    requires
        c.outcome_counts.len() == 7,
    ensures
        ({
            let n = open_counted(c, run, step, path);
            &&& run.phase is DirProbing && step == OpenStep::OpenRead ==> n.unrouted_director_opens
                == c.unrouted_director_opens.wrapping_add(1) && n.outcome_counts
                == c.outcome_counts
            &&& step == OpenStep::FallThrough(true) ==> n.outcome_counts[5]
                == c.outcome_counts[5].wrapping_add(1) && n.unrouted_director_opens
                == c.unrouted_director_opens
            &&& step != OpenStep::FallThrough(true) && !(run.phase is DirProbing && step
                == OpenStep::OpenRead) ==> n == c
        }),
{
}

/// Every open that is looked at is counted once: under its path in lower case, or as one that
/// could not be decoded, under its bare name.
pub proof fn law_attempts_are_counted_by_path(
    c: hookstats::SnapshotView,
    path: Seq<char>,
    name: Option<Seq<char>>,
)
    ensures
        attempt_counted(c, Some(path), name).passthrough == crate::tally::bumped(
            c.passthrough,
            text::ascii_lowered(path),
            4000,
        ),
        attempt_counted(c, Some(path), name).undecodable == c.undecodable,
        attempt_counted(c, None, name).passthrough == c.passthrough,
        attempt_counted(c, None, Some(path)).undecodable == crate::tally::learned(
            c.undecodable,
            text::ascii_lowered(path),
        ),
{
}

/// An open that the director answered for counts as routed, whatever the answer, and stands in
/// the trace with how it ended.
pub proof fn law_answered_opens_count_as_routed(
    c: hookstats::SnapshotView,
    path: Seq<char>,
    status: i32,
    j: int,
)
    requires
        c.outcome_counts.len() == 7,
        0 < j < 7,
    ensures
        ({
            let n = answer_counted(c, path, status);
            &&& n.outcome_counts[0] == c.outcome_counts[0].wrapping_add(1)
            &&& n.outcome_counts[j] == c.outcome_counts[j]
            &&& status >= 0 ==> n.trace == hookstats::traced(c.trace, "open"@, path, "ok"@)
            &&& status < 0 ==> n.trace == hookstats::traced(c.trace, "open"@, path, "FAIL"@)
        }),
{
}

/// What the engine decides is counted once, under what it decided; an open that passes is
/// counted only where it is under a root.
pub proof fn law_decisions_are_counted(
    c: hookstats::SnapshotView,
    target: Seq<char>,
    path: Seq<char>,
    ours: bool,
    d: engine::DecisionView,
)
    requires
        c.outcome_counts.len() == 7,
    ensures
        route_counted(c, Some(d), Some(path), true, ours) == c,
        route_counted(c, Some(d), None, false, ours) == c,
        route_counted(c, None, Some(path), false, ours) == c,
        route_counted(
            c,
            Some(engine::DecisionView::Redirect { target_nt: target }),
            Some(path),
            false,
            ours,
        ).outcome_counts == c.outcome_counts.update(1, c.outcome_counts[1].wrapping_add(1)),
        route_counted(c, Some(engine::DecisionView::Deny), Some(path), false, ours).outcome_counts
            == c.outcome_counts.update(6, c.outcome_counts[6].wrapping_add(1)),
        route_counted(
            c,
            Some(engine::DecisionView::PassThrough),
            Some(path),
            false,
            true,
        ).outcome_counts == c.outcome_counts.update(3, c.outcome_counts[3].wrapping_add(1)),
        route_counted(c, Some(engine::DecisionView::PassThrough), Some(path), false, false) == c,
{
}

/// A file's name is what follows the last separator of its path; separators at the end of the
/// path do not count.
pub proof fn law_a_file_is_named_by_its_last_component(
    dir: Seq<char>,
    sep: char,
    name: Seq<char>,
)
    requires
        sep == '\\' || sep == '/',
        name.len() > 0,
        forall|i: int| 0 <= i < name.len() ==> #[trigger] name[i] != '\\' && name[i] != '/',
    ensures
        file_name_of(dir.push(sep) + name) == name,
        file_name_of(name) == name,
        file_name_of((dir.push(sep) + name).push(sep)) == name,
{
    let p = dir.push(sep) + name;
    assert(p.last() == name[name.len() - 1]);
    assert(name.last() == name[name.len() - 1]);
    assert(p.push(sep).drop_last() =~= p);
    text::law_the_last_component_follows_the_last_separator(dir, sep, name);
    assert(text::drop_trailing(p, text::CharClass::Separator) == p);
    assert(text::drop_trailing(name, text::CharClass::Separator) == name);
    assert(text::drop_trailing(p.push(sep), text::CharClass::Separator) == text::drop_trailing(
        p,
        text::CharClass::Separator,
    ));
}

} // verus!

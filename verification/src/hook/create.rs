//! An intercepted open from its first decision to its answer: the director is asked first, then
//! the engine decides, and the system comes last.

use crate::engine;
use crate::engine::Decision;
use crate::fuse_client::Attr;
use crate::fuse_client::OpenFlags;
use crate::fuse_client::OpenReply;
use crate::fuse_client::RingStatus;
use crate::fuse_synth;
use crate::fuse_synth::FuseTable;
use crate::hook::open;
use crate::hook::open::MkdirEvent;
use crate::hook::open::MkdirStep;
use crate::hook::open::OpenEvent;
use crate::hook::open::OpenRun;
use crate::hook::open::OpenStep;
use crate::hook::open::RouteStep;
use crate::hook::tables;
use crate::hook::tables::HandleTables;
use crate::hookstats;
use crate::hookstats::Stats;
use crate::ntdef;
use crate::text;
use vstd::prelude::*;
use vstd::string::*;

verus! {

/// What is known of an intercepted open.
pub struct OpenCall {
    /// Whether the call can create; one that cannot always opens what is there.
    pub creates: bool,
    /// The access that is asked for.
    pub access: u32,
    /// The disposition of a call that can create.
    pub disposition: u32,
    /// The create options.
    pub options: u32,
    /// The path, where it could be decoded.
    pub path: Option<String>,
    /// The bare name, where there is one.
    pub name: Option<String>,
    /// The root and the path in it by which the attached director knows the path, where it lies
    /// under a managed root.
    pub hit: Option<(u32, String)>,
    /// Whether the path is under a managed root.
    pub ours: bool,
    /// Whether the name is relative to a synthetic directory handle.
    pub synthetic_root: bool,
    /// Whether the caller takes the handle.
    pub stored: bool,
    /// Whether an open that nothing serves may go to the system. Off unless switched on.
    pub allow_disk_fallthrough: bool,
}

/// How far an open is.
#[derive(Clone, Copy, Debug, PartialEq, Eq, Structural)]
pub enum CallPhase {
    /// The director was asked to make a directory.
    Mkdir,
    /// The director was asked whether the directory is there.
    MkdirProbe,
    /// The director was asked about the file.
    Open(OpenRun),
    /// The engine was asked.
    Decide,
    /// The system was asked for another file.
    Redirected,
    /// The system was asked.
    Passed,
    /// Nothing more is asked.
    Ended,
}

/// An open under way.
pub struct CallRun {
    pub call: OpenCall,
    pub phase: CallPhase,
    /// Whether what became of the open was counted already.
    pub recorded: bool,
}

/// The next step of an open.
pub enum CallStep {
    /// Call the system with the call as it is, and answer what it answers.
    Through,
    /// Ask the director to make the directory.
    Mkdir { root: u32, vpath: String, mode: u32 },
    /// Ask the director for the path's attributes.
    Getattr { root: u32, vpath: String },
    /// Ask the director to open the path for writing.
    OpenWrite { root: u32, vpath: String, flags: OpenFlags },
    /// Ask the director to open the path for reading.
    OpenRead { root: u32, vpath: String },
    /// Ask the engine what to do.
    Decide,
    /// Call the system with the call as it is.
    Real,
    /// Call the system with this name in place of the call's.
    RealRedirected { target: String },
    /// Call the system with this absolute name in place of the relative one.
    RealAbsolute { path: String },
    /// Answer the call. `rooted` says whether the director answered it.
    Finish { status: i32, information: Option<u64>, handle: Option<u64>, rooted: bool },
}

/// The next step of an open, as values.
#[verifier::ext_equal]
pub enum CallStepView {
    Through,
    Mkdir { root: u32, vpath: Seq<char>, mode: u32 },
    Getattr { root: u32, vpath: Seq<char> },
    OpenWrite { root: u32, vpath: Seq<char>, flags: OpenFlags },
    OpenRead { root: u32, vpath: Seq<char> },
    Decide,
    Real,
    RealRedirected { target: Seq<char> },
    RealAbsolute { path: Seq<char> },
    Finish { status: i32, information: Option<u64>, handle: Option<u64>, rooted: bool },
}

impl View for CallStep {
    type V = CallStepView;

    open spec fn view(&self) -> CallStepView {
        match *self {
            CallStep::Through => CallStepView::Through,
            CallStep::Mkdir { root, vpath, mode } => CallStepView::Mkdir {
                root,
                vpath: vpath@,
                mode,
            },
            CallStep::Getattr { root, vpath } => CallStepView::Getattr { root, vpath: vpath@ },
            CallStep::OpenWrite { root, vpath, flags } => CallStepView::OpenWrite {
                root,
                vpath: vpath@,
                flags,
            },
            CallStep::OpenRead { root, vpath } => CallStepView::OpenRead { root, vpath: vpath@ },
            CallStep::Decide => CallStepView::Decide,
            CallStep::Real => CallStepView::Real,
            CallStep::RealRedirected { target } => CallStepView::RealRedirected { target: target@ },
            CallStep::RealAbsolute { path } => CallStepView::RealAbsolute { path: path@ },
            CallStep::Finish { status, information, handle, rooted } => CallStepView::Finish {
                status,
                information,
                handle,
                rooted,
            },
        }
    }
}

/// The outcome of a step.
pub enum CallEvent {
    /// What came of making the directory.
    Made(Result<(), RingStatus>),
    /// The attributes.
    Attr(Result<Attr, RingStatus>),
    /// What came of the open.
    Opened(Result<OpenReply, RingStatus>),
    /// What the engine decided; none where there is no engine, or no path.
    Decided(Option<Decision>),
    /// What the system answered: the handle, where the caller takes it, and the name under which
    /// a redirected handle is to be known.
    Real { status: i32, handle: Option<u64>, identity: Option<String> },
}

impl OpenCall {
    /// The disposition that counts.
    pub open spec fn spec_disposition(self) -> u32 {
        if self.creates {
            self.disposition
        } else {
            open::FILE_OPEN
        }
    }

    /// A path that the director knows is one that could be decoded.
    pub open spec fn wf(self) -> bool {
        self.hit is Some ==> self.path is Some
    }

    /// Whether the call makes a directory at the director.
    pub open spec fn makes_dir(self) -> bool {
        self.creates && self.hit is Some && (self.options & ntdef::FILE_DIRECTORY_FILE) != 0 && (
        self.disposition == 2 || self.disposition == 3 || self.disposition == 5)
    }

    /// The open that the director is asked for.
    pub open spec fn first_run(self) -> OpenRun {
        let d = self.spec_disposition();
        let write = open::writes(self.access, d);
        OpenRun {
            write,
            disposition: d,
            flags: open::flags_of(d),
            allow_disk_fallthrough: self.allow_disk_fallthrough,
            existed: false,
            phase: if write && open::needs_probe(d) {
                open::OpenPhase::Probing
            } else {
                open::OpenPhase::Opening
            },
        }
    }

    /// [`OpenCall::spec_disposition`].
    fn counts_as(&self) -> (d: u32)
        ensures
            d == self.spec_disposition(),
    {
        if self.creates {
            self.disposition
        } else {
            open::FILE_OPEN
        }
    }

    /// The root and the path that the director is asked about.
    pub open spec fn target(self) -> (u32, Seq<char>) {
        match open::director_target(self.hit) {
            Some(found) => found,
            None => (0, seq![]),
        }
    }

    /// [`OpenCall::target`].
    fn asks_about(&self) -> (r: (u32, String))
        ensures
            (r.0, r.1@) == self.target(),
    {
        match open::target_of(&self.hit) {
            Some(found) => found,
            None => (0, String::new()),
        }
    }

    /// The path as a borrowed text.
    fn path_str(&self) -> (r: Option<&str>)
        ensures
            hookstats::optional(r) == text::option_text(self.path),
    {
        match &self.path {
            Some(p) => Some(p.as_str()),
            None => None,
        }
    }
}

/// What is asked of the director, about the root and the path of the call.
pub open spec fn asked(call: OpenCall, step: OpenStep) -> CallStepView {
    let (root, vpath) = call.target();
    match step {
        OpenStep::Getattr => CallStepView::Getattr { root, vpath },
        OpenStep::OpenWrite(flags) => CallStepView::OpenWrite { root, vpath, flags },
        _ => CallStepView::OpenRead { root, vpath },
    }
}

/// An answer that says no more than its status.
pub open spec fn answered(status: i32, rooted: bool) -> CallStepView {
    CallStepView::Finish { status, information: None, handle: None, rooted }
}

/// How an open begins, once it is known that no directory is made: the director is asked where
/// it knows the path, else the engine.
pub open spec fn opening(call: OpenCall) -> (CallPhase, CallStepView) {
    let run = call.first_run();
    if call.hit is Some {
        (
            CallPhase::Open(run),
            asked(
                call,
                if run.phase == open::OpenPhase::Probing {
                    OpenStep::Getattr
                } else {
                    open::open_asked(run)
                },
            ),
        )
    } else {
        (CallPhase::Decide, CallStepView::Decide)
    }
}

/// How an open begins.
pub open spec fn begun(call: OpenCall, has_real: bool, inside: bool) -> (CallPhase, CallStepView) {
    if !has_real {
        (CallPhase::Ended, answered(ntdef::STATUS_UNSUCCESSFUL, false))
    } else if inside {
        (CallPhase::Ended, CallStepView::Through)
    } else if call.makes_dir() {
        let (root, vpath) = call.target();
        (CallPhase::Mkdir, CallStepView::Mkdir { root, vpath, mode: open::DIR_MODE })
    } else {
        opening(call)
    }
}

/// The counters after the beginning of an open: an attempt is counted by its path, but for the
/// making of a directory.
pub open spec fn begun_counted(
    c: hookstats::SnapshotView,
    call: OpenCall,
    has_real: bool,
    inside: bool,
) -> hookstats::SnapshotView {
    if !has_real || inside || call.makes_dir() {
        c
    } else {
        open::attempt_counted(c, text::option_text(call.path), text::option_text(call.name))
    }
}

/// Whether `event` is the outcome of what was asked in `phase`.
pub open spec fn follows(phase: CallPhase, event: CallEvent) -> bool {
    match (phase, event) {
        (CallPhase::Mkdir, CallEvent::Made(_)) => true,
        (CallPhase::MkdirProbe, CallEvent::Attr(_)) => true,
        (CallPhase::Open(run), CallEvent::Attr(r)) => open::open_follows(run, OpenEvent::Attr(r)),
        (CallPhase::Open(run), CallEvent::Opened(r)) => open::open_follows(
            run,
            OpenEvent::Opened(r),
        ),
        (CallPhase::Decide, CallEvent::Decided(_)) => true,
        (CallPhase::Redirected, CallEvent::Real { .. }) => true,
        (CallPhase::Passed, CallEvent::Real { .. }) => true,
        _ => false,
    }
}

/// The director's event in a call's event.
pub open spec fn open_event(event: CallEvent) -> OpenEvent {
    match event {
        CallEvent::Attr(r) => OpenEvent::Attr(r),
        CallEvent::Opened(r) => OpenEvent::Opened(r),
        _ => OpenEvent::Attr(Err(RingStatus::IoError)),
    }
}

/// The event of the making of a directory in a call's event.
pub open spec fn mkdir_event(event: CallEvent) -> MkdirEvent {
    match event {
        CallEvent::Made(r) => MkdirEvent::Made(r),
        CallEvent::Attr(r) => MkdirEvent::Attr(r),
        _ => MkdirEvent::Attr(Err(RingStatus::IoError)),
    }
}

/// The phase and the step after `event`; `h` is the handle that a served open gets.
pub open spec fn advanced(call: OpenCall, phase: CallPhase, event: CallEvent, h: u64) -> (
    CallPhase,
    CallStepView,
) {
    match phase {
        CallPhase::Mkdir | CallPhase::MkdirProbe => match open::mkdir_advanced(
            call.disposition,
            mkdir_event(event),
        ) {
            MkdirStep::Serve(information) => (
                CallPhase::Ended,
                CallStepView::Finish {
                    status: ntdef::STATUS_SUCCESS,
                    information: Some(information),
                    handle: Some(h),
                    rooted: false,
                },
            ),
            MkdirStep::Refuse(status) => (CallPhase::Ended, answered(status, false)),
            MkdirStep::Getattr => (
                CallPhase::MkdirProbe,
                asked(call, OpenStep::Getattr),
            ),
        },
        CallPhase::Open(run) => {
            let (next, step) = open::open_advanced(run, open_event(event));
            match step {
                OpenStep::Serve(reply, information) => (
                    CallPhase::Ended,
                    CallStepView::Finish {
                        status: ntdef::STATUS_SUCCESS,
                        information: Some(information),
                        handle: Some(h),
                        rooted: true,
                    },
                ),
                OpenStep::Refuse(status) => (CallPhase::Ended, answered(status, true)),
                OpenStep::FallThrough(_) => (CallPhase::Decide, CallStepView::Decide),
                _ => (CallPhase::Open(next), asked(call, step)),
            }
        },
        CallPhase::Decide => match event {
            CallEvent::Decided(d) => match open::routed(
                engine::decision_view(d),
                text::option_text(call.path),
                call.synthetic_root,
            ) {
                open::RouteView::Redirect { target } => (
                    CallPhase::Redirected,
                    CallStepView::RealRedirected { target },
                ),
                open::RouteView::Refuse(status) => (CallPhase::Ended, answered(status, false)),
                open::RouteView::Absolute { path } => (
                    CallPhase::Passed,
                    CallStepView::RealAbsolute { path },
                ),
                open::RouteView::Unchanged => (CallPhase::Passed, CallStepView::Real),
            },
            _ => (CallPhase::Ended, answered(ntdef::STATUS_UNSUCCESSFUL, false)),
        },
        CallPhase::Redirected | CallPhase::Passed => match event {
            CallEvent::Real { status, handle, identity } => (
                CallPhase::Ended,
                answered(status, false),
            ),
            _ => (CallPhase::Ended, answered(ntdef::STATUS_UNSUCCESSFUL, false)),
        },
        CallPhase::Ended => (CallPhase::Ended, answered(ntdef::STATUS_UNSUCCESSFUL, false)),
    }
}

/// Whether what became of an open is counted before the engine is asked.
pub open spec fn recorded_after(phase: CallPhase, recorded: bool, event: CallEvent) -> bool {
    match phase {
        CallPhase::Open(run) => match open::open_advanced(run, open_event(event)).1 {
            OpenStep::FallThrough(write) => recorded || write,
            _ => recorded,
        },
        _ => recorded,
    }
}

/// The counters after an open was answered for the director.
pub open spec fn routed_counted(
    c: hookstats::SnapshotView,
    call: OpenCall,
    status: i32,
) -> hookstats::SnapshotView {
    let c1 = match text::option_text(call.path) {
        Some(p) => open::answer_counted(c, p, status),
        None => c,
    };
    if call.creates {
        hookstats::SnapshotView {
            sync_opens: if (call.options & 0x30) != 0 {
                c1.sync_opens.wrapping_add(1)
            } else {
                c1.sync_opens
            },
            async_opens: if (call.options & 0x30) != 0 {
                c1.async_opens
            } else {
                c1.async_opens.wrapping_add(1)
            },
            ..c1
        }
    } else {
        c1
    }
}

/// The counters after `event`.
pub open spec fn counted_after(
    c: hookstats::SnapshotView,
    call: OpenCall,
    phase: CallPhase,
    recorded: bool,
    event: CallEvent,
) -> hookstats::SnapshotView {
    match phase {
        CallPhase::Open(run) => {
            let step = open::open_advanced(run, open_event(event)).1;
            let path = match text::option_text(call.path) {
                Some(p) => p,
                None => seq![],
            };
            let c1 = open::open_counted(c, run, step, path);
            match step {
                OpenStep::Serve(reply, information) => routed_counted(
                    c1,
                    call,
                    ntdef::STATUS_SUCCESS,
                ),
                OpenStep::Refuse(status) => routed_counted(c1, call, status),
                _ => c1,
            }
        },
        CallPhase::Decide => match event {
            CallEvent::Decided(d) => open::route_counted(
                c,
                engine::decision_view(d),
                text::option_text(call.path),
                recorded,
                call.ours,
            ),
            _ => c,
        },
        _ => c,
    }
}

/// The handle tables after `event`; `h` is the handle that a served open gets.
pub open spec fn tables_after(
    t: tables::TablesView,
    call: OpenCall,
    phase: CallPhase,
    event: CallEvent,
    h: u64,
) -> tables::TablesView {
    let path = text::option_text(call.path);
    let taken = if call.stored {
        Some(h)
    } else {
        None
    };
    match phase {
        CallPhase::Mkdir | CallPhase::MkdirProbe => if open::mkdir_advanced(
            call.disposition,
            mkdir_event(event),
        ) is Serve {
            tables::tagged(
                tables::path_recorded(t, taken, path, call.ours, ntdef::STATUS_SUCCESS),
                taken,
                path,
                call.ours,
                ntdef::STATUS_SUCCESS,
            )
        } else {
            t
        },
        CallPhase::Open(run) => match (open::open_advanced(run, open_event(event)).1, path) {
            (OpenStep::Serve(reply, information), Some(p)) => open::served_tables(
                t,
                h,
                p,
                reply.is_dir,
                call.ours,
                call.stored,
            ),
            _ => t,
        },
        CallPhase::Redirected => match event {
            CallEvent::Real { status, handle, identity } => tables::path_recorded(
                tables::identified(t, handle, text::option_text(identity), status),
                handle,
                path,
                call.ours,
                status,
            ),
            _ => t,
        },
        CallPhase::Passed => match event {
            CallEvent::Real { status, handle, identity } => tables::path_recorded(
                tables::tagged(t, handle, path, call.ours, status),
                handle,
                path,
                call.ours,
                status,
            ),
            _ => t,
        },
        _ => t,
    }
}

/// Whether `now` is `before` with the handle that a served open got, and nothing else changed.
pub open spec fn opens_after(
    before: Map<u64, fuse_synth::FuseOpen>,
    now: Map<u64, fuse_synth::FuseOpen>,
    call: OpenCall,
    phase: CallPhase,
    event: CallEvent,
    h: u64,
) -> bool {
    match advanced(call, phase, event, h).1 {
        CallStepView::Finish { handle: Some(_), .. } => {
            &&& now.contains_key(h)
            &&& now.remove(h) == before.remove(h)
            &&& match (phase, event) {
                (CallPhase::Open(_), CallEvent::Opened(Ok(reply))) => {
                    &&& now[h].fh == reply.fh
                    &&& now[h].size == reply.size
                    &&& now[h].is_dir == reply.is_dir
                    &&& now[h].append_only == open::appends_only(call.access)
                    &&& now[h].position == (if now[h].append_only {
                        reply.size
                    } else {
                        0
                    })
                    &&& text::option_text(now[h].abs_path) == text::option_text(call.path)
                },
                _ => now[h] == fuse_synth::fresh(0, 0, true, None, false),
            }
        },
        _ => now == before,
    }
}

/// The slot of the next handle after `event`: a handle that is given out is not given out again.
pub open spec fn slot_after(next: u64, call: OpenCall, phase: CallPhase, event: CallEvent) -> u64 {
    match advanced(call, phase, event, fuse_synth::handle_of(next)).1 {
        CallStepView::Finish { handle: Some(_), .. } => next.wrapping_add(1),
        _ => next,
    }
}

/// Two opens that are served one after the other get different handles, up to the 2^47th.
pub proof fn law_served_opens_get_their_own_handles(
    next: u64,
    first: OpenCall,
    first_phase: CallPhase,
    first_event: CallEvent,
    second: OpenCall,
    second_phase: CallPhase,
    second_event: CallEvent,
    a: u64,
    b: u64,
)
    requires
        next + 1 < fuse_synth::FUSE_TAG,
        advanced(first, first_phase, first_event, fuse_synth::handle_of(next)).1
            matches CallStepView::Finish { handle, .. } && handle == Some(a),
        advanced(
            second,
            second_phase,
            second_event,
            fuse_synth::handle_of(slot_after(next, first, first_phase, first_event)),
        ).1 matches CallStepView::Finish { handle, .. } && handle == Some(b),
    ensures
        a != b,
{
    fuse_synth::law_handles_are_tagged_and_distinct(next, (next + 1) as u64);
}

/// Begins an open: [`begun`] and [`begun_counted`]. `has_real` says whether the system's own
/// function is known, `inside` whether the call is the shim's own.
pub fn create_hook(s: &mut Stats, call: OpenCall, has_real: bool, inside: bool) -> (r: (
    CallRun,
    CallStep,
))
    requires
        old(s).wf(),
        call.wf(),
    ensures
        final(s).wf(),
        r.0.call == call,
        !r.0.recorded,
        (r.0.phase, r.1@) == begun(call, has_real, inside),
        final(s)@ == hookstats::counted(
            old(s)@,
            begun_counted(old(s)@.counts, call, has_real, inside),
        ),
{
    match open::gate(has_real, inside) {
        open::Gate::Fail(status) => {
            return (
                CallRun { call, phase: CallPhase::Ended, recorded: false },
                CallStep::Finish { status, information: None, handle: None, rooted: false },
            );
        },
        open::Gate::Real => {
            return (
                CallRun { call, phase: CallPhase::Ended, recorded: false },
                CallStep::Through,
            );
        },
        open::Gate::Decide => {},
    }
    if call.creates && call.hit.is_some() && open::mkdir_applies(call.options, call.disposition) {
        let (root, vpath) = call.asks_about();
        return (
            CallRun { call, phase: CallPhase::Mkdir, recorded: false },
            CallStep::Mkdir { root, vpath, mode: open::DIR_MODE },
        );
    }
    let name = match &call.name {
        Some(n) => Some(n.as_str()),
        None => None,
    };
    open::note_attempt(s, call.path_str(), name);
    if call.hit.is_none() {
        return (CallRun { call, phase: CallPhase::Decide, recorded: false }, CallStep::Decide);
    }
    let d: u32 = call.counts_as();
    let (run, step) = OpenRun::start(
        open::is_write_open(call.access, d),
        d,
        open::open_create_flags(d),
        call.allow_disk_fallthrough,
    );
    let (root, vpath) = call.asks_about();
    let step = match step {
        OpenStep::Getattr => CallStep::Getattr { root, vpath },
        OpenStep::OpenWrite(flags) => CallStep::OpenWrite { root, vpath, flags },
        _ => CallStep::OpenRead { root, vpath },
    };
    (CallRun { call, phase: CallPhase::Open(run), recorded: false }, step)
}

impl CallRun {
    /// An open that the director knows has a path.
    pub open spec fn wf(self) -> bool {
        self.call.wf() && (self.phase is Open || self.phase is Mkdir || self.phase is MkdirProbe
            ==> self.call.hit is Some)
    }

    /// Answers an open for the director: [`routed_counted`].
    fn note_answer(&self, s: &mut Stats, status: i32)
        requires
            old(s).wf(),
        ensures
            final(s).wf(),
            final(s)@ == hookstats::counted(
                old(s)@,
                routed_counted(old(s)@.counts, self.call, status),
            ),
    {
        let ghost before = s@;
        match self.call.path_str() {
            Some(p) => {
                open::note_routed(s, p, status);
            },
            None => {},
        }
        if self.call.creates {
            hookstats::note_open_sync(s, open::is_synchronous(self.call.options));
        }
        assert(s@ =~= hookstats::counted(before, routed_counted(before.counts, self.call, status)));
    }

    /// Takes in the outcome of the last step.
    pub fn advance(
        &mut self,
        s: &mut Stats,
        fuse: &mut FuseTable,
        t: &mut HandleTables,
        event: CallEvent,
    ) -> (r: CallStep)
        requires
            old(self).wf(),
            follows(old(self).phase, event),
            old(s).wf(),
            old(fuse).wf(),
        ensures
            final(self).wf(),
            final(self).call == old(self).call,
            final(self).recorded == recorded_after(old(self).phase, old(self).recorded, event),
            (final(self).phase, r@) == advanced(
                old(self).call,
                old(self).phase,
                event,
                fuse_synth::handle_of(old(fuse).next_slot()),
            ),
            final(s).wf(),
            final(s)@ == hookstats::counted(
                old(s)@,
                counted_after(
                    old(s)@.counts,
                    old(self).call,
                    old(self).phase,
                    old(self).recorded,
                    event,
                ),
            ),
            final(fuse).wf(),
            opens_after(
                old(fuse).opens(),
                final(fuse).opens(),
                old(self).call,
                old(self).phase,
                event,
                fuse_synth::handle_of(old(fuse).next_slot()),
            ),
            final(fuse).next_slot() == slot_after(
                old(fuse).next_slot(),
                old(self).call,
                old(self).phase,
                event,
            ),
            final(t)@ == tables_after(
                old(t)@,
                old(self).call,
                old(self).phase,
                event,
                fuse_synth::handle_of(old(fuse).next_slot()),
            ),
    {
        match self.phase {
            CallPhase::Mkdir => self.advance_mkdir(fuse, t, event),
            CallPhase::MkdirProbe => self.advance_mkdir(fuse, t, event),
            CallPhase::Open(run) => self.advance_open(s, fuse, t, run, event),
            CallPhase::Decide => self.advance_decide(s, event),
            CallPhase::Redirected => self.advance_real(t, event),
            CallPhase::Passed => self.advance_real(t, event),
            CallPhase::Ended => CallStep::Finish {
                status: ntdef::STATUS_UNSUCCESSFUL,
                information: None,
                handle: None,
                rooted: false,
            },
        }
    }

    fn advance_mkdir(&mut self, fuse: &mut FuseTable, t: &mut HandleTables, event: CallEvent) -> (r:
        CallStep)
        requires
            old(self).wf(),
            old(self).phase is Mkdir || old(self).phase is MkdirProbe,
            follows(old(self).phase, event),
            old(fuse).wf(),
        ensures
            final(self).wf(),
            final(self).call == old(self).call,
            final(self).recorded == old(self).recorded,
            (final(self).phase, r@) == advanced(
                old(self).call,
                old(self).phase,
                event,
                fuse_synth::handle_of(old(fuse).next_slot()),
            ),
            final(fuse).wf(),
            opens_after(
                old(fuse).opens(),
                final(fuse).opens(),
                old(self).call,
                old(self).phase,
                event,
                fuse_synth::handle_of(old(fuse).next_slot()),
            ),
            final(fuse).next_slot() == slot_after(
                old(fuse).next_slot(),
                old(self).call,
                old(self).phase,
                event,
            ),
            final(t)@ == tables_after(
                old(t)@,
                old(self).call,
                old(self).phase,
                event,
                fuse_synth::handle_of(old(fuse).next_slot()),
            ),
    {
        let e = match event {
            CallEvent::Made(r) => MkdirEvent::Made(r),
            CallEvent::Attr(r) => MkdirEvent::Attr(r),
            _ => MkdirEvent::Attr(Err(RingStatus::IoError)),
        };
        match open::try_fuse_mkdir(self.call.disposition, e) {
            MkdirStep::Getattr => {
                self.phase = CallPhase::MkdirProbe;
                let (root, vpath) = self.call.asks_about();
                CallStep::Getattr { root, vpath }
            },
            MkdirStep::Refuse(status) => {
                self.phase = CallPhase::Ended;
                CallStep::Finish { status, information: None, handle: None, rooted: false }
            },
            MkdirStep::Serve(information) => {
                let ghost before = fuse.opens();
                let h: u64 = match &self.call.path {
                    Some(p) => open::open_synth_dir(
                        fuse,
                        t,
                        p.as_str(),
                        self.call.ours,
                        self.call.stored,
                    ),
                    None => 0,
                };
                assert(fuse.opens().remove(h) =~= before.remove(h));
                self.phase = CallPhase::Ended;
                CallStep::Finish {
                    status: ntdef::STATUS_SUCCESS,
                    information: Some(information),
                    handle: Some(h),
                    rooted: false,
                }
            },
        }
    }

    fn advance_open(
        &mut self,
        s: &mut Stats,
        fuse: &mut FuseTable,
        t: &mut HandleTables,
        run: OpenRun,
        event: CallEvent,
    ) -> (r: CallStep)
        requires
            old(self).wf(),
            old(self).phase == CallPhase::Open(run),
            follows(old(self).phase, event),
            old(s).wf(),
            old(fuse).wf(),
        ensures
            final(self).wf(),
            final(self).call == old(self).call,
            final(self).recorded == recorded_after(old(self).phase, old(self).recorded, event),
            (final(self).phase, r@) == advanced(
                old(self).call,
                old(self).phase,
                event,
                fuse_synth::handle_of(old(fuse).next_slot()),
            ),
            final(s).wf(),
            final(s)@ == hookstats::counted(
                old(s)@,
                counted_after(
                    old(s)@.counts,
                    old(self).call,
                    old(self).phase,
                    old(self).recorded,
                    event,
                ),
            ),
            final(fuse).wf(),
            opens_after(
                old(fuse).opens(),
                final(fuse).opens(),
                old(self).call,
                old(self).phase,
                event,
                fuse_synth::handle_of(old(fuse).next_slot()),
            ),
            final(fuse).next_slot() == slot_after(
                old(fuse).next_slot(),
                old(self).call,
                old(self).phase,
                event,
            ),
            final(t)@ == tables_after(
                old(t)@,
                old(self).call,
                old(self).phase,
                event,
                fuse_synth::handle_of(old(fuse).next_slot()),
            ),
    {
        let mut next = run;
        let e = match event {
            CallEvent::Attr(r) => OpenEvent::Attr(r),
            CallEvent::Opened(r) => OpenEvent::Opened(r),
            _ => OpenEvent::Attr(Err(RingStatus::IoError)),
        };
        let path = match &self.call.path {
            Some(p) => p.as_str(),
            None => "",
        };
        let step = open::try_fuse_create(s, &mut next, e, path);
        match step {
            OpenStep::Serve(reply, information) => {
                let h: u64 = open::open_synth(
                    fuse,
                    t,
                    reply,
                    path,
                    open::is_append_only(self.call.access),
                    self.call.ours,
                    self.call.stored,
                );
                self.note_answer(s, ntdef::STATUS_SUCCESS);
                self.phase = CallPhase::Ended;
                CallStep::Finish {
                    status: ntdef::STATUS_SUCCESS,
                    information: Some(information),
                    handle: Some(h),
                    rooted: true,
                }
            },
            OpenStep::Refuse(status) => {
                self.note_answer(s, status);
                self.phase = CallPhase::Ended;
                CallStep::Finish { status, information: None, handle: None, rooted: true }
            },
            OpenStep::FallThrough(write) => {
                self.recorded = self.recorded || write;
                self.phase = CallPhase::Decide;
                CallStep::Decide
            },
            OpenStep::Getattr => {
                self.phase = CallPhase::Open(next);
                let (root, vpath) = self.call.asks_about();
                CallStep::Getattr { root, vpath }
            },
            OpenStep::OpenWrite(flags) => {
                self.phase = CallPhase::Open(next);
                let (root, vpath) = self.call.asks_about();
                CallStep::OpenWrite { root, vpath, flags }
            },
            OpenStep::OpenRead => {
                self.phase = CallPhase::Open(next);
                let (root, vpath) = self.call.asks_about();
                CallStep::OpenRead { root, vpath }
            },
        }
    }

    fn advance_decide(&mut self, s: &mut Stats, event: CallEvent) -> (r: CallStep)
        requires
            old(self).wf(),
            old(self).phase is Decide,
            follows(old(self).phase, event),
            old(s).wf(),
        ensures
            final(self).wf(),
            final(self).call == old(self).call,
            final(self).recorded == old(self).recorded,
            forall|h: u64|
                (final(self).phase, r@) == #[trigger] advanced(
                    old(self).call,
                    old(self).phase,
                    event,
                    h,
                ),
            final(s).wf(),
            final(s)@ == hookstats::counted(
                old(s)@,
                counted_after(
                    old(s)@.counts,
                    old(self).call,
                    old(self).phase,
                    old(self).recorded,
                    event,
                ),
            ),
    {
        let decision = match event {
            CallEvent::Decided(d) => d,
            _ => None,
        };
        let route = open::route_open(
            s,
            decision,
            self.call.path_str(),
            self.recorded,
            self.call.ours,
            self.call.synthetic_root,
        );
        match route {
            RouteStep::Redirect { target } => {
                self.phase = CallPhase::Redirected;
                CallStep::RealRedirected { target }
            },
            RouteStep::Refuse(status) => {
                self.phase = CallPhase::Ended;
                CallStep::Finish { status, information: None, handle: None, rooted: false }
            },
            RouteStep::Absolute { path } => {
                self.phase = CallPhase::Passed;
                CallStep::RealAbsolute { path }
            },
            RouteStep::Unchanged => {
                self.phase = CallPhase::Passed;
                CallStep::Real
            },
        }
    }

    fn advance_real(&mut self, t: &mut HandleTables, event: CallEvent) -> (r: CallStep)
        requires
            old(self).wf(),
            old(self).phase is Redirected || old(self).phase is Passed,
            follows(old(self).phase, event),
        ensures
            final(self).wf(),
            final(self).call == old(self).call,
            final(self).recorded == old(self).recorded,
            forall|h: u64|
                (final(self).phase, r@) == #[trigger] advanced(
                    old(self).call,
                    old(self).phase,
                    event,
                    h,
                ),
            forall|h: u64|
                final(t)@ == #[trigger] tables_after(
                    old(t)@,
                    old(self).call,
                    old(self).phase,
                    event,
                    h,
                ),
    {
        let redirected = match self.phase {
            CallPhase::Redirected => true,
            _ => false,
        };
        self.phase = CallPhase::Ended;
        match event {
            CallEvent::Real { status, handle, identity } => {
                if redirected {
                    let known = match &identity {
                        Some(i) => Some(i.as_str()),
                        None => None,
                    };
                    open::after_redirect(
                        t,
                        handle,
                        self.call.path_str(),
                        known,
                        self.call.ours,
                        status,
                    );
                } else {
                    open::after_real(t, handle, self.call.path_str(), self.call.ours, status);
                }
                CallStep::Finish { status, information: None, handle: None, rooted: false }
            },
            _ => CallStep::Finish {
                status: ntdef::STATUS_UNSUCCESSFUL,
                information: None,
                handle: None,
                rooted: false,
            },
        }
    }
}

/// The root and the path that a question to the director carries.
pub open spec fn asks_director(step: CallStepView) -> Option<(u32, Seq<char>)> {
    match step {
        CallStepView::Mkdir { root, vpath, .. } => Some((root, vpath)),
        CallStepView::Getattr { root, vpath } => Some((root, vpath)),
        CallStepView::OpenWrite { root, vpath, .. } => Some((root, vpath)),
        CallStepView::OpenRead { root, vpath } => Some((root, vpath)),
        _ => None,
    }
}

/// Every question that an open puts to the director is about the root and the path that the
/// director knows the opened path by, and one that it does not know is never asked about.
pub proof fn law_questions_are_about_the_opened_path(
    call: OpenCall,
    has_real: bool,
    inside: bool,
    run: CallRun,
    event: CallEvent,
    h: u64,
)
    requires
        run.wf(),
        follows(run.phase, event),
    ensures
        asks_director(begun(call, has_real, inside).1) matches Some(about)
            ==> open::director_target(call.hit) == Some(about),
        asks_director(advanced(run.call, run.phase, event, h).1) matches Some(about)
            ==> open::director_target(run.call.hit) == Some(about),
{
}

/// Whether a step leads to the system, or lets the engine decide that one does.
pub open spec fn leaves_the_director(step: CallStepView) -> bool {
    step is Through || step is Decide || step is Real || step is RealRedirected
        || step is RealAbsolute
}

/// The phase and the step after a series of outcomes; `handles` are the handles that served
/// opens get.
pub open spec fn replayed(
    call: OpenCall,
    phase: CallPhase,
    step: CallStepView,
    events: Seq<CallEvent>,
    handles: Seq<u64>,
) -> (CallPhase, CallStepView)
    decreases events.len(),
{
    if events.len() == 0 {
        (phase, step)
    } else {
        let (next, then) = advanced(call, phase, events[0], handles[0]);
        replayed(call, next, then, events.skip(1), handles.skip(1))
    }
}

/// Whether every outcome belongs to the step before it.
pub open spec fn all_follow(
    call: OpenCall,
    phase: CallPhase,
    events: Seq<CallEvent>,
    handles: Seq<u64>,
) -> bool
    decreases events.len(),
{
    events.len() > 0 ==> follows(phase, events[0]) && all_follow(
        call,
        advanced(call, phase, events[0], handles[0]).0,
        events.skip(1),
        handles.skip(1),
    )
}

/// The phases of an open that the director answers.
spec fn at_the_director(call: OpenCall, phase: CallPhase) -> bool {
    match phase {
        CallPhase::Mkdir => true,
        CallPhase::MkdirProbe => true,
        CallPhase::Open(run) => !run.allow_disk_fallthrough,
        CallPhase::Ended => true,
        _ => false,
    }
}

proof fn lemma_stays_at_the_director(
    call: OpenCall,
    phase: CallPhase,
    step: CallStepView,
    events: Seq<CallEvent>,
    handles: Seq<u64>,
)
    requires
        at_the_director(call, phase),
        !leaves_the_director(step),
        all_follow(call, phase, events, handles),
    ensures
        !leaves_the_director(replayed(call, phase, step, events, handles).1),
    decreases events.len(),
{
    if events.len() > 0 {
        let (next, then) = advanced(call, phase, events[0], handles[0]);
        match phase {
            CallPhase::Open(run) => {
                open::law_under_root_opens_are_sealed(run, open_event(events[0]));
            },
            _ => {},
        }
        lemma_stays_at_the_director(call, next, then, events.skip(1), handles.skip(1));
    }
}

/// Nothing under a managed root is reached past the director: whatever is asked for and whatever
/// the director answers, an open of a path that it knows never leads to the system, unless that
/// was switched on.
pub proof fn law_the_director_answers_for_its_roots(
    call: OpenCall,
    has_real: bool,
    events: Seq<CallEvent>,
    handles: Seq<u64>,
)
    requires
        call.hit is Some,
        !call.allow_disk_fallthrough,
        all_follow(call, begun(call, has_real, false).0, events, handles),
    ensures
        ({
            let (phase, step) = begun(call, has_real, false);
            !leaves_the_director(replayed(call, phase, step, events, handles).1)
        }),
{
    let (phase, step) = begun(call, has_real, false);
    lemma_stays_at_the_director(call, phase, step, events, handles);
}

/// A refusal of the engine, or of the director, is an answer that no caller takes for success,
/// and no step to the system follows it.
pub proof fn law_refusals_are_final(call: OpenCall, phase: CallPhase, event: CallEvent, h: u64)
    requires
        follows(phase, event),
        !(event is Real),
    ensures
        advanced(call, phase, event, h).1 matches CallStepView::Finish { status, handle, .. } ==> {
            &&& advanced(call, phase, event, h).0 is Ended
            &&& handle is None ==> !ntdef::nt_success(status)
            &&& handle is Some ==> status == ntdef::STATUS_SUCCESS
        },
{
    match phase {
        CallPhase::Open(run) => {
            open::law_under_root_opens_are_sealed(run, open_event(event));
        },
        _ => {
            open::law_directories_are_never_made_on_disk(call.disposition, mkdir_event(event));
        },
    }
}

/// Where an open begins: without the system's own function it fails; inside the shim it goes
/// through; a directory that is to be made under a root is the director's to make; what lies
/// under no root is decided by the engine; and everything else under a root is asked of the
/// director, under the root and the path by which it knows the file.
pub proof fn law_an_open_begins_with_the_director(call: OpenCall, has_real: bool, inside: bool)
    ensures
        !has_real ==> begun(call, has_real, inside).1 == (CallStepView::Finish {
            status: ntdef::STATUS_UNSUCCESSFUL,
            information: None,
            handle: None,
            rooted: false,
        }),
        has_real && inside ==> begun(call, has_real, inside).1 == CallStepView::Through,
        has_real && !inside && call.hit is None ==> begun(call, has_real, inside).1
            == CallStepView::Decide,
        has_real && !inside ==> (call.hit matches Some((root, vpath)) ==> {
            let dir = call.creates && call.options & 1 != 0 && (call.disposition == 2
                || call.disposition == 3 || call.disposition == 5);
            let d: u32 = if call.creates {
                call.disposition
            } else {
                1
            };
            let reads = call.access & 0x4000_0000 == 0 && call.access & 0x2 == 0 && call.access
                & 0x4 == 0 && (d == 1 || d > 5);
            let step = begun(call, has_real, inside).1;
            &&& dir <==> step is Mkdir
            &&& dir ==> step->mode == 0o755
            &&& !dir && reads ==> step is OpenRead
            &&& !dir && !reads && (d == 0 || d == 3 || d == 5) ==> step is Getattr
            &&& !dir && !reads && !(d == 0 || d == 3 || d == 5) ==> step is OpenWrite
            &&& vpath@.len() > 0 ==> asks_director(step) == Some((root, vpath@))
            &&& vpath@.len() == 0 ==> asks_director(step) == Some((root, seq!['.']))
        }),
{
    open::law_access_is_read_as_asked(call.access, call.spec_disposition());
    if let Some((root, vpath)) = call.hit {
        open::law_the_director_gets_the_path_itself(root, vpath);
    }
}

proof fn lemma_flags_stay(
    call: OpenCall,
    phase: CallPhase,
    step: CallStepView,
    events: Seq<CallEvent>,
    handles: Seq<u64>,
)
    requires
        phase matches CallPhase::Open(run) ==> run.flags == open::flags_of(call.spec_disposition()),
        step matches CallStepView::OpenWrite { flags, .. } ==> flags == open::flags_of(
            call.spec_disposition(),
        ),
    ensures
        replayed(call, phase, step, events, handles).1 matches CallStepView::OpenWrite {
            flags,
            ..
        } ==> flags == open::flags_of(call.spec_disposition()),
    decreases events.len(),
{
    if events.len() > 0 {
        let (next, then) = advanced(call, phase, events[0], handles[0]);
        lemma_flags_stay(call, next, then, events.skip(1), handles.skip(1));
    }
}

/// Whatever the director and the system answer, an open asks for a file to be cut only where
/// the caller supersedes or overwrites it, to be made only where the caller creates, and to be
/// new only where the caller says so. A call that cannot create asks for none of these.
pub proof fn law_no_open_asks_for_more_than_its_caller(
    call: OpenCall,
    has_real: bool,
    inside: bool,
    events: Seq<CallEvent>,
    handles: Seq<u64>,
)
    ensures
        ({
            let (phase, step) = begun(call, has_real, inside);
            replayed(call, phase, step, events, handles).1 matches CallStepView::OpenWrite {
                flags,
                ..
            } ==> {
                &&& flags.trunc <==> call.creates && (call.disposition == 0 || call.disposition == 4
                    || call.disposition == 5)
                &&& flags.create <==> call.creates && (call.disposition == 0 || call.disposition
                    == 2 || call.disposition == 3 || call.disposition == 5)
                &&& flags.excl <==> call.creates && call.disposition == 2
            }
        }),
{
    let (phase, step) = begun(call, has_real, inside);
    lemma_flags_stay(call, phase, step, events, handles);
}

/// What the director opened is handed to the caller under the handle that was made for it, and
/// what it refused is refused; a directory that it made is handed out in the same way. Nothing
/// else gets a handle.
pub proof fn law_only_what_the_director_gave_gets_a_handle(
    call: OpenCall,
    phase: CallPhase,
    event: CallEvent,
    h: u64,
)
    requires
        follows(phase, event),
    ensures
        phase is Open ==> (event matches CallEvent::Opened(Ok(reply)) ==> (advanced(
            call,
            phase,
            event,
            h,
        ).1 matches CallStepView::Finish { status, information, handle, rooted } && status == 0
            && handle == Some(h) && information is Some)),
        phase is Mkdir && event == CallEvent::Made(Ok(())) ==> advanced(call, phase, event, h).1
            == (CallStepView::Finish {
            status: 0,
            information: Some(2),
            handle: Some(h),
            rooted: false,
        }),
        advanced(call, phase, event, h).1 matches CallStepView::Finish {
            status,
            information,
            handle,
            rooted,
        } ==> {
            &&& handle is Some ==> handle == Some(h) && status == 0
            &&& handle is None ==> information is None
            &&& handle is Some ==> (event matches CallEvent::Opened(r) && r is Ok) || (
            event matches CallEvent::Made(m) && m is Ok) || phase is MkdirProbe
            &&& phase is Redirected || phase is Passed ==> handle is None && (
            event matches CallEvent::Real { status: s, .. } && s == status)
        },
{
}

/// An engine's decision is carried out to the letter: the redirected open goes to the target
/// that was named, the denied one is missing, and the one that passes is the system's.
pub proof fn law_the_engines_decision_is_carried_out(call: OpenCall, d: Decision, h: u64)
    ensures
        ({
            let step = advanced(call, CallPhase::Decide, CallEvent::Decided(Some(d)), h).1;
            &&& d matches Decision::Redirect { target_nt } ==> step
                == (CallStepView::RealRedirected { target: target_nt@ })
            &&& d is Deny ==> step == (CallStepView::Finish {
                status: ntdef::STATUS_OBJECT_NAME_NOT_FOUND,
                information: None,
                handle: None,
                rooted: false,
            })
            &&& d is PassThrough && !call.synthetic_root ==> step == CallStepView::Real
            &&& d is PassThrough && call.synthetic_root && call.path is Some ==> step
                is RealAbsolute
            &&& d is PassThrough && call.synthetic_root && call.path is None ==> step is Finish
        }),
        advanced(call, CallPhase::Decide, CallEvent::Decided(None), h).1 == advanced(
            call,
            CallPhase::Decide,
            CallEvent::Decided(Some(Decision::PassThrough)),
            h,
        ).1,
{
}

/// A file that is served is kept under its handle as the director described it, an append at
/// its end and anything else at its start; a directory that was made is kept as one. Every
/// other handle stays as it was, and where nothing is served nothing is kept.
pub proof fn law_a_served_file_is_kept_as_described(
    before: Map<u64, fuse_synth::FuseOpen>,
    now: Map<u64, fuse_synth::FuseOpen>,
    call: OpenCall,
    run: OpenRun,
    r: Result<OpenReply, RingStatus>,
    h: u64,
    other: u64,
)
    requires
        open::open_follows(run, OpenEvent::Opened(r)),
        opens_after(before, now, call, CallPhase::Open(run), CallEvent::Opened(r), h),
    ensures
        r matches Ok(reply) ==> {
            let appends = call.access & 0x4 != 0 && call.access & 0x2 == 0 && call.access
                & 0x4000_0000 == 0;
            &&& now.contains_key(h)
            &&& now[h].fh == reply.fh
            &&& now[h].size == reply.size
            &&& now[h].is_dir == reply.is_dir
            &&& now[h].append_only <==> appends
            &&& now[h].position == if appends {
                reply.size
            } else {
                0
            }
        },
        r is Err ==> now == before,
        other != h ==> now.contains_key(other) == before.contains_key(other),
        other != h && before.contains_key(other) ==> now[other] == before[other],
{
    open::law_access_is_read_as_asked(call.access, 1);
    if r is Ok {
        assert(now.remove(h) == before.remove(h));
        if other != h {
            assert(now.remove(h).contains_key(other) == now.contains_key(other));
            assert(before.remove(h).contains_key(other) == before.contains_key(other));
            if before.contains_key(other) {
                assert(now.remove(h)[other] == now[other]);
                assert(before.remove(h)[other] == before[other]);
            }
        }
    }
}

/// What the tables learn of an open that the system answered: the path of a handle under a
/// root, whether it was redirected or not, and nothing where the system refused.
pub proof fn law_answered_opens_are_noted(
    t: tables::TablesView,
    call: OpenCall,
    path: String,
    status: i32,
    handle: u64,
    identity: Option<String>,
    h: u64,
)
    requires
        call.path == Some(path),
    ensures
        ({
            let e = CallEvent::Real { status, handle: Some(handle), identity };
            let passed = tables_after(t, call, CallPhase::Passed, e, h);
            let moved = tables_after(t, call, CallPhase::Redirected, e, h);
            &&& status < 0 ==> passed == t && moved == t
            &&& status >= 0 && call.ours ==> passed.paths.contains_key(handle)
                && passed.paths[handle] == path@ && moved.paths.contains_key(handle)
                && moved.paths[handle] == path@
            &&& status >= 0 && call.ours ==> passed.dirs.contains_key(handle)
                && passed.dirs[handle].path == path@
            &&& !call.ours ==> passed.paths == t.paths && moved.paths == t.paths && passed.dirs
                == t.dirs
            &&& moved.dirs == t.dirs && passed.identities == t.identities
            &&& status >= 0 ==> (identity matches Some(name) ==> moved.identities.contains_key(
                handle,
            ) && moved.identities[handle] == name@)
        }),
{
}

/// An answered open under a path counts as routed, and one that can create is counted as
/// synchronous or not, by its options.
pub proof fn law_opens_are_counted_by_their_options(
    c: hookstats::SnapshotView,
    call: OpenCall,
    status: i32,
)
    ensures
        ({
            let n = routed_counted(c, call, status);
            let sync = call.options & 0x30 != 0;
            &&& call.creates && sync ==> n.sync_opens == c.sync_opens.wrapping_add(1)
                && n.async_opens == c.async_opens
            &&& call.creates && !sync ==> n.async_opens == c.async_opens.wrapping_add(1)
                && n.sync_opens == c.sync_opens
            &&& !call.creates ==> n.sync_opens == c.sync_opens && n.async_opens == c.async_opens
        }),
{
}

/// A fall-through that was counted as one of a write is not counted again when it is decided.
pub proof fn law_a_fall_through_is_counted_once(
    run: OpenRun,
    recorded: bool,
    event: CallEvent,
)
    ensures
        recorded ==> recorded_after(CallPhase::Open(run), recorded, event),
        recorded_after(CallPhase::Decide, recorded, event) == recorded,
        open::open_advanced(run, open_event(event)).1 == OpenStep::FallThrough(true)
            ==> recorded_after(CallPhase::Open(run), recorded, event),
        open::open_advanced(run, open_event(event)).1 == OpenStep::FallThrough(false)
            ==> recorded_after(CallPhase::Open(run), recorded, event) == recorded,
{
}

/// An open counts as looked at when it begins, once, and not where it goes through, cannot be
/// made, or makes a directory.
pub proof fn law_an_open_is_counted_when_it_begins(
    c: hookstats::SnapshotView,
    call: OpenCall,
    path: String,
)
    requires
        call.path == Some(path),
        !(call.creates && call.hit is Some && call.options & 1 != 0 && (call.disposition == 2
            || call.disposition == 3 || call.disposition == 5)),
    ensures
        begun_counted(c, call, true, false).passthrough == crate::tally::bumped(
            c.passthrough,
            text::ascii_lowered(path@),
            4000,
        ),
        begun_counted(c, call, true, true) == c,
        begun_counted(c, call, false, false) == c,
{
}

/// A directory that was made is known under its handle, as the caller takes it: its path, and
/// where it is under a root that it can be listed. A refused one leaves the tables as they were.
pub proof fn law_a_made_directory_is_noted(
    t: tables::TablesView,
    call: OpenCall,
    path: String,
    status: RingStatus,
    h: u64,
)
    requires
        call.path == Some(path),
    ensures
        ({
            let now = tables_after(t, call, CallPhase::Mkdir, CallEvent::Made(Ok(())), h);
            &&& call.stored && call.ours ==> now.paths.contains_key(h) && now.paths[h] == path@
            &&& call.stored && call.ours ==> now.dirs.contains_key(h) && now.dirs[h].path == path@
            &&& !call.stored ==> now == t
            &&& !call.ours ==> now.paths == t.paths && now.dirs == t.dirs
            &&& now.identities == t.identities
        }),
        tables_after(t, call, CallPhase::Mkdir, CallEvent::Made(Err(status)), h) == t,
{
}

/// What the director answered for a path under a root counts as answered there; what the engine
/// or the system decided, and a directory that was made, does not.
pub proof fn law_only_the_directors_answers_are_rooted(
    call: OpenCall,
    phase: CallPhase,
    event: CallEvent,
    h: u64,
)
    requires
        follows(phase, event),
    ensures
        advanced(call, phase, event, h).1 matches CallStepView::Finish { rooted, .. } ==> (rooted
            <==> phase is Open),
{
}

} // verus!

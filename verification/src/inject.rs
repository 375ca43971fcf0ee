//! Following child processes: names that parent and child agree on, and the order in which a
//! child is prepared.

use crate::bytes;
use crate::overlay;
use crate::payload_abi::MAX_REDIRECTS;
use crate::text;
use vstd::prelude::*;
use vstd::string::*;

verus! {

/// A wide text with its terminator.
pub open spec fn wide_units(s: Seq<char>) -> Seq<u16> {
    text::utf16_units(s).push(0)
}

/// [`wide_units`].
pub fn wide(s: &str) -> (out: Vec<u16>)
    ensures
        out@ == wide_units(s@),
{
    let mut out = text::encode_utf16(s);
    out.push(0);
    out
}

/// The name of the file by which a parent tells its child `pid` where the early configuration
/// is.
pub open spec fn payload_cfg_name(pid: u32) -> Seq<char> {
    "vfs_payload_cfg_"@ + text::decimal(pid as nat) + ".txt"@
}

/// The path of that file in the directory of temporary files.
pub fn payload_cfg_path_for_pid(temp_dir: &str, pid: u32) -> (out: String)
    ensures
        out@ == overlay::path_join(temp_dir@, payload_cfg_name(pid)),
{
    let mut name = "vfs_payload_cfg_".to_owned();
    text::push_decimal(&mut name, pid as u128);
    name.append(".txt");
    overlay::join_path(temp_dir, name.as_str())
}

/// The name of the event by which the shim of process `pid` says that it is in place.
pub open spec fn ready_name(pid: u32) -> Seq<char> {
    "Local\\vfs_shim_ready_"@ + text::decimal(pid as nat)
}

/// The wide form of [`ready_name`].
pub fn ready_event_name(pid: u32) -> (out: Vec<u16>)
    ensures
        out@ == wide_units(ready_name(pid)),
{
    let mut name = "Local\\vfs_shim_ready_".to_owned();
    text::push_decimal(&mut name, pid as u128);
    wide(name.as_str())
}

/// Two processes never share a readiness event or an early-configuration file.
pub proof fn law_names_tell_processes_apart(a: u32, b: u32)
    requires
        a != b,
    ensures
        ready_name(a) != ready_name(b),
        payload_cfg_name(a) != payload_cfg_name(b),
{
    let da = text::decimal(a as nat);
    let db = text::decimal(b as nat);
    if da == db {
        text::lemma_decimal_injective(a as nat, b as nat);
    }
    let p = "Local\\vfs_shim_ready_"@;
    if ready_name(a) == ready_name(b) {
        assert(ready_name(a).skip(p.len() as int) =~= da);
        assert(ready_name(b).skip(p.len() as int) =~= db);
    }
    let q = "vfs_payload_cfg_"@;
    let t = ".txt"@;
    if payload_cfg_name(a) == payload_cfg_name(b) {
        let n = payload_cfg_name(a).len();
        assert(payload_cfg_name(a).subrange(q.len() as int, n - t.len()) =~= da);
        assert(payload_cfg_name(b).subrange(q.len() as int, n - t.len()) =~= db);
    }
}

/// The early redirects of a child: the first of its parent's that fit.
pub fn child_preinit_redirects(rows: &[(String, String, u64)]) -> (out: Vec<(String, String, u64)>)
    ensures
        crate::bootstrap::rows_view(out@) == crate::bootstrap::rows_view(rows@).take(
            if rows@.len() <= MAX_REDIRECTS {
                rows@.len() as int
            } else {
                MAX_REDIRECTS as int
            },
        ),
{
    let mut out: Vec<(String, String, u64)> = Vec::new();
    let mut i: usize = 0;
    while i < rows.len() && i < MAX_REDIRECTS
        invariant
            i <= rows@.len(),
            i <= MAX_REDIRECTS,
            crate::bootstrap::rows_view(out@) =~= crate::bootstrap::rows_view(rows@).take(i as int),
        decreases rows@.len() - i,
    {
        let ghost before = crate::bootstrap::rows_view(out@);
        let row = &rows[i];
        out.push((row.0.clone(), row.1.clone(), row.2));
        assert(crate::bootstrap::rows_view(out@) =~= before.push((row.0@, row.1@, row.2)));
        i = i + 1;
    }
    out
}

/// The path of the module this code lives in, from the buffer that the system filled: nothing
/// was written, or the buffer was too small, where there is none.
pub fn self_dll_path(found: bool, buf: &[u16], written: u32) -> (r: Option<String>)
    ensures
        match r {
            Some(p) => found && 0 < written < buf@.len() && p@ == text::utf16_text(
                buf@.take(written as int),
            ),
            None => !found || written == 0 || written >= buf@.len(),
        },
{
    if !found || written == 0 || written as usize >= buf.len() {
        return None;
    }
    let units = vstd::slice::slice_subrange(buf, 0, written as usize);
    assert(units@ =~= buf@.take(written as int));
    Some(text::decode_utf16(units))
}

// ---------------------------------------------------------------------------------------
// Words of another process.

/// Whether a transfer between processes moved everything.
pub fn moved_whole(succeeded: bool, moved: u64, wanted: u64) -> (r: bool)
    ensures
        r == (succeeded && moved == wanted),
{
    succeeded && moved == wanted
}

/// A word read from another process, where it was read whole.
pub fn read_u32(succeeded: bool, moved: u64, word: &[u8]) -> (r: Option<u32>)
    requires
        word@.len() == 4,
    ensures
        r == if succeeded && moved == 4 {
            Some(bytes::u32_in(word@, 0))
        } else {
            None
        },
{
    if !moved_whole(succeeded, moved, 4) {
        return None;
    }
    Some(bytes::u32_at(word, 0))
}

/// The word that opens the barrier, or `None` where there is no barrier to open.
pub fn release_spin(release_flag: u64) -> (r: Option<Vec<u8>>)
    ensures
        match r {
            Some(word) => release_flag != 0 && word@ == bytes::le32(1),
            None => release_flag == 0,
        },
{
    if release_flag == 0 {
        return None;
    }
    let mut word: Vec<u8> = Vec::new();
    bytes::push_u32(&mut word, 1);
    assert(word@ =~= bytes::le32(1));
    Some(word)
}

// ---------------------------------------------------------------------------------------
// Loading a library in a child.

/// What has to be done to load a library in another process, in order.
#[derive(Clone, Copy, Debug, PartialEq, Eq, Structural)]
pub enum LoadStep {
    /// Room for the path is allocated there.
    Allocate,
    /// The path is written to it, whole.
    Write,
    /// The loader's module is found.
    FindModule,
    /// Its load function is found.
    FindLoader,
    /// A thread is started on it.
    Start,
    /// The thread is waited for and its handle closed.
    Wait,
    /// It is over; the value says whether the library was loaded.
    Over(bool),
}

/// The step after one that succeeded or failed.
pub open spec fn load_after(step: LoadStep, succeeded: bool) -> LoadStep {
    match step {
        LoadStep::Over(r) => LoadStep::Over(r),
        LoadStep::Wait => LoadStep::Over(true),
        _ if !succeeded => LoadStep::Over(false),
        LoadStep::Allocate => LoadStep::Write,
        LoadStep::Write => LoadStep::FindModule,
        LoadStep::FindModule => LoadStep::FindLoader,
        LoadStep::FindLoader => LoadStep::Start,
        LoadStep::Start => LoadStep::Wait,
    }
}

/// [`load_after`]: the first step is [`LoadStep::Allocate`], and any failure ends it.
pub fn inject_dll(step: LoadStep, succeeded: bool) -> (r: LoadStep)
    ensures
        r == load_after(step, succeeded),
{
    match step {
        LoadStep::Over(r) => LoadStep::Over(r),
        LoadStep::Wait => LoadStep::Over(true),
        LoadStep::Allocate => if succeeded {
            LoadStep::Write
        } else {
            LoadStep::Over(false)
        },
        LoadStep::Write => if succeeded {
            LoadStep::FindModule
        } else {
            LoadStep::Over(false)
        },
        LoadStep::FindModule => if succeeded {
            LoadStep::FindLoader
        } else {
            LoadStep::Over(false)
        },
        LoadStep::FindLoader => if succeeded {
            LoadStep::Start
        } else {
            LoadStep::Over(false)
        },
        LoadStep::Start => if succeeded {
            LoadStep::Wait
        } else {
            LoadStep::Over(false)
        },
    }
}

// ---------------------------------------------------------------------------------------
// Both layers in a child.

/// What the early payload writes when it is in place.
pub const INSTALL_SENTINEL: u32 = 0xC0DE;

/// Where it writes that, from the address of its counters on.
pub const SENTINEL_OFFSET: u64 = 0x1C;

/// The address of the sentinel, as addresses wrap.
pub fn sentinel_address(counters: u64) -> (r: u64)
    ensures
        r == counters.wrapping_add(SENTINEL_OFFSET),
{
    counters.wrapping_add(SENTINEL_OFFSET)
}

/// The order in which a suspended child gets both layers.
#[derive(Clone, Copy, Debug, PartialEq, Eq, Structural)]
pub enum DualStep {
    /// Find the early payload.
    Payload,
    /// Put it into the child; from here on the child's first thread waits at a barrier.
    Arm,
    /// Tell the child where the early configuration is.
    WriteCfg,
    /// Let the child's first thread run up to the barrier.
    Resume,
    /// Look for the sentinel.
    Sentinel,
    /// Load the full shim.
    Load,
    /// Wait for the full shim to be in place.
    Ready,
    /// Open the barrier: everything is in place.
    Open,
    /// Open the barrier after a failure, then take the file away.
    OpenAndClean,
    /// Open the barrier after a failure that leaves no file to take away.
    OpenOnly,
    /// Take the file away; the value says how it ends.
    Clean(bool),
    /// It is over; the value says whether both layers are in place.
    Over(bool),
}

/// The outcome of a step.
#[derive(Clone, Copy, Debug, PartialEq, Eq, Structural)]
pub enum DualEvent {
    /// The step succeeded.
    Done,
    /// The step failed.
    Failed,
    /// What was read in place of the sentinel, and whether the time is up.
    Polled { word: Option<u32>, expired: bool },
}

/// The step after `step`.
pub open spec fn dual_after(step: DualStep, event: DualEvent) -> DualStep {
    let done = event == DualEvent::Done;
    match step {
        DualStep::Payload => if done {
            DualStep::Arm
        } else {
            DualStep::Over(false)
        },
        DualStep::Arm => if done {
            DualStep::WriteCfg
        } else {
            DualStep::Over(false)
        },
        DualStep::WriteCfg => if done {
            DualStep::Resume
        } else {
            DualStep::OpenOnly
        },
        DualStep::Resume => if done {
            DualStep::Sentinel
        } else {
            DualStep::OpenOnly
        },
        DualStep::Sentinel => match event {
            DualEvent::Polled { word, expired } => if word == Some(INSTALL_SENTINEL) {
                DualStep::Load
            } else if expired {
                DualStep::OpenAndClean
            } else {
                DualStep::Sentinel
            },
            _ => DualStep::Sentinel,
        },
        DualStep::Load => if done {
            DualStep::Ready
        } else {
            DualStep::OpenAndClean
        },
        DualStep::Ready => if done {
            DualStep::Open
        } else {
            DualStep::OpenAndClean
        },
        DualStep::Open => DualStep::Clean(done),
        DualStep::OpenAndClean => DualStep::Clean(false),
        DualStep::OpenOnly => DualStep::Over(false),
        DualStep::Clean(r) => DualStep::Over(r),
        DualStep::Over(r) => DualStep::Over(r),
    }
}

/// [`dual_after`]: the first step is [`DualStep::Payload`].
pub fn inject_child_dual_layer(step: DualStep, event: DualEvent) -> (r: DualStep)
    ensures
        r == dual_after(step, event),
{
    let done = match event {
        DualEvent::Done => true,
        _ => false,
    };
    match step {
        DualStep::Payload => if done {
            DualStep::Arm
        } else {
            DualStep::Over(false)
        },
        DualStep::Arm => if done {
            DualStep::WriteCfg
        } else {
            DualStep::Over(false)
        },
        DualStep::WriteCfg => if done {
            DualStep::Resume
        } else {
            DualStep::OpenOnly
        },
        DualStep::Resume => if done {
            DualStep::Sentinel
        } else {
            DualStep::OpenOnly
        },
        DualStep::Sentinel => match event {
            DualEvent::Polled { word, expired } => {
                let seen = match word {
                    Some(w) => w == INSTALL_SENTINEL,
                    None => false,
                };
                if seen {
                    DualStep::Load
                } else if expired {
                    DualStep::OpenAndClean
                } else {
                    DualStep::Sentinel
                }
            },
            _ => DualStep::Sentinel,
        },
        DualStep::Load => if done {
            DualStep::Ready
        } else {
            DualStep::OpenAndClean
        },
        DualStep::Ready => if done {
            DualStep::Open
        } else {
            DualStep::OpenAndClean
        },
        DualStep::Open => DualStep::Clean(done),
        DualStep::OpenAndClean => DualStep::Clean(false),
        DualStep::OpenOnly => DualStep::Over(false),
        DualStep::Clean(r) => DualStep::Over(r),
        DualStep::Over(r) => DualStep::Over(r),
    }
}

/// Whether a step opens the barrier.
pub open spec fn opens_barrier(step: DualStep) -> bool {
    step is Open || step is OpenAndClean || step is OpenOnly
}

/// Whether a step lies between the arming and the opening of the barrier.
pub open spec fn is_armed(step: DualStep) -> bool {
    step is WriteCfg || step is Resume || step is Sentinel || step is Load || step is Ready
        || opens_barrier(step)
}

/// The step after a series of outcomes.
pub open spec fn dual_replayed(step: DualStep, events: Seq<DualEvent>) -> DualStep
    decreases events.len(),
{
    if events.len() == 0 {
        step
    } else {
        dual_replayed(dual_after(step, events[0]), events.skip(1))
    }
}

/// Whether one of the steps taken opens the barrier.
pub open spec fn barrier_opened(step: DualStep, events: Seq<DualEvent>) -> bool
    decreases events.len(),
{
    events.len() > 0 && (opens_barrier(step) || barrier_opened(
        dual_after(step, events[0]),
        events.skip(1),
    ))
}

/// A child that waits at the barrier is never left there: whatever fails, what ends after the
/// arming has tried to open it.
pub proof fn law_the_barrier_is_always_opened(step: DualStep, events: Seq<DualEvent>)
    requires
        is_armed(step),
        dual_replayed(step, events) is Over,
    ensures
        barrier_opened(step, events),
    decreases events.len(),
{
    if events.len() > 0 && !opens_barrier(step) {
        law_the_barrier_is_always_opened(dual_after(step, events[0]), events.skip(1));
    }
}

/// Success is never reported for less than everything: it takes an opened barrier after a shim that
/// is in place, which takes one that was loaded, which takes the sentinel.
pub proof fn law_success_takes_every_step(step: DualStep, event: DualEvent)
    ensures
        dual_after(step, event) == DualStep::Over(true) ==> step == DualStep::Clean(true) || step
            == DualStep::Over(true),
        dual_after(step, event) == DualStep::Clean(true) ==> step == DualStep::Open && event
            == DualEvent::Done,
        dual_after(step, event) == DualStep::Open ==> step == DualStep::Ready && event
            == DualEvent::Done,
        dual_after(step, event) == DualStep::Ready ==> step == DualStep::Load && event
            == DualEvent::Done,
        dual_after(step, event) == DualStep::Load ==> step == DualStep::Sentinel && (
        event matches DualEvent::Polled { word, .. } && word == Some(INSTALL_SENTINEL)),
{
}

/// How a child is prepared: with both layers, or else with the full shim alone.
#[derive(Clone, Copy, Debug, PartialEq, Eq, Structural)]
pub enum ChildPrep {
    /// Both layers are tried.
    Dual,
    /// The full shim is loaded.
    Load,
    /// The full shim is waited for.
    Ready,
    /// It is over; the value says whether the shim is in place.
    Over(bool),
}

/// The preparation after a step: without both layers the full shim is loaded in the plain way.
pub open spec fn prep_after(step: ChildPrep, succeeded: bool) -> ChildPrep {
    match step {
        ChildPrep::Dual => if succeeded {
            ChildPrep::Over(true)
        } else {
            ChildPrep::Load
        },
        ChildPrep::Load => if succeeded {
            ChildPrep::Ready
        } else {
            ChildPrep::Over(false)
        },
        ChildPrep::Ready => ChildPrep::Over(succeeded),
        ChildPrep::Over(r) => ChildPrep::Over(r),
    }
}

/// [`prep_after`]: the first step is [`ChildPrep::Dual`].
pub fn inject_child(step: ChildPrep, succeeded: bool) -> (r: ChildPrep)
    ensures
        r == prep_after(step, succeeded),
{
    match step {
        ChildPrep::Dual => if succeeded {
            ChildPrep::Over(true)
        } else {
            ChildPrep::Load
        },
        ChildPrep::Load => if succeeded {
            ChildPrep::Ready
        } else {
            ChildPrep::Over(false)
        },
        ChildPrep::Ready => ChildPrep::Over(succeeded),
        ChildPrep::Over(r) => ChildPrep::Over(r),
    }
}

/// Whether a wait for the readiness event ended with the event: there was one, and the wait gave
/// zero.
pub fn wait_ready(created: bool, result: u32) -> (r: bool)
    ensures
        r == (created && result == 0),
{
    created && result == 0
}

// ---------------------------------------------------------------------------------------
// Creating a child.

/// The flag by which a process is created with its first thread suspended.
pub const CREATE_SUSPENDED: u32 = 4;

/// How long a child's shim is waited for, in milliseconds.
pub const CHILD_READY_TIMEOUT_MS: u32 = 5000;

/// How a child is created.
pub struct ChildLaunch {
    /// The creation flags.
    pub flags: u32,
    /// The working directory that takes the place of the caller's, as terminated wide text.
    pub current_dir: Option<Vec<u16>>,
}

/// Whether the caller asked for a suspended child.
pub open spec fn asked_suspended(flags: u32) -> bool {
    flags & CREATE_SUSPENDED != 0
}

/// How a child is created: suspended in any case, and in the virtual root where `root_cwd` says
/// so and there is one.
pub fn child_launch(flags: u32, root_cwd: bool, virtual_dir: Option<&str>) -> (r: ChildLaunch)
    ensures
        r.flags == flags | CREATE_SUSPENDED,
        asked_suspended(r.flags),
        match r.current_dir {
            Some(w) => root_cwd && (virtual_dir matches Some(d) && d@.len() > 0 && w@ == wide_units(
                d@,
            )),
            None => !root_cwd || (virtual_dir matches Some(d) ==> d@.len() == 0),
        },
{
    assert((flags | 4u32) & 4u32 != 0) by (bit_vector);
    let current_dir = match virtual_dir {
        Some(d) => if root_cwd && d.unicode_len() > 0 {
            Some(wide(d))
        } else {
            None
        },
        None => None,
    };
    ChildLaunch { flags: flags | CREATE_SUSPENDED, current_dir }
}

/// What is done with a child that was created.
#[derive(Clone, Copy, Debug, PartialEq, Eq, Structural)]
pub enum ChildStep {
    /// It is prepared; whether that succeeds makes no difference to what follows.
    Inject,
    /// Its first thread is suspended once more.
    ReSuspend,
    /// Its first thread is resumed.
    Resume,
}

/// The steps for a child: none where none was created or nothing is known of it.
pub open spec fn child_steps(created: bool, known: bool, has_dll: bool, flags: u32) -> Seq<
    ChildStep,
> {
    if !created || !known {
        seq![]
    } else if has_dll {
        if asked_suspended(flags) {
            seq![ChildStep::Inject, ChildStep::ReSuspend]
        } else {
            seq![ChildStep::Inject, ChildStep::Resume]
        }
    } else if asked_suspended(flags) {
        seq![]
    } else {
        seq![ChildStep::Resume]
    }
}

/// [`child_steps`].
pub fn cpiw_hook(created: bool, known: bool, has_dll: bool, flags: u32) -> (out: Vec<ChildStep>)
    ensures
        out@ == child_steps(created, known, has_dll, flags),
{
    let mut out: Vec<ChildStep> = Vec::new();
    if created && known {
        let suspended = flags & CREATE_SUSPENDED != 0;
        if has_dll {
            out.push(ChildStep::Inject);
            out.push(
                if suspended {
                    ChildStep::ReSuspend
                } else {
                    ChildStep::Resume
                },
            );
        } else if !suspended {
            out.push(ChildStep::Resume);
        }
    }
    assert(out@ =~= child_steps(created, known, has_dll, flags));
    out
}

/// How often the first thread is suspended after a step. Preparing the child may leave it as it
/// was, or let it run.
pub open spec fn suspends_after(count: nat, step: ChildStep, let_run: bool) -> nat {
    match step {
        ChildStep::Inject => if let_run {
            0
        } else {
            count
        },
        ChildStep::ReSuspend => count + 1,
        ChildStep::Resume => if count == 0 {
            0
        } else {
            (count - 1) as nat
        },
    }
}

/// How often the first thread is suspended after all steps.
pub open spec fn suspends_in_the_end(count: nat, steps: Seq<ChildStep>, let_run: bool) -> nat
    decreases steps.len(),
{
    if steps.len() == 0 {
        count
    } else {
        suspends_in_the_end(suspends_after(count, steps[0], let_run), steps.skip(1), let_run)
    }
}

/// Whatever came of its preparation, a child that was created suspended by force ends as its
/// creator asked: one that was asked for suspended is, and any other runs.
pub proof fn law_a_child_starts_as_asked(has_dll: bool, flags: u32, let_run: bool)
    ensures
        ({
            let count = suspends_in_the_end(1, child_steps(true, true, has_dll, flags), let_run);
            (count == 0) == !asked_suspended(flags)
        }),
{
    reveal_with_fuel(suspends_in_the_end, 3);
    let steps = child_steps(true, true, has_dll, flags);
    if steps.len() == 2 {
        assert(steps.skip(1)[0] == steps[1]);
        assert(steps.skip(1).skip(1) =~= seq![]);
    } else if steps.len() == 1 {
        assert(steps.skip(1) =~= seq![]);
    }
}

/// A load goes on while it succeeds, one step after the other, to the wait at its end; it fails
/// with the first step that fails, and what is over stays so.
pub proof fn law_a_load_goes_step_by_step(step: LoadStep, ok: bool, r: bool)
    ensures
        load_after(LoadStep::Allocate, true) == LoadStep::Write,
        load_after(LoadStep::Write, true) == LoadStep::FindModule,
        load_after(LoadStep::FindModule, true) == LoadStep::FindLoader,
        load_after(LoadStep::FindLoader, true) == LoadStep::Start,
        load_after(LoadStep::Start, true) == LoadStep::Wait,
        load_after(LoadStep::Wait, ok) == LoadStep::Over(true),
        load_after(LoadStep::Over(r), ok) == LoadStep::Over(r),
        step !is Over && step !is Wait ==> load_after(step, false) == LoadStep::Over(false),
{
}

/// How both layers are put in: the payload, the barrier, the configuration, the process let
/// go, the sentinel, the shim, its readiness, and the barrier opened. A failure before the
/// barrier ends it; one before the process runs opens the barrier alone; a later one opens it
/// and cleans up.
pub proof fn law_both_layers_go_in_step_by_step(word: Option<u32>, expired: bool, r: bool)
    ensures
        dual_after(DualStep::Payload, DualEvent::Done) == DualStep::Arm,
        dual_after(DualStep::Arm, DualEvent::Done) == DualStep::WriteCfg,
        dual_after(DualStep::WriteCfg, DualEvent::Done) == DualStep::Resume,
        dual_after(DualStep::Resume, DualEvent::Done) == DualStep::Sentinel,
        dual_after(DualStep::Load, DualEvent::Done) == DualStep::Ready,
        dual_after(DualStep::Ready, DualEvent::Done) == DualStep::Open,
        dual_after(DualStep::Open, DualEvent::Done) == DualStep::Clean(true),
        dual_after(DualStep::Clean(r), DualEvent::Done) == DualStep::Over(r),
        dual_after(DualStep::Payload, DualEvent::Failed) == DualStep::Over(false),
        dual_after(DualStep::Arm, DualEvent::Failed) == DualStep::Over(false),
        dual_after(DualStep::WriteCfg, DualEvent::Failed) == DualStep::OpenOnly,
        dual_after(DualStep::Resume, DualEvent::Failed) == DualStep::OpenOnly,
        dual_after(DualStep::Load, DualEvent::Failed) == DualStep::OpenAndClean,
        dual_after(DualStep::Ready, DualEvent::Failed) == DualStep::OpenAndClean,
        dual_after(DualStep::Open, DualEvent::Failed) == DualStep::Clean(false),
        word == Some(0xC0DEu32) ==> dual_after(
            DualStep::Sentinel,
            DualEvent::Polled { word, expired },
        ) == DualStep::Load,
        word != Some(0xC0DEu32) && !expired ==> dual_after(
            DualStep::Sentinel,
            DualEvent::Polled { word, expired },
        ) == DualStep::Sentinel,
        word != Some(0xC0DEu32) && expired ==> dual_after(
            DualStep::Sentinel,
            DualEvent::Polled { word, expired },
        ) == DualStep::OpenAndClean,
{
}

/// A child gets both layers, or else the shim alone; it is prepared when the shim is ready.
pub proof fn law_a_child_is_prepared_one_way_or_the_other(ok: bool)
    ensures
        prep_after(ChildPrep::Dual, true) == ChildPrep::Over(true),
        prep_after(ChildPrep::Dual, false) == ChildPrep::Load,
        prep_after(ChildPrep::Load, true) == ChildPrep::Ready,
        prep_after(ChildPrep::Load, false) == ChildPrep::Over(false),
        prep_after(ChildPrep::Ready, ok) == ChildPrep::Over(ok),
        prep_after(ChildPrep::Over(ok), true) == ChildPrep::Over(ok),
        prep_after(ChildPrep::Over(ok), false) == ChildPrep::Over(ok),
{
}

/// A child that was created is injected where there is a shim to inject, and is left suspended
/// exactly where its creator asked for that; one that was not created is left alone.
pub proof fn law_a_child_is_injected_and_left_as_asked(
    created: bool,
    known: bool,
    has_dll: bool,
    flags: u32,
)
    ensures
        ({
            let s = child_steps(created, known, has_dll, flags);
            let suspended = flags & 4 != 0;
            &&& !created || !known ==> s.len() == 0
            &&& created && known ==> (s.contains(ChildStep::Inject) <==> has_dll)
            &&& created && known && has_dll ==> s.len() == 2 && s[0] == ChildStep::Inject
            &&& created && known && has_dll && suspended ==> s[1] == ChildStep::ReSuspend
            &&& created && known && has_dll && !suspended ==> s[1] == ChildStep::Resume
            &&& created && known && !has_dll && suspended ==> s.len() == 0
            &&& created && known && !has_dll && !suspended ==> s.len() == 1 && s[0]
                == ChildStep::Resume
        }),
{
    let s = child_steps(created, known, has_dll, flags);
    if created && known && has_dll {
        assert(s[0] == ChildStep::Inject);
    }
}

/// Text for the system's wide calls is its units with a zero behind them.
pub proof fn law_wide_text_ends_with_zero(s: Seq<char>)
    ensures
        wide_units(s).len() == text::utf16_units(s).len() + 1,
        wide_units(s).last() == 0,
        wide_units(s).drop_last() == text::utf16_units(s),
{
    assert(wide_units(s).drop_last() =~= text::utf16_units(s));
}

} // verus!

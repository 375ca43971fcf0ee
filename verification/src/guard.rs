//! Guards against the shim answering its own file operations, and containment of panics at the
//! entry points.

use crate::hookstats;
use crate::hookstats::Stats;
use crate::ntdef;
use crate::tally;
use crate::text;
use vstd::prelude::*;
use vstd::string::*;

verus! {

/// How deep a thread is in the shim's own file operations. While it is inside, every file call
/// of the thread goes straight to the system.
#[derive(Clone, Copy, Debug, PartialEq, Eq, Structural)]
pub struct ShimIoGuard {
    pub depth: u32,
}

/// How deep a thread is in building the map of managed roots.
#[derive(Clone, Copy, Debug, PartialEq, Eq, Structural)]
pub struct MapInitGuard {
    pub depth: u32,
}

/// The depth after an attempt to enter, and whether it succeeded.
pub open spec fn entered(depth: u32) -> (u32, bool) {
    if depth > 0 {
        (depth, false)
    } else {
        (1, true)
    }
}

/// The depth after a leave.
pub open spec fn left(depth: u32) -> u32 {
    depth.saturating_sub(1)
}

impl ShimIoGuard {
    /// Not inside.
    pub fn new() -> (g: ShimIoGuard)
        ensures
            g.depth == 0,
    {
        ShimIoGuard { depth: 0 }
    }

    /// Enters, unless the thread is inside already.
    pub fn enter(&mut self) -> (r: bool)
        ensures
            (final(self).depth, r) == entered(old(self).depth),
    {
        if self.depth > 0 {
            return false;
        }
        self.depth = 1;
        true
    }

    /// Leaves.
    pub fn leave(&mut self)
        ensures
            final(self).depth == left(old(self).depth),
    {
        self.depth = self.depth.saturating_sub(1);
    }
}

/// Whether the thread is inside the shim's own file operations.
pub fn in_hook_reenter(g: &ShimIoGuard) -> (r: bool)
    ensures
        r == (g.depth > 0),
{
    g.depth > 0
}

impl MapInitGuard {
    /// Not inside.
    pub fn new() -> (g: MapInitGuard)
        ensures
            g.depth == 0,
    {
        MapInitGuard { depth: 0 }
    }

    /// Enters, unless the thread is inside already.
    pub fn enter(&mut self) -> (r: bool)
        ensures
            (final(self).depth, r) == entered(old(self).depth),
    {
        if self.depth > 0 {
            return false;
        }
        self.depth = 1;
        true
    }

    /// Leaves.
    pub fn leave(&mut self)
        ensures
            final(self).depth == left(old(self).depth),
    {
        self.depth = self.depth.saturating_sub(1);
    }
}

/// A guard is held at most once: a thread that is inside cannot enter, and one that entered and
/// left is where it was.
pub proof fn law_a_guard_is_held_once(depth: u32)
    requires
        depth <= 1,
    ensures
        entered(depth).1 <==> depth == 0,
        !entered(entered(depth).0).1,
        entered(depth).1 ==> left(entered(depth).0) == depth,
{
}

/// How a caller gets at the map of managed roots.
#[derive(Clone, Copy, Debug, PartialEq, Eq, Structural)]
pub enum MapAccess {
    /// It is there.
    Ready,
    /// It has to be built now; the guard is held meanwhile.
    Build,
    /// This thread is building it at this moment: the caller goes on without it.
    NotReady,
}

/// The way to the map of managed roots: it is built on first use, and never from within its own
/// building.
pub fn map_access(built: bool, g: &mut MapInitGuard) -> (r: MapAccess)
    ensures
        r == (if built {
            MapAccess::Ready
        } else if entered(old(g).depth).1 {
            MapAccess::Build
        } else {
            MapAccess::NotReady
        }),
        final(g).depth == (if built {
            old(g).depth
        } else {
            entered(old(g).depth).0
        }),
{
    if built {
        return MapAccess::Ready;
    }
    if g.enter() {
        MapAccess::Build
    } else {
        MapAccess::NotReady
    }
}

/// What an entry point answers where its body panicked: a failure, and one that says nothing
/// about why.
pub const STATUS_HOOK_PANICKED: i32 = -1073741823;

/// The answer of a contained panic is a failure, and the general one.
pub proof fn law_a_panic_is_answered_with_failure()
    ensures
        STATUS_HOOK_PANICKED == ntdef::STATUS_UNSUCCESSFUL,
        !ntdef::nt_success(STATUS_HOOK_PANICKED),
{
}

/// What an entry point answers: what its body returned, or, where the body panicked and
/// returned nothing, `on_panic`. A panic is counted under `name`; a body that returned leaves
/// the counters alone.
pub fn contain_panic<R>(s: &mut Stats, name: &str, outcome: Option<R>, on_panic: R) -> (r: R)
    requires
        old(s).wf(),
    ensures
        final(s).wf(),
        match outcome {
            Some(v) => r == v && final(s)@ == old(s)@,
            None => r == on_panic && final(s)@ == (hookstats::StatsView {
                panics: tally::learned(old(s)@.panics, name@),
                ..old(s)@
            }),
        },
{
    match outcome {
        Some(v) => v,
        None => {
            hookstats::note_hook_panic(s, name);
            on_panic
        },
    }
}

/// Where panics are recorded: the file that was asked for, else one in the state directory, else
/// a fixed one, so that a panic is never silent for want of a path.
pub open spec fn panic_log(asked: Option<Seq<char>>, state_dir: Option<Seq<char>>) -> Seq<char> {
    match (asked, state_dir) {
        (Some(p), _) => p,
        (None, Some(d)) => d + "\\shim-panic.log"@,
        (None, None) => "C:\\tmp\\skyrim-data\\vfs-state\\shim-panic.log"@,
    }
}

/// [`panic_log`].
pub fn panic_log_path(asked: Option<&str>, state_dir: Option<&str>) -> (out: String)
    ensures
        out@ == panic_log(hookstats::optional(asked), hookstats::optional(state_dir)),
{
    match asked {
        Some(p) => p.to_owned(),
        None => match state_dir {
            Some(d) => text::joined(d, "\\shim-panic.log"),
            None => "C:\\tmp\\skyrim-data\\vfs-state\\shim-panic.log".to_owned(),
        },
    }
}

/// Where a panic was raised.
pub struct PanicPlace {
    pub file: String,
    pub line: u32,
    pub column: u32,
}

/// The record of one panic: process, thread, place and message.
pub open spec fn panic_record(
    pid: u32,
    thread: Seq<char>,
    place: Option<PanicPlace>,
    message: Option<Seq<char>>,
) -> Seq<char> {
    let at = match place {
        Some(p) => p.file@ + ":"@ + text::decimal(p.line as nat) + ":"@ + text::decimal(
            p.column as nat,
        ),
        None => "<unknown location>"@,
    };
    let said = match message {
        Some(m) => m,
        None => "<non-string payload>"@,
    };
    "pid="@ + text::decimal(pid as nat) + " tid="@ + thread + " at "@ + at + "\n  "@ + said
        + "\n"@
}

/// [`panic_record`].
pub fn panic_line(pid: u32, thread: &str, place: &Option<PanicPlace>, message: Option<&str>) -> (out:
    String)
    ensures
        out@ == panic_record(pid, thread@, *place, hookstats::optional(message)),
{
    let at = match place {
        Some(p) => {
            let mut at = p.file.clone();
            at.append(":");
            text::push_decimal(&mut at, p.line as u128);
            at.append(":");
            text::push_decimal(&mut at, p.column as u128);
            at
        },
        None => "<unknown location>".to_owned(),
    };
    let mut out = "pid=".to_owned();
    text::push_decimal(&mut out, pid as u128);
    out.append(" tid=");
    out.append(thread);
    out.append(" at ");
    out.append(at.as_str());
    out.append("\n  ");
    out.append(
        match message {
            Some(m) => m,
            None => "<non-string payload>",
        },
    );
    out.append("\n");
    out
}

/// A guard is taken where none is held, and what is taken is given back.
pub proof fn law_a_guard_is_taken_where_none_is_held(depth: u32)
    ensures
        depth == 0 ==> entered(depth) == (1u32, true),
        depth > 0 ==> entered(depth) == (depth, false),
        depth > 0 ==> left(depth) == depth - 1,
        left(0) == 0,
        entered(depth).1 ==> left(entered(depth).0) == depth,
{
}

/// The panic log is where it was asked for, else in the state directory.
pub proof fn law_the_panic_log_is_where_it_was_asked_for(asked: Seq<char>, dir: Seq<char>)
    ensures
        panic_log(Some(asked), Some(dir)) == asked,
        panic_log(Some(asked), None) == asked,
        panic_log(None, Some(dir)) == dir + "\\shim-panic.log"@,
        panic_log(None, None) == "C:\\tmp\\skyrim-data\\vfs-state\\shim-panic.log"@,
{
}

/// A panic is recorded with its process, its thread, its place and its message, on two lines.
pub proof fn law_a_panic_is_recorded_with_its_place(
    pid: u32,
    thread: Seq<char>,
    place: PanicPlace,
    message: Seq<char>,
)
    ensures
        panic_record(pid, thread, Some(place), Some(message)) == "pid="@ + text::decimal(pid as nat)
            + " tid="@ + thread + " at "@ + place.file@ + ":"@ + text::decimal(place.line as nat)
            + ":"@ + text::decimal(place.column as nat) + "\n  "@ + message + "\n"@,
        panic_record(pid, thread, Some(place), None) == panic_record(
            pid,
            thread,
            Some(place),
            Some("<non-string payload>"@),
        ),
{
    assert(panic_record(pid, thread, Some(place), Some(message)) =~= "pid="@ + text::decimal(
        pid as nat,
    ) + " tid="@ + thread + " at "@ + place.file@ + ":"@ + text::decimal(place.line as nat) + ":"@
        + text::decimal(place.column as nat) + "\n  "@ + message + "\n"@);
}

} // verus!

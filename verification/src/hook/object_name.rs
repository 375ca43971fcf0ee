//! A query for an object's name from its first decision to its answer: the system is asked for
//! the name that it would give, and the virtual path is told in the same form.

use crate::hook::query;
use crate::hook::query::NameForm;
use crate::hook::query::NamePlan;
use crate::hook::tables;
use crate::hook::tables::HandleTables;
use crate::ntdef;
use crate::paths;
use crate::text;
use vstd::prelude::*;
use vstd::string::*;

verus! {

/// The room that the system is first asked with.
pub const FIRST_ROOM: u32 = 2048;

/// How far a query is.
pub enum NamePhase {
    /// The system was asked.
    Asking,
    /// The system was asked with the room that it wants.
    AskingAgain,
    /// The device of the drive was asked for; this comes behind it.
    Device { rest: String },
    /// Nothing more is asked.
    Ended,
}

/// How far a query is, as values.
#[verifier::ext_equal]
pub enum NamePhaseView {
    Asking,
    AskingAgain,
    Device { rest: Seq<char> },
    Ended,
}

impl View for NamePhase {
    type V = NamePhaseView;

    open spec fn view(&self) -> NamePhaseView {
        match *self {
            NamePhase::Asking => NamePhaseView::Asking,
            NamePhase::AskingAgain => NamePhaseView::AskingAgain,
            NamePhase::Device { rest } => NamePhaseView::Device { rest: rest@ },
            NamePhase::Ended => NamePhaseView::Ended,
        }
    }
}

/// A query under way, of a handle whose virtual path is `vpath`.
pub struct NameRun {
    pub vpath: String,
    pub phase: NamePhase,
}

/// The next step of a query.
pub enum NameStep {
    /// Hand the call to the system.
    Real,
    /// Ask the system into a block of this size.
    Ask { room: u32 },
    /// Ask for the device of this drive.
    Device { drive: String },
    /// Answer the call with this name.
    Answer { name: String },
}

/// The next step of a query, as values.
#[verifier::ext_equal]
pub enum NameStepView {
    Real,
    Ask { room: u32 },
    Device { drive: Seq<char> },
    Answer { name: Seq<char> },
}

impl View for NameStep {
    type V = NameStepView;

    open spec fn view(&self) -> NameStepView {
        match *self {
            NameStep::Real => NameStepView::Real,
            NameStep::Ask { room } => NameStepView::Ask { room },
            NameStep::Device { drive } => NameStepView::Device { drive: drive@ },
            NameStep::Answer { name } => NameStepView::Answer { name: name@ },
        }
    }
}

/// The outcome of a step.
pub enum NameEvent {
    /// What the system answered: its status, the room that it wants, and the block.
    Asked { status: i32, needed: u32, block: Vec<u8> },
    /// The device, where the drive has one.
    Device(Option<String>),
}

/// What is made of the system's own answer.
pub open spec fn settled(vpath: Seq<char>, status: i32, block: Seq<u8>) -> (
    NamePhaseView,
    NameStepView,
) {
    match query::name_in(block) {
        Some(host) if status >= 0 => match query::name_plan(host, vpath) {
            NamePlan::Decline => (NamePhaseView::Ended, NameStepView::Real),
            NamePlan::Dos(dos) => (
                NamePhaseView::Ended,
                NameStepView::Answer { name: paths::nt_prefix() + dos },
            ),
            NamePlan::Device(drive, rest) => (
                NamePhaseView::Device { rest },
                NameStepView::Device { drive },
            ),
        },
        _ => (NamePhaseView::Ended, NameStepView::Real),
    }
}

/// Whether the system wants more room than it was first asked with.
pub open spec fn wants_room(status: i32, needed: u32) -> bool {
    (status == ntdef::STATUS_BUFFER_OVERFLOW || status == ntdef::STATUS_INFO_LENGTH_MISMATCH)
        && needed > FIRST_ROOM
}

/// The phase and the step after `event`.
pub open spec fn advanced(vpath: Seq<char>, phase: NamePhaseView, event: NameEvent) -> (
    NamePhaseView,
    NameStepView,
) {
    match (phase, event) {
        (
            NamePhaseView::Asking,
            NameEvent::Asked { status, needed, block },
        ) => if wants_room(status, needed) {
            (NamePhaseView::AskingAgain, NameStepView::Ask { room: needed })
        } else {
            settled(vpath, status, block@)
        },
        (NamePhaseView::AskingAgain, NameEvent::Asked { status, needed, block }) => settled(
            vpath,
            status,
            block@,
        ),
        (NamePhaseView::Device { rest }, NameEvent::Device(Some(device))) => (
            NamePhaseView::Ended,
            NameStepView::Answer { name: device@ + rest },
        ),
        _ => (NamePhaseView::Ended, NameStepView::Real),
    }
}

/// How many answers a query can still wait for.
pub open spec fn waits(phase: NamePhaseView) -> nat {
    match phase {
        NamePhaseView::Asking => 3,
        NamePhaseView::AskingAgain => 2,
        NamePhaseView::Device { .. } => 1,
        NamePhaseView::Ended => 0,
    }
}

/// Every answer brings a query nearer to its end: after three at most the call is answered or
/// is the system's.
pub proof fn law_a_name_query_ends(vpath: Seq<char>, phase: NamePhaseView, event: NameEvent)
    requires
        phase !is Ended,
    ensures
        waits(advanced(vpath, phase, event).0) < waits(phase),
        advanced(vpath, phase, event).0 is Ended <==> (advanced(vpath, phase, event).1 is Real
            || advanced(vpath, phase, event).1 is Answer),
{
}

/// What the system would have said decides the form of the name and nothing else: two answers
/// of one form lead to the same step, and a name that is told without asking for a device is the
/// virtual path in the NT form.
pub proof fn law_the_system_decides_the_form_alone(
    vpath: Seq<char>,
    first: Seq<u8>,
    second: Seq<u8>,
    status: i32,
)
    requires
        status >= 0,
        query::name_in(first) is Some,
        query::name_in(second) is Some,
        paths::nt_prefix().is_prefix_of(query::name_in(first)->0)
            == paths::nt_prefix().is_prefix_of(query::name_in(second)->0),
        "\\Device\\"@.is_prefix_of(query::name_in(first)->0) == "\\Device\\"@.is_prefix_of(
            query::name_in(second)->0,
        ),
    ensures
        settled(vpath, status, first) == settled(vpath, status, second),
        settled(vpath, status, first).1 matches NameStepView::Answer { name } ==> name
            == paths::nt_prefix() + paths::without_device(vpath),
{
}

/// Begins a query: one for the name of a handle whose path is tracked goes to the system first,
/// and any other is the system's.
pub fn qobj_begin(t: &HandleTables, handle: u64, class: u32) -> (r: Option<(NameRun, NameStep)>)
    ensures
        match r {
            Some((run, step)) => class == ntdef::OBJECT_NAME_INFORMATION && tables::path_in(
                t@.paths,
                handle,
            ) == Some(run.vpath@) && run.phase@ is Asking && step@ == (NameStepView::Ask {
                room: FIRST_ROOM,
            }),
            None => class != ntdef::OBJECT_NAME_INFORMATION || tables::path_in(
                t@.paths,
                handle,
            ) is None,
        },
{
    match query::qobj_hook(t, handle, class) {
        Some(vpath) => Some(
            (NameRun { vpath, phase: NamePhase::Asking }, NameStep::Ask { room: FIRST_ROOM }),
        ),
        None => None,
    }
}

impl NameRun {
    /// [`settled`].
    fn settle(&mut self, status: i32, block: &[u8]) -> (r: NameStep)
        ensures
            final(self).vpath == old(self).vpath,
            (final(self).phase@, r@) == settled(old(self).vpath@, status, block@),
    {
        self.phase = NamePhase::Ended;
        if status < 0 {
            return NameStep::Real;
        }
        match query::object_name_in(block) {
            Some(host) => match query::name_form(host.as_str(), self.vpath.as_str()) {
                NameForm::Decline => NameStep::Real,
                NameForm::Dos(name) => NameStep::Answer { name },
                NameForm::Device { drive, rest } => {
                    self.phase = NamePhase::Device { rest };
                    NameStep::Device { drive }
                },
            },
            None => NameStep::Real,
        }
    }

    /// Takes in the outcome of the last step: [`advanced`].
    pub fn advance(&mut self, event: NameEvent) -> (r: NameStep)
        ensures
            final(self).vpath == old(self).vpath,
            (final(self).phase@, r@) == advanced(old(self).vpath@, old(self).phase@, event),
    {
        match event {
            NameEvent::Asked { status, needed, block } => {
                let first = match &self.phase {
                    NamePhase::Asking => true,
                    NamePhase::AskingAgain => false,
                    _ => {
                        self.phase = NamePhase::Ended;
                        return NameStep::Real;
                    },
                };
                if first && query::name_needs_room(status, needed, FIRST_ROOM as usize) {
                    self.phase = NamePhase::AskingAgain;
                    return NameStep::Ask { room: needed };
                }
                self.settle(status, block.as_slice())
            },
            NameEvent::Device(device) => {
                let name = match (&self.phase, device) {
                    (NamePhase::Device { rest }, Some(v)) => Some(
                        text::joined(v.as_str(), rest.as_str()),
                    ),
                    _ => None,
                };
                self.phase = NamePhase::Ended;
                match name {
                    Some(name) => NameStep::Answer { name },
                    None => NameStep::Real,
                }
            },
        }
    }
}

/// A name query is answered in the form in which the system names the file: under a drive
/// letter with the prefix of the object tree, under a device with the device's name before the
/// path behind the drive. What the system does not name, it answers itself.
pub proof fn law_names_keep_the_systems_form(
    vpath: Seq<char>,
    status: i32,
    block: Seq<u8>,
    rest: Seq<char>,
    device: String,
)
    ensures
        status < 0 ==> settled(vpath, status, block) == (NamePhaseView::Ended, NameStepView::Real),
        query::name_in(block) is None ==> settled(vpath, status, block) == (
            NamePhaseView::Ended,
            NameStepView::Real,
        ),
        status >= 0 ==> (query::name_in(block) matches Some(host) ==> {
            let s = settled(vpath, status, block);
            &&& query::name_plan(host, vpath) is Decline ==> s == (
                NamePhaseView::Ended,
                NameStepView::Real,
            )
            &&& query::name_plan(host, vpath) matches NamePlan::Dos(dos) ==> s.1
                == (NameStepView::Answer { name: seq!['\\', '?', '?', '\\'] + dos })
            &&& query::name_plan(host, vpath) matches NamePlan::Device(drive, r) ==> s == (
                NamePhaseView::Device { rest: r },
                NameStepView::Device { drive },
            )
        }),
        advanced(vpath, NamePhaseView::Device { rest }, NameEvent::Device(Some(device)))
            == (NamePhaseView::Ended, NameStepView::Answer { name: device@ + rest }),
        advanced(vpath, NamePhaseView::Device { rest }, NameEvent::Device(None)) == (
            NamePhaseView::Ended,
            NameStepView::Real,
        ),
{
    reveal_strlit("\\??\\");
    assert("\\??\\"@ =~= seq!['\\', '?', '?', '\\']);
}

/// The system is asked again, once, with the room that it wants, where the name did not fit
/// into the first 2 KiB; otherwise its first answer counts.
pub proof fn law_a_long_name_is_asked_for_again(
    vpath: Seq<char>,
    status: i32,
    needed: u32,
    block: Vec<u8>,
)
    ensures
        ({
            let e = NameEvent::Asked { status, needed, block };
            let short = (status == -2147483643 || status == -1073741820) && needed > 2048;
            &&& short ==> advanced(vpath, NamePhaseView::Asking, e) == (
                NamePhaseView::AskingAgain,
                NameStepView::Ask { room: needed },
            )
            &&& !short ==> advanced(vpath, NamePhaseView::Asking, e) == settled(
                vpath,
                status,
                block@,
            )
            &&& advanced(vpath, NamePhaseView::AskingAgain, e) == settled(vpath, status, block@)
        }),
{
}

/// An outcome that does not belong to the question that was asked leaves the answer to the
/// system.
pub proof fn law_a_stray_outcome_is_the_systems(
    vpath: Seq<char>,
    phase: NamePhaseView,
    event: NameEvent,
)
    ensures
        (phase is Asking || phase is AskingAgain) && !(event is Asked) ==> advanced(
            vpath,
            phase,
            event,
        ) == (NamePhaseView::Ended, NameStepView::Real),
        phase is Device && !(event is Device) ==> advanced(vpath, phase, event) == (
            NamePhaseView::Ended,
            NameStepView::Real,
        ),
        phase is Ended ==> advanced(vpath, phase, event) == (
            NamePhaseView::Ended,
            NameStepView::Real,
        ),
{
}

} // verus!

//! The copy of an image that the system makes its section over. It is written once, beside its
//! place, and put there whole: nobody ever sees half of one.

use vstd::prelude::*;

verus! {

/// How far the copy of an image is.
#[derive(Clone, Copy, Debug, PartialEq, Eq, Structural)]
pub enum ImageCopyPhase {
    /// The directory of the copies is made.
    Directory,
    /// The length of the copy that may be there is looked at.
    Look,
    /// The image is written to a temporary file.
    Write,
    /// The temporary file is moved into its place.
    Move,
    /// The temporary file is removed: it could not be moved.
    Discard,
    /// The length of the copy that another process may have put there is looked at.
    Again,
    /// The copy is opened.
    Open,
    /// The system is asked for a section over the copy.
    System,
    /// Nothing more is asked.
    Over,
}

/// The copy of an image of `len` bytes.
#[derive(Clone, Copy, Debug, PartialEq, Eq, Structural)]
pub struct ImageCopy {
    pub len: u64,
    pub phase: ImageCopyPhase,
}

/// The next step.
#[derive(Clone, Copy, Debug, PartialEq, Eq, Structural)]
pub enum ImageCopyStep {
    /// Make the directory of the copies.
    MakeDirectory,
    /// Look at the length of the copy.
    Look,
    /// Write the image to the temporary file.
    Write,
    /// Move the temporary file into its place.
    Move,
    /// Remove the temporary file, whether or not that succeeds.
    Discard,
    /// Open the copy.
    Open,
    /// Ask the system for a section over the copy.
    AskSystem,
    /// It is over: what the system answered, or nothing where no section came of it.
    Over(Option<i32>),
}

/// The outcome of a step.
#[derive(Clone, Copy, Debug, PartialEq, Eq, Structural)]
pub enum ImageCopyEvent {
    /// Whether the directory is there.
    DirectoryMade(bool),
    /// The length of the copy, where there is one.
    Length(Option<u64>),
    /// Whether the temporary file was written.
    Written(bool),
    /// Whether the temporary file was moved.
    Moved(bool),
    /// The temporary file was removed, as far as it could be.
    Discarded,
    /// Whether the copy was opened.
    Opened(bool),
    /// What the system answered.
    Answered(i32),
}

/// Nothing more is asked, and no section came of it.
pub open spec fn given_up() -> (ImageCopyPhase, ImageCopyStep) {
    (ImageCopyPhase::Over, ImageCopyStep::Over(None))
}

/// The next phase and step where `ok`, and the end where not.
pub open spec fn or_given_up(ok: bool, phase: ImageCopyPhase, step: ImageCopyStep) -> (
    ImageCopyPhase,
    ImageCopyStep,
) {
    if ok {
        (phase, step)
    } else {
        given_up()
    }
}

/// The phase and the step after `event`. A copy of the right length is used as it is; else the
/// image is written to a temporary file, which is moved into its place. A move that failed is
/// made up for only by a copy of the right length that stands there by then.
pub open spec fn copy_advanced(len: u64, phase: ImageCopyPhase, event: ImageCopyEvent) -> (
    ImageCopyPhase,
    ImageCopyStep,
) {
    match (phase, event) {
        (ImageCopyPhase::Directory, ImageCopyEvent::DirectoryMade(ok)) => or_given_up(
            ok,
            ImageCopyPhase::Look,
            ImageCopyStep::Look,
        ),
        (ImageCopyPhase::Look, ImageCopyEvent::Length(n)) => if n == Some(len) {
            (ImageCopyPhase::Open, ImageCopyStep::Open)
        } else {
            (ImageCopyPhase::Write, ImageCopyStep::Write)
        },
        (ImageCopyPhase::Write, ImageCopyEvent::Written(ok)) => or_given_up(
            ok,
            ImageCopyPhase::Move,
            ImageCopyStep::Move,
        ),
        (ImageCopyPhase::Move, ImageCopyEvent::Moved(ok)) => if ok {
            (ImageCopyPhase::Open, ImageCopyStep::Open)
        } else {
            (ImageCopyPhase::Discard, ImageCopyStep::Discard)
        },
        (ImageCopyPhase::Discard, ImageCopyEvent::Discarded) => (
            ImageCopyPhase::Again,
            ImageCopyStep::Look,
        ),
        (ImageCopyPhase::Again, ImageCopyEvent::Length(n)) => or_given_up(
            n == Some(len),
            ImageCopyPhase::Open,
            ImageCopyStep::Open,
        ),
        (ImageCopyPhase::Open, ImageCopyEvent::Opened(ok)) => or_given_up(
            ok,
            ImageCopyPhase::System,
            ImageCopyStep::AskSystem,
        ),
        (ImageCopyPhase::System, ImageCopyEvent::Answered(status)) => (
            ImageCopyPhase::Over,
            ImageCopyStep::Over(
                if status < 0 {
                    None
                } else {
                    Some(status)
                },
            ),
        ),
        _ => given_up(),
    }
}

/// Begins the copy of an image of `len` bytes. A file whose path is not known has none.
pub fn real_image_section(vpath: Option<&str>, len: u64) -> (r: (ImageCopy, ImageCopyStep))
    ensures
        r.0.len == len,
        (r.0.phase, r.1) == or_given_up(
            vpath is Some,
            ImageCopyPhase::Directory,
            ImageCopyStep::MakeDirectory,
        ),
{
    match vpath {
        Some(_) => (
            ImageCopy { len, phase: ImageCopyPhase::Directory },
            ImageCopyStep::MakeDirectory,
        ),
        None => (ImageCopy { len, phase: ImageCopyPhase::Over }, ImageCopyStep::Over(None)),
    }
}

/// Takes in the outcome of a step: [`copy_advanced`].
pub fn image_copy_step(state: ImageCopy, event: ImageCopyEvent) -> (r: (ImageCopy, ImageCopyStep))
    ensures
        r.0.len == state.len,
        (r.0.phase, r.1) == copy_advanced(state.len, state.phase, event),
{
    let (phase, step) = match (state.phase, event) {
        (ImageCopyPhase::Directory, ImageCopyEvent::DirectoryMade(true)) => (
            ImageCopyPhase::Look,
            ImageCopyStep::Look,
        ),
        (ImageCopyPhase::Look, ImageCopyEvent::Length(n)) => if whole(n, state.len) {
            (ImageCopyPhase::Open, ImageCopyStep::Open)
        } else {
            (ImageCopyPhase::Write, ImageCopyStep::Write)
        },
        (ImageCopyPhase::Write, ImageCopyEvent::Written(true)) => (
            ImageCopyPhase::Move,
            ImageCopyStep::Move,
        ),
        (ImageCopyPhase::Move, ImageCopyEvent::Moved(true)) => (
            ImageCopyPhase::Open,
            ImageCopyStep::Open,
        ),
        (ImageCopyPhase::Move, ImageCopyEvent::Moved(false)) => (
            ImageCopyPhase::Discard,
            ImageCopyStep::Discard,
        ),
        (ImageCopyPhase::Discard, ImageCopyEvent::Discarded) => (
            ImageCopyPhase::Again,
            ImageCopyStep::Look,
        ),
        (ImageCopyPhase::Again, ImageCopyEvent::Length(n)) => if whole(n, state.len) {
            (ImageCopyPhase::Open, ImageCopyStep::Open)
        } else {
            (ImageCopyPhase::Over, ImageCopyStep::Over(None))
        },
        (ImageCopyPhase::Open, ImageCopyEvent::Opened(true)) => (
            ImageCopyPhase::System,
            ImageCopyStep::AskSystem,
        ),
        (ImageCopyPhase::System, ImageCopyEvent::Answered(status)) => (
            ImageCopyPhase::Over,
            ImageCopyStep::Over(
                if status < 0 {
                    None
                } else {
                    Some(status)
                },
            ),
        ),
        _ => (ImageCopyPhase::Over, ImageCopyStep::Over(None)),
    };
    (ImageCopy { len: state.len, phase }, step)
}

/// Whether a copy of length `n` is one of an image of `len` bytes.
fn whole(n: Option<u64>, len: u64) -> (r: bool)
    ensures
        r == (n == Some(len)),
{
    match n {
        Some(k) => k == len,
        None => false,
    }
}

/// The phase that the outcomes `events` lead to, from the making of the directory on.
pub open spec fn phase_after(len: u64, events: Seq<ImageCopyEvent>) -> ImageCopyPhase
    decreases events.len(),
{
    if events.len() == 0 {
        ImageCopyPhase::Directory
    } else {
        copy_advanced(len, phase_after(len, events.drop_last()), events.last()).0
    }
}

/// The system is asked only over a copy that was opened, and a copy is opened only where one of
/// the right length was seen or the whole image was just moved there.
pub proof fn law_only_whole_copies_are_used(len: u64, events: Seq<ImageCopyEvent>)
    ensures
        phase_after(len, events) is Open || phase_after(len, events) is System ==> events.contains(
            ImageCopyEvent::Length(Some(len)),
        ) || (events.contains(ImageCopyEvent::Written(true)) && events.contains(
            ImageCopyEvent::Moved(true),
        )),
        phase_after(len, events) is System ==> events.contains(ImageCopyEvent::Opened(true)),
        phase_after(len, events) is Move ==> events.contains(ImageCopyEvent::Written(true)),
    decreases events.len(),
{
    if events.len() > 0 {
        let before = events.drop_last();
        law_only_whole_copies_are_used(len, before);
        assert forall|e: ImageCopyEvent| before.contains(e) implies events.contains(e) by {
            let i = choose|i: int| 0 <= i < before.len() && before[i] == e;
            assert(events[i] == e);
        }
        assert(events.contains(events.last())) by {
            assert(events[events.len() - 1] == events.last());
        }
    }
}

/// After a move that failed the temporary file goes, and the section is made only over a copy of
/// the right length that is seen afterwards.
pub proof fn law_a_failed_move_needs_a_whole_copy(len: u64, n: Option<u64>)
    ensures
        ({
            let (discard, removes) = copy_advanced(
                len,
                ImageCopyPhase::Move,
                ImageCopyEvent::Moved(false),
            );
            let (again, looks) = copy_advanced(len, discard, ImageCopyEvent::Discarded);
            let (next, step) = copy_advanced(len, again, ImageCopyEvent::Length(n));
            &&& removes is Discard
            &&& looks is Look
            &&& step is Open <==> n == Some(len)
            &&& n != Some(len) ==> (next, step) == given_up()
        }),
{
}

/// How many steps may still come.
pub open spec fn steps_left(phase: ImageCopyPhase) -> nat {
    match phase {
        ImageCopyPhase::Directory => 8,
        ImageCopyPhase::Look => 7,
        ImageCopyPhase::Write => 6,
        ImageCopyPhase::Move => 5,
        ImageCopyPhase::Discard => 4,
        ImageCopyPhase::Again => 3,
        ImageCopyPhase::Open => 2,
        ImageCopyPhase::System => 1,
        ImageCopyPhase::Over => 0,
    }
}

/// Every outcome brings the end nearer, and an answer is given exactly at the end.
pub proof fn law_every_copy_ends(len: u64, phase: ImageCopyPhase, event: ImageCopyEvent)
    ensures
        phase !is Over ==> steps_left(copy_advanced(len, phase, event).0) < steps_left(phase),
        copy_advanced(len, phase, event).0 is Over <==> copy_advanced(len, phase, event).1 is Over,
        copy_advanced(len, phase, event).1 matches ImageCopyStep::Over(Some(status)) ==> phase
            is System && event == ImageCopyEvent::Answered(status) && status >= 0,
{
}

/// How a copy goes: the directory is made, and a copy that is there with the image's length is
/// opened as it is; any other is written and moved into place, and then opened; and the system
/// is asked over what was opened. Whatever fails on the way gives the copy up.
pub proof fn law_a_copy_goes_step_by_step(len: u64, n: Option<u64>, status: i32)
    ensures
        copy_advanced(len, ImageCopyPhase::Directory, ImageCopyEvent::DirectoryMade(true)).1
            == ImageCopyStep::Look,
        copy_advanced(len, ImageCopyPhase::Directory, ImageCopyEvent::DirectoryMade(false)).1
            == ImageCopyStep::Over(None),
        n == Some(len) ==> copy_advanced(len, ImageCopyPhase::Look, ImageCopyEvent::Length(n)) == (
            ImageCopyPhase::Open,
            ImageCopyStep::Open,
        ),
        n != Some(len) ==> copy_advanced(len, ImageCopyPhase::Look, ImageCopyEvent::Length(n)) == (
            ImageCopyPhase::Write,
            ImageCopyStep::Write,
        ),
        copy_advanced(len, ImageCopyPhase::Write, ImageCopyEvent::Written(true)) == (
            ImageCopyPhase::Move,
            ImageCopyStep::Move,
        ),
        copy_advanced(len, ImageCopyPhase::Write, ImageCopyEvent::Written(false)).1
            == ImageCopyStep::Over(None),
        copy_advanced(len, ImageCopyPhase::Move, ImageCopyEvent::Moved(true)) == (
            ImageCopyPhase::Open,
            ImageCopyStep::Open,
        ),
        copy_advanced(len, ImageCopyPhase::Open, ImageCopyEvent::Opened(true)) == (
            ImageCopyPhase::System,
            ImageCopyStep::AskSystem,
        ),
        copy_advanced(len, ImageCopyPhase::Open, ImageCopyEvent::Opened(false)).1
            == ImageCopyStep::Over(None),
        status >= 0 ==> copy_advanced(
            len,
            ImageCopyPhase::System,
            ImageCopyEvent::Answered(status),
        ).1 == ImageCopyStep::Over(Some(status)),
        status < 0 ==> copy_advanced(
            len,
            ImageCopyPhase::System,
            ImageCopyEvent::Answered(status),
        ).1 == ImageCopyStep::Over(None),
{
}

/// An outcome that does not belong to the step that was made gives the copy up.
pub proof fn law_a_stray_outcome_gives_the_copy_up(
    len: u64,
    phase: ImageCopyPhase,
    event: ImageCopyEvent,
)
    ensures
        (phase is Directory && !(event is DirectoryMade)) || ((phase is Look || phase is Again) && !(
        event is Length)) || (phase is Write && !(event is Written)) || (phase is Move && !(
        event is Moved)) || (phase is Discard && !(event is Discarded)) || (phase is Open && !(
        event is Opened)) || (phase is System && !(event is Answered)) || phase is Over
            ==> copy_advanced(len, phase, event) == (ImageCopyPhase::Over, ImageCopyStep::Over(None)),
{
}

} // verus!

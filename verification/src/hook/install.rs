//! Putting the interception in place: which functions are detoured, in what order, what a
//! failure means, and what happens to a child process.

use crate::tally;
use crate::text;
use vstd::prelude::*;
use vstd::string::*;

verus! {

/// Why the interception could not be put in place.
#[derive(Clone, Copy, Debug, PartialEq, Eq, Structural)]
pub enum InstallError {
    /// This process has it already.
    AlreadyInstalled,
    /// ntdll is not loaded.
    NtdllMissing,
    /// A function that has to be intercepted is not exported.
    ProcMissing,
    /// A detour could not be made or enabled.
    Detour,
}

/// The functions that are intercepted.
#[derive(Clone, Copy, Debug, PartialEq, Eq, Structural)]
pub enum Detour {
    CreateFile,
    QueryAttributesFile,
    QueryFullAttributesFile,
    OpenFile,
    QueryDirectoryFileEx,
    QueryDirectoryFile,
    DeleteFile,
    Close,
    QueryInformationFile,
    SetInformationFile,
    ReadFile,
    WriteFile,
    CreateSection,
    MapViewOfSection,
    UnmapViewOfSection,
    QueryVolumeInformationFile,
    LockFile,
    UnlockFile,
    FlushBuffersFile,
    QueryInformationByName,
    QueryObject,
    CreateProcessInternal,
}

/// How much depends on a detour.
#[derive(Clone, Copy, Debug, PartialEq, Eq, Structural)]
pub enum Need {
    /// Without it nothing is installed.
    Required,
    /// A host may lack the function; passing it over is recorded.
    Optional,
    /// Passed over in silence.
    BestEffort,
}

impl Detour {
    /// The exported name.
    pub open spec fn export_text(self) -> Seq<char> {
        match self {
            Detour::CreateFile => "NtCreateFile"@,
            Detour::QueryAttributesFile => "NtQueryAttributesFile"@,
            Detour::QueryFullAttributesFile => "NtQueryFullAttributesFile"@,
            Detour::OpenFile => "NtOpenFile"@,
            Detour::QueryDirectoryFileEx => "NtQueryDirectoryFileEx"@,
            Detour::QueryDirectoryFile => "NtQueryDirectoryFile"@,
            Detour::DeleteFile => "NtDeleteFile"@,
            Detour::Close => "NtClose"@,
            Detour::QueryInformationFile => "NtQueryInformationFile"@,
            Detour::SetInformationFile => "NtSetInformationFile"@,
            Detour::ReadFile => "NtReadFile"@,
            Detour::WriteFile => "NtWriteFile"@,
            Detour::CreateSection => "NtCreateSection"@,
            Detour::MapViewOfSection => "NtMapViewOfSection"@,
            Detour::UnmapViewOfSection => "NtUnmapViewOfSection"@,
            Detour::QueryVolumeInformationFile => "NtQueryVolumeInformationFile"@,
            Detour::LockFile => "NtLockFile"@,
            Detour::UnlockFile => "NtUnlockFile"@,
            Detour::FlushBuffersFile => "NtFlushBuffersFile"@,
            Detour::QueryInformationByName => "NtQueryInformationByName"@,
            Detour::QueryObject => "NtQueryObject"@,
            Detour::CreateProcessInternal => "CreateProcessInternalW"@,
        }
    }

    /// [`Detour::export_text`].
    pub fn export_name(self) -> (r: &'static str)
        ensures
            r@ == self.export_text(),
    {
        match self {
            Detour::CreateFile => "NtCreateFile",
            Detour::QueryAttributesFile => "NtQueryAttributesFile",
            Detour::QueryFullAttributesFile => "NtQueryFullAttributesFile",
            Detour::OpenFile => "NtOpenFile",
            Detour::QueryDirectoryFileEx => "NtQueryDirectoryFileEx",
            Detour::QueryDirectoryFile => "NtQueryDirectoryFile",
            Detour::DeleteFile => "NtDeleteFile",
            Detour::Close => "NtClose",
            Detour::QueryInformationFile => "NtQueryInformationFile",
            Detour::SetInformationFile => "NtSetInformationFile",
            Detour::ReadFile => "NtReadFile",
            Detour::WriteFile => "NtWriteFile",
            Detour::CreateSection => "NtCreateSection",
            Detour::MapViewOfSection => "NtMapViewOfSection",
            Detour::UnmapViewOfSection => "NtUnmapViewOfSection",
            Detour::QueryVolumeInformationFile => "NtQueryVolumeInformationFile",
            Detour::LockFile => "NtLockFile",
            Detour::UnlockFile => "NtUnlockFile",
            Detour::FlushBuffersFile => "NtFlushBuffersFile",
            Detour::QueryInformationByName => "NtQueryInformationByName",
            Detour::QueryObject => "NtQueryObject",
            Detour::CreateProcessInternal => "CreateProcessInternalW",
        }
    }

    /// How much depends on this detour.
    pub open spec fn spec_need(self) -> Need {
        match self {
            Detour::QueryDirectoryFileEx => Need::Optional,
            Detour::QueryInformationByName => Need::Optional,
            Detour::QueryObject => Need::Optional,
            Detour::CreateProcessInternal => Need::BestEffort,
            _ => Need::Required,
        }
    }

    /// [`Detour::spec_need`].
    pub fn need(self) -> (r: Need)
        ensures
            r == self.spec_need(),
    {
        match self {
            Detour::QueryDirectoryFileEx => Need::Optional,
            Detour::QueryInformationByName => Need::Optional,
            Detour::QueryObject => Need::Optional,
            Detour::CreateProcessInternal => Need::BestEffort,
            _ => Need::Required,
        }
    }
}

// ---------------------------------------------------------------------------------------
// What was passed over.

/// The names of the functions that were passed over because the host does not export them.
pub struct SkippedDetours {
    names: Vec<String>,
}

/// Whether names stand in strictly increasing order.
pub open spec fn increasing(names: Seq<Seq<char>>) -> bool {
    forall|i: int, j: int|
        0 <= i < j < names.len() ==> #[trigger] tally::text_before(names[i], names[j])
}

impl SkippedDetours {
    /// The names, in order.
    pub closed spec fn names(self) -> Seq<Seq<char>> {
        text::texts(self.names@)
    }

    /// No name occurs twice, and they are in order.
    pub open spec fn wf(self) -> bool {
        increasing(self.names())
    }

    /// Nothing was passed over.
    pub fn new() -> (s: SkippedDetours)
        ensures
            s.wf(),
            s.names() == Seq::<Seq<char>>::empty(),
    {
        let s = SkippedDetours { names: Vec::new() };
        assert(s.names() =~= Seq::<Seq<char>>::empty());
        s
    }
}

/// Records that `name` was passed over.
pub fn note_skipped_detour(s: &mut SkippedDetours, name: &str)
    requires
        old(s).wf(),
    ensures
        final(s).wf(),
        final(s).names().to_set() == old(s).names().to_set().insert(name@),
{
    let ghost before = s.names();
    let mut i: usize = 0;
    while i < s.names.len() && tally::is_text_before(s.names[i].as_str(), name)
        invariant
            i <= s.names@.len(),
            before == s.names(),
            forall|k: int| 0 <= k < i ==> tally::text_before(#[trigger] before[k], name@),
        decreases s.names@.len() - i,
    {
        i = i + 1;
    }
    if i < s.names.len() && text::same_text(s.names[i].as_str(), name) {
        assert(before[i as int] == name@);
        assert(before.to_set().insert(name@) =~= before.to_set());
        return;
    }
    s.names.insert(i, name.to_owned());
    proof {
        let now = s.names();
        assert(now =~= before.insert(i as int, name@));
        if i < before.len() {
            tally::lemma_text_before_total(before[i as int], name@);
        }
        assert forall|a: int, b: int| 0 <= a < b < now.len() implies
            #[trigger] tally::text_before(now[a], now[b]) by {
            if a < i && b < i {
                assert(tally::text_before(before[a], before[b]));
            } else if a < i && b == i {
                assert(tally::text_before(before[a], name@));
            } else if a < i {
                assert(tally::text_before(before[a], before[b - 1]));
            } else if a == i {
                if b - 1 > i {
                    assert(tally::text_before(before[i as int], before[b - 1]));
                    tally::lemma_text_before_trans(name@, before[i as int], before[b - 1]);
                }
            } else {
                assert(tally::text_before(before[a - 1], before[b - 1]));
            }
        }
        assert forall|x: Seq<char>| now.to_set().contains(x) == before.to_set().insert(
            name@,
        ).contains(x) by {
            if now.contains(x) {
                let k = choose|k: int| 0 <= k < now.len() && now[k] == x;
                if k < i {
                    assert(before[k] == x);
                } else if k > i {
                    assert(before[k - 1] == x);
                }
            }
            if before.contains(x) {
                let k = choose|k: int| 0 <= k < before.len() && before[k] == x;
                if k < i {
                    assert(now[k] == x);
                } else {
                    assert(now[k + 1] == x);
                }
            }
            assert(now[i as int] == name@);
        }
        assert(now.to_set() =~= before.to_set().insert(name@));
    }
}

/// The names of the functions that were passed over, in order and each once. None means that
/// every function this build knows of is intercepted.
pub fn skipped_detours(s: &SkippedDetours) -> (out: Vec<String>)
    ensures
        text::texts(out@) == s.names(),
{
    let mut out: Vec<String> = Vec::new();
    let mut i: usize = 0;
    while i < s.names.len()
        invariant
            i <= s.names@.len(),
            text::texts(out@) =~= s.names().take(i as int),
        decreases s.names@.len() - i,
    {
        let ghost before = text::texts(out@);
        out.push(s.names[i].clone());
        assert(text::texts(out@) =~= before.push(s.names()[i as int]));
        i = i + 1;
    }
    assert(s.names().take(i as int) =~= s.names());
    out
}

// ---------------------------------------------------------------------------------------
// The order of the steps.

/// What is done to a detour.
#[derive(Clone, Copy, Debug, PartialEq, Eq, Structural)]
pub enum InstallOp {
    /// Resolve the function, build its trampoline and publish it.
    Make,
    /// Switch the detour on.
    Enable,
}

/// One step of the installation.
#[derive(Clone, Copy, Debug, PartialEq, Eq, Structural)]
pub struct InstallStep {
    pub op: InstallOp,
    pub detour: Detour,
}

/// The stubs that the early payload owns where it is present.
pub open spec fn early_owned() -> Seq<Detour> {
    seq![
        Detour::CreateFile,
        Detour::QueryAttributesFile,
        Detour::QueryFullAttributesFile,
        Detour::OpenFile,
    ]
}

/// The stubs that are always detoured here and have to be there.
pub open spec fn always_owned() -> Seq<Detour> {
    seq![
        Detour::QueryDirectoryFile,
        Detour::DeleteFile,
        Detour::Close,
        Detour::QueryInformationFile,
        Detour::SetInformationFile,
        Detour::ReadFile,
        Detour::WriteFile,
        Detour::CreateSection,
        Detour::MapViewOfSection,
        Detour::UnmapViewOfSection,
        Detour::QueryVolumeInformationFile,
        Detour::LockFile,
        Detour::UnlockFile,
        Detour::FlushBuffersFile,
    ]
}

/// The same operation on several detours.
pub open spec fn each(op: InstallOp, ds: Seq<Detour>) -> Seq<InstallStep> {
    ds.map_values(|d: Detour| InstallStep { op, detour: d })
}

/// A detour that is made and switched on at once.
pub open spec fn at_once(d: Detour) -> Seq<InstallStep> {
    seq![
        InstallStep { op: InstallOp::Make, detour: d },
        InstallStep { op: InstallOp::Enable, detour: d },
    ]
}

/// The steps of an installation: `patch_early_owned` where there is no early payload,
/// `propagate` where child processes can be followed.
pub open spec fn plan(patch_early_owned: bool, propagate: bool) -> Seq<InstallStep> {
    (if patch_early_owned {
        each(InstallOp::Make, early_owned()) + each(InstallOp::Enable, early_owned())
    } else {
        seq![]
    }) + at_once(Detour::QueryDirectoryFileEx) + each(InstallOp::Make, always_owned()) + at_once(
        Detour::QueryInformationByName,
    ) + at_once(Detour::QueryObject) + each(InstallOp::Enable, always_owned()) + (if propagate {
        at_once(Detour::CreateProcessInternal)
    } else {
        seq![]
    })
}

fn push_each(out: &mut Vec<InstallStep>, op: InstallOp, ds: &[Detour])
    ensures
        final(out)@ == old(out)@ + each(op, ds@),
{
    let ghost start = out@;
    let mut i: usize = 0;
    assert(out@ =~= start + each(op, ds@).take(0));
    while i < ds.len()
        invariant
            i <= ds@.len(),
            out@ == start + each(op, ds@).take(i as int),
        decreases ds@.len() - i,
    {
        out.push(InstallStep { op, detour: ds[i] });
        assert(out@ =~= start + each(op, ds@).take(i + 1));
        i = i + 1;
    }
    assert(each(op, ds@).take(i as int) =~= each(op, ds@));
}

fn push_at_once(out: &mut Vec<InstallStep>, d: Detour)
    ensures
        final(out)@ == old(out)@ + at_once(d),
{
    out.push(InstallStep { op: InstallOp::Make, detour: d });
    out.push(InstallStep { op: InstallOp::Enable, detour: d });
    assert(out@ =~= old(out)@ + at_once(d));
}

/// [`plan`].
pub fn install_plan(patch_early_owned: bool, propagate: bool) -> (out: Vec<InstallStep>)
    ensures
        out@ == plan(patch_early_owned, propagate),
{
    let mut out: Vec<InstallStep> = Vec::new();
    if patch_early_owned {
        let early = [
            Detour::CreateFile,
            Detour::QueryAttributesFile,
            Detour::QueryFullAttributesFile,
            Detour::OpenFile,
        ];
        assert(early@ =~= early_owned());
        push_each(&mut out, InstallOp::Make, &early);
        push_each(&mut out, InstallOp::Enable, &early);
    }
    let always = [
        Detour::QueryDirectoryFile,
        Detour::DeleteFile,
        Detour::Close,
        Detour::QueryInformationFile,
        Detour::SetInformationFile,
        Detour::ReadFile,
        Detour::WriteFile,
        Detour::CreateSection,
        Detour::MapViewOfSection,
        Detour::UnmapViewOfSection,
        Detour::QueryVolumeInformationFile,
        Detour::LockFile,
        Detour::UnlockFile,
        Detour::FlushBuffersFile,
    ];
    assert(always@ =~= always_owned());
    push_at_once(&mut out, Detour::QueryDirectoryFileEx);
    push_each(&mut out, InstallOp::Make, &always);
    push_at_once(&mut out, Detour::QueryInformationByName);
    push_at_once(&mut out, Detour::QueryObject);
    push_each(&mut out, InstallOp::Enable, &always);
    if propagate {
        push_at_once(&mut out, Detour::CreateProcessInternal);
    }
    assert(out@ =~= plan(patch_early_owned, propagate));
    out
}

/// Every detour is made, its trampoline with it, before it is switched on.
pub proof fn law_trampolines_come_first(patch_early_owned: bool, propagate: bool, i: int)
    requires
        0 <= i < plan(patch_early_owned, propagate).len(),
        plan(patch_early_owned, propagate)[i].op == InstallOp::Enable,
    ensures
        exists|j: int|
            0 <= j < i && #[trigger] plan(patch_early_owned, propagate)[j] == (InstallStep {
                op: InstallOp::Make,
                detour: plan(patch_early_owned, propagate)[i].detour,
            }),
{
    let p = plan(patch_early_owned, propagate);
    let base: int = if patch_early_owned {
        8
    } else {
        0
    };
    let j: int = if i < base {
        i - 4
    } else if base + 20 <= i < base + 34 {
        i - 18
    } else {
        i - 1
    };
    assert(p[j] == (InstallStep { op: InstallOp::Make, detour: p[i].detour }));
}

/// The answer to a step.
#[derive(Clone, Copy, Debug, PartialEq, Eq, Structural)]
pub enum InstallAnswer {
    /// It was done.
    Done,
    /// The function is not exported.
    Missing,
    /// The detour could not be made or switched on.
    Refused,
}

/// What follows a step.
pub enum InstallProgress {
    /// One more step.
    Next(InstallStep),
    /// Everything is in place; what is live is kept as long as the guard is.
    Installed(HookGuard),
    /// Nothing is in place: what was switched on before is switched off again.
    Failed(InstallError),
}

/// The detours that are live. Dropping the detours that it stands for switches them off.
pub struct HookGuard {
    pub live: Vec<Detour>,
}

/// An installation under way.
pub struct InstallRun {
    steps: Vec<InstallStep>,
    at: usize,
    live: Vec<Detour>,
}

/// An installation under way, as values.
#[verifier::ext_equal]
pub struct InstallView {
    /// All steps.
    pub steps: Seq<InstallStep>,
    /// The step to take now.
    pub at: int,
    /// The detours that were switched on.
    pub live: Seq<Detour>,
}

/// Where an installation ends or goes on.
#[verifier::ext_equal]
pub enum ProgressView {
    Next(InstallStep),
    Installed(Seq<Detour>),
    Failed(InstallError),
}

impl View for InstallProgress {
    type V = ProgressView;

    open spec fn view(&self) -> ProgressView {
        match self {
            InstallProgress::Next(step) => ProgressView::Next(*step),
            InstallProgress::Installed(g) => ProgressView::Installed(g.live@),
            InstallProgress::Failed(e) => ProgressView::Failed(*e),
        }
    }
}

impl View for InstallRun {
    type V = InstallView;

    closed spec fn view(&self) -> InstallView {
        InstallView { steps: self.steps@, at: self.at as int, live: self.live@ }
    }
}

/// Whether step `i` makes a detour that may be passed over.
pub open spec fn makes_passable(steps: Seq<InstallStep>, i: int) -> bool {
    steps[i].op == InstallOp::Make && steps[i].detour.spec_need() != Need::Required
}

/// Whether every detour that may be passed over is made and switched on at once.
pub open spec fn passable_at_once(steps: Seq<InstallStep>) -> bool {
    forall|i: int|
        0 <= i < steps.len() && #[trigger] makes_passable(steps, i) ==> i + 1 < steps.len()
            && steps[i + 1] == (InstallStep { op: InstallOp::Enable, detour: steps[i].detour })
}

/// The start of an installation.
pub open spec fn started(patch_early_owned: bool, propagate: bool) -> InstallView {
    InstallView { steps: plan(patch_early_owned, propagate), at: 0, live: seq![] }
}

/// Whether the next step can be taken.
pub open spec fn running(v: InstallView) -> bool {
    0 <= v.at < v.steps.len() && passable_at_once(v.steps)
}

/// Where an installation stands whose next step is `at`.
pub open spec fn standing(v: InstallView) -> ProgressView {
    if v.at < v.steps.len() {
        ProgressView::Next(v.steps[v.at])
    } else {
        ProgressView::Installed(v.live)
    }
}

/// The installation after the answer to its next step: a step that was done counts; the failure
/// of a required one ends everything; one that may be passed over is, with its switching on.
pub open spec fn advanced(v: InstallView, answer: InstallAnswer) -> (InstallView, ProgressView) {
    let step = v.steps[v.at];
    if answer == InstallAnswer::Done {
        let now = InstallView {
            at: v.at + 1,
            live: if step.op == InstallOp::Enable {
                v.live.push(step.detour)
            } else {
                v.live
            },
            ..v
        };
        (now, standing(now))
    } else if step.detour.spec_need() == Need::Required {
        (
            v,
            ProgressView::Failed(
                if step.op == InstallOp::Make && answer == InstallAnswer::Missing {
                    InstallError::ProcMissing
                } else {
                    InstallError::Detour
                },
            ),
        )
    } else {
        let now = InstallView {
            at: if step.op == InstallOp::Make {
                v.at + 2
            } else {
                v.at + 1
            },
            ..v
        };
        (now, standing(now))
    }
}

/// The names passed over after the answer to the next step.
pub open spec fn skipped_after(
    v: InstallView,
    skipped: Set<Seq<char>>,
    answer: InstallAnswer,
) -> Set<Seq<char>> {
    let step = v.steps[v.at];
    if answer != InstallAnswer::Done && step.detour.spec_need() == Need::Optional {
        skipped.insert(step.detour.export_text())
    } else {
        skipped
    }
}

proof fn lemma_plan_passable(patch_early_owned: bool, propagate: bool)
    ensures
        passable_at_once(plan(patch_early_owned, propagate)),
        plan(patch_early_owned, propagate).len() > 0,
{
    let p = plan(patch_early_owned, propagate);
    let base: int = if patch_early_owned {
        8
    } else {
        0
    };
    assert forall|i: int| 0 <= i < p.len() && #[trigger] makes_passable(p, i) implies i + 1
        < p.len() && p[i + 1] == (InstallStep {
        op: InstallOp::Enable,
        detour: p[i].detour,
    }) by {
        assert(i == base || i == base + 16 || i == base + 18 || i == base + 34);
    }
}

/// Begins an installation. `installed` says whether this process has one, `ntdll` whether ntdll
/// is loaded.
pub fn install_all_detours(
    installed: bool,
    ntdll: bool,
    patch_early_owned: bool,
    propagate: bool,
) -> (r: Result<InstallRun, InstallError>)
    ensures
        match r {
            Ok(run) => !installed && ntdll && run@ == started(patch_early_owned, propagate)
                && running(run@),
            Err(e) => e == (if installed {
                InstallError::AlreadyInstalled
            } else {
                InstallError::NtdllMissing
            }) && (installed || !ntdll),
        },
{
    if installed {
        return Err(InstallError::AlreadyInstalled);
    }
    if !ntdll {
        return Err(InstallError::NtdllMissing);
    }
    let steps = install_plan(patch_early_owned, propagate);
    proof {
        lemma_plan_passable(patch_early_owned, propagate);
    }
    let run = InstallRun { steps, at: 0, live: Vec::new() };
    assert(run@ =~= started(patch_early_owned, propagate));
    Ok(run)
}

/// The same installation where the early payload is present, whose configuration address is
/// `payload_cfg`: without one there is nothing to build on.
pub fn install_late(
    payload_cfg: u64,
    installed: bool,
    ntdll: bool,
    propagate: bool,
) -> (r: Result<InstallRun, InstallError>)
    ensures
        match r {
            Ok(run) => payload_cfg != 0 && !installed && ntdll && run@ == started(false, propagate)
                && running(run@),
            Err(e) => e == (if payload_cfg == 0 {
                InstallError::Detour
            } else if installed {
                InstallError::AlreadyInstalled
            } else {
                InstallError::NtdllMissing
            }) && (payload_cfg == 0 || installed || !ntdll),
        },
{
    if payload_cfg == 0 {
        return Err(InstallError::Detour);
    }
    install_all_detours(installed, ntdll, false, propagate)
}

/// The same installation where there is no early payload.
pub fn install(installed: bool, ntdll: bool, propagate: bool) -> (r: Result<
    InstallRun,
    InstallError,
>)
    ensures
        match r {
            Ok(run) => !installed && ntdll && run@ == started(true, propagate) && running(run@),
            Err(e) => e == (if installed {
                InstallError::AlreadyInstalled
            } else {
                InstallError::NtdllMissing
            }) && (installed || !ntdll),
        },
{
    install_all_detours(installed, ntdll, true, propagate)
}

impl InstallRun {
    /// The step to take now.
    pub fn step(&self) -> (r: InstallStep)
        requires
            running(self@),
        ensures
            r == self@.steps[self@.at],
    {
        self.steps[self.at]
    }

    /// Takes in the answer to the step: [`advanced`] and [`skipped_after`].
    pub fn advance(&mut self, skipped: &mut SkippedDetours, answer: InstallAnswer) -> (r:
        InstallProgress)
        requires
            running(old(self)@),
            old(skipped).wf(),
        ensures
            (final(self)@, r@) == advanced(old(self)@, answer),
            final(skipped).wf(),
            final(skipped).names().to_set() == skipped_after(
                old(self)@,
                old(skipped).names().to_set(),
                answer,
            ),
            r is Next ==> running(final(self)@),
    {
        let step = self.steps[self.at];
        let count: usize = self.steps.len();
        let ghost v = self@;
        assert(v.steps[v.at] == step && v.steps.len() == count);
        assert(step.op == InstallOp::Make && step.detour.spec_need() != Need::Required
            ==> makes_passable(v.steps, v.at));
        if answer == InstallAnswer::Done {
            if step.op == InstallOp::Enable {
                self.live.push(step.detour);
            }
            self.at = self.at + 1;
        } else {
            match step.detour.need() {
                Need::Required => {
                    if step.op == InstallOp::Make && answer == InstallAnswer::Missing {
                        return InstallProgress::Failed(InstallError::ProcMissing);
                    }
                    return InstallProgress::Failed(InstallError::Detour);
                },
                Need::Optional => {
                    note_skipped_detour(skipped, step.detour.export_name());
                },
                Need::BestEffort => {},
            }
            self.at = if step.op == InstallOp::Make {
                self.at + 2
            } else {
                self.at + 1
            };
        }
        assert(self@ =~= advanced(v, answer).0);
        if self.at < self.steps.len() {
            InstallProgress::Next(self.steps[self.at])
        } else {
            let mut live: Vec<Detour> = Vec::new();
            let mut i: usize = 0;
            while i < self.live.len()
                invariant
                    i <= self.live@.len(),
                    live@ =~= self.live@.take(i as int),
                decreases self.live@.len() - i,
            {
                live.push(self.live[i]);
                i = i + 1;
            }
            assert(live@ =~= self.live@);
            InstallProgress::Installed(HookGuard { live })
        }
    }
}

/// An installation after a series of answers, with the names passed over: it takes no answer
/// after it has ended.
pub open spec fn replayed(
    v: InstallView,
    skipped: Set<Seq<char>>,
    answers: Seq<InstallAnswer>,
) -> (InstallView, Set<Seq<char>>, ProgressView)
    decreases answers.len(),
{
    if answers.len() == 0 {
        (v, skipped, standing(v))
    } else {
        let (now, progress) = advanced(v, answers[0]);
        if progress is Next {
            replayed(now, skipped_after(v, skipped, answers[0]), answers.skip(1))
        } else {
            (now, skipped_after(v, skipped, answers[0]), progress)
        }
    }
}

/// Whether every detour whose switching on lies behind is live, or may be passed over and, where
/// that is to be recorded, was recorded.
spec fn accounted(v: InstallView, skipped: Set<Seq<char>>) -> bool {
    forall|k: int|
        0 <= k < v.at && k < v.steps.len() && (#[trigger] v.steps[k]).op == InstallOp::Enable ==> {
            let d = v.steps[k].detour;
            v.live.contains(d) || (d.spec_need() == Need::Optional && skipped.contains(
                d.export_text(),
            )) || d.spec_need() == Need::BestEffort
        }
}

proof fn lemma_accounted(v: InstallView, skipped: Set<Seq<char>>, answer: InstallAnswer)
    requires
        running(v),
        accounted(v, skipped),
        !(advanced(v, answer).1 is Failed),
    ensures
        accounted(advanced(v, answer).0, skipped_after(v, skipped, answer)),
{
    let step = v.steps[v.at];
    let now = advanced(v, answer).0;
    let names = skipped_after(v, skipped, answer);
    assert forall|k: int|
        0 <= k < now.at && k < now.steps.len() && (#[trigger] now.steps[k]).op
            == InstallOp::Enable implies {
        let d = now.steps[k].detour;
        now.live.contains(d) || (d.spec_need() == Need::Optional && names.contains(
            d.export_text(),
        )) || d.spec_need() == Need::BestEffort
    } by {
        let d = v.steps[k].detour;
        if k < v.at {
            if v.live.contains(d) {
                let x = choose|x: int| 0 <= x < v.live.len() && v.live[x] == d;
                assert(now.live[x] == d);
            }
        } else if answer == InstallAnswer::Done {
            assert(now.live[now.live.len() - 1] == d);
        } else {
            assert(step.op == InstallOp::Make ==> makes_passable(v.steps, v.at));
            assert(d == step.detour);
        }
    }
}

proof fn lemma_replay(v: InstallView, skipped: Set<Seq<char>>, answers: Seq<InstallAnswer>)
    requires
        running(v),
        accounted(v, skipped),
    ensures
        ({
            let (now, names, progress) = replayed(v, skipped, answers);
            &&& now.steps == v.steps
            &&& progress is Installed ==> now.at >= now.steps.len() && accounted(now, names)
                && progress == ProgressView::Installed(now.live)
        }),
    decreases answers.len(),
{
    if answers.len() > 0 {
        let (now, progress) = advanced(v, answers[0]);
        let names = skipped_after(v, skipped, answers[0]);
        if !(progress is Failed) {
            lemma_accounted(v, skipped, answers[0]);
        }
        if progress is Next {
            lemma_replay(now, names, answers.skip(1));
        }
    }
}

proof fn lemma_only_children_best_effort(d: Detour)
    ensures
        d.spec_need() == Need::BestEffort <==> d == Detour::CreateProcessInternal,
{
}

/// Whatever the host answered: an installation that reports success has every required detour
/// live, and each one that the host made it pass over is on record. Where nothing is on record,
/// every detour of the plan is live, but for the one that follows child processes.
pub proof fn law_installed_means_intercepting(
    patch_early_owned: bool,
    propagate: bool,
    skipped: Set<Seq<char>>,
    answers: Seq<InstallAnswer>,
    i: int,
)
    requires
        0 <= i < plan(patch_early_owned, propagate).len(),
        plan(patch_early_owned, propagate)[i].op == InstallOp::Enable,
    ensures
        ({
            let (v, names, progress) = replayed(
                started(patch_early_owned, propagate),
                skipped,
                answers,
            );
            let d = plan(patch_early_owned, propagate)[i].detour;
            progress matches ProgressView::Installed(live) ==> {
                &&& d.spec_need() == Need::Required ==> live.contains(d)
                &&& d.spec_need() == Need::Optional ==> live.contains(d) || names.contains(
                    d.export_text(),
                )
                &&& names =~= Set::<Seq<char>>::empty() && d != Detour::CreateProcessInternal
                    ==> live.contains(d)
            }
        }),
{
    let steps = plan(patch_early_owned, propagate);
    let v = started(patch_early_owned, propagate);
    lemma_plan_passable(patch_early_owned, propagate);
    lemma_replay(v, skipped, answers);
    let (now, names, progress) = replayed(v, skipped, answers);
    lemma_only_children_best_effort(steps[i].detour);
    if progress is Installed {
        assert(now.steps[i].op == InstallOp::Enable);
    }
}

/// A required detour that cannot be had fails the installation, and says why.
pub proof fn law_a_missing_function_is_fatal(v: InstallView, answer: InstallAnswer)
    requires
        running(v),
        v.steps[v.at].detour.spec_need() == Need::Required,
        answer != InstallAnswer::Done,
    ensures
        advanced(v, answer).1 is Failed,
{
}

/// Every function is made and enabled in any installation, but for the four that an early
/// payload may own, which are where they are to be patched, and the creation of processes,
/// which is where it is to be followed.
pub proof fn law_what_is_taken_over(patch_early_owned: bool, propagate: bool, d: Detour)
    ensures
        ({
            let p = plan(patch_early_owned, propagate);
            let early = d == Detour::CreateFile || d == Detour::QueryAttributesFile || d
                == Detour::QueryFullAttributesFile || d == Detour::OpenFile;
            &&& (early ==> patch_early_owned) && (d == Detour::CreateProcessInternal ==> propagate)
                ==> p.contains(InstallStep { op: InstallOp::Make, detour: d }) && p.contains(
                InstallStep { op: InstallOp::Enable, detour: d },
            )
            &&& p.len() == 34 + (if patch_early_owned {
                8int
            } else {
                0
            }) + (if propagate {
                2int
            } else {
                0
            })
        }),
{
    let p = plan(patch_early_owned, propagate);
    let o: int = if patch_early_owned {
        8
    } else {
        0
    };
    let (make, enable): (int, int) = match d {
        Detour::CreateFile => (0, 4),
        Detour::QueryAttributesFile => (1, 5),
        Detour::QueryFullAttributesFile => (2, 6),
        Detour::OpenFile => (3, 7),
        Detour::QueryDirectoryFileEx => (o, o + 1),
        Detour::QueryDirectoryFile => (o + 2, o + 20),
        Detour::DeleteFile => (o + 3, o + 21),
        Detour::Close => (o + 4, o + 22),
        Detour::QueryInformationFile => (o + 5, o + 23),
        Detour::SetInformationFile => (o + 6, o + 24),
        Detour::ReadFile => (o + 7, o + 25),
        Detour::WriteFile => (o + 8, o + 26),
        Detour::CreateSection => (o + 9, o + 27),
        Detour::MapViewOfSection => (o + 10, o + 28),
        Detour::UnmapViewOfSection => (o + 11, o + 29),
        Detour::QueryVolumeInformationFile => (o + 12, o + 30),
        Detour::LockFile => (o + 13, o + 31),
        Detour::UnlockFile => (o + 14, o + 32),
        Detour::FlushBuffersFile => (o + 15, o + 33),
        Detour::QueryInformationByName => (o + 16, o + 17),
        Detour::QueryObject => (o + 18, o + 19),
        Detour::CreateProcessInternal => (o + 34, o + 35),
    };
    let early = d == Detour::CreateFile || d == Detour::QueryAttributesFile || d
        == Detour::QueryFullAttributesFile || d == Detour::OpenFile;
    if (early ==> patch_early_owned) && (d == Detour::CreateProcessInternal ==> propagate) {
        assert(p[make] == (InstallStep { op: InstallOp::Make, detour: d }));
        assert(p[enable] == (InstallStep { op: InstallOp::Enable, detour: d }));
    }
}

/// A step that was done is followed by the next, and what was enabled is live. A function that
/// is needed and cannot be had ends the installation; any other is passed over, and its
/// enabling with it.
pub proof fn law_an_installation_goes_step_by_step(v: InstallView, answer: InstallAnswer)
    requires
        0 <= v.at < v.steps.len(),
    ensures
        ({
            let step = v.steps[v.at];
            let d = step.detour;
            let spare = d == Detour::QueryDirectoryFileEx || d == Detour::QueryInformationByName
                || d == Detour::QueryObject || d == Detour::CreateProcessInternal;
            let (now, progress) = advanced(v, answer);
            &&& answer == InstallAnswer::Done ==> now.at == v.at + 1 && now.steps == v.steps
            &&& answer == InstallAnswer::Done && step.op == InstallOp::Enable ==> now.live
                == v.live.push(d)
            &&& answer == InstallAnswer::Done && step.op == InstallOp::Make ==> now.live == v.live
            &&& answer != InstallAnswer::Done && spare ==> progress !is Failed && now.live == v.live
                && now.at == v.at + (if step.op == InstallOp::Make {
                2int
            } else {
                1
            })
            &&& answer != InstallAnswer::Done && !spare ==> progress is Failed
            &&& answer == InstallAnswer::Missing && !spare && step.op == InstallOp::Make ==> progress
                == ProgressView::Failed(InstallError::ProcMissing)
            &&& progress !is Failed && now.at < now.steps.len() ==> progress == ProgressView::Next(
                now.steps[now.at],
            )
            &&& progress !is Failed && now.at >= now.steps.len() ==> progress
                == ProgressView::Installed(now.live)
        }),
{
}

/// A function that the system lacks is noted as passed over by its name, unless it was only
/// worth a try.
pub proof fn law_missing_functions_are_noted(
    v: InstallView,
    skipped: Set<Seq<char>>,
    answer: InstallAnswer,
)
    requires
        0 <= v.at < v.steps.len(),
    ensures
        ({
            let d = v.steps[v.at].detour;
            let noted = d == Detour::QueryDirectoryFileEx || d == Detour::QueryInformationByName
                || d == Detour::QueryObject;
            let now = skipped_after(v, skipped, answer);
            &&& answer == InstallAnswer::Done || !noted ==> now == skipped
            &&& answer != InstallAnswer::Done && d == Detour::QueryDirectoryFileEx ==> now
                == skipped.insert("NtQueryDirectoryFileEx"@)
            &&& answer != InstallAnswer::Done && d == Detour::QueryInformationByName ==> now
                == skipped.insert("NtQueryInformationByName"@)
            &&& answer != InstallAnswer::Done && d == Detour::QueryObject ==> now
                == skipped.insert("NtQueryObject"@)
        }),
{
}

} // verus!

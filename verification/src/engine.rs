//! What happens to a path under a managed root when the director does not answer for it: the
//! write overlay first, then the published snapshot, and a refusal where neither vouches for
//! it.

use crate::fuse_client;
use crate::guard::ShimIoGuard;
use crate::hookstats;
use crate::hookstats::CopyUp;
use crate::hookstats::OverlayFail;
use crate::hookstats::Stats;
use crate::overlay;
use crate::overlay::FsStep;
use crate::overlay::KeyedItem;
use crate::overlay::Overlay;
use crate::overlay::OverlayEntry;
use crate::overlay::OverlayState;
use crate::paths;
use crate::text;
use vstd::prelude::*;
use vstd::string::*;

verus! {

/// Bytes asked of the director at once while a file is copied up.
pub const SEED_CHUNK: u64 = 262144;

/// What to do with an open.
pub enum Decision {
    /// Open another file.
    Redirect { target_nt: String },
    /// Let the system answer.
    PassThrough,
    /// Refuse.
    Deny,
}

/// What to do with an open, as values.
pub enum DecisionView {
    Redirect { target_nt: Seq<char> },
    PassThrough,
    Deny,
}

impl View for Decision {
    type V = DecisionView;

    open spec fn view(&self) -> DecisionView {
        match *self {
            Decision::Redirect { target_nt } => DecisionView::Redirect { target_nt: target_nt@ },
            Decision::PassThrough => DecisionView::PassThrough,
            Decision::Deny => DecisionView::Deny,
        }
    }
}

/// Where a path lies: the managed root, and the folded steps below it.
pub struct RootHit {
    pub root: u32,
    pub comps: Vec<String>,
}

/// Where a path lies, as values.
pub struct HitView {
    pub root: u32,
    pub comps: Seq<Seq<char>>,
}

impl View for RootHit {
    type V = HitView;

    open spec fn view(&self) -> HitView {
        HitView { root: self.root, comps: text::texts(self.comps@) }
    }
}

/// The view of where a path lies; `None` where it lies under no managed root.
pub open spec fn hit_view(hit: Option<&RootHit>) -> Option<HitView> {
    match hit {
        Some(h) => Some(h@),
        None => None,
    }
}

/// Every step below a root is the name of one file or directory.
pub open spec fn hit_wf(hit: Option<&RootHit>) -> bool {
    match hit {
        Some(h) => overlay::all_plain(h@.comps),
        None => true,
    }
}

/// Why a root's path is refused.
#[derive(Clone, Copy, Debug, PartialEq, Eq, Structural)]
pub enum PathError {
    /// There is no root at all.
    EmptyRoot,
    /// A root's path cannot be normalised.
    Malformed,
}

/// Why an engine cannot be made.
#[derive(Clone, Copy, Debug, PartialEq, Eq, Structural)]
pub enum EngineError {
    Root(PathError),
    /// The snapshot is not well formed.
    Snapshot,
}

/// What a rename came to, and what the caller may do next.
#[derive(Clone, Copy, Debug, PartialEq, Eq, Structural)]
pub enum RenameOutcome {
    /// The overlay takes the move. The system's own rename is suppressed.
    Handled,
    /// No overlay, or a side under no managed root.
    Declined,
    /// The sides lie under two different managed roots. The call fails.
    CrossRoot,
}

/// What an open is for.
#[derive(Clone, Copy, Debug, PartialEq, Eq, Structural)]
pub struct OpenIntent {
    pub write: bool,
    /// Whether what the file holds now has to stay.
    pub preserves: bool,
}

/// The managed roots and the write overlay.
pub struct Engine {
    pub roots: Vec<(u32, String)>,
    pub overlay: Option<Overlay>,
}

/// What stands in the overlay at a path.
#[derive(Clone, Copy, Debug)]
pub struct OnDisk {
    /// Whether the overlay's file is a directory, and its size; `None` where there is none.
    pub file: Option<(bool, u64)>,
    /// Whether the path's marker is there.
    pub marked: bool,
}

/// The answer to an open for writing, and what has to be done before it is given.
pub struct OpenAnswer {
    pub decision: Decision,
    pub prepare: Option<Prepare>,
}

/// What is done before a write is redirected into the overlay.
pub struct Prepare {
    pub root: u32,
    pub comps: Vec<String>,
    /// Make the file's directory.
    pub parent: Vec<FsStep>,
    /// Make the path visible again.
    pub unhide: Vec<FsStep>,
    /// Where to copy the present content to; `None` where nothing has to be copied.
    pub copy_up_to: Option<String>,
}

/// What is done for a rename that the overlay takes.
pub struct RenamePlan {
    pub root: u32,
    pub from: Vec<String>,
    /// Make the source's directory.
    pub parent: Vec<FsStep>,
    /// Where to copy the source's content to; `None` where the overlay holds it already.
    pub copy_up_to: Option<String>,
    /// Move the file and hide its old path.
    pub moves: Vec<FsStep>,
}

impl Engine {
    /// The overlay's directory, where there is an overlay.
    pub open spec fn overlay_root(self) -> Option<Seq<char>> {
        match self.overlay {
            Some(ov) => Some(ov.root@),
            None => None,
        }
    }

    /// At least one root is managed.
    pub open spec fn wf(self) -> bool {
        self.roots@.len() > 0
    }

    /// What the overlay says of a path.
    pub open spec fn overlay_says(self, hit: Option<HitView>, disk: OnDisk) -> Option<
        overlay::OverlayView,
    > {
        match (self.overlay_root(), hit) {
            (Some(dir), Some(h)) => Some(
                overlay::looked_up(dir, h.root, h.comps, disk.file, disk.marked),
            ),
            _ => None,
        }
    }

    /// What an open for reading comes to. The snapshot speaks for the first root only.
    pub open spec fn decided(
        self,
        hit: Option<HitView>,
        disk: OnDisk,
        snapshot: Option<DecisionView>,
    ) -> DecisionView {
        match self.overlay_says(hit, disk) {
            Some(overlay::OverlayView::Present { path, is_dir, size }) => DecisionView::Redirect {
                target_nt: paths::nt_form(path),
            },
            Some(overlay::OverlayView::Whiteout) => DecisionView::Deny,
            _ => match hit {
                None => DecisionView::PassThrough,
                Some(h) => if h.root != 0 {
                    DecisionView::Deny
                } else {
                    match snapshot {
                        Some(d) => d,
                        None => DecisionView::PassThrough,
                    }
                },
            },
        }
    }

    /// Whether an open for writing goes into the overlay.
    pub open spec fn captures(self, hit: Option<HitView>) -> bool {
        self.overlay_root() is Some && (hit matches Some(h) && h.comps.len() > 0)
    }

    /// What any open comes to.
    pub open spec fn decided_open(
        self,
        hit: Option<HitView>,
        intent: OpenIntent,
        disk: OnDisk,
        snapshot: Option<DecisionView>,
    ) -> DecisionView {
        if !intent.write {
            self.decided(hit, disk, snapshot)
        } else if self.captures(hit) {
            DecisionView::Redirect {
                target_nt: paths::nt_form(
                    overlay::file_at(self.overlay_root()->0, hit->0.root, hit->0.comps),
                ),
            }
        } else {
            DecisionView::PassThrough
        }
    }

    /// What a rename comes to. Two different roots are refused before anything else is asked.
    pub open spec fn renamed(self, from: Option<HitView>, to: Option<HitView>) -> RenameOutcome {
        let both = from matches Some(f) && f.comps.len() > 0 && (to matches Some(t)
            && t.comps.len() > 0);
        if both && from->0.root != to->0.root {
            RenameOutcome::CrossRoot
        } else if both && self.overlay_root() is Some {
            RenameOutcome::Handled
        } else {
            RenameOutcome::Declined
        }
    }

    /// An engine for one root, without an overlay.
    pub fn new(root: &str, roots_check: Result<(), PathError>, snapshot_ok: bool) -> (r: Result<
        Engine,
        EngineError,
    >)
        ensures
            match roots_check {
                Err(e) => r == Err::<Engine, EngineError>(EngineError::Root(e)),
                Ok(()) => if snapshot_ok {
                    r matches Ok(e) && e.wf() && e.overlay is None && fuse_client::roots_view(
                        e.roots@,
                    ) == seq![(0u32, root@)]
                } else {
                    r == Err::<Engine, EngineError>(EngineError::Snapshot)
                },
            },
    {
        let mut roots: Vec<(u32, String)> = Vec::new();
        roots.push((0, root.to_owned()));
        assert(fuse_client::roots_view(roots@) =~= seq![(0u32, root@)]);
        Engine::build(roots, None, roots_check, snapshot_ok)
    }

    /// An engine for one root, with an overlay.
    pub fn with_overlay(
        root: &str,
        overlay_root: &str,
        roots_check: Result<(), PathError>,
        snapshot_ok: bool,
    ) -> (r: Result<Engine, EngineError>)
        ensures
            match roots_check {
                Err(e) => r == Err::<Engine, EngineError>(EngineError::Root(e)),
                Ok(()) => if snapshot_ok {
                    r matches Ok(e) && e.wf() && e.overlay_root() == Some(overlay_root@)
                        && fuse_client::roots_view(e.roots@) == seq![(0u32, root@)]
                } else {
                    r == Err::<Engine, EngineError>(EngineError::Snapshot)
                },
            },
    {
        let mut roots: Vec<(u32, String)> = Vec::new();
        roots.push((0, root.to_owned()));
        assert(fuse_client::roots_view(roots@) =~= seq![(0u32, root@)]);
        Engine::build(roots, Some(overlay_root), roots_check, snapshot_ok)
    }

    /// An engine for several roots, without an overlay.
    pub fn with_roots(
        roots: Vec<(u32, String)>,
        roots_check: Result<(), PathError>,
        snapshot_ok: bool,
    ) -> (r: Result<Engine, EngineError>)
        ensures
            built(roots@, None, roots_check, snapshot_ok, r),
    {
        Engine::build(roots, None, roots_check, snapshot_ok)
    }

    /// An engine for several roots, with an overlay.
    pub fn with_roots_and_overlay(
        roots: Vec<(u32, String)>,
        overlay_root: &str,
        roots_check: Result<(), PathError>,
        snapshot_ok: bool,
    ) -> (r: Result<Engine, EngineError>)
        ensures
            built(roots@, Some(overlay_root@), roots_check, snapshot_ok, r),
    {
        Engine::build(roots, Some(overlay_root), roots_check, snapshot_ok)
    }

    /// An engine, unless there is no root, a root's path is refused, or the snapshot is.
    /// `roots_check` is what the map of roots says of the paths, `snapshot_ok` whether the
    /// snapshot is well formed.
    fn build(
        roots: Vec<(u32, String)>,
        overlay_root: Option<&str>,
        roots_check: Result<(), PathError>,
        snapshot_ok: bool,
    ) -> (r: Result<Engine, EngineError>)
        ensures
            built(roots@, hookstats::optional(overlay_root), roots_check, snapshot_ok, r),
    {
        if roots.len() == 0 {
            return Err(EngineError::Root(PathError::EmptyRoot));
        }
        match roots_check {
            Err(e) => Err(EngineError::Root(e)),
            Ok(()) => {
                if !snapshot_ok {
                    return Err(EngineError::Snapshot);
                }
                let overlay = match overlay_root {
                    Some(dir) => Some(Overlay::new(dir)),
                    None => None,
                };
                Ok(Engine { roots, overlay })
            },
        }
    }

    /// What the overlay says of a path; `None` where there is no overlay or the path lies
    /// under no managed root.
    pub fn overlay_state(&self, hit: Option<&RootHit>, disk: OnDisk) -> (r: Option<OverlayState>)
        requires
            hit_wf(hit),
        ensures
            match r {
                Some(s) => self.overlay_says(hit_view(hit), disk) == Some(s@),
                None => self.overlay_says(hit_view(hit), disk) is None,
            },
    {
        match (&self.overlay, hit) {
            (Some(ov), Some(h)) => Some(
                ov.lookup(h.root, h.comps.as_slice(), disk.file, disk.marked),
            ),
            _ => None,
        }
    }

    /// [`Engine::decided`]. `hit` is where the path lies, `disk` what stands in the overlay
    /// there, `snapshot` what the snapshot says of the path, `None` where it cannot be read.
    pub fn decide(&self, hit: Option<&RootHit>, disk: OnDisk, snapshot: Option<Decision>) -> (r:
        Decision)
        requires
            hit_wf(hit),
        ensures
            r@ == self.decided(hit_view(hit), disk, decision_view(snapshot)),
    {
        match self.overlay_state(hit, disk) {
            Some(OverlayState::Present { path, .. }) => {
                return Decision::Redirect { target_nt: paths::to_nt(path.as_str()) };
            },
            Some(OverlayState::Whiteout) => {
                return Decision::Deny;
            },
            _ => {},
        }
        match hit {
            None => Decision::PassThrough,
            Some(h) => if h.root != 0 {
                Decision::Deny
            } else {
                match snapshot {
                    Some(d) => d,
                    None => Decision::PassThrough,
                }
            },
        }
    }

    /// [`Engine::decided_open`], with what has to be done first: where a write goes into the
    /// overlay, its directory is made, its path made visible again, and what the file holds now
    /// is copied up, where it has to stay and the overlay does not hold it yet.
    pub fn decide_open(
        &self,
        hit: Option<&RootHit>,
        intent: OpenIntent,
        disk: OnDisk,
        has_copy: bool,
        snapshot: Option<Decision>,
    ) -> (r: OpenAnswer)
        requires
            hit_wf(hit),
        ensures
            r.decision@ == self.decided_open(
                hit_view(hit),
                intent,
                disk,
                decision_view(snapshot),
            ),
            r.prepare is Some <==> intent.write && self.captures(hit_view(hit)),
            r.prepare matches Some(p) ==> is_prepared(
                self.overlay_root()->0,
                hit_view(hit)->0,
                intent.preserves && !has_copy,
                p,
            ),
    {
        if !intent.write {
            return OpenAnswer { decision: self.decide(hit, disk, snapshot), prepare: None };
        }
        match (&self.overlay, hit) {
            (Some(ov), Some(h)) => {
                if h.comps.len() == 0 {
                    return OpenAnswer { decision: Decision::PassThrough, prepare: None };
                }
                let comps = copied(&h.comps);
                let file = ov.file_path(h.root, comps.as_slice());
                let decision = Decision::Redirect { target_nt: paths::to_nt(file.as_str()) };
                let parent = ov.ensure_parent(h.root, comps.as_slice());
                let unhide = ov.clear_whiteout(h.root, comps.as_slice());
                let copy_up_to = if intent.preserves && !has_copy {
                    Some(file)
                } else {
                    None
                };
                OpenAnswer {
                    decision,
                    prepare: Some(Prepare { root: h.root, comps, parent, unhide, copy_up_to }),
                }
            },
            _ => OpenAnswer { decision: Decision::PassThrough, prepare: None },
        }
    }

    /// Whether a path lies under a managed root. `contains` is what the map of roots says;
    /// `None` where there is no map yet.
    pub fn is_under_root(&self, contains: Option<bool>) -> (r: bool)
        ensures
            r == (contains == Some(true)),
    {
        match contains {
            Some(b) => b,
            None => false,
        }
    }

    /// The steps that hide a deleted path; `None` where the overlay does not handle it. A
    /// deletion is handled even where its steps fail.
    pub fn whiteout(&self, hit: Option<&RootHit>) -> (r: Option<Vec<FsStep>>)
        requires
            hit_wf(hit),
        ensures
            r is Some <==> self.captures(hit_view(hit)),
            r matches Some(steps) ==> overlay::steps_view(steps@) == overlay::whiteout_steps(
                self.overlay_root()->0,
                hit->0@.root,
                hit->0@.comps,
            ),
    {
        match (&self.overlay, hit) {
            (Some(ov), Some(h)) => {
                if h.comps.len() == 0 {
                    return None;
                }
                Some(ov.whiteout(h.root, h.comps.as_slice()))
            },
            _ => None,
        }
    }

    /// [`Engine::renamed`], with what has to be done where the overlay takes the move.
    pub fn rename(&self, from: Option<&RootHit>, to: Option<&RootHit>, has_copy: bool) -> (r: (
        RenameOutcome,
        Option<RenamePlan>,
    ))
        requires
            hit_wf(from),
            hit_wf(to),
        ensures
            r.0 == self.renamed(hit_view(from), hit_view(to)),
            r.1 is Some <==> r.0 == RenameOutcome::Handled,
            r.1 matches Some(p) ==> is_rename_plan(
                self.overlay_root()->0,
                hit_view(from)->0,
                hit_view(to)->0,
                !has_copy,
                p,
            ),
    {
        let (f, t) = match (from, to) {
            (Some(f), Some(t)) => (f, t),
            _ => {
                return (RenameOutcome::Declined, None);
            },
        };
        if f.comps.len() == 0 || t.comps.len() == 0 {
            return (RenameOutcome::Declined, None);
        }
        if f.root != t.root {
            return (RenameOutcome::CrossRoot, None);
        }
        match &self.overlay {
            Some(ov) => {
                let source = copied(&f.comps);
                let parent = ov.ensure_parent(f.root, source.as_slice());
                let copy_up_to = if has_copy {
                    None
                } else {
                    Some(ov.file_path(f.root, source.as_slice()))
                };
                let moves = ov.rename(f.root, source.as_slice(), t.comps.as_slice());
                (
                    RenameOutcome::Handled,
                    Some(RenamePlan { root: f.root, from: source, parent, copy_up_to, moves }),
                )
            },
            None => (RenameOutcome::Declined, None),
        }
    }

    /// The listing `base` with the overlay's entries of the directory laid over it; as it is
    /// where there is no overlay or the directory lies under no managed root.
    pub fn overlay_listing(
        &self,
        hit: Option<&RootHit>,
        base: Vec<KeyedItem>,
        entries: Option<&[OverlayEntry]>,
    ) -> (r: Vec<KeyedItem>)
        ensures
            match (self.overlay_root(), hit, entries) {
                (Some(dir), Some(h), Some(e)) => overlay::lists(
                    overlay::keyed(r@),
                    overlay::overlaid(
                        overlay::unmarked(overlay::by_key(overlay::shown(base@, base@)), e@),
                        e@,
                    ),
                ),
                _ => overlay::keyed(r@) == overlay::keyed(base@),
            },
    {
        match (&self.overlay, hit) {
            (Some(ov), Some(h)) => ov.apply_to_listing(base, entries),
            _ => base,
        }
    }
}

/// The view of an optional decision.
pub open spec fn decision_view(d: Option<Decision>) -> Option<DecisionView> {
    match d {
        Some(x) => Some(x@),
        None => None,
    }
}

/// What making an engine comes to.
pub open spec fn built(
    roots: Seq<(u32, String)>,
    overlay_root: Option<Seq<char>>,
    roots_check: Result<(), PathError>,
    snapshot_ok: bool,
    r: Result<Engine, EngineError>,
) -> bool {
    if roots.len() == 0 {
        r == Err::<Engine, EngineError>(EngineError::Root(PathError::EmptyRoot))
    } else {
        match roots_check {
            Err(e) => r == Err::<Engine, EngineError>(EngineError::Root(e)),
            Ok(()) => if snapshot_ok {
                r matches Ok(e) && e.wf() && e.roots@ == roots && e.overlay_root() == overlay_root
            } else {
                r == Err::<Engine, EngineError>(EngineError::Snapshot)
            },
        }
    }
}

/// What is done before a write to `hit` is redirected into the overlay.
pub open spec fn is_prepared(dir: Seq<char>, hit: HitView, copies: bool, p: Prepare) -> bool {
    &&& p.root == hit.root
    &&& text::texts(p.comps@) == hit.comps
    &&& overlay::steps_view(p.parent@) == overlay::ensure_parent_steps(dir, hit.root, hit.comps)
    &&& overlay::steps_view(p.unhide@) == overlay::clear_whiteout_steps(dir, hit.root, hit.comps)
    &&& text::option_text(p.copy_up_to) == (if copies {
        Some(overlay::file_at(dir, hit.root, hit.comps))
    } else {
        None
    })
}

/// What is done for a rename that the overlay takes.
pub open spec fn is_rename_plan(
    dir: Seq<char>,
    from: HitView,
    to: HitView,
    copies: bool,
    p: RenamePlan,
) -> bool {
    &&& p.root == from.root
    &&& text::texts(p.from@) == from.comps
    &&& overlay::steps_view(p.parent@) == overlay::ensure_parent_steps(dir, from.root, from.comps)
    &&& overlay::steps_view(p.moves@) == overlay::rename_steps(
        dir,
        from.root,
        from.comps,
        to.comps,
    )
    &&& text::option_text(p.copy_up_to) == (if copies {
        Some(overlay::file_at(dir, from.root, from.comps))
    } else {
        None
    })
}

/// A copy of a list of texts.
fn copied(v: &Vec<String>) -> (out: Vec<String>)
    ensures
        text::texts(out@) == text::texts(v@),
        out@.len() == v@.len(),
{
    let mut out: Vec<String> = Vec::new();
    let mut i: usize = 0;
    while i < v.len()
        invariant
            i <= v@.len(),
            out@.len() == i,
            forall|k: int| 0 <= k < i ==> (#[trigger] out@[k])@ == v@[k]@,
        decreases v@.len() - i,
    {
        out.push(v[i].clone());
        i = i + 1;
    }
    assert(text::texts(out@) =~= text::texts(v@));
    out
}

/// A read under any root but the first is never answered from the snapshot: whatever the
/// snapshot says, the answer is the same, and it is never the system's.
pub proof fn law_snapshot_speaks_for_the_first_root_only(
    e: Engine,
    hit: HitView,
    disk: OnDisk,
    a: Option<DecisionView>,
    b: Option<DecisionView>,
)
    requires
        hit.root != 0,
    ensures
        e.decided(Some(hit), disk, a) == e.decided(Some(hit), disk, b),
        e.decided(Some(hit), disk, a) != DecisionView::PassThrough,
{
}

/// What lies under no managed root is left to the system, whatever the open is for.
pub proof fn law_outside_every_root_is_passed_through(
    e: Engine,
    intent: OpenIntent,
    disk: OnDisk,
    snapshot: Option<DecisionView>,
)
    ensures
        e.decided_open(None, intent, disk, snapshot) == DecisionView::PassThrough,
{
}

/// With an overlay, a write under a managed root never reaches the system's own file: it goes
/// into the overlay, and there into the part of the root that the path lies under.
pub proof fn law_writes_land_in_their_own_root(
    e: Engine,
    hit: HitView,
    intent: OpenIntent,
    disk: OnDisk,
    snapshot: Option<DecisionView>,
)
    requires
        e.overlay_root() is Some,
        hit.comps.len() > 0,
        intent.write,
    ensures
        e.decided_open(Some(hit), intent, disk, snapshot) == (DecisionView::Redirect {
            target_nt: paths::nt_form(
                overlay::file_at(e.overlay_root()->0, hit.root, hit.comps),
            ),
        }),
{
}

/// A rename from one managed root to another is refused with or without an overlay; it is
/// neither carried out nor handed to the system.
pub proof fn law_cross_root_rename_is_refused(e: Engine, from: HitView, to: HitView)
    requires
        from.comps.len() > 0,
        to.comps.len() > 0,
    ensures
        from.root != to.root <==> e.renamed(Some(from), Some(to)) == RenameOutcome::CrossRoot,
{
}

// ---------------------------------------------------------------------------------------
// Changes of the overlay, and copying up.

/// The counters after a change of the overlay: it was declined where the thread was inside the
/// shim's own file operations already, else it succeeded or failed.
pub open spec fn overlay_noted(
    c: hookstats::SnapshotView,
    fail: OverlayFail,
    hit: HitView,
    declined: bool,
    done: bool,
) -> hookstats::SnapshotView {
    let vpath = paths::joined(hit.comps);
    if declined {
        hookstats::overlay_failed(c, OverlayFail::DeclinedReentrant, hit.root, vpath)
    } else if done {
        hookstats::SnapshotView {
            overlay_fail_counts: hookstats::overlay_counted(
                c.overlay_fail_counts,
                OverlayFail::Succeeded,
            ),
            ..c
        }
    } else {
        hookstats::overlay_failed(c, fail, hit.root, vpath)
    }
}

/// Records a change of the overlay, and says whether it was made. `declined` where the guard
/// was held already and the change was not tried; else `done` says whether it succeeded.
pub fn overlay_fs(
    s: &mut Stats,
    fail: OverlayFail,
    root: u32,
    comps: &[String],
    declined: bool,
    done: bool,
) -> (r: bool)
    requires
        old(s).wf(),
        fail != OverlayFail::Succeeded,
    ensures
        final(s).wf(),
        r == (!declined && done),
        final(s)@ == hookstats::counted(
            old(s)@,
            overlay_noted(
                old(s)@.counts,
                fail,
                HitView { root, comps: text::texts(comps@) },
                declined,
                done,
            ),
        ),
{
    if declined {
        let vpath = paths::join(comps);
        hookstats::note_overlay_fail(s, OverlayFail::DeclinedReentrant, root, vpath.as_str());
        return false;
    }
    if done {
        hookstats::note_overlay_ok(s);
        return true;
    }
    let vpath = paths::join(comps);
    hookstats::note_overlay_fail(s, fail, root, vpath.as_str());
    false
}

/// What a copy-up begins with.
pub enum CopyUpStart {
    /// Nothing is copied.
    Declined,
    /// The director is asked to open this file; the guard is held until it is done.
    Seed { root: u32, vpath: String },
}

/// Why a copy-up is declined; `None` where it is made. A path that names a stream is declined
/// before anything else: what its file holds is not what the stream holds.
pub open spec fn copy_up_declined(
    comps: Seq<Seq<char>>,
    has_stream: bool,
    has_director: bool,
    inside: bool,
) -> Option<Option<CopyUp>> {
    if has_stream {
        Some(Some(CopyUp::DeclinedStream))
    } else if comps.len() == 0 {
        Some(None)
    } else if !has_director {
        Some(Some(CopyUp::DeclinedNoDirector))
    } else if inside {
        Some(Some(CopyUp::DeclinedReentrant))
    } else {
        None
    }
}

/// Begins a copy-up of `comps` under `root`. One that is declined is counted with its reason
/// and leaves the guard as it is; one that is made holds the guard, and the open that it makes
/// of the director is counted as the shim's own.
pub fn copy_up(
    s: &mut Stats,
    io: &mut ShimIoGuard,
    root: u32,
    comps: &[String],
    has_stream: bool,
    has_director: bool,
) -> (r: CopyUpStart)
    requires
        old(s).wf(),
    ensures
        final(s).wf(),
        match copy_up_declined(
            text::texts(comps@),
            has_stream,
            has_director,
            old(io).depth > 0,
        ) {
            Some(why) => {
                &&& r is Declined
                &&& *final(io) == *old(io)
                &&& final(s)@ == match why {
                    Some(c) => hookstats::counted(
                        old(s)@,
                        hookstats::copied_up(
                            old(s)@.counts,
                            c,
                            root,
                            paths::joined(text::texts(comps@)),
                            0,
                        ),
                    ),
                    None => old(s)@,
                }
            },
            None => {
                &&& r matches CopyUpStart::Seed { root: asked, vpath } && asked == root && vpath@
                    == paths::joined(text::texts(comps@))
                &&& final(io).depth == 1
                &&& final(s)@ == hookstats::counted(
                    old(s)@,
                    hookstats::SnapshotView {
                        unrouted_director_opens: old(
                            s,
                        )@.counts.unrouted_director_opens.wrapping_add(1),
                        ..old(s)@.counts
                    },
                )
            },
        },
{
    let vpath = paths::join(comps);
    if has_stream {
        hookstats::note_copy_up(s, CopyUp::DeclinedStream, root, vpath.as_str(), 0);
        return CopyUpStart::Declined;
    }
    if comps.len() == 0 {
        return CopyUpStart::Declined;
    }
    if !has_director {
        hookstats::note_copy_up(s, CopyUp::DeclinedNoDirector, root, vpath.as_str(), 0);
        return CopyUpStart::Declined;
    }
    if !io.enter() {
        hookstats::note_copy_up(s, CopyUp::DeclinedReentrant, root, vpath.as_str(), 0);
        return CopyUpStart::Declined;
    }
    hookstats::note_unrouted_director_open(s);
    CopyUpStart::Seed { root, vpath }
}

/// What has to be done next while a file is copied up.
#[derive(Clone, Copy, Debug, PartialEq, Eq, Structural)]
pub enum SeedStep {
    /// Create the destination.
    Create,
    /// Read `len` bytes from `offset`.
    Read { offset: u64, len: u64 },
    /// Write the `len` bytes that were read.
    Write { len: u64 },
    /// Flush the destination.
    Flush,
    /// It ended. Where `close` is set the director's handle has to be closed.
    Ended { outcome: CopyUp, bytes: u64, close: bool },
}

/// A file being copied up.
#[derive(Clone, Copy, Debug, PartialEq, Eq, Structural)]
pub struct SeedRun {
    pub fh: u64,
    pub size: u64,
    pub done: u64,
}

/// The size of the buffer for a file of `size` bytes.
pub open spec fn seed_buffer(size: u64) -> u64 {
    if size < 1 {
        1
    } else if size > SEED_CHUNK {
        SEED_CHUNK
    } else {
        size
    }
}

impl SeedRun {
    /// No more was written than there is.
    pub open spec fn wf(self) -> bool {
        self.done <= self.size
    }

    /// What comes after the destination was created or a piece was written.
    pub open spec fn next_step(self) -> SeedStep {
        if self.done < self.size {
            SeedStep::Read {
                offset: self.done,
                len: if self.size - self.done < seed_buffer(self.size) {
                    (self.size - self.done) as u64
                } else {
                    seed_buffer(self.size)
                },
            }
        } else {
            SeedStep::Flush
        }
    }

    /// [`SeedRun::next_step`].
    fn next(&self) -> (r: SeedStep)
        requires
            self.wf(),
        ensures
            r == self.next_step(),
    {
        if self.done < self.size {
            let rest: u64 = self.size - self.done;
            let room: u64 = if self.size > SEED_CHUNK {
                SEED_CHUNK
            } else {
                self.size
            };
            SeedStep::Read {
                offset: self.done,
                len: if rest < room {
                    rest
                } else {
                    room
                },
            }
        } else {
            SeedStep::Flush
        }
    }
}

/// Begins to copy a file up, with what the director answered to the open. A directory has
/// nothing to copy up, but its handle has to be closed.
pub fn seed_from_director(opened: Result<fuse_client::OpenReply, fuse_client::RingStatus>) -> (r: (
    Option<SeedRun>,
    SeedStep,
))
    ensures
        match opened {
            Err(_) => r == (
                None::<SeedRun>,
                SeedStep::Ended { outcome: CopyUp::DirectorRefused, bytes: 0, close: false },
            ),
            Ok(o) => if o.is_dir {
                r == (
                    Some(SeedRun { fh: o.fh, size: o.size, done: 0 }),
                    SeedStep::Ended { outcome: CopyUp::DirectorRefused, bytes: 0, close: true },
                )
            } else {
                r == (Some(SeedRun { fh: o.fh, size: o.size, done: 0 }), SeedStep::Create)
            },
        },
{
    match opened {
        Err(_) => (
            None,
            SeedStep::Ended { outcome: CopyUp::DirectorRefused, bytes: 0, close: false },
        ),
        Ok(o) => {
            let run = SeedRun { fh: o.fh, size: o.size, done: 0 };
            if o.is_dir {
                (
                    Some(run),
                    SeedStep::Ended { outcome: CopyUp::DirectorRefused, bytes: 0, close: true },
                )
            } else {
                (Some(run), SeedStep::Create)
            }
        },
    }
}

/// How the step that was asked for ended.
#[derive(Clone, Copy, Debug, PartialEq, Eq, Structural)]
pub enum SeedEvent {
    Created(bool),
    /// How many bytes were read; `None` where the read failed.
    Read(Option<u64>),
    /// The bytes of this length were written, or not.
    Written(u64, bool),
    Flushed(bool),
}

/// The run and the step after `event`.
pub open spec fn seed_advanced(run: SeedRun, event: SeedEvent) -> (SeedRun, SeedStep) {
    match event {
        SeedEvent::Created(ok) => if ok {
            (run, run.next_step())
        } else {
            (run, seed_ended(CopyUp::DestWriteFailed, run.done))
        },
        SeedEvent::Read(Some(n)) => if n == 0 {
            (run, seed_ended(CopyUp::ReadFailed, run.done))
        } else {
            (run, SeedStep::Write { len: n })
        },
        SeedEvent::Read(None) => (run, seed_ended(CopyUp::ReadFailed, run.done)),
        SeedEvent::Written(n, ok) => if ok {
            let next = SeedRun { done: (run.done + n) as u64, ..run };
            (next, next.next_step())
        } else {
            (run, seed_ended(CopyUp::DestWriteFailed, run.done))
        },
        SeedEvent::Flushed(ok) => if ok {
            (run, seed_ended(CopyUp::Seeded, run.done))
        } else {
            (run, seed_ended(CopyUp::DestWriteFailed, run.done))
        },
    }
}

/// A copy-up that ended after the director's handle was opened.
pub open spec fn seed_ended(outcome: CopyUp, bytes: u64) -> SeedStep {
    SeedStep::Ended { outcome, bytes, close: true }
}

/// Whether `event` can follow: no more bytes come back than were asked for, the bytes that were
/// read are those that are written, and nothing is flushed before all was written.
pub open spec fn seed_follows(run: SeedRun, event: SeedEvent) -> bool {
    match event {
        SeedEvent::Created(ok) => run.done == 0,
        SeedEvent::Read(Some(n)) => run.next_step() matches SeedStep::Read { offset, len } && n
            <= len,
        SeedEvent::Read(None) => run.next_step() is Read,
        SeedEvent::Written(n, ok) => 0 < n && (run.next_step() matches SeedStep::Read {
            offset,
            len,
        } && n <= len),
        SeedEvent::Flushed(ok) => run.next_step() is Flush,
    }
}

/// Goes on copying a file up: a short read is read on from where it ended, a read of nothing is
/// a failure, and only a file written in full is flushed.
pub fn write_director_file(run: &mut SeedRun, event: SeedEvent) -> (r: SeedStep)
    requires
        old(run).wf(),
        seed_follows(*old(run), event),
    ensures
        final(run).wf(),
        (*final(run), r) == seed_advanced(*old(run), event),
{
    match event {
        SeedEvent::Created(ok) => if ok {
            run.next()
        } else {
            SeedStep::Ended { outcome: CopyUp::DestWriteFailed, bytes: run.done, close: true }
        },
        SeedEvent::Read(Some(n)) => if n == 0 {
            SeedStep::Ended { outcome: CopyUp::ReadFailed, bytes: run.done, close: true }
        } else {
            SeedStep::Write { len: n }
        },
        SeedEvent::Read(None) => SeedStep::Ended {
            outcome: CopyUp::ReadFailed,
            bytes: run.done,
            close: true,
        },
        SeedEvent::Written(n, ok) => if ok {
            run.done = run.done + n;
            run.next()
        } else {
            SeedStep::Ended { outcome: CopyUp::DestWriteFailed, bytes: run.done, close: true }
        },
        SeedEvent::Flushed(ok) => if ok {
            SeedStep::Ended { outcome: CopyUp::Seeded, bytes: run.done, close: true }
        } else {
            SeedStep::Ended { outcome: CopyUp::DestWriteFailed, bytes: run.done, close: true }
        },
    }
}

/// A copy-up that is counted as made wrote every byte that the open promised; and every piece
/// that is written brings it nearer to its end, so that it ends.
pub proof fn law_seeded_means_whole(run: SeedRun, event: SeedEvent)
    requires
        run.wf(),
        seed_follows(run, event),
    ensures
        seed_advanced(run, event).1 matches SeedStep::Ended {
            outcome: CopyUp::Seeded,
            bytes,
            close,
        } ==> bytes == run.size,
        event matches SeedEvent::Written(n, ok) && ok ==> run.done < seed_advanced(
            run,
            event,
        ).0.done <= run.size,
        seed_advanced(run, event).0.size == run.size,
        seed_advanced(run, event).0.fh == run.fh,
{
}

/// Ends a copy-up: it is counted, the guard is left, and the result says whether the
/// destination holds the file. Where it does not, what was written of it has to be removed.
pub fn cow_seed(
    s: &mut Stats,
    io: &mut ShimIoGuard,
    root: u32,
    vpath: &str,
    outcome: CopyUp,
    bytes: u64,
) -> (seeded: bool)
    requires
        old(s).wf(),
    ensures
        final(s).wf(),
        seeded == (outcome == CopyUp::Seeded),
        final(io).depth == crate::guard::left(old(io).depth),
        final(s)@ == hookstats::counted(
            old(s)@,
            hookstats::copied_up(old(s)@.counts, outcome, root, vpath@, bytes),
        ),
{
    hookstats::note_copy_up(s, outcome, root, vpath, bytes);
    io.leave();
    outcome == CopyUp::Seeded
}

/// What the overlay holds comes first: a file in it is opened there, and a path that it hides
/// is refused, whatever a snapshot says.
pub proof fn law_the_overlay_comes_first(
    e: Engine,
    dir: Seq<char>,
    root: u32,
    comps: Seq<Seq<char>>,
    is_dir: bool,
    size: u64,
    marked: bool,
    snapshot: Option<DecisionView>,
)
    requires
        e.overlay_root() == Some(dir),
        comps.len() > 0,
    ensures
        ({
            let hit = Some(HitView { root, comps });
            &&& e.decided(hit, OnDisk { file: Some((is_dir, size)), marked }, snapshot)
                == (DecisionView::Redirect {
                target_nt: paths::nt_form(overlay::file_at(dir, root, comps)),
            })
            &&& e.decided(hit, OnDisk { file: None, marked: true }, snapshot) == DecisionView::Deny
            &&& root == 0 ==> (snapshot matches Some(d) ==> e.decided(
                hit,
                OnDisk { file: None, marked: false },
                snapshot,
            ) == d)
            &&& root == 0 && snapshot is None ==> e.decided(
                hit,
                OnDisk { file: None, marked: false },
                snapshot,
            ) == DecisionView::PassThrough
            &&& root != 0 ==> e.decided(hit, OnDisk { file: None, marked: false }, snapshot)
                == DecisionView::Deny
        }),
{
}

/// Without an overlay the snapshot decides for the first root, and the other roots are refused.
pub proof fn law_without_an_overlay_the_snapshot_decides(
    e: Engine,
    root: u32,
    comps: Seq<Seq<char>>,
    disk: OnDisk,
    snapshot: Option<DecisionView>,
)
    requires
        e.overlay_root() is None,
    ensures
        ({
            let d = e.decided(Some(HitView { root, comps }), disk, snapshot);
            &&& root != 0 ==> d == DecisionView::Deny
            &&& root == 0 && snapshot is Some ==> d == snapshot->0
            &&& root == 0 && snapshot is None ==> d == DecisionView::PassThrough
        }),
        e.decided(None, disk, snapshot) == DecisionView::PassThrough,
        e.overlay_says(Some(HitView { root, comps }), disk) is None,
{
}

/// An open for writing goes to the overlay, where there is one and the path lies below a root;
/// any other is the system's. An open for reading is decided as any question is.
pub proof fn law_writes_go_to_the_overlay(
    e: Engine,
    hit: Option<HitView>,
    intent: OpenIntent,
    disk: OnDisk,
    snapshot: Option<DecisionView>,
)
    ensures
        !intent.write ==> e.decided_open(hit, intent, disk, snapshot) == e.decided(
            hit,
            disk,
            snapshot,
        ),
        intent.write ==> (e.overlay_root() matches Some(dir) ==> (hit matches Some(h) ==> (
        h.comps.len() > 0 ==> e.decided_open(hit, intent, disk, snapshot)
            == (DecisionView::Redirect {
            target_nt: paths::nt_form(overlay::file_at(dir, h.root, h.comps)),
        })))),
        intent.write && (e.overlay_root() is None || hit is None || hit->0.comps.len() == 0)
            ==> e.decided_open(hit, intent, disk, snapshot) == DecisionView::PassThrough,
{
}

/// A move between two paths below one root is made in the overlay, where there is one. One
/// between two roots is refused; every other is left to the system.
pub proof fn law_moves_are_made_within_a_root(e: Engine, from: HitView, to: HitView)
    ensures
        from.comps.len() > 0 && to.comps.len() > 0 && from.root != to.root ==> e.renamed(
            Some(from),
            Some(to),
        ) == RenameOutcome::CrossRoot,
        from.comps.len() > 0 && to.comps.len() > 0 && from.root == to.root && e.overlay_root()
            is Some ==> e.renamed(Some(from), Some(to)) == RenameOutcome::Handled,
        e.overlay_root() is None && from.root == to.root ==> e.renamed(Some(from), Some(to))
            == RenameOutcome::Declined,
        from.comps.len() == 0 || to.comps.len() == 0 ==> e.renamed(Some(from), Some(to))
            == RenameOutcome::Declined,
        e.renamed(None, Some(to)) == RenameOutcome::Declined,
        e.renamed(Some(from), None) == RenameOutcome::Declined,
{
}

/// When a file is not copied up, and as what that counts: a stream, without a director, or from
/// inside the shim. For a root itself nothing is counted, and any other file is copied.
pub proof fn law_copies_are_declined_for_a_reason(
    comps: Seq<Seq<char>>,
    has_stream: bool,
    has_director: bool,
    inside: bool,
)
    ensures
        copy_up_declined(comps, has_stream, has_director, inside) is None <==> !has_stream
            && comps.len() > 0 && has_director && !inside,
        has_stream ==> copy_up_declined(comps, has_stream, has_director, inside) == Some(
            Some(CopyUp::DeclinedStream),
        ),
        !has_stream && comps.len() == 0 ==> copy_up_declined(comps, has_stream, has_director, inside)
            == Some(None::<CopyUp>),
        !has_stream && comps.len() > 0 && !has_director ==> copy_up_declined(
            comps,
            has_stream,
            has_director,
            inside,
        ) == Some(Some(CopyUp::DeclinedNoDirector)),
        !has_stream && comps.len() > 0 && has_director && inside ==> copy_up_declined(
            comps,
            has_stream,
            has_director,
            inside,
        ) == Some(Some(CopyUp::DeclinedReentrant)),
{
}

/// A copy reads on from where it stands, in pieces of up to 256 KiB and never past the end, and
/// is flushed when nothing is left.
pub proof fn law_a_copy_reads_on(run: SeedRun)
    requires
        run.wf(),
    ensures
        run.done == run.size <==> run.next_step() == SeedStep::Flush,
        run.done < run.size ==> (run.next_step() matches SeedStep::Read { offset, len } && offset
            == run.done && len == (if run.size - run.done < 262144 {
            run.size - run.done
        } else {
            262144
        })),
{
}

/// What a copy makes of each outcome: what was read is written, what was written counts, and it
/// ends well only when it was flushed. A read that failed or brought nothing, and a write that
/// failed, end it; the director's handle is closed in the end, always.
pub proof fn law_a_copy_ends_as_it_went(run: SeedRun, n: u64)
    requires
        run.done + n <= u64::MAX,
    ensures
        seed_advanced(run, SeedEvent::Created(true)) == (run, run.next_step()),
        n > 0 ==> seed_advanced(run, SeedEvent::Read(Some(n))) == (
            run,
            SeedStep::Write { len: n },
        ),
        seed_advanced(run, SeedEvent::Read(Some(0))).1 == (SeedStep::Ended {
            outcome: CopyUp::ReadFailed,
            bytes: run.done,
            close: true,
        }),
        seed_advanced(run, SeedEvent::Read(None)).1 == (SeedStep::Ended {
            outcome: CopyUp::ReadFailed,
            bytes: run.done,
            close: true,
        }),
        ({
            let (next, step) = seed_advanced(run, SeedEvent::Written(n, true));
            &&& next.done == run.done + n
            &&& next.size == run.size
            &&& step == next.next_step()
        }),
        seed_advanced(run, SeedEvent::Written(n, false)).1 == (SeedStep::Ended {
            outcome: CopyUp::DestWriteFailed,
            bytes: run.done,
            close: true,
        }),
        seed_advanced(run, SeedEvent::Created(false)).1 == (SeedStep::Ended {
            outcome: CopyUp::DestWriteFailed,
            bytes: run.done,
            close: true,
        }),
        seed_advanced(run, SeedEvent::Flushed(true)).1 == (SeedStep::Ended {
            outcome: CopyUp::Seeded,
            bytes: run.done,
            close: true,
        }),
        seed_advanced(run, SeedEvent::Flushed(false)).1 == (SeedStep::Ended {
            outcome: CopyUp::DestWriteFailed,
            bytes: run.done,
            close: true,
        }),
{
}

/// What is done before a write goes to the overlay: the file's directory is made, its marker is
/// taken away, and its present content is copied to the overlay's file exactly where there is
/// something to copy.
pub proof fn law_writes_are_prepared(dir: Seq<char>, hit: HitView, copies: bool, p: Prepare)
    requires
        is_prepared(dir, hit, copies, p),
        hit.comps.len() > 0,
    ensures
        p.root == hit.root,
        text::texts(p.comps@) == hit.comps,
        p.parent@.len() == 1 && p.parent@[0]@.op == (overlay::FsOpView::MakeDirs {
            path: overlay::file_at(dir, hit.root, hit.comps.drop_last()),
        }),
        p.unhide@.len() == 1 && p.unhide@[0]@.op == (overlay::FsOpView::Remove {
            path: overlay::file_at(dir, hit.root, hit.comps) + ".__vfs_wh__"@,
        }),
        p.copy_up_to is Some <==> copies,
        p.copy_up_to matches Some(to) ==> to@ == overlay::file_at(dir, hit.root, hit.comps),
{
    overlay::law_plans_make_room_first(
        dir,
        hit.root,
        hit.comps.drop_last(),
        hit.comps,
        hit.comps.last(),
    );
    assert(hit.comps.drop_last().push(hit.comps.last()) =~= hit.comps);
    assert(overlay::steps_view(p.parent@).len() == 1);
    assert(overlay::steps_view(p.unhide@).len() == 1);
    assert(overlay::steps_view(p.parent@)[0] == p.parent@[0]@);
    assert(overlay::steps_view(p.unhide@)[0] == p.unhide@[0]@);
}

/// What is done for a move: the source's directory is made, its content is copied to the
/// overlay where it is not there yet, and then the source's file is moved to the target's.
pub proof fn law_moves_are_prepared(
    dir: Seq<char>,
    from: HitView,
    to: HitView,
    copies: bool,
    p: RenamePlan,
)
    requires
        is_rename_plan(dir, from, to, copies, p),
        from.comps.len() > 0,
        to.comps.len() > 0,
    ensures
        p.root == from.root,
        text::texts(p.from@) == from.comps,
        p.parent@.len() == 1 && p.parent@[0]@.op == (overlay::FsOpView::MakeDirs {
            path: overlay::file_at(dir, from.root, from.comps.drop_last()),
        }),
        p.moves@.len() == 4 && p.moves@[1]@.op == (overlay::FsOpView::Move {
            from: overlay::file_at(dir, from.root, from.comps),
            to: overlay::file_at(dir, from.root, to.comps),
        }),
        p.copy_up_to is Some <==> copies,
        p.copy_up_to matches Some(at) ==> at@ == overlay::file_at(dir, from.root, from.comps),
{
    overlay::law_plans_make_room_first(
        dir,
        from.root,
        to.comps.drop_last(),
        from.comps,
        to.comps.last(),
    );
    overlay::law_plans_make_room_first(
        dir,
        from.root,
        from.comps.drop_last(),
        to.comps,
        from.comps.last(),
    );
    assert(to.comps.drop_last().push(to.comps.last()) =~= to.comps);
    assert(from.comps.drop_last().push(from.comps.last()) =~= from.comps);
    assert(overlay::steps_view(p.parent@).len() == 1);
    assert(overlay::steps_view(p.moves@).len() == 4);
    assert(overlay::steps_view(p.parent@)[0] == p.parent@[0]@);
    assert(overlay::steps_view(p.moves@)[1] == p.moves@[1]@);
}

/// A change of the overlay counts once: as done, as failed in its own way, or as declined from
/// inside the shim.
pub proof fn law_overlay_changes_are_counted(
    c: hookstats::SnapshotView,
    fail: OverlayFail,
    hit: HitView,
)
    requires
        c.overlay_fail_counts.len() == 6,
    ensures
        overlay_noted(c, fail, hit, false, true).overlay_fail_counts == c.overlay_fail_counts.update(
            5,
            c.overlay_fail_counts[5].wrapping_add(1),
        ),
        overlay_noted(c, fail, hit, false, true).trace == c.trace,
        overlay_noted(c, fail, hit, true, true).overlay_fail_counts == c.overlay_fail_counts.update(
            4,
            c.overlay_fail_counts[4].wrapping_add(1),
        ),
        overlay_noted(c, fail, hit, true, false) == overlay_noted(c, fail, hit, true, true),
        overlay_noted(c, fail, hit, false, false).overlay_fail_counts[fail.spec_index()]
            == c.overlay_fail_counts[fail.spec_index()].wrapping_add(1),
{
}

/// An engine has the roots and the overlay that it was made with. Without a root, with a root
/// that is none, or with a snapshot that is none, there is no engine, and it says which.
pub proof fn law_an_engine_is_what_it_was_made_of(
    roots: Seq<(u32, String)>,
    overlay_root: Option<Seq<char>>,
    roots_check: Result<(), PathError>,
    snapshot_ok: bool,
    r: Result<Engine, EngineError>,
)
    requires
        built(roots, overlay_root, roots_check, snapshot_ok, r),
    ensures
        r is Ok <==> roots.len() > 0 && roots_check is Ok && snapshot_ok,
        r matches Ok(e) ==> e.roots@ == roots && e.overlay_root() == overlay_root,
        roots.len() == 0 ==> r == Err::<Engine, EngineError>(
            EngineError::Root(PathError::EmptyRoot),
        ),
        roots.len() > 0 ==> (roots_check matches Err(e) ==> r == Err::<Engine, EngineError>(
            EngineError::Root(e),
        )),
        roots.len() > 0 && roots_check is Ok && !snapshot_ok ==> r == Err::<Engine, EngineError>(
            EngineError::Snapshot,
        ),
{
}

/// A hit and a decision are taken as they were given.
pub proof fn law_hits_are_taken_as_given(hit: RootHit, target_nt: String)
    ensures
        hit_view(Some(&hit)) matches Some(h) && h.root == hit.root && h.comps.len()
            == hit.comps@.len() && (forall|i: int|
            0 <= i < hit.comps@.len() ==> #[trigger] h.comps[i] == hit.comps@[i]@),
        hit_view(None) is None,
        decision_view(Some(Decision::Redirect { target_nt })) == Some(
            DecisionView::Redirect { target_nt: target_nt@ },
        ),
        decision_view(Some(Decision::PassThrough)) == Some(DecisionView::PassThrough),
        decision_view(Some(Decision::Deny)) == Some(DecisionView::Deny),
        decision_view(None) is None,
{
}

} // verus!

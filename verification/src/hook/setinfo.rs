//! Deletes, renames and the other changes that are made through a handle or by path.

use crate::bytes;
use crate::engine::RenameOutcome;
use crate::fuse_client::RingStatus;
use crate::fuse_synth;
use crate::fuse_synth::FuseTable;
use crate::hook::open;
use crate::hook::tables;
use crate::hook::tables::HandleTables;
use crate::hookstats;
use crate::hookstats::Stats;
use crate::ntdef;
use crate::paths;
use crate::text;
use vstd::prelude::*;
use vstd::string::*;

verus! {

// ---------------------------------------------------------------------------------------
// Requests.

/// Whether a change asks for the file to be deleted.
pub open spec fn deletes(b: Seq<u8>, class: u32) -> bool {
    if class == ntdef::FILE_DISPOSITION_INFORMATION {
        b.len() >= 1 && b[0] != 0
    } else if class == ntdef::FILE_DISPOSITION_INFORMATION_EX {
        b.len() >= 4 && (bytes::u32_in(b, 0) & ntdef::FILE_DISPOSITION_DELETE) != 0
    } else {
        false
    }
}

/// [`deletes`].
pub fn is_delete_request(b: &[u8], class: u32) -> (r: bool)
    ensures
        r == deletes(b@, class),
{
    if class == ntdef::FILE_DISPOSITION_INFORMATION {
        b.len() >= 1 && b[0] != 0
    } else if class == ntdef::FILE_DISPOSITION_INFORMATION_EX {
        b.len() >= 4 && (bytes::u32_at(b, 0) & ntdef::FILE_DISPOSITION_DELETE) != 0
    } else {
        false
    }
}

/// Whether a change moves the file.
pub open spec fn renames(class: u32) -> bool {
    class == ntdef::FILE_RENAME_INFORMATION || class == ntdef::FILE_RENAME_INFORMATION_EX
}

/// [`renames`].
pub fn is_rename_request(class: u32) -> (r: bool)
    ensures
        r == renames(class),
{
    class == ntdef::FILE_RENAME_INFORMATION || class == ntdef::FILE_RENAME_INFORMATION_EX
}

/// The directory handle and the name of a rename's target; `None` where the block is too short
/// for what it says.
pub open spec fn rename_fields(b: Seq<u8>) -> Option<(u64, Seq<char>)> {
    let n = bytes::u32_in(b, 16);
    if b.len() < 20 || 20 + n > b.len() {
        None
    } else {
        Some(
            (
                bytes::u64_in(b, 8),
                text::utf16_text(bytes::units_in(b, 20, (n / 2) as nat)),
            ),
        )
    }
}

/// [`rename_fields`].
fn read_rename(b: &[u8]) -> (r: Option<(u64, String)>)
    ensures
        match r {
            Some((root, name)) => rename_fields(b@) == Some((root, name@)),
            None => rename_fields(b@) is None,
        },
{
    let len: usize = b.len();
    if len < 20 {
        return None;
    }
    let root: u64 = bytes::u64_at(b, 8);
    let n: u32 = bytes::u32_at(b, 16);
    if n as u64 > (len - 20) as u64 {
        return None;
    }
    let units = bytes::units_at(b, 20, (n / 2) as usize);
    Some((root, text::decode_utf16(units.as_slice())))
}

/// The directory handle that a rename's target is named against, where it is.
pub fn rename_root(b: &[u8]) -> (r: Option<u64>)
    ensures
        r == match rename_fields(b@) {
            Some((root, name)) => if root == 0 {
                None
            } else {
                Some(root)
            },
            None => None,
        },
{
    match read_rename(b) {
        Some((root, _)) => if root == 0 {
            None
        } else {
            Some(root)
        },
        None => None,
    }
}

/// The target of a rename: an absolute name as it is, a name against a directory joined to the
/// directory's path, and nothing where that path is not known.
pub open spec fn rename_target(b: Seq<u8>, parent: Option<Seq<char>>) -> Option<Seq<char>> {
    match rename_fields(b) {
        None => None,
        Some((root, name)) => if root == 0 {
            Some(name)
        } else {
            match parent {
                Some(p) => Some(paths::under(p, name)),
                None => None,
            }
        },
    }
}

/// [`rename_target`]. `parent` is the path of the directory that [`rename_root`] names.
pub fn parse_rename_target(b: &[u8], parent: Option<&str>) -> (r: Option<String>)
    ensures
        text::option_text(r) == rename_target(b@, hookstats::optional(parent)),
{
    match read_rename(b) {
        None => None,
        Some((root, name)) => {
            if root == 0 {
                return Some(name);
            }
            match parent {
                Some(p) => Some(paths::resolve_under(p, name.as_str())),
                None => None,
            }
        },
    }
}

/// A target named against a directory that is not known is never taken for an absolute one.
pub proof fn law_unknown_parents_are_declined(b: Seq<u8>)
    ensures
        rename_target(b, None) matches Some(name) ==> rename_fields(b) == Some((0u64, name)),
{
}

/// The path that a change through a handle acts on: the one that the handle was opened as under
/// a managed root, else the one that it was opened as, else the system has to be asked. The
/// name that the caller used comes first: a redirected handle points elsewhere.
pub fn setinfo_source_path(t: &HandleTables, handle: u64) -> (r: Option<String>)
    ensures
        text::option_text(r) == (if t@.paths.contains_key(handle) {
            Some(t@.paths[handle])
        } else {
            tables::path_in(t@.handle_paths, handle)
        }),
{
    match tables::tracked_path(t, handle) {
        Some(p) => Some(p),
        None => tables::path_of_handle(t, handle),
    }
}

// ---------------------------------------------------------------------------------------
// Deletes by path.

/// The status of a delete that the director refused.
pub open spec fn delete_refusal(status: RingStatus) -> i32 {
    match status {
        RingStatus::NotFound => ntdef::STATUS_OBJECT_NAME_NOT_FOUND,
        RingStatus::ReadOnly => ntdef::STATUS_ACCESS_DENIED,
        RingStatus::IsDir => ntdef::STATUS_FILE_IS_A_DIRECTORY,
        _ => ntdef::STATUS_UNSUCCESSFUL,
    }
}

/// [`delete_refusal`].
pub fn delete_status_for(status: RingStatus) -> (r: i32)
    ensures
        r == delete_refusal(status),
{
    match status {
        RingStatus::NotFound => ntdef::STATUS_OBJECT_NAME_NOT_FOUND,
        RingStatus::ReadOnly => ntdef::STATUS_ACCESS_DENIED,
        RingStatus::IsDir => ntdef::STATUS_FILE_IS_A_DIRECTORY,
        _ => ntdef::STATUS_UNSUCCESSFUL,
    }
}

/// What becomes of a delete by path.
#[derive(Debug, PartialEq, Eq)]
pub enum DeleteStep {
    /// Ask the director to delete this path; its answer is the caller's.
    AskDirector { root: u32, vpath: String },
    /// Hide the path in the overlay, and succeed.
    Whiteout,
    /// Fail the call.
    Refuse(i32),
    /// Hand it to the system under this absolute path.
    RealAbsolute { path: String },
    /// Hand it to the system as it is.
    Real,
}

/// What becomes of a delete by path, as values.
#[verifier::ext_equal]
pub enum DeleteView {
    AskDirector { root: u32, vpath: Seq<char> },
    Whiteout,
    Refuse(i32),
    RealAbsolute { path: Seq<char> },
    Real,
}

impl View for DeleteStep {
    type V = DeleteView;

    open spec fn view(&self) -> DeleteView {
        match *self {
            DeleteStep::AskDirector { root, vpath } => DeleteView::AskDirector {
                root,
                vpath: vpath@,
            },
            DeleteStep::Whiteout => DeleteView::Whiteout,
            DeleteStep::Refuse(status) => DeleteView::Refuse(status),
            DeleteStep::RealAbsolute { path } => DeleteView::RealAbsolute { path: path@ },
            DeleteStep::Real => DeleteView::Real,
        }
    }
}

/// What becomes of a delete of `path`: the director's where it places the path under a root,
/// which it is asked about by its own name, else the overlay's, and nothing that is under a
/// managed root reaches the system.
pub open spec fn delete_step(
    path: Seq<char>,
    target: Option<(u32, Seq<char>)>,
    overlay_takes: bool,
    ours: bool,
    synthetic_root: bool,
) -> DeleteView {
    match target {
        Some((root, vpath)) => DeleteView::AskDirector { root, vpath },
        None => if overlay_takes {
            DeleteView::Whiteout
        } else if ours {
            DeleteView::Refuse(ntdef::STATUS_ACCESS_DENIED)
        } else if synthetic_root {
            DeleteView::RealAbsolute { path: open::nt_path(path) }
        } else {
            DeleteView::Real
        },
    }
}

/// [`delete_step`], of a decoded path; `hit` is the root and the path in it by which the attached
/// director knows it.
pub fn delete_hook(
    path: &str,
    hit: &Option<(u32, String)>,
    overlay_takes: bool,
    ours: bool,
    synthetic_root: bool,
) -> (r: DeleteStep)
    ensures
        r@ == delete_step(
            path@,
            open::director_target(*hit),
            overlay_takes,
            ours,
            synthetic_root,
        ),
{
    match open::target_of(hit) {
        Some((root, vpath)) => DeleteStep::AskDirector { root, vpath },
        None => if overlay_takes {
            DeleteStep::Whiteout
        } else if ours {
            DeleteStep::Refuse(ntdef::STATUS_ACCESS_DENIED)
        } else if synthetic_root {
            DeleteStep::RealAbsolute { path: open::to_nt_path(path) }
        } else {
            DeleteStep::Real
        },
    }
}

/// The status of a delete that the director answered.
pub fn delete_answer(r: Result<(), RingStatus>) -> (status: i32)
    ensures
        status == match r {
            Ok(()) => ntdef::STATUS_SUCCESS,
            Err(st) => delete_refusal(st),
        },
{
    match r {
        Ok(()) => ntdef::STATUS_SUCCESS,
        Err(st) => delete_status_for(st),
    }
}

/// A delete of a path under a managed root never reaches the system, a refusal of the director
/// is a failure that the caller sees, and a delete outside every root is the system's.
pub proof fn law_deletes_under_a_root_stay_inside(
    path: Seq<char>,
    target: Option<(u32, Seq<char>)>,
    overlay_takes: bool,
    ours: bool,
    synthetic_root: bool,
    status: RingStatus,
)
    ensures
        target is Some || overlay_takes || ours ==> ({
            let step = delete_step(path, target, overlay_takes, ours, synthetic_root);
            step !is Real && step !is RealAbsolute
        }),
        !ntdef::nt_success(delete_refusal(status)),
        delete_step(path, None, false, false, false) is Real,
        synthetic_root ==> delete_step(path, target, overlay_takes, ours, true) !is Real,
{
}

// ---------------------------------------------------------------------------------------
// Changes through a synthetic handle.

/// What becomes of a change through a synthetic handle.
pub enum SynthSet {
    /// It is done, with this status; the flag says whether the completed call is written.
    Done(i32, bool),
    /// Have the director cut or extend the file.
    Truncate { fh: u64, size: u64 },
    /// Have the director delete the file.
    Delete { root: u32, vpath: String },
    /// Have the director move the file.
    Rename { root: u32, from: String, to: String },
}

/// What becomes of a change through a synthetic handle, as values.
pub enum SynthView {
    Done(i32, bool),
    Truncate { fh: u64, size: u64 },
    Delete { root: u32, vpath: Seq<char> },
    Rename { root: u32, from: Seq<char>, to: Seq<char> },
}

impl View for SynthSet {
    type V = SynthView;

    open spec fn view(&self) -> SynthView {
        match *self {
            SynthSet::Done(status, w) => SynthView::Done(status, w),
            SynthSet::Truncate { fh, size } => SynthView::Truncate { fh, size },
            SynthSet::Delete { root, vpath } => SynthView::Delete { root, vpath: vpath@ },
            SynthSet::Rename { root, from, to } => SynthView::Rename {
                root,
                from: from@,
                to: to@,
            },
        }
    }
}

/// A root and a path below it, as values.
pub open spec fn place_view(p: Option<(u32, &str)>) -> Option<(u32, Seq<char>)> {
    match p {
        Some((root, v)) => Some((root, v@)),
        None => None,
    }
}

/// The signed number that a block of eight bytes holds.
pub open spec fn signed_in(b: Seq<u8>) -> i64 {
    bytes::u64_in(b, 0) as i64
}

/// Whether a change through a synthetic handle does nothing: no class that is acted on, or a
/// delete or a rename of a file whose place is not known.
pub open spec fn is_noop(b: Seq<u8>, class: u32, source: Option<(u32, Seq<char>)>) -> bool {
    &&& !(class == ntdef::FILE_POSITION_INFORMATION && b.len() >= 8)
    &&& !(class == ntdef::FILE_END_OF_FILE_INFORMATION && b.len() >= 8)
    &&& !((deletes(b, class) || renames(class)) && source is Some)
}

/// What becomes of a change through a synthetic handle. `source` is where the director places
/// the handle's file, `target` where it places a rename's target. Two different roots are
/// refused.
pub open spec fn synth_set(
    opens: Map<u64, fuse_synth::FuseOpen>,
    handle: u64,
    class: u32,
    b: Seq<u8>,
    has_client: bool,
    source: Option<(u32, Seq<char>)>,
    target: Option<(u32, Seq<char>)>,
) -> SynthView {
    if class == ntdef::FILE_POSITION_INFORMATION && b.len() >= 8 {
        SynthView::Done(ntdef::STATUS_SUCCESS, false)
    } else if class == ntdef::FILE_END_OF_FILE_INFORMATION && b.len() >= 8 {
        if opens.contains_key(handle) && has_client && signed_in(b) >= 0 {
            SynthView::Truncate { fh: opens[handle].fh, size: signed_in(b) as u64 }
        } else {
            SynthView::Done(ntdef::STATUS_UNSUCCESSFUL, false)
        }
    } else if is_noop(b, class, source) {
        SynthView::Done(ntdef::STATUS_SUCCESS, false)
    } else {
        match (source, target) {
            (Some((root, from)), Some((dst_root, to))) => if deletes(b, class) {
                SynthView::Delete { root, vpath: open::director_path(from) }
            } else if dst_root == root {
                SynthView::Rename {
                    root,
                    from: open::director_path(from),
                    to: open::director_path(to),
                }
            } else {
                SynthView::Done(ntdef::STATUS_UNSUCCESSFUL, false)
            },
            (Some((root, from)), None) => if deletes(b, class) {
                SynthView::Delete { root, vpath: open::director_path(from) }
            } else {
                SynthView::Done(ntdef::STATUS_UNSUCCESSFUL, false)
            },
            _ => SynthView::Done(ntdef::STATUS_SUCCESS, false),
        }
    }
}

/// The counters after a change through a synthetic handle was taken up: binding one to a
/// completion port is counted, and so is a class that does nothing.
pub open spec fn synth_set_counted(
    c: hookstats::SnapshotView,
    class: u32,
    b: Seq<u8>,
    source: Option<(u32, Seq<char>)>,
) -> hookstats::SnapshotView {
    hookstats::SnapshotView {
        iocp_binds: if class == ntdef::FILE_COMPLETION_INFORMATION {
            c.iocp_binds.wrapping_add(1)
        } else {
            c.iocp_binds
        },
        setinfo_noop: if is_noop(b, class, source) {
            hookstats::class_bumped(c.setinfo_noop, class)
        } else {
            c.setinfo_noop
        },
        ..c
    }
}

/// The open handles after a change through one of them was taken up: only a position that is
/// not negative is taken over.
pub open spec fn synth_positioned(
    opens: Map<u64, fuse_synth::FuseOpen>,
    handle: u64,
    class: u32,
    b: Seq<u8>,
) -> Map<u64, fuse_synth::FuseOpen> {
    if class == ntdef::FILE_POSITION_INFORMATION && b.len() >= 8 && signed_in(b) >= 0
        && opens.contains_key(handle) {
        opens.insert(
            handle,
            fuse_synth::FuseOpen { position: signed_in(b) as u64, ..opens[handle] },
        )
    } else {
        opens
    }
}

/// Takes up a change through a synthetic handle: [`synth_set`], counted as
/// [`synth_set_counted`] says, and the handle moved as [`synth_positioned`] says.
pub fn setinfo_synth(
    s: &mut Stats,
    fuse: &mut FuseTable,
    handle: u64,
    class: u32,
    b: &[u8],
    has_client: bool,
    source: Option<(u32, &str)>,
    target: Option<(u32, &str)>,
) -> (r: SynthSet)
    requires
        old(s).wf(),
        old(fuse).wf(),
    ensures
        final(s).wf(),
        final(fuse).wf(),
        final(fuse).next_slot() == old(fuse).next_slot(),
        final(fuse).opens() == synth_positioned(old(fuse).opens(), handle, class, b@),
        r@ == synth_set(
            old(fuse).opens(),
            handle,
            class,
            b@,
            has_client,
            place_view(source),
            place_view(target),
        ),
        final(s)@ == hookstats::counted(
            old(s)@,
            synth_set_counted(old(s)@.counts, class, b@, place_view(source)),
        ),
{
    let ghost before = s@;
    if class == ntdef::FILE_COMPLETION_INFORMATION {
        hookstats::note_iocp_bind(s);
    }
    if class == ntdef::FILE_POSITION_INFORMATION && b.len() >= 8 {
        let pos: i64 = bytes::u64_at(b, 0) as i64;
        if pos >= 0 {
            fuse_synth::set_position(fuse, handle, pos as u64);
        }
        return SynthSet::Done(ntdef::STATUS_SUCCESS, false);
    }
    if class == ntdef::FILE_END_OF_FILE_INFORMATION && b.len() >= 8 {
        let eof: i64 = bytes::u64_at(b, 0) as i64;
        if has_client && eof >= 0 {
            if let Some((fh, _, _, _, _)) = fuse_synth::lookup(fuse, handle) {
                return SynthSet::Truncate { fh, size: eof as u64 };
            }
        }
        return SynthSet::Done(ntdef::STATUS_UNSUCCESSFUL, false);
    }
    let is_delete = is_delete_request(b, class);
    let is_rename = is_rename_request(class);
    if is_delete || is_rename {
        if let Some((root, from)) = source {
            let src = open::vpath_or_dot(from);
            if is_delete {
                return SynthSet::Delete { root, vpath: src.to_owned() };
            }
            if let Some((dst_root, to)) = target {
                if dst_root == root {
                    return SynthSet::Rename {
                        root,
                        from: src.to_owned(),
                        to: open::vpath_or_dot(to).to_owned(),
                    };
                }
            }
            return SynthSet::Done(ntdef::STATUS_UNSUCCESSFUL, false);
        }
    }
    hookstats::note_setinfo_noop(s, class);
    assert(s@ =~= hookstats::counted(
        before,
        synth_set_counted(before.counts, class, b@, place_view(source)),
    ));
    SynthSet::Done(ntdef::STATUS_SUCCESS, false)
}

/// Ends a cut or extension through a synthetic handle: where the director did it, the handle's
/// size follows. The result is the status, and whether the completed call is written.
pub fn truncate_answer(fuse: &mut FuseTable, handle: u64, size: u64, done: bool) -> (r: (i32, bool))
    requires
        old(fuse).wf(),
    ensures
        final(fuse).wf(),
        final(fuse).next_slot() == old(fuse).next_slot(),
        r == (if done {
            (ntdef::STATUS_SUCCESS, true)
        } else {
            (ntdef::STATUS_UNSUCCESSFUL, false)
        }),
        final(fuse).opens() == (if done && old(fuse).opens().contains_key(handle) {
            old(fuse).opens().insert(
                handle,
                fuse_synth::resized(old(fuse).opens()[handle], size),
            )
        } else {
            old(fuse).opens()
        }),
{
    if !done {
        return (ntdef::STATUS_UNSUCCESSFUL, false);
    }
    fuse_synth::set_size(fuse, handle, size);
    (ntdef::STATUS_SUCCESS, true)
}

/// The status of a delete or a rename through a synthetic handle, and whether the completed
/// call is written.
pub fn director_set_answer(done: bool) -> (r: (i32, bool))
    ensures
        r == (if done {
            (ntdef::STATUS_SUCCESS, true)
        } else {
            (ntdef::STATUS_UNSUCCESSFUL, false)
        }),
{
    if done {
        (ntdef::STATUS_SUCCESS, true)
    } else {
        (ntdef::STATUS_UNSUCCESSFUL, false)
    }
}

/// A rename through a synthetic handle is asked of the director only where both sides lie under
/// one root.
pub proof fn law_synthetic_renames_stay_in_one_root(
    opens: Map<u64, fuse_synth::FuseOpen>,
    handle: u64,
    class: u32,
    b: Seq<u8>,
    has_client: bool,
    source: Option<(u32, Seq<char>)>,
    target: Option<(u32, Seq<char>)>,
)
    ensures
        synth_set(opens, handle, class, b, has_client, source, target) matches SynthView::Rename {
            root,
            from,
            to,
        } ==> (source matches Some((a, p)) && a == root) && (target matches Some((c, q)) && c
            == root),
{
}

// ---------------------------------------------------------------------------------------
// Changes through any handle.

/// How a change through a handle is taken up.
#[derive(Clone, Copy, Debug, PartialEq, Eq, Structural)]
pub enum SetKind {
    /// It goes through a synthetic handle.
    Synthetic,
    /// It deletes or renames through any other handle.
    Change { is_delete: bool },
    /// It is the system's.
    Real,
}

/// How a change through a handle is taken up: every change through a synthetic handle is the
/// shim's, and through any other handle deletes and renames are looked at.
pub open spec fn set_kind(handle: u64, class: u32, b: Seq<u8>) -> SetKind {
    if fuse_synth::tagged(handle) {
        SetKind::Synthetic
    } else if deletes(b, class) {
        SetKind::Change { is_delete: true }
    } else if renames(class) {
        SetKind::Change { is_delete: false }
    } else {
        SetKind::Real
    }
}

/// [`set_kind`].
pub fn setinfo_hook(handle: u64, class: u32, b: &[u8]) -> (r: SetKind)
    ensures
        r == set_kind(handle, class, b@),
{
    if fuse_synth::is_fuse_synth(handle) {
        SetKind::Synthetic
    } else if is_delete_request(b, class) {
        SetKind::Change { is_delete: true }
    } else if is_rename_request(class) {
        SetKind::Change { is_delete: false }
    } else {
        SetKind::Real
    }
}

// ---------------------------------------------------------------------------------------
// Changes through a handle that is not synthetic.

/// What is known about a delete or a rename through a handle that is not synthetic.
#[derive(Clone, Copy, Debug, PartialEq, Eq, Structural)]
pub struct RealSet {
    pub is_delete: bool,
    /// Whether the source is under a managed root; `None` where its path is not known.
    pub source_ours: Option<bool>,
    /// Whether the overlay takes a delete of the source.
    pub overlay_takes: bool,
    /// What the engine makes of a rename; `None` without an engine, a source or a target.
    pub rename: Option<RenameOutcome>,
    /// Whether a rename's target is known and under a managed root.
    pub target_ours: bool,
}

/// What becomes of a change through a handle that is not synthetic.
#[derive(Clone, Copy, Debug, PartialEq, Eq, Structural)]
pub enum RealStep {
    /// The overlay makes it; the system's own is suppressed, and the call succeeds.
    Overlay,
    /// Fail the call.
    Refuse(i32),
    /// Hand the call to the system.
    Real,
}

/// What becomes of a delete or a rename through a handle that is not synthetic: the overlay
/// takes it, or it touches no managed root at all and is the system's. Everything between is
/// refused.
pub open spec fn real_set(c: RealSet) -> RealStep {
    if c.is_delete {
        if c.source_ours is Some && c.overlay_takes {
            RealStep::Overlay
        } else if c.source_ours == Some(true) {
            RealStep::Refuse(ntdef::STATUS_ACCESS_DENIED)
        } else {
            RealStep::Real
        }
    } else if c.source_ours is Some && c.rename == Some(RenameOutcome::Handled) {
        RealStep::Overlay
    } else if c.source_ours is Some && c.rename == Some(RenameOutcome::CrossRoot) {
        RealStep::Refuse(ntdef::STATUS_UNSUCCESSFUL)
    } else if c.source_ours == Some(true) || c.target_ours {
        RealStep::Refuse(ntdef::STATUS_ACCESS_DENIED)
    } else {
        RealStep::Real
    }
}

/// [`real_set`].
pub fn setinfo_real(c: RealSet) -> (r: RealStep)
    ensures
        r == real_set(c),
{
    if let Some(ours) = c.source_ours {
        if c.is_delete {
            if c.overlay_takes {
                return RealStep::Overlay;
            }
        } else {
            match c.rename {
                Some(RenameOutcome::Handled) => {
                    return RealStep::Overlay;
                },
                Some(RenameOutcome::CrossRoot) => {
                    return RealStep::Refuse(ntdef::STATUS_UNSUCCESSFUL);
                },
                _ => {},
            }
        }
        if ours {
            return RealStep::Refuse(ntdef::STATUS_ACCESS_DENIED);
        }
    }
    if !c.is_delete && c.target_ours {
        return RealStep::Refuse(ntdef::STATUS_ACCESS_DENIED);
    }
    RealStep::Real
}

/// A delete or a rename that touches a managed root never reaches the system: not one whose
/// source is under a root, not a rename whose target is, and not one from one root to another.
pub proof fn law_changes_of_a_root_stay_inside(c: RealSet)
    ensures
        c.source_ours == Some(true) ==> real_set(c) != RealStep::Real,
        !c.is_delete && c.target_ours ==> real_set(c) != RealStep::Real,
        !c.is_delete && c.source_ours is Some && c.rename == Some(RenameOutcome::CrossRoot)
            ==> (real_set(c) matches RealStep::Refuse(status) && !ntdef::nt_success(status)),
        c.source_ours != Some(true) && !c.target_ours && !c.overlay_takes && c.rename !is Some
            ==> real_set(c) == RealStep::Real,
{
}

// ---------------------------------------------------------------------------------------
// What a change is for.

/// What a change asks for is read from its class and its block: the plain deletion from its
/// first byte, the one with flags from the lowest bit of its first field; only the two rename
/// classes move a file, and no class does both.
pub proof fn law_requests_are_read_as_written(b: Seq<u8>, class: u32)
    ensures
        class == 13 ==> (deletes(b, class) <==> b.len() > 0 && b[0] != 0),
        class == 64 && b.len() < 4 ==> !deletes(b, class),
        class == 64 && b.len() >= 4 ==> (deletes(b, class) <==> b[0] % 2 == 1),
        class != 13 && class != 64 ==> !deletes(b, class),
        renames(class) <==> class == 10 || class == 65,
        !(deletes(b, class) && renames(class)),
{
    if b.len() >= 4 {
        let x = bytes::u32_in(b, 0);
        let head = b.subrange(0, 4);
        bytes::law_le32_digits(x, head);
        assert(x & 1 == x % 2) by (bit_vector);
        assert(head[0] == b[0]);
        assert(x % 2 == b[0] as u32 % 2) by {
            assert(x == head[0] + 0x100 * head[1] + 0x10000 * head[2] + 0x1000000 * head[3]);
        }
    }
}

/// A rename's target is read as it was written: a block with the directory handle `root` and the
/// name `name` names `name` itself where there is no directory, and else `name` below that
/// directory's path.
pub proof fn law_rename_targets_read_back(
    head: Seq<u8>,
    root: u64,
    name: Seq<char>,
    tail: Seq<u8>,
    parent: Seq<char>,
)
    requires
        head.len() == 8,
        2 * text::utf16_units(name).len() <= u32::MAX,
    ensures
        ({
            let units = text::utf16_units(name);
            let b = head + bytes::le64(root) + bytes::le32((2 * units.len()) as u32)
                + bytes::units_bytes(units) + tail;
            &&& rename_fields(b) == Some((root, name))
            &&& rename_target(b, Some(parent)) == Some(
                if root == 0 {
                    name
                } else {
                    paths::under(parent, name)
                },
            )
            &&& rename_target(b, None) == (if root == 0 {
                Some(name)
            } else {
                None
            })
        }),
{
    broadcast use {bytes::lemma_le32, bytes::lemma_le64};

    let units = text::utf16_units(name);
    let n = (2 * units.len()) as u32;
    let front = head + bytes::le64(root) + bytes::le32(n);
    let b = head + bytes::le64(root) + bytes::le32(n) + bytes::units_bytes(units) + tail;
    bytes::lemma_units_bytes_len(units);
    assert(b =~= front + bytes::units_bytes(units) + tail);
    assert(front.len() == 20);
    bytes::lemma_units_read_back(front, units, tail);
    text::law_utf16_round_trip(name);
    assert(b.subrange(8, 16) =~= bytes::le64(root));
    assert(b.subrange(16, 20) =~= bytes::le32(n));
    assert(n / 2 == units.len());
}

/// What a refused delete fails with: a missing file is missing, what may not be written is
/// denied, a directory is told as one, and everything else is a plain failure.
pub proof fn law_refused_deletes_say_why(status: RingStatus)
    ensures
        delete_refusal(status) == (if status == RingStatus::NotFound {
            ntdef::STATUS_OBJECT_NAME_NOT_FOUND
        } else if status == RingStatus::ReadOnly {
            ntdef::STATUS_ACCESS_DENIED
        } else if status == RingStatus::IsDir {
            ntdef::STATUS_FILE_IS_A_DIRECTORY
        } else {
            ntdef::STATUS_UNSUCCESSFUL
        }),
{
}

/// A delete by path is asked of the director wherever it knows the path, of exactly that root
/// and path, whatever else is so; else the overlay takes it, where it can; else a path under a
/// managed root is denied.
pub proof fn law_a_delete_goes_where_the_file_is(
    path: Seq<char>,
    root: u32,
    vpath: Seq<char>,
    overlay_takes: bool,
    ours: bool,
    synthetic_root: bool,
)
    ensures
        delete_step(path, Some((root, vpath)), overlay_takes, ours, synthetic_root)
            == (DeleteView::AskDirector { root, vpath }),
        delete_step(path, None, true, ours, synthetic_root) is Whiteout,
        delete_step(path, None, false, true, synthetic_root) == DeleteView::Refuse(
            ntdef::STATUS_ACCESS_DENIED,
        ),
        delete_step(path, None, false, false, true) == (DeleteView::RealAbsolute {
            path: open::nt_path(path),
        }),
{
}

/// A change through a synthetic handle does what it asks for: a position is taken over, and an
/// end of file is asked of the director, each as the number that the block holds; a negative one
/// changes nothing, and as an end of file it fails.
pub proof fn law_positions_and_ends_are_set_as_given(
    opens: Map<u64, fuse_synth::FuseOpen>,
    handle: u64,
    v: i64,
    tail: Seq<u8>,
    source: Option<(u32, Seq<char>)>,
    target: Option<(u32, Seq<char>)>,
    other: u64,
)
    requires
        opens.contains_key(handle),
        other != handle,
    ensures
        ({
            let b = bytes::le64(v as u64) + tail;
            let moved = synth_positioned(opens, handle, 14, b);
            &&& v >= 0 ==> moved[handle].position == v
            &&& v < 0 ==> moved == opens
            &&& moved[handle].size == opens[handle].size && moved[handle].fh == opens[handle].fh
            &&& moved.contains_key(other) == opens.contains_key(other) && moved[other]
                == opens[other]
            &&& synth_set(opens, handle, 14, b, true, source, target) == SynthView::Done(0, false)
            &&& v >= 0 ==> synth_set(opens, handle, 20, b, true, source, target)
                == (SynthView::Truncate { fh: opens[handle].fh, size: v as u64 })
            &&& v < 0 ==> (synth_set(opens, handle, 20, b, true, source, target)
                matches SynthView::Done(status, w) && status < 0 && !w)
            &&& synth_positioned(opens, handle, 20, b) == opens
        }),
{
    broadcast use bytes::lemma_le64;

    let b = bytes::le64(v as u64) + tail;
    assert(b.subrange(0, 8) =~= bytes::le64(v as u64));
    assert((v as u64) as i64 == v) by (bit_vector);
}

/// Only a position moves a handle, and only its own.
pub proof fn law_only_positions_move_handles(
    opens: Map<u64, fuse_synth::FuseOpen>,
    handle: u64,
    class: u32,
    b: Seq<u8>,
)
    ensures
        class != 14 || b.len() < 8 || !opens.contains_key(handle) ==> synth_positioned(
            opens,
            handle,
            class,
            b,
        ) == opens,
{
}

/// A delete through a synthetic handle is asked of the director for the file's own place,
/// wherever a rename would lead; a rename for both places, from the first to the second, where
/// they share a root, and else it fails. Without a place nothing is asked and the call succeeds.
pub proof fn law_synthetic_changes_reach_the_director(
    opens: Map<u64, fuse_synth::FuseOpen>,
    handle: u64,
    class: u32,
    b: Seq<u8>,
    has_client: bool,
    root: u32,
    from: Seq<char>,
    dst_root: u32,
    to: Seq<char>,
    target: Option<(u32, Seq<char>)>,
)
    ensures
        deletes(b, class) ==> synth_set(
            opens,
            handle,
            class,
            b,
            has_client,
            Some((root, from)),
            target,
        ) == (SynthView::Delete {
            root,
            vpath: if from.len() == 0 {
                seq!['.']
            } else {
                from
            },
        }),
        (class == 10 || class == 65) && from.len() > 0 && to.len() > 0 && root == dst_root
            ==> synth_set(
            opens,
            handle,
            class,
            b,
            has_client,
            Some((root, from)),
            Some((dst_root, to)),
        ) == (SynthView::Rename { root, from, to }),
        (class == 10 || class == 65) && root != dst_root ==> (synth_set(
            opens,
            handle,
            class,
            b,
            has_client,
            Some((root, from)),
            Some((dst_root, to)),
        ) matches SynthView::Done(status, w) && status < 0),
        class == 10 || class == 65 ==> (synth_set(
            opens,
            handle,
            class,
            b,
            has_client,
            Some((root, from)),
            None,
        ) matches SynthView::Done(status, w) && status < 0),
        class != 14 && class != 20 ==> synth_set(opens, handle, class, b, has_client, None, target)
            == SynthView::Done(0, false),
{
    reveal_strlit(".");
    assert("."@ =~= seq!['.']);
}

/// The names of a step are those that it carries: a rename's source is its source and its target
/// its target.
pub proof fn law_steps_say_what_they_carry(root: u32, a: String, b: String)
    ensures
        (SynthSet::Rename { root, from: a, to: b })@ == (SynthView::Rename {
            root,
            from: a@,
            to: b@,
        }),
        (SynthSet::Delete { root, vpath: a })@ == (SynthView::Delete { root, vpath: a@ }),
        (DeleteStep::AskDirector { root, vpath: a })@ == (DeleteView::AskDirector {
            root,
            vpath: a@,
        }),
        (DeleteStep::RealAbsolute { path: a })@ == (DeleteView::RealAbsolute { path: a@ }),
        (DeleteStep::Real)@ is Real,
        (DeleteStep::Whiteout)@ is Whiteout,
{
}

/// Every change through a handle of the shim's is taken up; through any other handle exactly the
/// deletes and the renames are, each as what it is.
pub proof fn law_changes_are_taken_up(handle: u64, class: u32, b: Seq<u8>)
    ensures
        set_kind(handle, class, b) is Synthetic <==> handle & 0x0000_8000_0000_0000 != 0,
        handle & 0x0000_8000_0000_0000 == 0 ==> {
            &&& deletes(b, class) ==> set_kind(handle, class, b) == (SetKind::Change {
                is_delete: true,
            })
            &&& (class == 10 || class == 65) ==> set_kind(handle, class, b) == (SetKind::Change {
                is_delete: false,
            })
            &&& !deletes(b, class) && class != 10 && class != 65 ==> set_kind(handle, class, b)
                is Real
        },
{
}

/// A change through any other handle: what the overlay takes is the overlay's; a file outside
/// every root is the system's to delete, and to rename where its target is outside too; and what
/// is between is denied, but for a rename from root to root, which fails.
pub proof fn law_real_changes_are_settled(c: RealSet)
    ensures
        c.is_delete && c.source_ours is Some && c.overlay_takes ==> real_set(c)
            == RealStep::Overlay,
        c.is_delete && c.source_ours == Some(true) && !c.overlay_takes ==> real_set(c)
            == RealStep::Refuse(ntdef::STATUS_ACCESS_DENIED),
        c.is_delete && c.source_ours == Some(false) && !c.overlay_takes ==> real_set(c)
            == RealStep::Real,
        c.is_delete && c.source_ours is None ==> real_set(c) == RealStep::Real,
        !c.is_delete && c.source_ours is Some && c.rename == Some(RenameOutcome::Handled)
            ==> real_set(c) == RealStep::Overlay,
        !c.is_delete && c.source_ours is Some && c.rename == Some(RenameOutcome::CrossRoot)
            ==> real_set(c) == RealStep::Refuse(ntdef::STATUS_UNSUCCESSFUL),
        !c.is_delete && (c.source_ours is None || c.rename is None || c.rename == Some(
            RenameOutcome::Declined,
        )) ==> real_set(c) == (if c.source_ours == Some(true) || c.target_ours {
            RealStep::Refuse(ntdef::STATUS_ACCESS_DENIED)
        } else {
            RealStep::Real
        }),
{
}

/// What a change on a handle of the director's counts as: a completion port as one, whatever
/// its block; a change that is neither a position, an end, a delete nor a move, under its class;
/// and a change that is carried out, as nothing.
pub proof fn law_ignored_changes_are_counted(
    c: hookstats::SnapshotView,
    class: u32,
    b: Seq<u8>,
    root: u32,
    vpath: Seq<char>,
)
    ensures
        ({
            let n = synth_set_counted(c, class, b, Some((root, vpath)));
            &&& class == 30 ==> n.iocp_binds == c.iocp_binds.wrapping_add(1)
            &&& class != 30 ==> n.iocp_binds == c.iocp_binds
            &&& class != 14 && class != 20 && class != 13 && class != 64 && class != 10 && class
                != 65 ==> n.setinfo_noop == hookstats::class_bumped(c.setinfo_noop, class)
            &&& (class == 14 || class == 20) && b.len() >= 8 ==> n.setinfo_noop == c.setinfo_noop
            &&& (class == 14 || class == 20) && b.len() < 8 ==> n.setinfo_noop
                == hookstats::class_bumped(c.setinfo_noop, class)
            &&& class == 10 || class == 65 ==> n.setinfo_noop == c.setinfo_noop
        }),
        class == 10 || class == 65 ==> synth_set_counted(c, class, b, None).setinfo_noop
            == hookstats::class_bumped(c.setinfo_noop, class),
{
}

/// A place is taken as it was given: its root and its path.
pub proof fn law_places_are_taken_as_given(root: u32, vpath: &str)
    ensures
        place_view(Some((root, vpath))) == Some((root, vpath@)),
        place_view(None) is None,
{
}

} // verus!

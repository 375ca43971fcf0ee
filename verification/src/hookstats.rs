//! Counters of what the interception does, and the texts that name them.
//!
//! Nothing is counted unless the counters are switched on; the one exception are contained
//! panics, which are always counted.

use crate::tally;
use crate::tally::Tally;
use crate::text;
use vstd::prelude::*;
use vstd::string::*;

verus! {

/// Number of entry points counted apart.
pub const HOOKS: usize = 18;

/// Number of open outcomes.
pub const OUTCOMES: usize = 7;

/// Number of copy-up outcomes.
pub const COPY_UPS: usize = 7;

/// Number of overlay outcomes.
pub const OVERLAY_FAILS: usize = 6;

/// A call that takes longer than this many nanoseconds counts as stalled.
pub const SLOW_NS: u64 = 1000000;

/// Keys that the lock counters learn.
pub const SYNTH_LOCKS_MAX: usize = 2000;

/// Paths that the open counters learn.
pub const PATHS_MAX: usize = 4000;

/// Paths that a report lists.
pub const PATHS_SHOWN: usize = 1000;

/// Lines that the trace keeps.
pub const TRACE_MAX: usize = 4000;

/// Keys that the attribute-query counters learn.
pub const STATS_MAX: usize = 4000;

/// Enumerations that are kept.
pub const READDIRS_MAX: usize = 300;

/// Paths that each outcome's counters learn.
pub const OUTCOME_PATHS_MAX: usize = 4000;

/// Paths that a report lists for each outcome.
pub const OUTCOME_PATHS_SHOWN: usize = 20;

/// Keys that the copy-up counters learn.
pub const COPYUPS_MAX: usize = 2000;

/// Keys that the overlay counters learn.
pub const OVERLAY_FAILS_MAX: usize = 2000;

/// Undecodable names that a report lists.
pub const UNDECODABLE_SHOWN: usize = 60;

/// The entry points whose calls are counted and timed apart.
#[derive(Copy, Clone, Debug, PartialEq, Eq, Structural)]
pub enum Hook {
    /// `NtCreateFile`.
    Create,
    /// `NtOpenFile`.
    Open,
    /// `NtQueryAttributesFile`.
    QAttr,
    /// `NtQueryFullAttributesFile`.
    QFull,
    /// `NtReadFile`.
    Read,
    /// `NtWriteFile`.
    Write,
    /// `NtClose`.
    Close,
    /// `NtQueryDirectoryFileEx`.
    QDirEx,
    /// `NtQueryInformationFile`.
    QueryInfo,
    /// `NtCreateSection`.
    CreateSection,
    /// `NtMapViewOfSection`.
    MapView,
    /// `NtQueryDirectoryFile`.
    QDir,
    /// `NtQueryInformationByName`.
    QByName,
    /// `NtSetInformationFile`.
    SetInfo,
    /// `NtQueryVolumeInformationFile`.
    QVol,
    /// `NtLockFile`.
    Lock,
    /// `NtUnlockFile`.
    Unlock,
    /// `NtFlushBuffersFile`.
    FlushBuffers,
}

impl Hook {
    /// The position in the counters.
    pub open spec fn spec_index(self) -> int {
        match self {
            Hook::Create => 0,
            Hook::Open => 1,
            Hook::QAttr => 2,
            Hook::QFull => 3,
            Hook::Read => 4,
            Hook::Write => 5,
            Hook::Close => 6,
            Hook::QDirEx => 7,
            Hook::QueryInfo => 8,
            Hook::CreateSection => 9,
            Hook::MapView => 10,
            Hook::QDir => 11,
            Hook::QByName => 12,
            Hook::SetInfo => 13,
            Hook::QVol => 14,
            Hook::Lock => 15,
            Hook::Unlock => 16,
            Hook::FlushBuffers => 17,
        }
    }

    /// [`Hook::spec_index`].
    pub fn index(self) -> (i: usize)
        ensures
            i == self.spec_index(),
            i < 18,
    {
        match self {
            Hook::Create => 0,
            Hook::Open => 1,
            Hook::QAttr => 2,
            Hook::QFull => 3,
            Hook::Read => 4,
            Hook::Write => 5,
            Hook::Close => 6,
            Hook::QDirEx => 7,
            Hook::QueryInfo => 8,
            Hook::CreateSection => 9,
            Hook::MapView => 10,
            Hook::QDir => 11,
            Hook::QByName => 12,
            Hook::SetInfo => 13,
            Hook::QVol => 14,
            Hook::Lock => 15,
            Hook::Unlock => 16,
            Hook::FlushBuffers => 17,
        }
    }

    /// The text that stands for it in a report.
    pub open spec fn label_text(self) -> Seq<char> {
        match self {
            Hook::Create => "NtCreateFile"@,
            Hook::Open => "NtOpenFile"@,
            Hook::QAttr => "NtQueryAttributesFile"@,
            Hook::QFull => "NtQueryFullAttributesFile"@,
            Hook::Read => "NtReadFile"@,
            Hook::Write => "NtWriteFile"@,
            Hook::Close => "NtClose"@,
            Hook::QDirEx => "NtQueryDirectoryFileEx"@,
            Hook::QueryInfo => "NtQueryInformationFile"@,
            Hook::CreateSection => "NtCreateSection"@,
            Hook::MapView => "NtMapViewOfSection"@,
            Hook::QDir => "NtQueryDirectoryFile"@,
            Hook::QByName => "NtQueryInformationByName"@,
            Hook::SetInfo => "NtSetInformationFile"@,
            Hook::QVol => "NtQueryVolumeInformationFile"@,
            Hook::Lock => "NtLockFile"@,
            Hook::Unlock => "NtUnlockFile"@,
            Hook::FlushBuffers => "NtFlushBuffersFile"@,
        }
    }

    /// [`Hook::label_text`].
    pub fn label(self) -> (s: &'static str)
        ensures
            s@ == self.label_text(),
    {
        match self {
            Hook::Create => "NtCreateFile",
            Hook::Open => "NtOpenFile",
            Hook::QAttr => "NtQueryAttributesFile",
            Hook::QFull => "NtQueryFullAttributesFile",
            Hook::Read => "NtReadFile",
            Hook::Write => "NtWriteFile",
            Hook::Close => "NtClose",
            Hook::QDirEx => "NtQueryDirectoryFileEx",
            Hook::QueryInfo => "NtQueryInformationFile",
            Hook::CreateSection => "NtCreateSection",
            Hook::MapView => "NtMapViewOfSection",
            Hook::QDir => "NtQueryDirectoryFile",
            Hook::QByName => "NtQueryInformationByName",
            Hook::SetInfo => "NtSetInformationFile",
            Hook::QVol => "NtQueryVolumeInformationFile",
            Hook::Lock => "NtLockFile",
            Hook::Unlock => "NtUnlockFile",
            Hook::FlushBuffers => "NtFlushBuffersFile",
        }
    }
}

/// What produced a directory listing.
#[derive(Copy, Clone, Debug, PartialEq, Eq, Structural)]
pub enum ReadDirSource {
    /// The director answered; nothing else can appear in it.
    Director,
    /// Under a managed root, but the director could not be asked: the write overlay's entries alone.
    ContainedNoDirector,
    /// Outside every managed root: the system answered.
    Os,
}

impl ReadDirSource {
    /// The text that stands for it in a report.
    pub open spec fn label_text(self) -> Seq<char> {
        match self {
            ReadDirSource::Director => "director"@,
            ReadDirSource::ContainedNoDirector => "contained"@,
            ReadDirSource::Os => "OS"@,
        }
    }

    /// [`ReadDirSource::label_text`].
    pub fn label(self) -> (s: &'static str)
        ensures
            s@ == self.label_text(),
    {
        match self {
            ReadDirSource::Director => "director",
            ReadDirSource::ContainedNoDirector => "contained",
            ReadDirSource::Os => "OS",
        }
    }
}

/// Which way an open under a managed root took.
#[derive(Copy, Clone, Debug, PartialEq, Eq, Structural)]
pub enum OpenOutcome {
    /// The director answered it.
    Routed,
    /// It was redirected to another file.
    FellThroughRedirect,
    /// It was served from a mapped window; no route records this.
    FellThroughServe,
    /// It was passed to the system.
    FellThroughPassthrough,
    /// It was excepted by its name; no route records this.
    FellThroughDrmException,
    /// A write fell back to the system, because the root is unsealed.
    FellThroughWriteFallback,
    /// It was refused.
    Denied,
}

impl OpenOutcome {
    /// The position in the counters.
    pub open spec fn spec_index(self) -> int {
        match self {
            OpenOutcome::Routed => 0,
            OpenOutcome::FellThroughRedirect => 1,
            OpenOutcome::FellThroughServe => 2,
            OpenOutcome::FellThroughPassthrough => 3,
            OpenOutcome::FellThroughDrmException => 4,
            OpenOutcome::FellThroughWriteFallback => 5,
            OpenOutcome::Denied => 6,
        }
    }

    /// [`OpenOutcome::spec_index`].
    pub fn index(self) -> (i: usize)
        ensures
            i == self.spec_index(),
            i < 7,
    {
        match self {
            OpenOutcome::Routed => 0,
            OpenOutcome::FellThroughRedirect => 1,
            OpenOutcome::FellThroughServe => 2,
            OpenOutcome::FellThroughPassthrough => 3,
            OpenOutcome::FellThroughDrmException => 4,
            OpenOutcome::FellThroughWriteFallback => 5,
            OpenOutcome::Denied => 6,
        }
    }

    /// The text that stands for it in a report.
    pub open spec fn label_text(self) -> Seq<char> {
        match self {
            OpenOutcome::Routed => "routed"@,
            OpenOutcome::FellThroughRedirect => "fell-through: redirect"@,
            OpenOutcome::FellThroughServe => "fell-through: serve"@,
            OpenOutcome::FellThroughPassthrough => "fell-through: passthrough"@,
            OpenOutcome::FellThroughDrmException => "fell-through: drm-exception"@,
            OpenOutcome::FellThroughWriteFallback => "fell-through: write-fallback"@,
            OpenOutcome::Denied => "denied"@,
        }
    }

    /// [`OpenOutcome::label_text`].
    pub fn label(self) -> (s: &'static str)
        ensures
            s@ == self.label_text(),
    {
        match self {
            OpenOutcome::Routed => "routed",
            OpenOutcome::FellThroughRedirect => "fell-through: redirect",
            OpenOutcome::FellThroughServe => "fell-through: serve",
            OpenOutcome::FellThroughPassthrough => "fell-through: passthrough",
            OpenOutcome::FellThroughDrmException => "fell-through: drm-exception",
            OpenOutcome::FellThroughWriteFallback => "fell-through: write-fallback",
            OpenOutcome::Denied => "denied",
        }
    }
}

/// How a copy of existing content into the write overlay ended.
#[derive(Copy, Clone, Debug, PartialEq, Eq, Structural)]
pub enum CopyUp {
    /// The destination holds the director's bytes in full.
    Seeded,
    /// There is no director to read from.
    DeclinedNoDirector,
    /// Own file operations were already under way on this thread.
    DeclinedReentrant,
    /// The path names an alternate data stream.
    DeclinedStream,
    /// The director did not open the file.
    DirectorRefused,
    /// The file was opened but not read in full.
    ReadFailed,
    /// The destination could not be created or written.
    DestWriteFailed,
}

impl CopyUp {
    /// The position in the counters.
    pub open spec fn spec_index(self) -> int {
        match self {
            CopyUp::Seeded => 0,
            CopyUp::DeclinedNoDirector => 1,
            CopyUp::DeclinedReentrant => 2,
            CopyUp::DeclinedStream => 3,
            CopyUp::DirectorRefused => 4,
            CopyUp::ReadFailed => 5,
            CopyUp::DestWriteFailed => 6,
        }
    }

    /// [`CopyUp::spec_index`].
    pub fn index(self) -> (i: usize)
        ensures
            i == self.spec_index(),
            i < 7,
    {
        match self {
            CopyUp::Seeded => 0,
            CopyUp::DeclinedNoDirector => 1,
            CopyUp::DeclinedReentrant => 2,
            CopyUp::DeclinedStream => 3,
            CopyUp::DirectorRefused => 4,
            CopyUp::ReadFailed => 5,
            CopyUp::DestWriteFailed => 6,
        }
    }

    /// The text that stands for it in a report.
    pub open spec fn label_text(self) -> Seq<char> {
        match self {
            CopyUp::Seeded => "seeded"@,
            CopyUp::DeclinedNoDirector => "declined: no director"@,
            CopyUp::DeclinedReentrant => "declined: reentrant"@,
            CopyUp::DeclinedStream => "declined: stream suffix"@,
            CopyUp::DirectorRefused => "FAILED: director refused"@,
            CopyUp::ReadFailed => "FAILED: read"@,
            CopyUp::DestWriteFailed => "FAILED: destination write"@,
        }
    }

    /// [`CopyUp::label_text`].
    pub fn label(self) -> (s: &'static str)
        ensures
            s@ == self.label_text(),
    {
        match self {
            CopyUp::Seeded => "seeded",
            CopyUp::DeclinedNoDirector => "declined: no director",
            CopyUp::DeclinedReentrant => "declined: reentrant",
            CopyUp::DeclinedStream => "declined: stream suffix",
            CopyUp::DirectorRefused => "FAILED: director refused",
            CopyUp::ReadFailed => "FAILED: read",
            CopyUp::DestWriteFailed => "FAILED: destination write",
        }
    }
}

/// How a change of the write overlay ended.
#[derive(Copy, Clone, Debug, PartialEq, Eq, Structural)]
pub enum OverlayFail {
    /// The parent directory could not be created.
    EnsureParent,
    /// A deletion mark could not be removed.
    ClearWhiteout,
    /// A deletion mark could not be written.
    Whiteout,
    /// A move failed.
    Rename,
    /// Own file operations were already under way on this thread.
    DeclinedReentrant,
    /// The change was made.
    Succeeded,
}

impl OverlayFail {
    /// The position in the counters.
    pub open spec fn spec_index(self) -> int {
        match self {
            OverlayFail::EnsureParent => 0,
            OverlayFail::ClearWhiteout => 1,
            OverlayFail::Whiteout => 2,
            OverlayFail::Rename => 3,
            OverlayFail::DeclinedReentrant => 4,
            OverlayFail::Succeeded => 5,
        }
    }

    /// [`OverlayFail::spec_index`].
    pub fn index(self) -> (i: usize)
        ensures
            i == self.spec_index(),
            i < 6,
    {
        match self {
            OverlayFail::EnsureParent => 0,
            OverlayFail::ClearWhiteout => 1,
            OverlayFail::Whiteout => 2,
            OverlayFail::Rename => 3,
            OverlayFail::DeclinedReentrant => 4,
            OverlayFail::Succeeded => 5,
        }
    }

    /// The text that stands for it in a report.
    pub open spec fn label_text(self) -> Seq<char> {
        match self {
            OverlayFail::EnsureParent => "FAILED: overlay mkdir"@,
            OverlayFail::ClearWhiteout => "FAILED: clear whiteout"@,
            OverlayFail::Whiteout => "FAILED: write whiteout"@,
            OverlayFail::Rename => "FAILED: overlay rename"@,
            OverlayFail::DeclinedReentrant => "declined: reentrant"@,
            OverlayFail::Succeeded => "succeeded"@,
        }
    }

    /// [`OverlayFail::label_text`].
    pub fn label(self) -> (s: &'static str)
        ensures
            s@ == self.label_text(),
    {
        match self {
            OverlayFail::EnsureParent => "FAILED: overlay mkdir",
            OverlayFail::ClearWhiteout => "FAILED: clear whiteout",
            OverlayFail::Whiteout => "FAILED: write whiteout",
            OverlayFail::Rename => "FAILED: overlay rename",
            OverlayFail::DeclinedReentrant => "declined: reentrant",
            OverlayFail::Succeeded => "succeeded",
        }
    }
}
/// Every open outcome, in the order of the counters.
pub fn all_outcomes() -> (v: Vec<OpenOutcome>)
    ensures
        v@.len() == OUTCOMES,
        forall|i: int| 0 <= i < OUTCOMES ==> (#[trigger] v@[i]).spec_index() == i,
{
    vec![
        OpenOutcome::Routed,
        OpenOutcome::FellThroughRedirect,
        OpenOutcome::FellThroughServe,
        OpenOutcome::FellThroughPassthrough,
        OpenOutcome::FellThroughDrmException,
        OpenOutcome::FellThroughWriteFallback,
        OpenOutcome::Denied,
    ]
}

/// Every copy-up outcome, in the order of the counters.
pub fn all_copy_ups() -> (v: Vec<CopyUp>)
    ensures
        v@.len() == COPY_UPS,
        forall|i: int| 0 <= i < COPY_UPS ==> (#[trigger] v@[i]).spec_index() == i,
{
    vec![
        CopyUp::Seeded,
        CopyUp::DeclinedNoDirector,
        CopyUp::DeclinedReentrant,
        CopyUp::DeclinedStream,
        CopyUp::DirectorRefused,
        CopyUp::ReadFailed,
        CopyUp::DestWriteFailed,
    ]
}

/// Every overlay outcome, in the order of the counters.
pub fn all_overlay_fails() -> (v: Vec<OverlayFail>)
    ensures
        v@.len() == OVERLAY_FAILS,
        forall|i: int| 0 <= i < OVERLAY_FAILS ==> (#[trigger] v@[i]).spec_index() == i,
{
    vec![
        OverlayFail::EnsureParent,
        OverlayFail::ClearWhiteout,
        OverlayFail::Whiteout,
        OverlayFail::Rename,
        OverlayFail::DeclinedReentrant,
        OverlayFail::Succeeded,
    ]
}

/// The label of opens that no routed open accounts for.
pub open spec fn unrouted_label() -> Seq<char> {
    "director-open: unrouted"@
}

/// [`unrouted_label`].
pub fn unrouted_open_label() -> (s: &'static str)
    ensures
        s@ == unrouted_label(),
{
    "director-open: unrouted"
}

/// Two open outcomes never share a label, nor does one share the label of unrouted opens.
pub proof fn law_outcome_labels_are_distinct(a: OpenOutcome, b: OpenOutcome)
    ensures
        a != b ==> a.label_text() != b.label_text(),
        a.label_text() != unrouted_label(),
{
    reveal_strlit("routed");
    assert("routed"@.len() == 6);
    reveal_strlit("fell-through: redirect");
    assert("fell-through: redirect"@.len() == 22);
    reveal_strlit("fell-through: serve");
    assert("fell-through: serve"@.len() == 19);
    reveal_strlit("fell-through: passthrough");
    assert("fell-through: passthrough"@.len() == 25);
    reveal_strlit("fell-through: drm-exception");
    assert("fell-through: drm-exception"@.len() == 27);
    reveal_strlit("fell-through: write-fallback");
    assert("fell-through: write-fallback"@.len() == 28);
    reveal_strlit("denied");
    assert("denied"@.len() == 6);
    reveal_strlit("director-open: unrouted");
    assert("director-open: unrouted"@.len() == 23);
    assert("routed"@[0] != "denied"@[0]);
}

/// Two copy-up outcomes never share a label.
pub proof fn law_copy_up_labels_are_distinct(a: CopyUp, b: CopyUp)
    ensures
        a != b ==> a.label_text() != b.label_text(),
{
    reveal_strlit("seeded");
    assert("seeded"@.len() == 6);
    reveal_strlit("declined: no director");
    assert("declined: no director"@.len() == 21);
    reveal_strlit("declined: reentrant");
    assert("declined: reentrant"@.len() == 19);
    reveal_strlit("declined: stream suffix");
    assert("declined: stream suffix"@.len() == 23);
    reveal_strlit("FAILED: director refused");
    assert("FAILED: director refused"@.len() == 24);
    reveal_strlit("FAILED: read");
    assert("FAILED: read"@.len() == 12);
    reveal_strlit("FAILED: destination write");
    assert("FAILED: destination write"@.len() == 25);
}

/// Two overlay outcomes never share a label.
pub proof fn law_overlay_labels_are_distinct(a: OverlayFail, b: OverlayFail)
    ensures
        a != b ==> a.label_text() != b.label_text(),
{
    reveal_strlit("FAILED: overlay mkdir");
    assert("FAILED: overlay mkdir"@.len() == 21);
    reveal_strlit("FAILED: clear whiteout");
    assert("FAILED: clear whiteout"@.len() == 22);
    reveal_strlit("FAILED: write whiteout");
    assert("FAILED: write whiteout"@.len() == 22);
    reveal_strlit("FAILED: overlay rename");
    assert("FAILED: overlay rename"@.len() == 22);
    reveal_strlit("declined: reentrant");
    assert("declined: reentrant"@.len() == 19);
    reveal_strlit("succeeded");
    assert("succeeded"@.len() == 9);
    assert("FAILED: clear whiteout"@[8] == 'c');
    assert("FAILED: write whiteout"@[8] == 'w');
    assert("FAILED: overlay rename"@[8] == 'o');
}

/// Two sources of a listing never share a label.
pub proof fn law_readdir_labels_are_distinct(a: ReadDirSource, b: ReadDirSource)
    ensures
        a != b ==> a.label_text() != b.label_text(),
{
    reveal_strlit("director");
    assert("director"@.len() == 8);
    reveal_strlit("contained");
    assert("contained"@.len() == 9);
    reveal_strlit("OS");
    assert("OS"@.len() == 2);
}

// ---------------------------------------------------------------------------------------
// The counters.

/// A set-information class and its count.
#[derive(Clone, Copy, Debug, PartialEq, Eq, Structural)]
pub struct ClassCount {
    pub class: u32,
    pub count: u64,
}

/// Every counter at one instant.
pub struct Snapshot {
    /// Calls of each entry point.
    pub calls: [u64; 18],
    /// Their time in nanoseconds.
    pub nanos: [u64; 18],
    /// Those that the VFS served.
    pub rooted: [u64; 18],
    /// The slowest.
    pub max_nanos: [u64; 18],
    /// Those that stalled.
    pub slow: [u64; 18],
    pub async_opens: u64,
    pub sync_opens: u64,
    pub apc_reads: u64,
    pub event_reads: u64,
    pub bare_reads: u64,
    pub iocp_binds: u64,
    pub fills_started: u64,
    pub fills_completed: u64,
    pub fills_failed: u64,
    pub fill_bytes: u64,
    pub fill_nanos: u64,
    pub fill_max_nanos: u64,
    pub setinfo_noop: Vec<ClassCount>,
    pub synth_locks: Tally,
    pub passthrough: Tally,
    pub undecodable: Tally,
    pub trace: Vec<String>,
    pub stats: Tally,
    pub readdirs: Vec<String>,
    pub outcome_counts: [u64; 7],
    /// One table of paths for each outcome.
    pub outcome_paths: Vec<Tally>,
    pub unrouted_director_opens: u64,
    pub copy_up_counts: [u64; 7],
    pub copy_up_bytes: u64,
    pub copy_ups: Tally,
    pub overlay_fail_counts: [u64; 6],
    pub overlay_fails: Tally,
}

/// Every counter, as values.
#[verifier::ext_equal]
pub struct SnapshotView {
    pub calls: Seq<u64>,
    pub nanos: Seq<u64>,
    pub rooted: Seq<u64>,
    pub max_nanos: Seq<u64>,
    pub slow: Seq<u64>,
    pub async_opens: u64,
    pub sync_opens: u64,
    pub apc_reads: u64,
    pub event_reads: u64,
    pub bare_reads: u64,
    pub iocp_binds: u64,
    pub fills_started: u64,
    pub fills_completed: u64,
    pub fills_failed: u64,
    pub fill_bytes: u64,
    pub fill_nanos: u64,
    pub fill_max_nanos: u64,
    pub setinfo_noop: Seq<ClassCount>,
    pub synth_locks: Seq<tally::RowView>,
    pub passthrough: Seq<tally::RowView>,
    pub undecodable: Seq<tally::RowView>,
    pub trace: Seq<Seq<char>>,
    pub stats: Seq<tally::RowView>,
    pub readdirs: Seq<Seq<char>>,
    pub outcome_counts: Seq<u64>,
    pub outcome_paths: Seq<Seq<tally::RowView>>,
    pub unrouted_director_opens: u64,
    pub copy_up_counts: Seq<u64>,
    pub copy_up_bytes: u64,
    pub copy_ups: Seq<tally::RowView>,
    pub overlay_fail_counts: Seq<u64>,
    pub overlay_fails: Seq<tally::RowView>,
}

/// The rows of several tables.
pub open spec fn tallies(v: Seq<Tally>) -> Seq<Seq<tally::RowView>> {
    v.map_values(|t: Tally| t.view_rows())
}

impl View for Snapshot {
    type V = SnapshotView;

    open spec fn view(&self) -> SnapshotView {
        SnapshotView {
            calls: self.calls@,
            nanos: self.nanos@,
            rooted: self.rooted@,
            max_nanos: self.max_nanos@,
            slow: self.slow@,
            async_opens: self.async_opens,
            sync_opens: self.sync_opens,
            apc_reads: self.apc_reads,
            event_reads: self.event_reads,
            bare_reads: self.bare_reads,
            iocp_binds: self.iocp_binds,
            fills_started: self.fills_started,
            fills_completed: self.fills_completed,
            fills_failed: self.fills_failed,
            fill_bytes: self.fill_bytes,
            fill_nanos: self.fill_nanos,
            fill_max_nanos: self.fill_max_nanos,
            setinfo_noop: self.setinfo_noop@,
            synth_locks: self.synth_locks.view_rows(),
            passthrough: self.passthrough.view_rows(),
            undecodable: self.undecodable.view_rows(),
            trace: text::texts(self.trace@),
            stats: self.stats.view_rows(),
            readdirs: text::texts(self.readdirs@),
            outcome_counts: self.outcome_counts@,
            outcome_paths: tallies(self.outcome_paths@),
            unrouted_director_opens: self.unrouted_director_opens,
            copy_up_counts: self.copy_up_counts@,
            copy_up_bytes: self.copy_up_bytes,
            copy_ups: self.copy_ups.view_rows(),
            overlay_fail_counts: self.overlay_fail_counts@,
            overlay_fails: self.overlay_fails.view_rows(),
        }
    }
}

/// `n` zeros.
pub open spec fn none_counted(n: nat) -> Seq<u64> {
    Seq::new(n, |i: int| 0u64)
}

/// Nothing was counted.
pub open spec fn empty_view() -> SnapshotView {
    SnapshotView {
        calls: none_counted(18),
        nanos: none_counted(18),
        rooted: none_counted(18),
        max_nanos: none_counted(18),
        slow: none_counted(18),
        async_opens: 0,
        sync_opens: 0,
        apc_reads: 0,
        event_reads: 0,
        bare_reads: 0,
        iocp_binds: 0,
        fills_started: 0,
        fills_completed: 0,
        fills_failed: 0,
        fill_bytes: 0,
        fill_nanos: 0,
        fill_max_nanos: 0,
        setinfo_noop: seq![],
        synth_locks: seq![],
        passthrough: seq![],
        undecodable: seq![],
        trace: seq![],
        stats: seq![],
        readdirs: seq![],
        outcome_counts: none_counted(7),
        outcome_paths: Seq::new(7, |i: int| Seq::<tally::RowView>::empty()),
        unrouted_director_opens: 0,
        copy_up_counts: none_counted(7),
        copy_up_bytes: 0,
        copy_ups: seq![],
        overlay_fail_counts: none_counted(6),
        overlay_fails: seq![],
    }
}

impl Snapshot {
    /// There is a table of paths for each outcome.
    pub open spec fn wf(self) -> bool {
        self.outcome_paths@.len() == OUTCOMES
    }

    /// [`empty_view`].
    pub fn empty() -> (s: Snapshot)
        ensures
            s.wf(),
            s@ == empty_view(),
    {
        let mut outcome_paths: Vec<Tally> = Vec::new();
        let mut i: usize = 0;
        while i < OUTCOMES
            invariant
                i <= OUTCOMES,
                outcome_paths@.len() == i,
                forall|k: int|
                    0 <= k < i ==> (#[trigger] outcome_paths@[k]).view_rows() == Seq::<
                        tally::RowView,
                    >::empty(),
            decreases OUTCOMES - i,
        {
            outcome_paths.push(Tally::new());
            i = i + 1;
        }
        let s = Snapshot {
            calls: [0; 18],
            nanos: [0; 18],
            rooted: [0; 18],
            max_nanos: [0; 18],
            slow: [0; 18],
            async_opens: 0,
            sync_opens: 0,
            apc_reads: 0,
            event_reads: 0,
            bare_reads: 0,
            iocp_binds: 0,
            fills_started: 0,
            fills_completed: 0,
            fills_failed: 0,
            fill_bytes: 0,
            fill_nanos: 0,
            fill_max_nanos: 0,
            setinfo_noop: Vec::new(),
            synth_locks: Tally::new(),
            passthrough: Tally::new(),
            undecodable: Tally::new(),
            trace: Vec::new(),
            stats: Tally::new(),
            readdirs: Vec::new(),
            outcome_counts: [0; 7],
            outcome_paths,
            unrouted_director_opens: 0,
            copy_up_counts: [0; 7],
            copy_up_bytes: 0,
            copy_ups: Tally::new(),
            overlay_fail_counts: [0; 6],
            overlay_fails: Tally::new(),
        };
        assert(s@.calls =~= none_counted(18));
        assert(s@.outcome_counts =~= none_counted(7));
        assert(s@.overlay_fail_counts =~= none_counted(6));
        assert(s@.outcome_paths =~= empty_view().outcome_paths);
        assert(s@.trace =~= empty_view().trace);
        assert(s@.readdirs =~= empty_view().readdirs);
        assert(s@ =~= empty_view());
        s
    }
}

/// The counters of a process, and whether they are switched on.
pub struct Stats {
    pub on: bool,
    pub counts: Snapshot,
    /// Contained panics by entry point.
    pub panics: Tally,
}

/// The counters of a process, as values.
#[verifier::ext_equal]
pub struct StatsView {
    pub on: bool,
    pub counts: SnapshotView,
    pub panics: Seq<tally::RowView>,
}

impl View for Stats {
    type V = StatsView;

    open spec fn view(&self) -> StatsView {
        StatsView {
            on: self.on,
            counts: self.counts@,
            panics: self.panics.view_rows(),
        }
    }
}

/// The state of the counters after `counts` were reached, where they are switched on; nothing
/// changes where they are not.
pub open spec fn counted(s: StatsView, counts: SnapshotView) -> StatsView {
    if s.on {
        StatsView { counts, ..s }
    } else {
        s
    }
}

impl Stats {
    /// The snapshot is well formed.
    pub open spec fn wf(self) -> bool {
        self.counts.wf()
    }

    /// Nothing counted yet.
    pub fn new(on: bool) -> (s: Stats)
        ensures
            s.wf(),
            s@ == (StatsView { on, counts: empty_view(), panics: seq![] }),
    {
        Stats { on, counts: Snapshot::empty(), panics: Tally::new() }
    }
}

/// Whether the counters are switched on.
pub fn enabled(s: &Stats) -> (r: bool)
    ensures
        r == s@.on,
{
    s.on
}

/// One call of an entry point, being timed.
#[derive(Clone, Copy, Debug, PartialEq, Eq, Structural)]
pub struct Timed {
    pub hook: Hook,
    /// When it started; `None` where the counters are switched off.
    pub start: Option<u64>,
    /// Whether the VFS served it.
    pub rooted: bool,
}

/// The counters after a call of `hook` that took `ns` nanoseconds.
pub open spec fn timed_call(c: SnapshotView, hook: Hook, ns: u64, rooted: bool) -> SnapshotView {
    let i = hook.spec_index();
    SnapshotView {
        calls: c.calls.update(i, c.calls[i].wrapping_add(1)),
        nanos: c.nanos.update(i, c.nanos[i].wrapping_add(ns)),
        slow: if ns > SLOW_NS {
            c.slow.update(i, c.slow[i].wrapping_add(1))
        } else {
            c.slow
        },
        max_nanos: if ns > c.max_nanos[i] {
            c.max_nanos.update(i, ns)
        } else {
            c.max_nanos
        },
        rooted: if rooted {
            c.rooted.update(i, c.rooted[i].wrapping_add(1))
        } else {
            c.rooted
        },
        ..c
    }
}

impl Timed {
    /// Starts timing a call at `now`, unless the counters are switched off.
    pub fn new(s: &Stats, hook: Hook, now: u64) -> (t: Timed)
        ensures
            t == (Timed {
                hook,
                start: if s@.on {
                    Some(now)
                } else {
                    None
                },
                rooted: false,
            }),
    {
        Timed {
            hook,
            start: if s.on {
                Some(now)
            } else {
                None
            },
            rooted: false,
        }
    }

    /// Marks the call as served by the VFS.
    pub fn mark_rooted(&mut self)
        ensures
            *final(self) == (Timed { rooted: true, ..*old(self) }),
    {
        self.rooted = true;
    }

    /// Records the call, which ends at `now`; one that was not being timed leaves no trace.
    pub fn finish(self, s: &mut Stats, now: u64)
        requires
            old(s).wf(),
        ensures
            final(s).wf(),
            final(s)@ == match self.start {
                Some(start) => StatsView {
                    counts: timed_call(
                        old(s)@.counts,
                        self.hook,
                        now.saturating_sub(start),
                        self.rooted,
                    ),
                    ..old(s)@
                },
                None => old(s)@,
            },
    {
        let start: u64 = match self.start {
            Some(t) => t,
            None => {
                return;
            },
        };
        let i: usize = self.hook.index();
        let ns: u64 = now.saturating_sub(start);
        let ghost before = s@;
        s.counts.calls[i] = s.counts.calls[i].wrapping_add(1);
        s.counts.nanos[i] = s.counts.nanos[i].wrapping_add(ns);
        if ns > SLOW_NS {
            s.counts.slow[i] = s.counts.slow[i].wrapping_add(1);
        }
        if ns > s.counts.max_nanos[i] {
            s.counts.max_nanos[i] = ns;
        }
        if self.rooted {
            s.counts.rooted[i] = s.counts.rooted[i].wrapping_add(1);
        }
        assert(s@ =~= StatsView {
            counts: timed_call(before.counts, self.hook, ns, self.rooted),
            ..before
        });
    }
}

// ---------------------------------------------------------------------------------------
// What is counted.

/// A synthetic handle was opened, for synchronous use or not.
pub fn note_open_sync(s: &mut Stats, synchronous: bool)
    requires
        old(s).wf(),
    ensures
        final(s).wf(),
        final(s)@ == counted(
            old(s)@,
            SnapshotView {
                sync_opens: if synchronous {
                    old(s)@.counts.sync_opens.wrapping_add(1)
                } else {
                    old(s)@.counts.sync_opens
                },
                async_opens: if synchronous {
                    old(s)@.counts.async_opens
                } else {
                    old(s)@.counts.async_opens.wrapping_add(1)
                },
                ..old(s)@.counts
            },
        ),
{
    if !s.on {
        return;
    }
    let ghost before = s@;
    if synchronous {
        s.counts.sync_opens = s.counts.sync_opens.wrapping_add(1);
    } else {
        s.counts.async_opens = s.counts.async_opens.wrapping_add(1);
    }
}

/// The counters after a read on a synthetic handle.
pub open spec fn read_completed(c: SnapshotView, has_apc: bool, has_event: bool) -> SnapshotView {
    if has_apc {
        SnapshotView { apc_reads: c.apc_reads.wrapping_add(1), ..c }
    } else if has_event {
        SnapshotView { event_reads: c.event_reads.wrapping_add(1), ..c }
    } else {
        SnapshotView { bare_reads: c.bare_reads.wrapping_add(1), ..c }
    }
}

/// A read on a synthetic handle, by how its caller expects to learn of its completion: a
/// routine, an event, or neither.
pub fn note_read_completion(s: &mut Stats, has_apc: bool, has_event: bool)
    requires
        old(s).wf(),
    ensures
        final(s).wf(),
        final(s)@ == counted(old(s)@, read_completed(old(s)@.counts, has_apc, has_event)),
{
    if !s.on {
        return;
    }
    if has_apc {
        s.counts.apc_reads = s.counts.apc_reads.wrapping_add(1);
    } else if has_event {
        s.counts.event_reads = s.counts.event_reads.wrapping_add(1);
    } else {
        s.counts.bare_reads = s.counts.bare_reads.wrapping_add(1);
    }
}

/// The counters after a fill of a mapped window began.
pub open spec fn fill_begun(c: SnapshotView) -> SnapshotView {
    SnapshotView { fills_started: c.fills_started.wrapping_add(1), ..c }
}

/// The counters after a fill of a mapped window ended: one that failed counts as completed too.
pub open spec fn fill_over(c: SnapshotView, bytes: u64, nanos: u64, ok: bool) -> SnapshotView {
    SnapshotView {
        fills_completed: c.fills_completed.wrapping_add(1),
        fills_failed: if ok {
            c.fills_failed
        } else {
            c.fills_failed.wrapping_add(1)
        },
        fill_bytes: c.fill_bytes.wrapping_add(bytes),
        fill_nanos: c.fill_nanos.wrapping_add(nanos),
        fill_max_nanos: if nanos > c.fill_max_nanos {
            nanos
        } else {
            c.fill_max_nanos
        },
        ..c
    }
}

/// A fill of a mapped window began.
pub fn note_fill_start(s: &mut Stats)
    requires
        old(s).wf(),
    ensures
        final(s).wf(),
        final(s)@ == counted(old(s)@, fill_begun(old(s)@.counts)),
{
    if !s.on {
        return;
    }
    s.counts.fills_started = s.counts.fills_started.wrapping_add(1);
}

/// A fill of a mapped window ended.
pub fn note_fill_end(s: &mut Stats, bytes: u64, nanos: u64, ok: bool)
    requires
        old(s).wf(),
    ensures
        final(s).wf(),
        final(s)@ == counted(old(s)@, fill_over(old(s)@.counts, bytes, nanos, ok)),
{
    if !s.on {
        return;
    }
    let ghost before = s@;
    s.counts.fills_completed = s.counts.fills_completed.wrapping_add(1);
    if !ok {
        s.counts.fills_failed = s.counts.fills_failed.wrapping_add(1);
    }
    s.counts.fill_bytes = s.counts.fill_bytes.wrapping_add(bytes);
    s.counts.fill_nanos = s.counts.fill_nanos.wrapping_add(nanos);
    if nanos > s.counts.fill_max_nanos {
        s.counts.fill_max_nanos = nanos;
    }
}

/// The position of `class`, or the number of rows where it is not there.
pub open spec fn class_index(rows: Seq<ClassCount>, class: u32) -> int
    decreases rows.len(),
{
    if rows.len() == 0 || rows[0].class == class {
        0
    } else {
        1 + class_index(rows.skip(1), class)
    }
}

/// The rows after `class` was seen once more.
pub open spec fn class_bumped(rows: Seq<ClassCount>, class: u32) -> Seq<ClassCount> {
    let i = class_index(rows, class);
    if i < rows.len() {
        rows.update(i, ClassCount { class, count: rows[i].count.wrapping_add(1) })
    } else {
        rows.push(ClassCount { class, count: 1 })
    }
}

proof fn lemma_class_index(rows: Seq<ClassCount>, class: u32, i: int)
    requires
        0 <= i <= rows.len(),
        forall|k: int| 0 <= k < i ==> rows[k].class != class,
        i < rows.len() ==> rows[i].class == class,
    ensures
        class_index(rows, class) == i,
    decreases i,
{
    if i > 0 {
        assert(rows[0].class != class);
        assert forall|k: int| 0 <= k < i - 1 implies rows.skip(1)[k].class != class by {
            assert(rows.skip(1)[k] == rows[k + 1]);
        }
        lemma_class_index(rows.skip(1), class, i - 1);
    }
}

/// A set-information class that did nothing on a synthetic handle.
pub fn note_setinfo_noop(s: &mut Stats, class: u32)
    requires
        old(s).wf(),
    ensures
        final(s).wf(),
        final(s)@ == counted(
            old(s)@,
            SnapshotView {
                setinfo_noop: class_bumped(old(s)@.counts.setinfo_noop, class),
                ..old(s)@.counts
            },
        ),
{
    if !s.on {
        return;
    }
    let ghost before = s@;
    let ghost rows = s.counts.setinfo_noop@;
    let mut i: usize = 0;
    while i < s.counts.setinfo_noop.len() && s.counts.setinfo_noop[i].class != class
        invariant
            i <= rows.len(),
            rows == s.counts.setinfo_noop@,
            forall|k: int| 0 <= k < i ==> rows[k].class != class,
        decreases rows.len() - i,
    {
        i = i + 1;
    }
    proof {
        lemma_class_index(rows, class, i as int);
    }
    if i < s.counts.setinfo_noop.len() {
        let count: u64 = s.counts.setinfo_noop[i].count.wrapping_add(1);
        s.counts.setinfo_noop.set(i, ClassCount { class, count });
    } else {
        s.counts.setinfo_noop.push(ClassCount { class, count: 1 });
    }
}

/// The key of a lock or a flush.
pub open spec fn lock_key(op: Seq<char>, path: Option<Seq<char>>) -> Seq<char> {
    text::left_aligned(op, 16) + " "@ + text::ascii_lowered(
        match path {
            Some(p) => p,
            None => "<untracked handle>"@,
        },
    )
}

/// `text` in a column `width` wide, a space, and `rest`.
fn column(text: &str, width: usize, rest: &str) -> (out: String)
    ensures
        out@ == text::left_aligned(text@, width as int) + " "@ + rest@,
{
    let mut out = String::new();
    text::push_left(&mut out, text, width);
    out.append(" ");
    out.append(rest);
    assert(out@ =~= text::left_aligned(text@, width as int) + " "@ + rest@);
    out
}

/// The view of an optional text.
pub open spec fn optional(s: Option<&str>) -> Option<Seq<char>> {
    match s {
        Some(t) => Some(t@),
        None => None,
    }
}

/// A lock or a flush on a synthetic handle was answered without a lock being taken.
pub fn note_synthetic_lock(s: &mut Stats, op: &str, path: Option<&str>)
    requires
        old(s).wf(),
    ensures
        final(s).wf(),
        final(s)@ == counted(
            old(s)@,
            SnapshotView {
                synth_locks: tally::bumped(
                    old(s)@.counts.synth_locks,
                    lock_key(op@, optional(path)),
                    SYNTH_LOCKS_MAX as int,
                ),
                ..old(s)@.counts
            },
        ),
{
    if !s.on {
        return;
    }
    let ghost before = s@;
    let shown = match path {
        Some(p) => p,
        None => "<untracked handle>",
    };
    let key = column(op, 16, text::lower_text(shown).as_str());
    s.counts.synth_locks.bump(key.as_str(), SYNTH_LOCKS_MAX);
}

/// A synthetic handle was bound to a completion port.
pub fn note_iocp_bind(s: &mut Stats)
    requires
        old(s).wf(),
    ensures
        final(s).wf(),
        final(s)@ == counted(
            old(s)@,
            SnapshotView {
                iocp_binds: old(s)@.counts.iocp_binds.wrapping_add(1),
                ..old(s)@.counts
            },
        ),
{
    if !s.on {
        return;
    }
    let ghost before = s@;
    s.counts.iocp_binds = s.counts.iocp_binds.wrapping_add(1);
}

/// An open of `path` was attempted.
pub fn note_passthrough(s: &mut Stats, path: &str)
    requires
        old(s).wf(),
    ensures
        final(s).wf(),
        final(s)@ == counted(
            old(s)@,
            SnapshotView {
                passthrough: tally::bumped(
                    old(s)@.counts.passthrough,
                    text::ascii_lowered(path@),
                    PATHS_MAX as int,
                ),
                ..old(s)@.counts
            },
        ),
{
    if !s.on {
        return;
    }
    let ghost before = s@;
    s.counts.passthrough.bump(text::lower_text(path).as_str(), PATHS_MAX);
}

/// The rows after one more undecodable name; there is no limit on these.
pub open spec fn undecodable_bumped(
    rows: Seq<tally::RowView>,
    name: Option<Seq<char>>,
) -> Seq<tally::RowView> {
    tally::learned(
        rows,
        text::ascii_lowered(
            match name {
                Some(n) => n,
                None => "<no name>"@,
            },
        ),
    )
}

/// An open whose path could not be decoded.
pub fn note_undecodable(s: &mut Stats, name: Option<&str>)
    requires
        old(s).wf(),
    ensures
        final(s).wf(),
        final(s)@ == counted(
            old(s)@,
            SnapshotView {
                undecodable: undecodable_bumped(old(s)@.counts.undecodable, optional(name)),
                ..old(s)@.counts
            },
        ),
{
    if !s.on {
        return;
    }
    let ghost before = s@;
    let shown = match name {
        Some(n) => n,
        None => "<no name>",
    };
    let key = text::lower_text(shown);
    s.counts.undecodable.learn(key.as_str());
}

/// A line of the trace.
pub open spec fn trace_line(op: Seq<char>, path: Seq<char>, result: Seq<char>) -> Seq<char> {
    text::left_aligned(op, 10) + " "@ + (text::left_aligned(result, 12) + " "@
        + text::ascii_lowered(path))
}

/// The trace after one more operation; a full one learns no more.
pub open spec fn traced(
    trace: Seq<Seq<char>>,
    op: Seq<char>,
    path: Seq<char>,
    result: Seq<char>,
) -> Seq<Seq<char>> {
    if trace.len() < TRACE_MAX {
        trace.push(trace_line(op, path, result))
    } else {
        trace
    }
}

/// An operation under a managed root, in order.
pub fn note_trace(s: &mut Stats, op: &str, path: &str, result: &str)
    requires
        old(s).wf(),
    ensures
        final(s).wf(),
        final(s)@ == counted(
            old(s)@,
            SnapshotView {
                trace: traced(old(s)@.counts.trace, op@, path@, result@),
                ..old(s)@.counts
            },
        ),
{
    if !s.on {
        return;
    }
    let ghost before = s@;
    if s.counts.trace.len() >= TRACE_MAX {
        return;
    }
    let rest = column(result, 12, text::lower_text(path).as_str());
    let line = column(op, 10, rest.as_str());
    s.counts.trace.push(line);
    assert(s@.counts.trace =~= traced(before.counts.trace, op@, path@, result@));
}

/// The key of an attribute query.
pub open spec fn stat_key(path: Seq<char>, outcome: Seq<char>) -> Seq<char> {
    text::left_aligned(outcome, 12) + " "@ + text::ascii_lowered(path)
}

/// An attribute query and its outcome.
pub fn note_stat(s: &mut Stats, path: &str, outcome: &str)
    requires
        old(s).wf(),
    ensures
        final(s).wf(),
        final(s)@ == counted(
            old(s)@,
            SnapshotView {
                trace: traced(old(s)@.counts.trace, "stat"@, path@, outcome@),
                stats: tally::bumped(
                    old(s)@.counts.stats,
                    stat_key(path@, outcome@),
                    STATS_MAX as int,
                ),
                ..old(s)@.counts
            },
        ),
{
    if !s.on {
        return;
    }
    let ghost before = s@;
    note_trace(s, "stat", path, outcome);
    let key = column(outcome, 12, text::lower_text(path).as_str());
    s.counts.stats.bump(key.as_str(), STATS_MAX);
}

/// The record of an enumeration.
pub open spec fn readdir_line(
    dir: Seq<char>,
    wildcard: Option<Seq<char>>,
    count: nat,
    source: ReadDirSource,
) -> Seq<char> {
    text::left_aligned(source.label_text(), 9) + " "@ + text::right_aligned(
        text::decimal(count),
        4,
    ) + " entries  filter="@ + text::left_aligned(
        match wildcard {
            Some(w) => w,
            None => "*"@,
        },
        16,
    ) + " "@ + text::ascii_lowered(dir)
}

/// A directory enumeration: what was asked for, and how many entries came back.
pub fn note_readdir(s: &mut Stats, dir: &str, wildcard: Option<&str>, count: usize, source: ReadDirSource)
    requires
        old(s).wf(),
    ensures
        final(s).wf(),
        final(s)@ == counted(
            old(s)@,
            SnapshotView {
                readdirs: if old(s)@.counts.readdirs.len() < READDIRS_MAX {
                    old(s)@.counts.readdirs.push(
                        readdir_line(dir@, optional(wildcard), count as nat, source),
                    )
                } else {
                    old(s)@.counts.readdirs
                },
                ..old(s)@.counts
            },
        ),
{
    if !s.on {
        return;
    }
    let ghost before = s@;
    if s.counts.readdirs.len() >= READDIRS_MAX {
        return;
    }
    let filter = match wildcard {
        Some(w) => w,
        None => "*",
    };
    let mut number = String::new();
    text::push_decimal(&mut number, count as u128);
    assert(number@ =~= text::decimal(count as nat));
    let mut line = String::new();
    text::push_left(&mut line, source.label(), 9);
    line.append(" ");
    text::push_right(&mut line, number.as_str(), 4);
    line.append(" entries  filter=");
    text::push_left(&mut line, filter, 16);
    line.append(" ");
    line.append(text::lower_text(dir).as_str());
    assert(line@ =~= readdir_line(dir@, optional(wildcard), count as nat, source));
    s.counts.readdirs.push(line);
    assert(s@.counts.readdirs =~= before.counts.readdirs.push(line@));
}

/// An open that the shim made on its own behalf, or repeated.
pub fn note_unrouted_director_open(s: &mut Stats)
    requires
        old(s).wf(),
    ensures
        final(s).wf(),
        final(s)@ == counted(
            old(s)@,
            SnapshotView {
                unrouted_director_opens: old(s)@.counts.unrouted_director_opens.wrapping_add(1),
                ..old(s)@.counts
            },
        ),
{
    if !s.on {
        return;
    }
    let ghost before = s@;
    s.counts.unrouted_director_opens = s.counts.unrouted_director_opens.wrapping_add(1);
}

/// How many opens the shim made on its own behalf.
pub fn unrouted_director_opens(s: &Stats) -> (n: u64)
    ensures
        n == s@.counts.unrouted_director_opens,
{
    s.counts.unrouted_director_opens
}

/// How many opens under a managed root took this way.
pub fn outcome_count(s: &Stats, outcome: OpenOutcome) -> (n: u64)
    ensures
        n == s@.counts.outcome_counts[outcome.spec_index()],
{
    s.counts.outcome_counts[outcome.index()]
}

/// The counters after an open under a managed root.
pub open spec fn opened(c: SnapshotView, outcome: OpenOutcome, path: Seq<char>) -> SnapshotView {
    let i = outcome.spec_index();
    SnapshotView {
        outcome_counts: c.outcome_counts.update(i, c.outcome_counts[i].wrapping_add(1)),
        outcome_paths: c.outcome_paths.update(
            i,
            tally::bumped(c.outcome_paths[i], text::ascii_lowered(path), OUTCOME_PATHS_MAX as int),
        ),
        ..c
    }
}

/// Which way an open under a managed root took.
pub fn note_open_outcome(s: &mut Stats, outcome: OpenOutcome, path: &str)
    requires
        old(s).wf(),
    ensures
        final(s).wf(),
        final(s)@ == counted(old(s)@, opened(old(s)@.counts, outcome, path@)),
{
    if !s.on {
        return;
    }
    let ghost before = s@;
    let i: usize = outcome.index();
    s.counts.outcome_counts[i] = s.counts.outcome_counts[i].wrapping_add(1);
    let mut paths = s.counts.outcome_paths[i].copy();
    paths.bump(text::lower_text(path).as_str(), OUTCOME_PATHS_MAX);
    s.counts.outcome_paths.set(i, paths);
    assert(s@.counts.outcome_paths =~= opened(before.counts, outcome, path@).outcome_paths);
}

/// A path with its root, as the copy-up and overlay counters write it.
pub open spec fn rooted_path(root: u32, vpath: Seq<char>) -> Seq<char> {
    "root"@ + text::decimal(root as nat) + "/"@ + text::ascii_lowered(vpath)
}

/// [`rooted_path`].
fn rooted_text(root: u32, vpath: &str) -> (out: String)
    ensures
        out@ == rooted_path(root, vpath@),
{
    let mut out = "root".to_owned();
    text::push_decimal(&mut out, root as u128);
    out.append("/");
    out.append(text::lower_text(vpath).as_str());
    out
}

/// How many copy-ups ended so.
pub fn copy_up_count(s: &Stats, outcome: CopyUp) -> (n: u64)
    ensures
        n == s@.counts.copy_up_counts[outcome.spec_index()],
{
    s.counts.copy_up_counts[outcome.index()]
}

/// What the trace says of a copy-up.
pub open spec fn copy_up_result(outcome: CopyUp, bytes: u64) -> Seq<char> {
    outcome.label_text() + " "@ + text::decimal(bytes as nat) + "B"@
}

/// The counters after a copy-up. Only a completed one adds to the bytes.
pub open spec fn copied_up(
    c: SnapshotView,
    outcome: CopyUp,
    root: u32,
    vpath: Seq<char>,
    bytes: u64,
) -> SnapshotView {
    let i = outcome.spec_index();
    let path = rooted_path(root, vpath);
    SnapshotView {
        copy_up_counts: c.copy_up_counts.update(i, c.copy_up_counts[i].wrapping_add(1)),
        copy_up_bytes: if outcome == CopyUp::Seeded {
            c.copy_up_bytes.wrapping_add(bytes)
        } else {
            c.copy_up_bytes
        },
        trace: traced(c.trace, "copy-up"@, path, copy_up_result(outcome, bytes)),
        copy_ups: tally::bumped(
            c.copy_ups,
            text::left_aligned(outcome.label_text(), 26) + " "@ + path,
            COPYUPS_MAX as int,
        ),
        ..c
    }
}

/// How a copy-up ended, and how many bytes it wrote.
pub fn note_copy_up(s: &mut Stats, outcome: CopyUp, root: u32, vpath: &str, bytes: u64)
    requires
        old(s).wf(),
    ensures
        final(s).wf(),
        final(s)@ == counted(old(s)@, copied_up(old(s)@.counts, outcome, root, vpath@, bytes)),
{
    if !s.on {
        return;
    }
    let ghost before = s@;
    let i: usize = outcome.index();
    s.counts.copy_up_counts[i] = s.counts.copy_up_counts[i].wrapping_add(1);
    if outcome == CopyUp::Seeded {
        s.counts.copy_up_bytes = s.counts.copy_up_bytes.wrapping_add(bytes);
    }
    let path = rooted_text(root, vpath);
    let mut result = outcome.label().to_owned();
    result.append(" ");
    text::push_decimal(&mut result, bytes as u128);
    result.append("B");
    note_trace(s, "copy-up", path.as_str(), result.as_str());
    let key = column(outcome.label(), 26, path.as_str());
    s.counts.copy_ups.bump(key.as_str(), COPYUPS_MAX);
    assert(s@.counts =~= copied_up(before.counts, outcome, root, vpath@, bytes));
}

/// How many changes of the overlay ended so.
pub fn overlay_fail_count(s: &Stats, fail: OverlayFail) -> (n: u64)
    ensures
        n == s@.counts.overlay_fail_counts[fail.spec_index()],
{
    s.counts.overlay_fail_counts[fail.index()]
}

/// The overlay counts after one more change that ended so.
pub open spec fn overlay_counted(counts: Seq<u64>, fail: OverlayFail) -> Seq<u64> {
    counts.update(fail.spec_index(), counts[fail.spec_index()].wrapping_add(1))
}

/// A change of the overlay that was made. It leaves a count only.
pub fn note_overlay_ok(s: &mut Stats)
    requires
        old(s).wf(),
    ensures
        final(s).wf(),
        final(s)@ == counted(
            old(s)@,
            SnapshotView {
                overlay_fail_counts: overlay_counted(old(s)@.counts.overlay_fail_counts, OverlayFail::Succeeded),
                ..old(s)@.counts
            },
        ),
{
    if !s.on {
        return;
    }
    let ghost before = s@;
    let i: usize = OverlayFail::Succeeded.index();
    s.counts.overlay_fail_counts[i] = s.counts.overlay_fail_counts[i].wrapping_add(1);
    assert(s@.counts.overlay_fail_counts =~= overlay_counted(
        before.counts.overlay_fail_counts,
        OverlayFail::Succeeded,
    ));
}

/// The counters after a change of the overlay that was not made.
pub open spec fn overlay_failed(
    c: SnapshotView,
    fail: OverlayFail,
    root: u32,
    vpath: Seq<char>,
) -> SnapshotView {
    let path = rooted_path(root, vpath);
    SnapshotView {
        overlay_fail_counts: overlay_counted(c.overlay_fail_counts, fail),
        trace: traced(c.trace, "overlay"@, path, fail.label_text()),
        overlay_fails: tally::bumped(
            c.overlay_fails,
            text::left_aligned(fail.label_text(), 26) + " "@ + path,
            OVERLAY_FAILS_MAX as int,
        ),
        ..c
    }
}

/// A change of the overlay that failed or was declined.
pub fn note_overlay_fail(s: &mut Stats, fail: OverlayFail, root: u32, vpath: &str)
    requires
        old(s).wf(),
        fail != OverlayFail::Succeeded,
    ensures
        final(s).wf(),
        final(s)@ == counted(old(s)@, overlay_failed(old(s)@.counts, fail, root, vpath@)),
{
    if !s.on {
        return;
    }
    let ghost before = s@;
    let i: usize = fail.index();
    s.counts.overlay_fail_counts[i] = s.counts.overlay_fail_counts[i].wrapping_add(1);
    let path = rooted_text(root, vpath);
    note_trace(s, "overlay", path.as_str(), fail.label());
    let key = column(fail.label(), 26, path.as_str());
    s.counts.overlay_fails.bump(key.as_str(), OVERLAY_FAILS_MAX);
    assert(s@.counts =~= overlay_failed(before.counts, fail, root, vpath@));
}

/// A panic that was contained at the entry point `name`. Counted whether or not the counters
/// are switched on.
pub fn note_hook_panic(s: &mut Stats, name: &str)
    requires
        old(s).wf(),
    ensures
        final(s).wf(),
        final(s)@ == (StatsView {
            panics: tally::learned(old(s)@.panics, name@),
            ..old(s)@
        }),
{
    s.panics.learn(name);
}

/// How many panics were contained at the entry point `name`.
pub fn hook_panic_count(s: &Stats, name: &str) -> (n: u64)
    ensures
        n == tally::count_in(s@.panics, name@),
{
    s.panics.count(name)
}

/// How many panics were contained in all.
pub fn hook_panics_total(s: &Stats) -> (n: u128)
    ensures
        n == tally::total(s@.panics),
{
    s.panics.sum()
}

/// Every counter as it stands now.
pub fn snapshot(s: &Stats) -> (r: Snapshot)
    requires
        s.wf(),
    ensures
        r.wf(),
        r@ == s@.counts,
{
    let mut outcome_paths: Vec<Tally> = Vec::new();
    let mut i: usize = 0;
    while i < OUTCOMES
        invariant
            i <= OUTCOMES,
            s.wf(),
            outcome_paths@.len() == i,
            forall|k: int|
                0 <= k < i ==> (#[trigger] outcome_paths@[k]).view_rows()
                    == s.counts.outcome_paths@[k].view_rows(),
        decreases OUTCOMES - i,
    {
        outcome_paths.push(s.counts.outcome_paths[i].copy());
        i = i + 1;
    }
    let c = &s.counts;
    let r = Snapshot {
        calls: c.calls,
        nanos: c.nanos,
        rooted: c.rooted,
        max_nanos: c.max_nanos,
        slow: c.slow,
        async_opens: c.async_opens,
        sync_opens: c.sync_opens,
        apc_reads: c.apc_reads,
        event_reads: c.event_reads,
        bare_reads: c.bare_reads,
        iocp_binds: c.iocp_binds,
        fills_started: c.fills_started,
        fills_completed: c.fills_completed,
        fills_failed: c.fills_failed,
        fill_bytes: c.fill_bytes,
        fill_nanos: c.fill_nanos,
        fill_max_nanos: c.fill_max_nanos,
        setinfo_noop: copied_classes(&c.setinfo_noop),
        synth_locks: c.synth_locks.copy(),
        passthrough: c.passthrough.copy(),
        undecodable: c.undecodable.copy(),
        trace: copied_texts(&c.trace),
        stats: c.stats.copy(),
        readdirs: copied_texts(&c.readdirs),
        outcome_counts: c.outcome_counts,
        outcome_paths,
        unrouted_director_opens: c.unrouted_director_opens,
        copy_up_counts: c.copy_up_counts,
        copy_up_bytes: c.copy_up_bytes,
        copy_ups: c.copy_ups.copy(),
        overlay_fail_counts: c.overlay_fail_counts,
        overlay_fails: c.overlay_fails.copy(),
    };
    assert(r@.outcome_paths =~= s@.counts.outcome_paths);
    assert(r@ =~= s@.counts);
    r
}

/// A copy of a list of texts.
fn copied_texts(v: &Vec<String>) -> (out: Vec<String>)
    ensures
        text::texts(out@) == text::texts(v@),
{
    let mut out: Vec<String> = Vec::new();
    let mut i: usize = 0;
    while i < v.len()
        invariant
            i <= v@.len(),
            out@.len() == i,
            forall|k: int| 0 <= k < i ==> (#[trigger] out@[k])@ == v@[k]@,
        decreases v@.len() - i,
    {
        out.push(v[i].clone());
        i = i + 1;
    }
    assert(text::texts(out@) =~= text::texts(v@));
    out
}

/// A copy of the class counts.
fn copied_classes(v: &Vec<ClassCount>) -> (out: Vec<ClassCount>)
    ensures
        out@ == v@,
{
    let mut out: Vec<ClassCount> = Vec::new();
    let mut i: usize = 0;
    while i < v.len()
        invariant
            i <= v@.len(),
            out@ == v@.take(i as int),
        decreases v@.len() - i,
    {
        out.push(v[i]);
        i = i + 1;
    }
    assert(v@.take(i as int) =~= v@);
    out
}

/// Counters that are switched off stay as they are: of everything that can be noted, only a
/// contained panic changes them.
pub proof fn law_switched_off_counts_nothing(s: StatsView, counts: SnapshotView)
    ensures
        !s.on ==> counted(s, counts) == s,
        s.on ==> counted(s, counts).counts == counts,
        counted(s, counts).panics == s.panics,
        counted(s, counts).on == s.on,
{
}

/// Opens that were routed and opens that the shim made on its own behalf are counted apart:
/// neither disturbs the other's count, so that their sum can be held against what the director
/// saw arrive.
pub proof fn law_routed_and_unrouted_opens_reconcile(
    c: SnapshotView,
    path: Seq<char>,
)
    requires
        c.outcome_counts.len() == OUTCOMES,
        c.outcome_counts[0] < u64::MAX,
    ensures
        opened(c, OpenOutcome::Routed, path).outcome_counts[0] == c.outcome_counts[0] + 1,
        opened(c, OpenOutcome::Routed, path).unrouted_director_opens == c.unrouted_director_opens,
        forall|o: OpenOutcome|
            o != OpenOutcome::Routed ==> #[trigger] opened(c, o, path).outcome_counts[0]
                == c.outcome_counts[0],
{
}

/// A call counts once under its own entry point, with its time, as slow where it took over a
/// millisecond, and as rooted where it was; no other entry point changes.
pub proof fn law_a_call_is_counted_under_its_own_name(
    c: SnapshotView,
    hook: Hook,
    ns: u64,
    rooted: bool,
    j: int,
)
    requires
        c.calls.len() == 18,
        c.nanos.len() == 18,
        c.rooted.len() == 18,
        c.max_nanos.len() == 18,
        c.slow.len() == 18,
        0 <= j < 18,
    ensures
        ({
            let n = timed_call(c, hook, ns, rooted);
            let i = hook.spec_index();
            &&& 0 <= i < 18
            &&& n.calls[i] == c.calls[i].wrapping_add(1)
            &&& n.nanos[i] == c.nanos[i].wrapping_add(ns)
            &&& n.slow[i] == if ns > 1000000 {
                c.slow[i].wrapping_add(1)
            } else {
                c.slow[i]
            }
            &&& n.rooted[i] == if rooted {
                c.rooted[i].wrapping_add(1)
            } else {
                c.rooted[i]
            }
            &&& n.max_nanos[i] == if ns > c.max_nanos[i] {
                ns
            } else {
                c.max_nanos[i]
            }
            &&& j != i ==> n.calls[j] == c.calls[j] && n.nanos[j] == c.nanos[j] && n.slow[j]
                == c.slow[j] && n.rooted[j] == c.rooted[j] && n.max_nanos[j] == c.max_nanos[j]
        }),
{
}

/// Different entry points are counted apart, and so are different outcomes.
pub proof fn law_counters_are_apart(
    a: Hook,
    b: Hook,
    x: OpenOutcome,
    y: OpenOutcome,
    p: CopyUp,
    q: CopyUp,
    s: OverlayFail,
    t: OverlayFail,
)
    ensures
        a != b ==> a.spec_index() != b.spec_index(),
        x != y ==> x.spec_index() != y.spec_index(),
        p != q ==> p.spec_index() != q.spec_index(),
        s != t ==> s.spec_index() != t.spec_index(),
        0 <= x.spec_index() < 7 && 0 <= p.spec_index() < 7 && 0 <= s.spec_index() < 6,
{
}

/// A read counts once: as one with an APC, else as one with an event, else as a bare one.
pub proof fn law_reads_are_counted_by_completion(c: SnapshotView, has_apc: bool, has_event: bool)
    ensures
        ({
            let n = read_completed(c, has_apc, has_event);
            &&& n.apc_reads == if has_apc {
                c.apc_reads.wrapping_add(1)
            } else {
                c.apc_reads
            }
            &&& n.event_reads == if !has_apc && has_event {
                c.event_reads.wrapping_add(1)
            } else {
                c.event_reads
            }
            &&& n.bare_reads == if !has_apc && !has_event {
                c.bare_reads.wrapping_add(1)
            } else {
                c.bare_reads
            }
        }),
{
}

/// A fill is started once and over once, with its bytes and its time, and counts as failed
/// where it failed.
pub proof fn law_fills_count_once(c: SnapshotView, bytes: u64, nanos: u64, ok: bool)
    ensures
        fill_begun(c).fills_started == c.fills_started.wrapping_add(1),
        fill_begun(c).fills_completed == c.fills_completed,
        fill_over(c, bytes, nanos, ok).fills_started == c.fills_started,
        fill_over(c, bytes, nanos, ok).fills_completed == c.fills_completed.wrapping_add(1),
        fill_over(c, bytes, nanos, ok).fills_failed == if ok {
            c.fills_failed
        } else {
            c.fills_failed.wrapping_add(1)
        },
        fill_over(c, bytes, nanos, ok).fill_bytes == c.fill_bytes.wrapping_add(bytes),
        fill_over(c, bytes, nanos, ok).fill_nanos == c.fill_nanos.wrapping_add(nanos),
        fill_over(c, bytes, nanos, ok).fill_max_nanos >= nanos,
        fill_over(c, bytes, nanos, ok).fill_max_nanos >= c.fill_max_nanos,
        fill_over(c, bytes, nanos, ok).fill_max_nanos == nanos || fill_over(
            c,
            bytes,
            nanos,
            ok,
        ).fill_max_nanos == c.fill_max_nanos,
{
}

/// A class counts once more under its own number, and the others as before.
pub proof fn law_classes_are_counted_apart(rows: Seq<ClassCount>, class: u32, i: int)
    requires
        0 <= i < rows.len(),
    ensures
        class_bumped(rows, class)[i].class == rows[i].class,
        rows[i].class != class ==> class_bumped(rows, class)[i] == rows[i],
        (forall|k: int| 0 <= k < i ==> (#[trigger] rows[k]).class != class) && rows[i].class
            == class ==> class_bumped(rows, class)[i].count == rows[i].count.wrapping_add(1)
            && class_bumped(rows, class).len() == rows.len(),
        (forall|k: int| 0 <= k < rows.len() ==> (#[trigger] rows[k]).class != class)
            ==> class_bumped(rows, class) == rows.push(ClassCount { class, count: 1 }),
    decreases rows.len(),
{
    let j = class_index(rows, class);
    let rest = rows.skip(1);
    if rows[0].class != class && rest.len() > 0 {
        law_classes_are_counted_apart(rest, class, if i > 0 {
            i - 1
        } else {
            0
        });
    }
    lemma_class_index_is_first(rows, class);
}

proof fn lemma_class_index_is_first(rows: Seq<ClassCount>, class: u32)
    ensures
        0 <= class_index(rows, class) <= rows.len(),
        class_index(rows, class) < rows.len() ==> rows[class_index(rows, class)].class == class,
        forall|k: int| 0 <= k < class_index(rows, class) ==> (#[trigger] rows[k]).class != class,
    decreases rows.len(),
{
    if rows.len() > 0 && rows[0].class != class {
        let rest = rows.skip(1);
        lemma_class_index_is_first(rest, class);
        let j = class_index(rest, class);
        if j < rest.len() {
            assert(rest[j] == rows[j + 1]);
        }
        assert forall|k: int| 0 <= k < class_index(rows, class) implies (#[trigger] rows[k]).class
            != class by {
            if k > 0 {
                assert(rows[k] == rest[k - 1]);
            }
        }
    }
}

/// An open counts under its outcome, and under its path there; a path in another case is the
/// same.
pub proof fn law_opens_are_counted_by_outcome(
    c: SnapshotView,
    outcome: OpenOutcome,
    path: Seq<char>,
    j: int,
)
    requires
        c.outcome_counts.len() == 7,
        c.outcome_paths.len() == 7,
        0 <= j < 7,
    ensures
        ({
            let n = opened(c, outcome, path);
            let i = outcome.spec_index();
            &&& n.outcome_counts[i] == c.outcome_counts[i].wrapping_add(1)
            &&& n.outcome_paths[i] == tally::bumped(
                c.outcome_paths[i],
                text::ascii_lowered(path),
                4000,
            )
            &&& j != i ==> n.outcome_counts[j] == c.outcome_counts[j] && n.outcome_paths[j]
                == c.outcome_paths[j]
            &&& n.unrouted_director_opens == c.unrouted_director_opens
        }),
{
}

/// A copy-up counts under its outcome; its bytes count where it was completed, and only there.
pub proof fn law_only_whole_copies_count_their_bytes(
    c: SnapshotView,
    outcome: CopyUp,
    root: u32,
    vpath: Seq<char>,
    bytes: u64,
    j: int,
)
    requires
        c.copy_up_counts.len() == 7,
        0 <= j < 7,
    ensures
        ({
            let n = copied_up(c, outcome, root, vpath, bytes);
            let i = outcome.spec_index();
            &&& n.copy_up_counts[i] == c.copy_up_counts[i].wrapping_add(1)
            &&& j != i ==> n.copy_up_counts[j] == c.copy_up_counts[j]
            &&& outcome == CopyUp::Seeded ==> n.copy_up_bytes == c.copy_up_bytes.wrapping_add(bytes)
            &&& outcome != CopyUp::Seeded ==> n.copy_up_bytes == c.copy_up_bytes
            &&& c.trace.len() < 4000 ==> n.trace.len() == c.trace.len() + 1
            &&& c.trace.len() >= 4000 ==> n.trace == c.trace
        }),
{
}

/// A failure of the overlay counts under its kind alone, and stands in the trace while there
/// is room.
pub proof fn law_overlay_failures_are_counted_by_kind(
    c: SnapshotView,
    fail: OverlayFail,
    root: u32,
    vpath: Seq<char>,
    j: int,
)
    requires
        c.overlay_fail_counts.len() == 6,
        0 <= j < 6,
    ensures
        ({
            let n = overlay_failed(c, fail, root, vpath);
            let i = fail.spec_index();
            &&& n.overlay_fail_counts[i] == c.overlay_fail_counts[i].wrapping_add(1)
            &&& j != i ==> n.overlay_fail_counts[j] == c.overlay_fail_counts[j]
            &&& c.trace.len() < 4000 ==> n.trace.len() == c.trace.len() + 1 && n.trace.drop_last()
                == c.trace
            &&& c.trace.len() >= 4000 ==> n.trace == c.trace
        }),
{
    let n = overlay_failed(c, fail, root, vpath);
    if c.trace.len() < 4000 {
        assert(n.trace.drop_last() =~= c.trace);
    }
}

/// The trace grows by one line at its end, up to 4000, and no line in it changes.
pub proof fn law_the_trace_grows_at_its_end(
    trace: Seq<Seq<char>>,
    op: Seq<char>,
    path: Seq<char>,
    result: Seq<char>,
)
    ensures
        trace.len() < 4000 ==> traced(trace, op, path, result) == trace.push(
            text::left_aligned(op, 10) + seq![' '] + text::left_aligned(result, 12) + seq![' ']
                + text::ascii_lowered(path),
        ),
        trace.len() >= 4000 ==> traced(trace, op, path, result) == trace,
{
    reveal_strlit(" ");
    assert(" "@ =~= seq![' ']);
    assert(trace_line(op, path, result) =~= text::left_aligned(op, 10) + seq![' ']
        + text::left_aligned(result, 12) + seq![' '] + text::ascii_lowered(path));
}

/// A lock is counted under its kind and the file's path in lower case; a handle without a path
/// has a line of its own.
pub proof fn law_locks_are_counted_by_path(op: Seq<char>, path: Seq<char>)
    ensures
        lock_key(op, Some(path)) == text::left_aligned(op, 16) + seq![' '] + text::ascii_lowered(
            path,
        ),
        lock_key(op, None) == lock_key(op, Some("<untracked handle>"@)),
{
    reveal_strlit(" ");
    assert(" "@ =~= seq![' ']);
}

/// How a listing and a copy are written down: where the listing came from, its number of
/// entries, its pattern and its directory; the root, the path, and how the copy ended.
pub proof fn law_lines_say_what_happened(
    dir: Seq<char>,
    filter: Seq<char>,
    count: nat,
    source: ReadDirSource,
    root: u32,
    outcome: CopyUp,
    bytes: u64,
)
    ensures
        readdir_line(dir, Some(filter), count, source) == text::left_aligned(
            source.label_text(),
            9,
        ) + " "@ + text::right_aligned(text::decimal(count), 4) + " entries  filter="@
            + text::left_aligned(filter, 16) + " "@ + text::ascii_lowered(dir),
        readdir_line(dir, None, count, source) == readdir_line(dir, Some("*"@), count, source),
        rooted_path(root, dir) == "root"@ + text::decimal(root as nat) + "/"@
            + text::ascii_lowered(dir),
        copy_up_result(outcome, bytes) == outcome.label_text() + " "@ + text::decimal(bytes as nat)
            + "B"@,
        undecodable_bumped(seq![], None) == tally::learned(
            seq![],
            text::ascii_lowered("<no name>"@),
        ),
{
}

} // verus!

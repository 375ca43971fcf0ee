//! What is remembered of open handles: the path that each was opened as, the identity of
//! redirected ones, and the listings of directories; and how a name becomes a full path.

use crate::fuse_synth;
use crate::fuse_synth::FuseTable;
use crate::ntdef;
use crate::ntdef::ObjectAttributes;
use crate::overlay;
use crate::overlay::DirItem;
use crate::paths;
use crate::text;
use std::collections::BTreeMap;
use vstd::prelude::*;
use vstd::string::*;

verus! {

/// Handles whose paths are remembered.
pub const HANDLE_PATHS_MAX: usize = 65536;

/// A built listing, and how much of it was handed out.
pub struct EnumState {
    pub entries: Vec<DirItem>,
    pub cursor: usize,
}

/// A tracked directory: the path that it was opened as, and its listing once one is built.
pub struct DirTracked {
    pub dir_nt_path: String,
    pub state: Option<EnumState>,
}

/// A built listing, as values.
#[verifier::ext_equal]
pub struct EnumView {
    pub entries: Seq<overlay::ItemView>,
    pub cursor: nat,
}

/// A tracked directory, as values.
#[verifier::ext_equal]
pub struct DirView {
    pub path: Seq<char>,
    pub state: Option<EnumView>,
}

/// The values of entries.
pub open spec fn items_view(v: Seq<DirItem>) -> Seq<overlay::ItemView> {
    v.map_values(|i: DirItem| i@)
}

impl View for EnumState {
    type V = EnumView;

    open spec fn view(&self) -> EnumView {
        EnumView { entries: items_view(self.entries@), cursor: self.cursor as nat }
    }
}

impl View for DirTracked {
    type V = DirView;

    open spec fn view(&self) -> DirView {
        DirView {
            path: self.dir_nt_path@,
            state: match self.state {
                Some(s) => Some(s@),
                None => None,
            },
        }
    }
}

/// What is remembered of open handles.
pub struct HandleTables {
    dirs: BTreeMap<u64, DirTracked>,
    identities: BTreeMap<u64, String>,
    paths: BTreeMap<u64, String>,
    handle_paths: BTreeMap<u64, String>,
}

/// What is remembered of open handles, as values.
#[verifier::ext_equal]
pub struct TablesView {
    /// Directories under managed roots.
    pub dirs: Map<u64, DirView>,
    /// The virtual path of each redirected handle, relative to its volume.
    pub identities: Map<u64, Seq<char>>,
    /// The path of each handle under a managed root.
    pub paths: Map<u64, Seq<char>>,
    /// The path of every handle.
    pub handle_paths: Map<u64, Seq<char>>,
}

/// The values of remembered paths.
pub open spec fn path_map(m: Map<u64, String>) -> Map<u64, Seq<char>> {
    m.map_values(|s: String| s@)
}

/// The values of tracked directories.
pub open spec fn dir_map(m: Map<u64, DirTracked>) -> Map<u64, DirView> {
    m.map_values(|d: DirTracked| d@)
}

impl View for HandleTables {
    type V = TablesView;

    closed spec fn view(&self) -> TablesView {
        TablesView {
            dirs: dir_map(self.dirs@),
            identities: path_map(self.identities@),
            paths: path_map(self.paths@),
            handle_paths: path_map(self.handle_paths@),
        }
    }
}

/// Nothing is remembered.
pub open spec fn no_handles() -> TablesView {
    TablesView {
        dirs: Map::empty(),
        identities: Map::empty(),
        paths: Map::empty(),
        handle_paths: Map::empty(),
    }
}

/// The handle and the path of an open that succeeded and whose path is known.
pub open spec fn opened(handle: Option<u64>, path: Option<Seq<char>>, status: i32) -> Option<
    (u64, Seq<char>),
> {
    match (handle, path) {
        (Some(h), Some(p)) => if ntdef::nt_success(status) {
            Some((h, p))
        } else {
            None
        },
        _ => None,
    }
}

/// What is remembered after an open that the system answered. Every handle's path is kept, up
/// to a limit, because a later open may name its file against it; one under a managed root is
/// also a directory that may be listed.
pub open spec fn tagged(
    t: TablesView,
    handle: Option<u64>,
    path: Option<Seq<char>>,
    ours: bool,
    status: i32,
) -> TablesView {
    match opened(handle, path, status) {
        Some((h, p)) => TablesView {
            handle_paths: if t.handle_paths.len() < HANDLE_PATHS_MAX {
                t.handle_paths.insert(h, p)
            } else {
                t.handle_paths
            },
            dirs: if ours {
                t.dirs.insert(h, DirView { path: p, state: None })
            } else {
                t.dirs
            },
            ..t
        },
        None => t,
    }
}

/// What is remembered after a redirected open.
pub open spec fn identified(
    t: TablesView,
    handle: Option<u64>,
    identity: Option<Seq<char>>,
    status: i32,
) -> TablesView {
    match opened(handle, identity, status) {
        Some((h, p)) => TablesView { identities: t.identities.insert(h, p), ..t },
        None => t,
    }
}

/// What is remembered after an open, for a later delete or rename by handle.
pub open spec fn path_recorded(
    t: TablesView,
    handle: Option<u64>,
    path: Option<Seq<char>>,
    ours: bool,
    status: i32,
) -> TablesView {
    match opened(handle, path, status) {
        Some((h, p)) => if ours {
            TablesView { paths: t.paths.insert(h, p), ..t }
        } else {
            t
        },
        None => t,
    }
}

/// What is remembered after a handle is closed.
pub open spec fn reclaimed(t: TablesView, handle: u64) -> TablesView {
    TablesView {
        dirs: t.dirs.remove(handle),
        identities: t.identities.remove(handle),
        paths: t.paths.remove(handle),
        handle_paths: t.handle_paths.remove(handle),
    }
}

/// The text remembered for a handle.
pub open spec fn path_in(m: Map<u64, Seq<char>>, handle: u64) -> Option<Seq<char>> {
    if m.contains_key(handle) {
        Some(m[handle])
    } else {
        None
    }
}

/// Remembers a text for a handle.
fn put_path(m: &mut BTreeMap<u64, String>, handle: u64, path: &str)
    ensures
        path_map(final(m)@) == path_map(old(m)@).insert(handle, path@),
{
    m.insert(handle, path.to_owned());
    assert(path_map(m@) =~= path_map(old(m)@).insert(handle, path@));
}

/// The text remembered for a handle.
fn get_path(m: &BTreeMap<u64, String>, handle: u64) -> (r: Option<String>)
    ensures
        text::option_text(r) == path_in(path_map(m@), handle),
{
    match m.get(&handle) {
        Some(p) => Some(p.clone()),
        None => None,
    }
}

impl HandleTables {
    /// [`no_handles`].
    pub fn new() -> (t: HandleTables)
        ensures
            t@ == no_handles(),
    {
        let t = HandleTables {
            dirs: BTreeMap::new(),
            identities: BTreeMap::new(),
            paths: BTreeMap::new(),
            handle_paths: BTreeMap::new(),
        };
        assert(t@.dirs =~= no_handles().dirs);
        assert(t@.identities =~= no_handles().identities);
        assert(t@.paths =~= no_handles().paths);
        assert(t@.handle_paths =~= no_handles().handle_paths);
        t
    }

    /// Puts a directory under `handle`.
    pub(crate) fn put_dir(&mut self, handle: u64, d: DirTracked)
        ensures
            final(self)@ == (TablesView { dirs: old(self)@.dirs.insert(handle, d@), ..old(self)@ }),
    {
        let ghost before = self@;
        self.dirs.insert(handle, d);
        assert(self@.dirs =~= before.dirs.insert(handle, d@));
    }

    /// Takes out the directory under `handle`.
    pub(crate) fn take_dir(&mut self, handle: u64) -> (r: Option<DirTracked>)
        ensures
            final(self)@ == (TablesView { dirs: old(self)@.dirs.remove(handle), ..old(self)@ }),
            match r {
                Some(d) => old(self)@.dirs.contains_key(handle) && old(self)@.dirs[handle] == d@,
                None => !old(self)@.dirs.contains_key(handle),
            },
    {
        let ghost before = self@;
        let r = self.dirs.remove(&handle);
        assert(self@.dirs =~= before.dirs.remove(handle));
        r
    }

    /// The directory under `handle`.
    pub(crate) fn dir(&self, handle: u64) -> (r: Option<&DirTracked>)
        ensures
            match r {
                Some(d) => self@.dirs.contains_key(handle) && self@.dirs[handle] == d@,
                None => !self@.dirs.contains_key(handle),
            },
    {
        self.dirs.get(&handle)
    }
}

/// [`tagged`].
pub fn tag_under_root(
    t: &mut HandleTables,
    handle: Option<u64>,
    path: Option<&str>,
    ours: bool,
    status: i32,
)
    ensures
        final(t)@ == tagged(
            old(t)@,
            handle,
            crate::hookstats::optional(path),
            ours,
            status,
        ),
{
    if status < 0 {
        return;
    }
    let ghost before = t@;
    if let (Some(h), Some(p)) = (handle, path) {
        let room = t.handle_paths.len() < HANDLE_PATHS_MAX;
        assert(t.handle_paths@.len() == before.handle_paths.len()) by {
            assert(t.handle_paths@.dom() =~= before.handle_paths.dom());
        }
        if room {
            put_path(&mut t.handle_paths, h, p);
        }
        if ours {
            t.put_dir(h, DirTracked { dir_nt_path: p.to_owned(), state: None });
        }
        assert(t@ =~= tagged(before, handle, crate::hookstats::optional(path), ours, status));
    }
}

/// [`identified`]. `identity` is the virtual path of the open, relative to its volume.
pub fn record_identity(
    t: &mut HandleTables,
    handle: Option<u64>,
    identity: Option<&str>,
    status: i32,
)
    ensures
        final(t)@ == identified(old(t)@, handle, crate::hookstats::optional(identity), status),
{
    if status < 0 {
        return;
    }
    if let (Some(h), Some(p)) = (handle, identity) {
        put_path(&mut t.identities, h, p);
    }
}

/// [`path_recorded`].
pub fn record_path(
    t: &mut HandleTables,
    handle: Option<u64>,
    path: Option<&str>,
    ours: bool,
    status: i32,
)
    ensures
        final(t)@ == path_recorded(
            old(t)@,
            handle,
            crate::hookstats::optional(path),
            ours,
            status,
        ),
{
    if status < 0 || !ours {
        return;
    }
    if let (Some(h), Some(p)) = (handle, path) {
        put_path(&mut t.paths, h, p);
    }
}

/// [`reclaimed`].
pub fn reclaim(t: &mut HandleTables, handle: u64)
    ensures
        final(t)@ == reclaimed(old(t)@, handle),
{
    let ghost before = t@;
    t.dirs.remove(&handle);
    t.handle_paths.remove(&handle);
    t.identities.remove(&handle);
    t.paths.remove(&handle);
    assert(t@.dirs =~= before.dirs.remove(handle));
    assert(t@.handle_paths =~= before.handle_paths.remove(handle));
    assert(t@.identities =~= before.identities.remove(handle));
    assert(t@.paths =~= before.paths.remove(handle));
}

/// The path that a handle was opened as.
pub fn path_of_handle(t: &HandleTables, handle: u64) -> (r: Option<String>)
    ensures
        text::option_text(r) == path_in(t@.handle_paths, handle),
{
    get_path(&t.handle_paths, handle)
}

/// The path that a handle under a managed root was opened as.
pub fn tracked_path(t: &HandleTables, handle: u64) -> (r: Option<String>)
    ensures
        text::option_text(r) == path_in(t@.paths, handle),
{
    get_path(&t.paths, handle)
}

/// The virtual path of a redirected handle, relative to its volume.
pub fn identity_of(t: &HandleTables, handle: u64) -> (r: Option<String>)
    ensures
        text::option_text(r) == path_in(t@.identities, handle),
{
    get_path(&t.identities, handle)
}

/// Whether a path is one that the shim answers for: the engine or the director's client places
/// it under a managed root.
pub fn path_is_ours(engine: bool, client: bool) -> (r: bool)
    ensures
        r == (engine || client),
{
    engine || client
}

/// Nothing is remembered of a handle once it is closed, and closing one handle leaves what is
/// remembered of every other as it is.
pub proof fn law_closing_forgets_one_handle(t: TablesView, h: u64, other: u64)
    requires
        other != h,
    ensures
        !reclaimed(t, h).dirs.contains_key(h),
        path_in(reclaimed(t, h).identities, h) is None,
        path_in(reclaimed(t, h).paths, h) is None,
        path_in(reclaimed(t, h).handle_paths, h) is None,
        reclaimed(t, h).dirs.contains_key(other) == t.dirs.contains_key(other),
        path_in(reclaimed(t, h).identities, other) == path_in(t.identities, other),
        path_in(reclaimed(t, h).paths, other) == path_in(t.paths, other),
        path_in(reclaimed(t, h).handle_paths, other) == path_in(t.handle_paths, other),
{
}

/// An open that failed leaves no trace, and one outside every managed root is never listed nor
/// deleted or renamed by the shim.
pub proof fn law_only_own_handles_are_tracked(
    t: TablesView,
    handle: Option<u64>,
    path: Option<Seq<char>>,
    ours: bool,
    status: i32,
)
    ensures
        !ntdef::nt_success(status) ==> tagged(t, handle, path, ours, status) == t && path_recorded(
            t,
            handle,
            path,
            ours,
            status,
        ) == t && identified(t, handle, path, status) == t,
        !ours ==> tagged(t, handle, path, ours, status).dirs == t.dirs && path_recorded(
            t,
            handle,
            path,
            ours,
            status,
        ).paths == t.paths,
{
}

// ---------------------------------------------------------------------------------------
// Full paths.

/// What is known of the directory that a name is relative to.
pub enum ParentDir {
    Known(String),
    /// Only the system knows where the handle points now.
    AskOs,
    Unknown,
}

/// What is known of the directory that a name is relative to, as values.
pub enum ParentView {
    Known(Seq<char>),
    AskOs,
    Unknown,
}

impl View for ParentDir {
    type V = ParentView;

    open spec fn view(&self) -> ParentView {
        match *self {
            ParentDir::Known(p) => ParentView::Known(p@),
            ParentDir::AskOs => ParentView::AskOs,
            ParentDir::Unknown => ParentView::Unknown,
        }
    }
}

/// The current directory's handle and its path, as values.
pub open spec fn cwd_view(cwd: Option<(u64, &str)>) -> Option<(u64, Seq<char>)> {
    match cwd {
        Some((h, dos)) => Some((h, dos@)),
        None => None,
    }
}

/// Which directory a handle names. A synthetic handle is known from its own records or not at
/// all; any other from the paths of opened handles, then as the current directory, and where
/// neither knows it the system is asked.
pub open spec fn parent_of(
    t: TablesView,
    opens: Map<u64, fuse_synth::FuseOpen>,
    handle: u64,
    cwd: Option<(u64, Seq<char>)>,
) -> ParentView {
    if fuse_synth::tagged(handle) {
        if t.paths.contains_key(handle) {
            ParentView::Known(t.paths[handle])
        } else if opens.contains_key(handle) && opens[handle].abs_path is Some {
            ParentView::Known(opens[handle].abs_path->0@)
        } else {
            ParentView::Unknown
        }
    } else if t.handle_paths.contains_key(handle) {
        ParentView::Known(t.handle_paths[handle])
    } else {
        match cwd {
            Some((h, dos)) => if h == handle {
                ParentView::Known(
                    paths::nt_prefix() + text::drop_trailing(dos, text::CharClass::Separator),
                )
            } else {
                ParentView::AskOs
            },
            None => ParentView::AskOs,
        }
    }
}

/// [`parent_of`].
pub fn parent_dir_of_handle(
    t: &HandleTables,
    fuse: &FuseTable,
    handle: u64,
    cwd: Option<(u64, &str)>,
) -> (r: ParentDir)
    ensures
        r@ == parent_of(t@, fuse.opens(), handle, cwd_view(cwd)),
{
    if fuse_synth::is_fuse_synth(handle) {
        return match tracked_path(t, handle) {
            Some(p) => ParentDir::Known(p),
            None => match fuse_synth::abs_path(fuse, handle) {
                Some(p) => ParentDir::Known(p),
                None => ParentDir::Unknown,
            },
        };
    }
    match path_of_handle(t, handle) {
        Some(p) => ParentDir::Known(p),
        None => match cwd {
            Some((h, dos)) => if h == handle {
                ParentDir::Known(
                    text::joined(
                        paths::nt_prefix_text(),
                        text::trim_end(dos, text::CharClass::Separator),
                    ),
                )
            } else {
                ParentDir::AskOs
            },
            None => ParentDir::AskOs,
        },
    }
}

/// A decoded path, and whether the system had to be asked for it: such a path is a fact of this
/// moment, and nothing decided with it may be kept.
pub struct DecodedPath {
    pub path: String,
    pub os_consulted: bool,
}

/// A decoded path, as values.
pub open spec fn decoded_view(d: Option<DecodedPath>) -> Option<(Seq<char>, bool)> {
    match d {
        Some(x) => Some((x.path@, x.os_consulted)),
        None => None,
    }
}

/// The full path that `name` names against the directory handle `root`, zero for none. `parent`
/// is the directory's path and whether the system was asked for it.
pub open spec fn decoded(
    name: Option<Seq<char>>,
    root: u64,
    parent: Option<(Seq<char>, bool)>,
) -> Option<(Seq<char>, bool)> {
    match name {
        None => None,
        Some(n) => if root == 0 {
            if n.len() == 0 {
                None
            } else {
                Some((n, false))
            }
        } else {
            match parent {
                Some((p, asked)) => Some((paths::under(p, n), asked)),
                None => None,
            }
        },
    }
}

/// The directory handle that a name is relative to, where it is.
pub fn relative_root(oa: Option<&ObjectAttributes>) -> (r: Option<u64>)
    ensures
        r == match oa {
            Some(o) => if o.root_directory == 0 {
                None
            } else {
                Some(o.root_directory)
            },
            None => None,
        },
{
    match oa {
        Some(o) => if o.root_directory == 0 {
            None
        } else {
            Some(o.root_directory)
        },
        None => None,
    }
}

/// The view of a directory's path and of whether the system was asked for it.
pub open spec fn parent_pair(p: Option<(&str, bool)>) -> Option<(Seq<char>, bool)> {
    match p {
        Some((s, asked)) => Some((s@, asked)),
        None => None,
    }
}

/// [`decoded`], of the attributes of a call.
pub fn path_of_tracked(oa: Option<&ObjectAttributes>, parent: Option<(&str, bool)>) -> (r: Option<
    DecodedPath,
>)
    requires
        oa matches Some(o) ==> o.wf(),
    ensures
        decoded_view(r) == match oa {
            Some(o) => decoded(o.name(), o.root_directory, parent_pair(parent)),
            None => None,
        },
{
    let o = match oa {
        Some(o) => o,
        None => {
            return None;
        },
    };
    let name = match ntdef::object_name_str(oa) {
        Some(n) => n,
        None => {
            return None;
        },
    };
    if o.root_directory == 0 {
        return if name.unicode_len() == 0 {
            None
        } else {
            Some(DecodedPath { path: name, os_consulted: false })
        };
    }
    match parent {
        Some((p, asked)) => Some(
            DecodedPath { path: paths::resolve_under(p, name.as_str()), os_consulted: asked },
        ),
        None => None,
    }
}

/// The path alone of [`path_of_tracked`].
pub fn path_of(oa: Option<&ObjectAttributes>, parent: Option<(&str, bool)>) -> (r: Option<String>)
    requires
        oa matches Some(o) ==> o.wf(),
    ensures
        text::option_text(r) == match oa {
            Some(o) => match decoded(o.name(), o.root_directory, parent_pair(parent)) {
                Some((p, asked)) => Some(p),
                None => None,
            },
            None => None,
        },
{
    match path_of_tracked(oa, parent) {
        Some(d) => Some(d.path),
        None => None,
    }
}

/// Whether the name of a call is relative to a synthetic directory handle, which the system
/// must never see.
pub fn fuse_root_directory(oa: Option<&ObjectAttributes>) -> (r: bool)
    ensures
        r == (oa matches Some(o) && o.root_directory != 0 && fuse_synth::tagged(
            o.root_directory,
        )),
{
    match oa {
        Some(o) => o.root_directory != 0 && fuse_synth::is_fuse_synth(o.root_directory),
        None => false,
    }
}

/// Only a path that the system was asked for is marked as one of this moment: an absolute name,
/// and a name against a directory that the shim knows, are not.
pub proof fn law_only_asked_paths_are_of_the_moment(
    name: Option<Seq<char>>,
    root: u64,
    parent: Option<(Seq<char>, bool)>,
)
    ensures
        decoded(name, root, parent) matches Some((p, asked)) ==> (asked <==> root != 0 && (
        parent matches Some((q, true)))),
        root == 0 ==> decoded(name, root, parent) == decoded(name, root, None),
{
}

// ---------------------------------------------------------------------------------------
// What remembering is for.

/// What an open leaves to be found later: a successful one under a managed root is listed and
/// changed by the path that it was opened as, a redirected one known by its virtual path, and
/// every one found as a parent of later names while there is room; each under its own handle,
/// and nothing else changes.
pub proof fn law_opens_are_found_again(
    t: TablesView,
    h: u64,
    p: Seq<char>,
    ours: bool,
    status: i32,
    other: u64,
)
    requires
        status >= 0,
        other != h,
    ensures
        ({
            let a = tagged(t, Some(h), Some(p), ours, status);
            let b = path_recorded(t, Some(h), Some(p), ours, status);
            let c = identified(t, Some(h), Some(p), status);
            &&& t.handle_paths.len() < 65536 ==> path_in(a.handle_paths, h) == Some(p)
            &&& t.handle_paths.len() >= 65536 ==> a.handle_paths == t.handle_paths
            &&& ours ==> a.dirs.contains_key(h) && a.dirs[h].path == p && a.dirs[h].state is None
            &&& a.paths == t.paths && a.identities == t.identities
            &&& path_in(a.handle_paths, other) == path_in(t.handle_paths, other)
            &&& a.dirs.contains_key(other) == t.dirs.contains_key(other)
            &&& t.dirs.contains_key(other) ==> a.dirs[other] == t.dirs[other]
            &&& ours ==> path_in(b.paths, h) == Some(p)
            &&& path_in(b.paths, other) == path_in(t.paths, other)
            &&& b.dirs == t.dirs && b.identities == t.identities && b.handle_paths
                == t.handle_paths
            &&& path_in(c.identities, h) == Some(p)
            &&& path_in(c.identities, other) == path_in(t.identities, other)
            &&& c.dirs == t.dirs && c.paths == t.paths && c.handle_paths == t.handle_paths
        }),
{
}

/// An open without a handle or without a path leaves no trace.
pub proof fn law_nothing_known_is_nothing_kept(
    t: TablesView,
    h: Option<u64>,
    p: Option<Seq<char>>,
    ours: bool,
    status: i32,
)
    requires
        h is None || p is None,
    ensures
        tagged(t, h, p, ours, status) == t,
        path_recorded(t, h, p, ours, status) == t,
        identified(t, h, p, status) == t,
{
}

/// What is found under a handle is what was kept under it.
pub proof fn law_found_is_what_was_kept(m: Map<u64, Seq<char>>, h: u64)
    ensures
        m.contains_key(h) ==> path_in(m, h) == Some(m[h]),
        !m.contains_key(h) ==> path_in(m, h) is None,
{
}

/// Which directory a name is against: a handle of the shim's stands for the path that it is
/// tracked under, else for the path that it was opened with, and is never asked of the system;
/// any other for the path that it was opened as, else for the current directory where it is that
/// one's handle, and else the system is asked.
pub proof fn law_parents_are_found(
    t: TablesView,
    opens: Map<u64, fuse_synth::FuseOpen>,
    handle: u64,
    cwd: Option<(u64, Seq<char>)>,
)
    ensures
        ({
            let r = parent_of(t, opens, handle, cwd);
            let ours = handle & 0x0000_8000_0000_0000 != 0;
            &&& ours && t.paths.contains_key(handle) ==> r == ParentView::Known(t.paths[handle])
            &&& ours && !t.paths.contains_key(handle) && opens.contains_key(handle) ==> (
            opens[handle].abs_path matches Some(p) ==> r == ParentView::Known(p@))
            &&& ours && !t.paths.contains_key(handle) && (!opens.contains_key(handle)
                || opens[handle].abs_path is None) ==> r is Unknown
            &&& !ours && t.handle_paths.contains_key(handle) ==> r == ParentView::Known(
                t.handle_paths[handle],
            )
            &&& !ours && !t.handle_paths.contains_key(handle) && (cwd is None || (cwd->0).0
                != handle) ==> r is AskOs
            &&& !ours && !t.handle_paths.contains_key(handle) && cwd is Some && (cwd->0).0 == handle
                && (cwd->0).1.len() > 0 && (cwd->0).1.last() != '\\' && (cwd->0).1.last() != '/'
                ==> r == ParentView::Known(seq!['\\', '?', '?', '\\'] + (cwd->0).1)
        }),
{
    if let Some((h, dos)) = cwd {
        if dos.len() > 0 && dos.last() != '\\' && dos.last() != '/' {
            reveal_with_fuel(text::drop_trailing, 1);
        }
    }
}

/// A full path is the name itself where it is absolute, and else the name below its directory;
/// an empty absolute name, and a name whose directory is not known, have none.
pub proof fn law_names_become_full_paths(
    n: Seq<char>,
    root: u64,
    p: Seq<char>,
    asked: bool,
    parent: Option<(Seq<char>, bool)>,
)
    ensures
        n.len() > 0 ==> decoded(Some(n), 0, parent) == Some((n, false)),
        n.len() == 0 ==> decoded(Some(n), 0, parent) is None,
        root != 0 ==> decoded(Some(n), root, Some((p, asked))) == Some((paths::under(p, n), asked)),
        root != 0 ==> decoded(Some(n), root, None) is None,
        decoded(None, root, parent) is None,
{
}

} // verus!

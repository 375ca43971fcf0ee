//! The write overlay: created and modified files stand in a directory of their own, and a
//! deletion leaves a marker there. Reads consult it before anything else.
//!
//! Every path below the overlay is scoped by the root it belongs to, so that two roots that
//! serve the same relative path never share a file.

use crate::tally;
use crate::text;
use vstd::prelude::*;
use vstd::string::*;

verus! {

/// The overlay directory.
pub struct Overlay {
    pub root: String,
}

/// What the overlay says about a path.
pub enum OverlayState {
    /// A file or a directory is there.
    Present { path: String, is_dir: bool, size: u64 },
    /// A marker hides the path.
    Whiteout,
    /// The overlay knows nothing of the path.
    Absent,
}

/// What the overlay says about a path, as values.
pub enum OverlayView {
    Present { path: Seq<char>, is_dir: bool, size: u64 },
    Whiteout,
    Absent,
}

impl View for OverlayState {
    type V = OverlayView;

    open spec fn view(&self) -> OverlayView {
        match *self {
            OverlayState::Present { path, is_dir, size } => OverlayView::Present {
                path: path@,
                is_dir,
                size,
            },
            OverlayState::Whiteout => OverlayView::Whiteout,
            OverlayState::Absent => OverlayView::Absent,
        }
    }
}

// ---------------------------------------------------------------------------------------
// Paths.

/// Whether `dir` is a drive without a directory, such as `C:`.
pub open spec fn is_bare_drive(dir: Seq<char>) -> bool {
    dir.len() == 2 && dir[1] == ':'
}

/// `name` in the directory `dir`.
pub open spec fn path_join(dir: Seq<char>, name: Seq<char>) -> Seq<char> {
    if dir.len() == 0 || text::is_separator(dir.last()) || is_bare_drive(dir) {
        dir + name
    } else {
        dir + "\\"@ + name
    }
}

/// The path that leads from `dir` through `comps`.
pub open spec fn path_of(dir: Seq<char>, comps: Seq<Seq<char>>) -> Seq<char>
    decreases comps.len(),
{
    if comps.len() == 0 {
        dir
    } else {
        path_join(path_of(dir, comps.drop_last()), comps.last())
    }
}

/// A name that stands for one step of a path: not empty, no separator, no drive.
pub open spec fn is_plain(name: Seq<char>) -> bool {
    name.len() > 0 && forall|i: int|
        0 <= i < name.len() ==> !text::is_separator(#[trigger] name[i]) && name[i] != ':'
}

/// Names that each stand for one step of a path.
pub open spec fn all_plain(comps: Seq<Seq<char>>) -> bool {
    forall|i: int| 0 <= i < comps.len() ==> is_plain(#[trigger] comps[i])
}

/// [`all_plain`].
pub fn are_plain(comps: &[String]) -> (r: bool)
    ensures
        r == all_plain(text::texts(comps@)),
{
    let n: usize = comps.len();
    let mut i: usize = 0;
    while i < n
        invariant
            i <= n == comps@.len(),
            forall|k: int| 0 <= k < i ==> is_plain(#[trigger] text::texts(comps@)[k]),
        decreases n - i,
    {
        let name = comps[i].as_str();
        let len: usize = name.unicode_len();
        assert(text::texts(comps@)[i as int] == name@);
        if len == 0 {
            return false;
        }
        let mut j: usize = 0;
        while j < len
            invariant
                i < n == comps@.len(),
                j <= len == name@.len(),
                text::texts(comps@).len() == n,
                text::texts(comps@)[i as int] == name@,
                forall|k: int|
                    0 <= k < j ==> !text::is_separator(#[trigger] name@[k]) && name@[k] != ':',
            decreases len - j,
        {
            let c = name.get_char(j);
            if c == '\\' || c == '/' || c == ':' {
                assert(!is_plain(text::texts(comps@)[i as int])) by {
                    assert(name@[j as int] == c);
                }
                return false;
            }
            j = j + 1;
        }
        i = i + 1;
    }
    true
}

/// The directory that holds everything of root `root`.
pub open spec fn layer_dir(overlay_root: Seq<char>, root: u32) -> Seq<char> {
    path_join(overlay_root, "root-"@ + text::decimal(root as nat))
}

/// The suffix of a marker.
pub open spec fn marker_suffix() -> Seq<char> {
    ".__vfs_wh__"@
}

/// The name of the marker that hides `name`.
pub open spec fn marker_name(name: Seq<char>) -> Seq<char> {
    name + marker_suffix()
}

/// Whether `name` is the name of a marker.
pub open spec fn is_marker(name: Seq<char>) -> bool {
    name.len() >= 11 && name.skip(name.len() - 11) == marker_suffix()
}

/// The path of the overlay's file for `comps` under `root`.
pub open spec fn file_at(overlay_root: Seq<char>, root: u32, comps: Seq<Seq<char>>) -> Seq<char> {
    path_of(layer_dir(overlay_root, root), comps)
}

/// The path of the marker that hides `comps` under `root`.
pub open spec fn marker_at(overlay_root: Seq<char>, root: u32, comps: Seq<Seq<char>>) -> Seq<
    char,
> {
    if comps.len() == 0 {
        path_join(layer_dir(overlay_root, root), marker_name(seq![]))
    } else {
        path_join(
            file_at(overlay_root, root, comps.drop_last()),
            marker_name(comps.last()),
        )
    }
}

/// The directory that holds the overlay's file for `comps` under `root`.
pub open spec fn parent_at(overlay_root: Seq<char>, root: u32, comps: Seq<Seq<char>>) -> Seq<
    char,
> {
    if comps.len() == 0 {
        overlay_root
    } else {
        file_at(overlay_root, root, comps.drop_last())
    }
}

/// [`path_join`].
pub fn join_path(dir: &str, name: &str) -> (out: String)
    ensures
        out@ == path_join(dir@, name@),
{
    let n: usize = dir.unicode_len();
    if n == 0 {
        return text::joined(dir, name);
    }
    let last = dir.get_char(n - 1);
    if last == '\\' || last == '/' || (n == 2 && last == ':') {
        return text::joined(dir, name);
    }
    let mut out = text::joined(dir, "\\");
    out.append(name);
    out
}

/// The directory below `overlay_root` that holds the writes of `root`.
pub fn overlay_layer_dir(overlay_root: &str, root: u32) -> (out: String)
    ensures
        out@ == layer_dir(overlay_root@, root),
{
    let mut name = "root-".to_owned();
    text::push_decimal(&mut name, root as u128);
    join_path(overlay_root, name.as_str())
}

/// [`marker_name`].
pub fn whiteout_marker(name: &str) -> (out: String)
    ensures
        out@ == marker_name(name@),
{
    text::joined(name, ".__vfs_wh__")
}

/// The name that a marker hides; `None` for a name that is no marker's.
pub fn whiteout_base<'a>(name: &'a str) -> (r: Option<&'a str>)
    ensures
        match r {
            Some(base) => is_marker(name@) && base@ == name@.take(name@.len() - 11),
            None => !is_marker(name@),
        },
{
    let n: usize = name.unicode_len();
    if n < 11 {
        return None;
    }
    let tail = name.substring_char(n - 11, n);
    assert(tail@ =~= name@.skip(name@.len() - 11));
    if text::same_text(tail, ".__vfs_wh__") {
        let base = name.substring_char(0, n - 11);
        assert(base@ =~= name@.take(name@.len() - 11));
        Some(base)
    } else {
        None
    }
}

impl Overlay {
    /// An overlay in the directory `overlay_root`.
    pub fn new(overlay_root: &str) -> (ov: Overlay)
        ensures
            ov.root@ == overlay_root@,
    {
        Overlay { root: overlay_root.to_owned() }
    }

    /// The directory of root `root`.
    fn root_dir(&self, root: u32) -> (out: String)
        ensures
            out@ == layer_dir(self.root@, root),
    {
        overlay_layer_dir(self.root.as_str(), root)
    }

    /// The path that leads from `root`'s directory through the first `n` components.
    fn path_to(&self, root: u32, comps: &[String], n: usize) -> (out: String)
        requires
            n <= comps@.len(),
        ensures
            out@ == file_at(self.root@, root, text::texts(comps@).take(n as int)),
    {
        let ghost all = text::texts(comps@);
        let mut out = self.root_dir(root);
        let mut i: usize = 0;
        assert(all.take(0) =~= Seq::<Seq<char>>::empty());
        while i < n
            invariant
                i <= n <= comps@.len(),
                all == text::texts(comps@),
                out@ == file_at(self.root@, root, all.take(i as int)),
            decreases n - i,
        {
            assert(all.take(i + 1).drop_last() =~= all.take(i as int));
            assert(all.take(i + 1).last() == comps@[i as int]@);
            out = join_path(out.as_str(), comps[i].as_str());
            i = i + 1;
        }
        out
    }

    /// The path of the overlay's file for `comps` under `root`.
    pub fn file_path(&self, root: u32, comps: &[String]) -> (out: String)
        requires
            all_plain(text::texts(comps@)),
        ensures
            out@ == file_at(self.root@, root, text::texts(comps@)),
    {
        let out = self.path_to(root, comps, comps.len());
        assert(text::texts(comps@).take(comps@.len() as int) =~= text::texts(comps@));
        out
    }

    /// The path of the marker that hides `comps` under `root`.
    pub fn whiteout_path(&self, root: u32, comps: &[String]) -> (out: String)
        requires
            all_plain(text::texts(comps@)),
        ensures
            out@ == marker_at(self.root@, root, text::texts(comps@)),
    {
        let n: usize = comps.len();
        if n == 0 {
            let dir = self.root_dir(root);
            let name = whiteout_marker("");
            proof {
                reveal_strlit("");
                assert(""@ =~= Seq::<char>::empty());
            }
            return join_path(dir.as_str(), name.as_str());
        }
        let dir = self.path_to(root, comps, n - 1);
        assert(text::texts(comps@).take(n - 1) =~= text::texts(comps@).drop_last());
        join_path(dir.as_str(), whiteout_marker(comps[n - 1].as_str()).as_str())
    }

    /// What the overlay says of `comps` under `root`: a file there wins, a marker hides the
    /// path, else nothing is known. `on_disk` is what stands at [`Overlay::file_path`],
    /// `marked` whether something stands at [`Overlay::whiteout_path`].
    pub fn lookup(
        &self,
        root: u32,
        comps: &[String],
        on_disk: Option<(bool, u64)>,
        marked: bool,
    ) -> (r: OverlayState)
        requires
            all_plain(text::texts(comps@)),
        ensures
            r@ == looked_up(self.root@, root, text::texts(comps@), on_disk, marked),
    {
        if comps.len() == 0 {
            return OverlayState::Absent;
        }
        match on_disk {
            Some((is_dir, size)) => OverlayState::Present {
                path: self.file_path(root, comps),
                is_dir,
                size,
            },
            None => if marked {
                OverlayState::Whiteout
            } else {
                OverlayState::Absent
            },
        }
    }
}

/// What the overlay says of a path, given what stands at the path's file and at its marker.
pub open spec fn looked_up(
    overlay_root: Seq<char>,
    root: u32,
    comps: Seq<Seq<char>>,
    on_disk: Option<(bool, u64)>,
    marked: bool,
) -> OverlayView {
    if comps.len() == 0 {
        OverlayView::Absent
    } else {
        match on_disk {
            Some((is_dir, size)) => OverlayView::Present {
                path: file_at(overlay_root, root, comps),
                is_dir,
                size,
            },
            None => if marked {
                OverlayView::Whiteout
            } else {
                OverlayView::Absent
            },
        }
    }
}

// ---------------------------------------------------------------------------------------
// Two roots never share a path.

/// Whether `p` is the directory of root `root`, or stands below it.
pub open spec fn in_layer(overlay_root: Seq<char>, root: u32, p: Seq<char>) -> bool {
    let dir = layer_dir(overlay_root, root);
    dir.is_prefix_of(p) && (p.len() == dir.len() || p[dir.len() as int] == '\\')
}

proof fn lemma_layer_dir_ends_in_a_digit(overlay_root: Seq<char>, root: u32)
    ensures
        layer_dir(overlay_root, root).len() > 2,
        '0' <= layer_dir(overlay_root, root).last() <= '9',
{
    text::lemma_decimal_digits(root as nat);
    reveal_strlit("root-");
    let name = "root-"@ + text::decimal(root as nat);
    assert(name.last() == text::decimal(root as nat).last());
    assert(layer_dir(overlay_root, root).last() == name.last());
}

proof fn lemma_join_stays_in_layer(
    overlay_root: Seq<char>,
    root: u32,
    dir: Seq<char>,
    name: Seq<char>,
)
    requires
        in_layer(overlay_root, root, dir),
        dir.len() == layer_dir(overlay_root, root).len() || !text::is_separator(dir.last()),
    ensures
        in_layer(overlay_root, root, path_join(dir, name)),
{
    lemma_layer_dir_ends_in_a_digit(overlay_root, root);
    reveal_strlit("\\");
    let base = layer_dir(overlay_root, root);
    let p = path_join(dir, name);
    assert(base.is_prefix_of(p)) by {
        assert forall|i: int| 0 <= i < base.len() implies base[i] == p[i] by {
            assert(base[i] == dir[i]);
        }
        assert(base =~= p.subrange(0, base.len() as int));
    }
    if dir.len() == base.len() {
        assert(dir =~= base);
    } else {
        assert(p[base.len() as int] == dir[base.len() as int]);
    }
}

proof fn lemma_files_stay_in_layer(overlay_root: Seq<char>, root: u32, comps: Seq<Seq<char>>)
    requires
        all_plain(comps),
    ensures
        in_layer(overlay_root, root, file_at(overlay_root, root, comps)),
        file_at(overlay_root, root, comps).len() == layer_dir(overlay_root, root).len()
            || !text::is_separator(file_at(overlay_root, root, comps).last()),
    decreases comps.len(),
{
    let base = layer_dir(overlay_root, root);
    if comps.len() == 0 {
        assert(base =~= base.subrange(0, base.len() as int));
    } else {
        let dir = file_at(overlay_root, root, comps.drop_last());
        assert(all_plain(comps.drop_last())) by {
            assert forall|i: int| 0 <= i < comps.drop_last().len() implies is_plain(
                #[trigger] comps.drop_last()[i],
            ) by {
                assert(comps.drop_last()[i] == comps[i]);
            }
        }
        lemma_files_stay_in_layer(overlay_root, root, comps.drop_last());
        lemma_join_stays_in_layer(overlay_root, root, dir, comps.last());
        assert(is_plain(comps[comps.len() - 1]));
        assert(path_join(dir, comps.last()).last() == comps.last()[comps.last().len() - 1]);
    }
}

proof fn lemma_markers_stay_in_layer(overlay_root: Seq<char>, root: u32, comps: Seq<Seq<char>>)
    requires
        all_plain(comps),
    ensures
        in_layer(overlay_root, root, marker_at(overlay_root, root, comps)),
{
    let base = layer_dir(overlay_root, root);
    if comps.len() == 0 {
        assert(base =~= base.subrange(0, base.len() as int));
        lemma_join_stays_in_layer(overlay_root, root, base, marker_name(seq![]));
    } else {
        assert forall|i: int| 0 <= i < comps.drop_last().len() implies is_plain(
            #[trigger] comps.drop_last()[i],
        ) by {
            assert(comps.drop_last()[i] == comps[i]);
        }
        lemma_files_stay_in_layer(overlay_root, root, comps.drop_last());
        lemma_join_stays_in_layer(
            overlay_root,
            root,
            file_at(overlay_root, root, comps.drop_last()),
            marker_name(comps.last()),
        );
    }
}

proof fn lemma_layers_are_disjoint(overlay_root: Seq<char>, a: u32, b: u32, p: Seq<char>)
    requires
        in_layer(overlay_root, a, p),
        in_layer(overlay_root, b, p),
    ensures
        a == b,
{
    reveal_strlit("root-");
    reveal_strlit("\\");
    text::lemma_decimal_digits(a as nat);
    text::lemma_decimal_digits(b as nat);
    let da = layer_dir(overlay_root, a);
    let db = layer_dir(overlay_root, b);
    let x = text::decimal(a as nat);
    let y = text::decimal(b as nat);
    let k = da.len() - x.len();
    assert(k == db.len() - y.len());
    assert forall|i: int| 0 <= i < x.len() implies p[k + i] == x[i] by {
        assert(da[k + i] == x[i]);
        assert(da[k + i] == p.subrange(0, da.len() as int)[k + i]);
    }
    assert forall|i: int| 0 <= i < y.len() implies p[k + i] == y[i] by {
        assert(db[k + i] == y[i]);
        assert(db[k + i] == p.subrange(0, db.len() as int)[k + i]);
    }
    if x.len() < y.len() {
        assert(p[k + x.len()] == y[x.len() as int]);
        assert(p[da.len() as int] == '\\');
        assert(false);
    }
    if y.len() < x.len() {
        assert(p[k + y.len()] == x[y.len() as int]);
        assert(p[db.len() as int] == '\\');
        assert(false);
    }
    assert forall|i: int| 0 <= i < x.len() implies x[i] == y[i] by {
        assert(p[k + i] == x[i]);
        assert(p[k + i] == y[i]);
    }
    assert(x =~= y);
    text::lemma_decimal_injective(a as nat, b as nat);
}

/// Files and markers of two different roots never stand at the same path, whatever their
/// relative paths are.
pub proof fn law_roots_never_share_a_path(
    overlay_root: Seq<char>,
    a: u32,
    x: Seq<Seq<char>>,
    b: u32,
    y: Seq<Seq<char>>,
)
    requires
        a != b,
        all_plain(x),
        all_plain(y),
    ensures
        file_at(overlay_root, a, x) != file_at(overlay_root, b, y),
        file_at(overlay_root, a, x) != marker_at(overlay_root, b, y),
        marker_at(overlay_root, a, x) != file_at(overlay_root, b, y),
        marker_at(overlay_root, a, x) != marker_at(overlay_root, b, y),
{
    lemma_files_stay_in_layer(overlay_root, a, x);
    lemma_files_stay_in_layer(overlay_root, b, y);
    lemma_markers_stay_in_layer(overlay_root, a, x);
    lemma_markers_stay_in_layer(overlay_root, b, y);
    if file_at(overlay_root, a, x) == file_at(overlay_root, b, y) {
        lemma_layers_are_disjoint(overlay_root, a, b, file_at(overlay_root, a, x));
    }
    if file_at(overlay_root, a, x) == marker_at(overlay_root, b, y) {
        lemma_layers_are_disjoint(overlay_root, a, b, file_at(overlay_root, a, x));
    }
    if marker_at(overlay_root, a, x) == file_at(overlay_root, b, y) {
        lemma_layers_are_disjoint(overlay_root, a, b, marker_at(overlay_root, a, x));
    }
    if marker_at(overlay_root, a, x) == marker_at(overlay_root, b, y) {
        lemma_layers_are_disjoint(overlay_root, a, b, marker_at(overlay_root, a, x));
    }
}

// ---------------------------------------------------------------------------------------
// Changes.

/// One change of the file system.
pub enum FsOp {
    /// Make a directory and all that lead to it.
    MakeDirs { path: String },
    /// Remove a file.
    Remove { path: String },
    /// Write an empty file.
    WriteEmpty { path: String },
    /// Move a file.
    Move { from: String, to: String },
}

/// Which failures of a change are taken for success.
#[derive(Clone, Copy, Debug, PartialEq, Eq, Structural)]
pub enum Tolerance {
    Nothing,
    /// That the file is not there.
    Missing,
    Anything,
}

/// How a change ended.
#[derive(Clone, Copy, Debug, PartialEq, Eq, Structural)]
pub enum FsResult {
    Done,
    /// The file is not there.
    Missing,
    Failed,
}

/// One step of a change of the overlay. The steps of a plan are made in order, up to the first
/// that ends in a failure which is not tolerated.
pub struct FsStep {
    pub op: FsOp,
    pub tolerates: Tolerance,
}

/// One change of the file system, as values.
pub enum FsOpView {
    MakeDirs { path: Seq<char> },
    Remove { path: Seq<char> },
    WriteEmpty { path: Seq<char> },
    Move { from: Seq<char>, to: Seq<char> },
}

/// One step of a change of the overlay, as values.
pub struct FsStepView {
    pub op: FsOpView,
    pub tolerates: Tolerance,
}

impl View for FsStep {
    type V = FsStepView;

    open spec fn view(&self) -> FsStepView {
        FsStepView {
            op: match self.op {
                FsOp::MakeDirs { path } => FsOpView::MakeDirs { path: path@ },
                FsOp::Remove { path } => FsOpView::Remove { path: path@ },
                FsOp::WriteEmpty { path } => FsOpView::WriteEmpty { path: path@ },
                FsOp::Move { from, to } => FsOpView::Move { from: from@, to: to@ },
            },
            tolerates: self.tolerates,
        }
    }
}

/// The steps of a plan, as values.
pub open spec fn steps_view(v: Seq<FsStep>) -> Seq<FsStepView> {
    v.map_values(|s: FsStep| s@)
}

/// Whether a step that ended so lets the plan go on.
pub open spec fn goes_on(tolerates: Tolerance, result: FsResult) -> bool {
    match result {
        FsResult::Done => true,
        FsResult::Missing => tolerates != Tolerance::Nothing,
        FsResult::Failed => tolerates == Tolerance::Anything,
    }
}

/// [`goes_on`].
pub fn step_succeeded(step: &FsStep, result: FsResult) -> (r: bool)
    ensures
        r == goes_on(step@.tolerates, result),
{
    match result {
        FsResult::Done => true,
        FsResult::Missing => step.tolerates != Tolerance::Nothing,
        FsResult::Failed => step.tolerates == Tolerance::Anything,
    }
}

/// The steps that make the directory for a file.
pub open spec fn ensure_parent_steps(
    overlay_root: Seq<char>,
    root: u32,
    comps: Seq<Seq<char>>,
) -> Seq<FsStepView> {
    seq![
        FsStepView {
            op: FsOpView::MakeDirs { path: parent_at(overlay_root, root, comps) },
            tolerates: Tolerance::Nothing,
        },
    ]
}

/// The steps that make a path visible again. No marker is as good as a removed one.
pub open spec fn clear_whiteout_steps(
    overlay_root: Seq<char>,
    root: u32,
    comps: Seq<Seq<char>>,
) -> Seq<FsStepView> {
    seq![
        FsStepView {
            op: FsOpView::Remove { path: marker_at(overlay_root, root, comps) },
            tolerates: Tolerance::Missing,
        },
    ]
}

/// The steps that hide a path: the directory, the overlay's own copy, the marker.
pub open spec fn whiteout_steps(
    overlay_root: Seq<char>,
    root: u32,
    comps: Seq<Seq<char>>,
) -> Seq<FsStepView> {
    ensure_parent_steps(overlay_root, root, comps).push(
        FsStepView {
            op: FsOpView::Remove { path: file_at(overlay_root, root, comps) },
            tolerates: Tolerance::Anything,
        },
    ).push(
        FsStepView {
            op: FsOpView::WriteEmpty { path: marker_at(overlay_root, root, comps) },
            tolerates: Tolerance::Nothing,
        },
    )
}

/// The steps that move a file: the directory, the move, the marker of the new place gone, a
/// marker at the old one. A source that is not there is tolerated.
pub open spec fn rename_steps(
    overlay_root: Seq<char>,
    root: u32,
    from: Seq<Seq<char>>,
    to: Seq<Seq<char>>,
) -> Seq<FsStepView> {
    ensure_parent_steps(overlay_root, root, to).push(
        FsStepView {
            op: FsOpView::Move {
                from: file_at(overlay_root, root, from),
                to: file_at(overlay_root, root, to),
            },
            tolerates: Tolerance::Missing,
        },
    ).push(
        FsStepView {
            op: FsOpView::Remove { path: marker_at(overlay_root, root, to) },
            tolerates: Tolerance::Missing,
        },
    ).push(
        FsStepView {
            op: FsOpView::WriteEmpty { path: marker_at(overlay_root, root, from) },
            tolerates: Tolerance::Nothing,
        },
    )
}

impl Overlay {
    /// [`ensure_parent_steps`].
    pub fn ensure_parent(&self, root: u32, comps: &[String]) -> (steps: Vec<FsStep>)
        requires
            all_plain(text::texts(comps@)),
        ensures
            steps@.len() == 1,
            steps_view(steps@) == ensure_parent_steps(self.root@, root, text::texts(comps@)),
    {
        let n: usize = comps.len();
        let path = if n == 0 {
            self.root.clone()
        } else {
            assert(text::texts(comps@).take(n - 1) =~= text::texts(comps@).drop_last());
            self.path_to(root, comps, n - 1)
        };
        let mut steps: Vec<FsStep> = Vec::new();
        steps.push(FsStep { op: FsOp::MakeDirs { path }, tolerates: Tolerance::Nothing });
        assert(steps_view(steps@) =~= ensure_parent_steps(
            self.root@,
            root,
            text::texts(comps@),
        ));
        steps
    }

    /// [`clear_whiteout_steps`].
    pub fn clear_whiteout(&self, root: u32, comps: &[String]) -> (steps: Vec<FsStep>)
        requires
            all_plain(text::texts(comps@)),
        ensures
            steps_view(steps@) == clear_whiteout_steps(self.root@, root, text::texts(comps@)),
    {
        let path = self.whiteout_path(root, comps);
        let mut steps: Vec<FsStep> = Vec::new();
        steps.push(FsStep { op: FsOp::Remove { path }, tolerates: Tolerance::Missing });
        assert(steps_view(steps@) =~= clear_whiteout_steps(
            self.root@,
            root,
            text::texts(comps@),
        ));
        steps
    }

    /// [`whiteout_steps`].
    pub fn whiteout(&self, root: u32, comps: &[String]) -> (steps: Vec<FsStep>)
        requires
            all_plain(text::texts(comps@)),
        ensures
            steps_view(steps@) == whiteout_steps(self.root@, root, text::texts(comps@)),
    {
        let mut steps = self.ensure_parent(root, comps);
        let ghost first = steps_view(steps@);
        assert(steps@[0]@ == first[0]);
        let file = self.file_path(root, comps);
        let marker = self.whiteout_path(root, comps);
        steps.push(FsStep { op: FsOp::Remove { path: file }, tolerates: Tolerance::Anything });
        steps.push(FsStep { op: FsOp::WriteEmpty { path: marker }, tolerates: Tolerance::Nothing });
        assert(steps@[0]@ == first[0]);
        assert(steps_view(steps@) =~= whiteout_steps(self.root@, root, text::texts(comps@)));
        steps
    }

    /// [`rename_steps`].
    pub fn rename(&self, root: u32, from: &[String], to: &[String]) -> (steps: Vec<FsStep>)
        requires
            all_plain(text::texts(from@)),
            all_plain(text::texts(to@)),
        ensures
            steps_view(steps@) == rename_steps(
                self.root@,
                root,
                text::texts(from@),
                text::texts(to@),
            ),
    {
        let mut steps = self.ensure_parent(root, to);
        let ghost first = steps_view(steps@);
        assert(steps@[0]@ == first[0]);
        let source = self.file_path(root, from);
        let target = self.file_path(root, to);
        let cleared = self.whiteout_path(root, to);
        let marker = self.whiteout_path(root, from);
        steps.push(
            FsStep {
                op: FsOp::Move { from: source, to: target },
                tolerates: Tolerance::Missing,
            },
        );
        steps.push(FsStep { op: FsOp::Remove { path: cleared }, tolerates: Tolerance::Missing });
        steps.push(FsStep { op: FsOp::WriteEmpty { path: marker }, tolerates: Tolerance::Nothing });
        assert(steps@[0]@ == first[0]);
        assert(steps_view(steps@) =~= rename_steps(
            self.root@,
            root,
            text::texts(from@),
            text::texts(to@),
        ));
        steps
    }
}

/// The files that stand after a change, where `files` stood before it and it ended so.
pub open spec fn files_after(files: Set<Seq<char>>, op: FsOpView, result: FsResult) -> Set<
    Seq<char>,
> {
    if result != FsResult::Done {
        files
    } else {
        match op {
            FsOpView::MakeDirs { path } => files,
            FsOpView::Remove { path } => files.remove(path),
            FsOpView::WriteEmpty { path } => files.insert(path),
            FsOpView::Move { from, to } => files.remove(from).insert(to),
        }
    }
}

/// The files that stand after a plan was run to its end, where each step ended as `results`
/// say.
pub open spec fn files_after_plan(
    files: Set<Seq<char>>,
    steps: Seq<FsStepView>,
    results: Seq<FsResult>,
) -> Set<Seq<char>>
    decreases steps.len(),
{
    if steps.len() == 0 {
        files
    } else {
        files_after(
            files_after_plan(files, steps.drop_last(), results.drop_last()),
            steps.last().op,
            results.last(),
        )
    }
}

/// Whether a plan ran to its end: every step went on. A file that is reported missing is not
/// there.
pub open spec fn plan_succeeds(
    files: Set<Seq<char>>,
    steps: Seq<FsStepView>,
    results: Seq<FsResult>,
) -> bool
    decreases steps.len(),
{
    steps.len() == results.len() && (steps.len() > 0 ==> {
        let before = files_after_plan(files, steps.drop_last(), results.drop_last());
        &&& plan_succeeds(files, steps.drop_last(), results.drop_last())
        &&& goes_on(steps.last().tolerates, results.last())
        &&& results.last() == FsResult::Missing ==> match steps.last().op {
            FsOpView::Remove { path } => !before.contains(path),
            FsOpView::Move { from, to } => !before.contains(from),
            _ => true,
        }
    })
}

/// What the overlay says of a path where `files` stand.
pub open spec fn is_whited_out(
    overlay_root: Seq<char>,
    files: Set<Seq<char>>,
    root: u32,
    comps: Seq<Seq<char>>,
) -> bool {
    comps.len() > 0 && !files.contains(file_at(overlay_root, root, comps)) && files.contains(
        marker_at(overlay_root, root, comps),
    )
}

proof fn lemma_marker_is_no_own_file(overlay_root: Seq<char>, root: u32, comps: Seq<Seq<char>>)
    requires
        comps.len() > 0,
    ensures
        marker_at(overlay_root, root, comps) == file_at(overlay_root, root, comps)
            + marker_suffix(),
        marker_at(overlay_root, root, comps) != file_at(overlay_root, root, comps),
{
    reveal_strlit(".__vfs_wh__");
    assert(marker_at(overlay_root, root, comps) =~= file_at(overlay_root, root, comps)
        + marker_suffix());
    assert(marker_at(overlay_root, root, comps).len() == file_at(overlay_root, root, comps).len()
        + 11);
}

/// After a path was hidden, and its copy in the overlay is gone, the overlay says that it is
/// deleted; and what it says of any path of another root is what it said before.
pub proof fn law_whiteout_hides_its_path_and_no_other_root(
    overlay_root: Seq<char>,
    files: Set<Seq<char>>,
    root: u32,
    comps: Seq<Seq<char>>,
    results: Seq<FsResult>,
    other: u32,
    theirs: Seq<Seq<char>>,
)
    requires
        comps.len() > 0,
        all_plain(comps),
        all_plain(theirs),
        other != root,
        plan_succeeds(files, whiteout_steps(overlay_root, root, comps), results),
        results[1] != FsResult::Failed,
    ensures
        is_whited_out(
            overlay_root,
            files_after_plan(files, whiteout_steps(overlay_root, root, comps), results),
            root,
            comps,
        ),
        files_after_plan(files, whiteout_steps(overlay_root, root, comps), results).contains(
            file_at(overlay_root, other, theirs),
        ) == files.contains(file_at(overlay_root, other, theirs)),
        files_after_plan(files, whiteout_steps(overlay_root, root, comps), results).contains(
            marker_at(overlay_root, other, theirs),
        ) == files.contains(marker_at(overlay_root, other, theirs)),
{
    let steps = whiteout_steps(overlay_root, root, comps);
    let s2 = steps.drop_last();
    let s1 = s2.drop_last();
    let r2 = results.drop_last();
    let r1 = r2.drop_last();
    assert(s1 =~= ensure_parent_steps(overlay_root, root, comps));
    assert(s1.drop_last() =~= Seq::<FsStepView>::empty());
    assert(r2.last() == results[1]);
    reveal_with_fuel(files_after_plan, 4);
    reveal_with_fuel(plan_succeeds, 4);
    lemma_marker_is_no_own_file(overlay_root, root, comps);
    law_roots_never_share_a_path(overlay_root, root, comps, other, theirs);
    assert(steps.last().op == FsOpView::WriteEmpty {
        path: marker_at(overlay_root, root, comps),
    });
    assert(s2.last().op == FsOpView::Remove { path: file_at(overlay_root, root, comps) });
    assert(files_after_plan(files, s1, r1) == files);
    assert(results.last() == FsResult::Done);
}

/// Hiding a path and making it visible again leaves no marker behind.
pub proof fn law_clearing_undoes_whiteout(
    overlay_root: Seq<char>,
    files: Set<Seq<char>>,
    root: u32,
    comps: Seq<Seq<char>>,
    results: Seq<FsResult>,
)
    requires
        plan_succeeds(files, clear_whiteout_steps(overlay_root, root, comps), results),
    ensures
        !is_whited_out(
            overlay_root,
            files_after_plan(files, clear_whiteout_steps(overlay_root, root, comps), results),
            root,
            comps,
        ),
        forall|p: Seq<char>|
            p != marker_at(overlay_root, root, comps) ==> files_after_plan(
                files,
                clear_whiteout_steps(overlay_root, root, comps),
                results,
            ).contains(p) == files.contains(p),
{
    let steps = clear_whiteout_steps(overlay_root, root, comps);
    assert(steps.drop_last() =~= Seq::<FsStepView>::empty());
    reveal_with_fuel(files_after_plan, 2);
    reveal_with_fuel(plan_succeeds, 2);
}

/// After a file was moved within a root, its old path is deleted and its new one is not; what
/// the overlay says of another root is what it said before.
pub proof fn law_rename_moves_and_hides_the_source(
    overlay_root: Seq<char>,
    files: Set<Seq<char>>,
    root: u32,
    from: Seq<Seq<char>>,
    to: Seq<Seq<char>>,
    results: Seq<FsResult>,
    other: u32,
    theirs: Seq<Seq<char>>,
)
    requires
        from.len() > 0,
        to.len() > 0,
        all_plain(from),
        all_plain(to),
        all_plain(theirs),
        other != root,
        file_at(overlay_root, root, from) != file_at(overlay_root, root, to),
        marker_at(overlay_root, root, to) != file_at(overlay_root, root, from),
        marker_at(overlay_root, root, from) != file_at(overlay_root, root, to),
        files.contains(file_at(overlay_root, root, from)),
        plan_succeeds(files, rename_steps(overlay_root, root, from, to), results),
    ensures
        ({
            let after = files_after_plan(files, rename_steps(overlay_root, root, from, to), results);
            &&& is_whited_out(overlay_root, after, root, from)
            &&& after.contains(file_at(overlay_root, root, to))
            &&& !after.contains(marker_at(overlay_root, root, to))
            &&& after.contains(file_at(overlay_root, other, theirs)) == files.contains(
                file_at(overlay_root, other, theirs),
            )
            &&& after.contains(marker_at(overlay_root, other, theirs)) == files.contains(
                marker_at(overlay_root, other, theirs),
            )
        }),
{
    let steps = rename_steps(overlay_root, root, from, to);
    let s3 = steps.drop_last();
    let s2 = s3.drop_last();
    let s1 = s2.drop_last();
    assert(s1 =~= ensure_parent_steps(overlay_root, root, to));
    assert(s1.drop_last() =~= Seq::<FsStepView>::empty());
    reveal_with_fuel(files_after_plan, 5);
    reveal_with_fuel(plan_succeeds, 5);
    lemma_marker_is_no_own_file(overlay_root, root, from);
    lemma_marker_is_no_own_file(overlay_root, root, to);
    if marker_at(overlay_root, root, to) == marker_at(overlay_root, root, from) {
        let x = file_at(overlay_root, root, to);
        let y = file_at(overlay_root, root, from);
        assert(x =~= (x + marker_suffix()).take(x.len() as int));
        assert(y =~= (y + marker_suffix()).take(y.len() as int));
        assert((x + marker_suffix()).len() == (y + marker_suffix()).len());
    }
    law_roots_never_share_a_path(overlay_root, root, from, other, theirs);
    law_roots_never_share_a_path(overlay_root, root, to, other, theirs);
    assert(steps.last().op == FsOpView::WriteEmpty { path: marker_at(overlay_root, root, from) });
    assert(s3.last().op == FsOpView::Remove { path: marker_at(overlay_root, root, to) });
    assert(s2.last().op == FsOpView::Move {
        from: file_at(overlay_root, root, from),
        to: file_at(overlay_root, root, to),
    });
}

// ---------------------------------------------------------------------------------------
// Listings.

/// One entry of a directory.
pub struct DirItem {
    pub name: String,
    pub is_dir: bool,
    pub size: u64,
    /// Seconds since 1970.
    pub mtime: i64,
}

/// One entry of a directory, as values.
pub struct ItemView {
    pub name: Seq<char>,
    pub is_dir: bool,
    pub size: u64,
    pub mtime: i64,
}

impl View for DirItem {
    type V = ItemView;

    open spec fn view(&self) -> ItemView {
        ItemView { name: self.name@, is_dir: self.is_dir, size: self.size, mtime: self.mtime }
    }
}

impl DirItem {
    /// The same entry again.
    pub fn copy(&self) -> (r: DirItem)
        ensures
            r@ == self@,
    {
        DirItem {
            name: self.name.clone(),
            is_dir: self.is_dir,
            size: self.size,
            mtime: self.mtime,
        }
    }
}

/// An entry under the name that it is found by: its own, with case folded.
pub struct KeyedItem {
    pub key: String,
    /// Where the name is a marker's, the name that it hides, with case folded.
    pub base_key: String,
    pub item: DirItem,
}

/// The values of keyed entries.
pub open spec fn keyed(v: Seq<KeyedItem>) -> Seq<(Seq<char>, ItemView)> {
    v.map_values(|k: KeyedItem| (k.key@, k.item@))
}

/// Whether a marker among `items` hides `key`.
pub open spec fn hidden_in(items: Seq<KeyedItem>, key: Seq<char>) -> bool {
    exists|i: int|
        0 <= i < items.len() && is_marker((#[trigger] items[i]).item.name@) && items[i].base_key@
            == key
}

/// Whether an entry of the listing `items` is shown: it is no marker, and no marker hides it.
pub open spec fn is_shown(items: Seq<KeyedItem>, x: KeyedItem) -> bool {
    !is_marker(x.item.name@) && !hidden_in(items, x.key@)
}

/// The entries of `some` that the markers of the listing `items` leave, in order.
pub open spec fn shown(items: Seq<KeyedItem>, some: Seq<KeyedItem>) -> Seq<(Seq<char>, ItemView)>
    decreases some.len(),
{
    if some.len() == 0 {
        seq![]
    } else {
        let rest = shown(items, some.drop_last());
        if is_shown(items, some.last()) {
            rest.push((some.last().key@, some.last().item@))
        } else {
            rest
        }
    }
}

/// A listing without its markers and without the names that they hide. The order stays.
pub fn strip_whiteout_markers(items: Vec<KeyedItem>) -> (r: Vec<KeyedItem>)
    ensures
        keyed(r@) == shown(items@, items@),
        forall|i: int| 0 <= i < r@.len() ==> !is_marker((#[trigger] r@[i]).item.name@),
{
    let mut r: Vec<KeyedItem> = Vec::new();
    let mut i: usize = 0;
    assert(items@.take(0) =~= Seq::<KeyedItem>::empty());
    assert(keyed(r@) =~= Seq::<(Seq<char>, ItemView)>::empty());
    while i < items.len()
        invariant
            i <= items@.len(),
            keyed(r@) == shown(items@, items@.take(i as int)),
            forall|k: int| 0 <= k < r@.len() ==> !is_marker((#[trigger] r@[k]).item.name@),
        decreases items@.len() - i,
    {
        assert(items@.take(i + 1).drop_last() =~= items@.take(i as int));
        let x = &items[i];
        let mut hidden = whiteout_base(x.item.name.as_str()).is_some();
        let ghost marker = hidden;
        let mut j: usize = 0;
        while j < items.len() && !hidden
            invariant
                j <= items@.len(),
                i < items@.len(),
                *x == items@[i as int],
                marker == is_marker(x.item.name@),
                hidden ==> marker || hidden_in(items@, x.key@),
                marker ==> hidden,
                !hidden ==> forall|k: int|
                    0 <= k < j ==> !(is_marker((#[trigger] items@[k]).item.name@)
                        && items@[k].base_key@ == x.key@),
            decreases items@.len() - j,
        {
            if whiteout_base(items[j].item.name.as_str()).is_some() && text::same_text(
                items[j].base_key.as_str(),
                x.key.as_str(),
            ) {
                hidden = true;
            }
            j = j + 1;
        }
        assert(hidden == !is_shown(items@, items@[i as int]));
        if !hidden {
            let ghost before = keyed(r@);
            r.push(
                KeyedItem {
                    key: x.key.clone(),
                    base_key: x.base_key.clone(),
                    item: x.item.copy(),
                },
            );
            assert(keyed(r@) =~= before.push((x.key@, x.item@)));
        }
        i = i + 1;
    }
    assert(items@.take(i as int) =~= items@);
    r
}

proof fn lemma_shown_has(
    items: Seq<KeyedItem>,
    some: Seq<KeyedItem>,
    e: (Seq<char>, ItemView),
)
    ensures
        shown(items, some).contains(e) <==> exists|i: int|
            0 <= i < some.len() && (#[trigger] some[i]).key@ == e.0 && some[i].item@ == e.1
                && is_shown(items, some[i]),
    decreases some.len(),
{
    if some.len() > 0 {
        let init = some.drop_last();
        let last = some.last();
        lemma_shown_has(items, init, e);
        let out = shown(items, some);
        if shown(items, some).contains(e) {
            let j = choose|j: int| 0 <= j < out.len() && out[j] == e;
            if is_shown(items, last) && j == out.len() - 1 {
                assert(some[some.len() - 1] == last);
            } else {
                assert(shown(items, init)[j] == e);
                let i = choose|i: int|
                    0 <= i < init.len() && (#[trigger] init[i]).key@ == e.0 && init[i].item@ == e.1
                        && is_shown(items, init[i]);
                assert(some[i] == init[i]);
            }
        }
        if exists|i: int|
            0 <= i < some.len() && (#[trigger] some[i]).key@ == e.0 && some[i].item@ == e.1
                && is_shown(items, some[i]) {
            let i = choose|i: int|
                0 <= i < some.len() && (#[trigger] some[i]).key@ == e.0 && some[i].item@ == e.1
                    && is_shown(items, some[i]);
            if i == some.len() - 1 {
                assert(out[out.len() - 1] == e);
            } else {
                assert(init[i] == some[i]);
                let j = choose|j: int| 0 <= j < shown(items, init).len() && shown(items, init)[j] == e;
                assert(out[j] == e);
            }
        }
    }
}

/// A listing that comes back with the overlay's markers in it shows neither a marker nor the
/// file that one names, and shows everything else.
pub proof fn law_stripped_listing(items: Seq<KeyedItem>, i: int)
    requires
        0 <= i < items.len(),
    ensures
        shown(items, items).contains((items[i].key@, items[i].item@)) <==> !is_marker(
            items[i].item.name@,
        ) && !hidden_in(items, items[i].key@),
{
    let e = (items[i].key@, items[i].item@);
    lemma_shown_has(items, items, e);
    if is_shown(items, items[i]) {
        assert(shown(items, items).contains(e));
    } else if shown(items, items).contains(e) {
        let k = choose|k: int|
            0 <= k < items.len() && (#[trigger] items[k]).key@ == e.0 && items[k].item@ == e.1
                && is_shown(items, items[k]);
        assert(items[k].item.name@ == items[k].item@.name);
        assert(items[i].item.name@ == items[i].item@.name);
    }
}

/// One entry of the overlay's own directory.
pub struct OverlayEntry {
    pub name: String,
    /// The name with case folded.
    pub key: String,
    /// Where the name is a marker's, the name that it hides, with case folded.
    pub base_key: String,
    /// Whether it is a directory, its size and time; `None` where they cannot be read.
    pub meta: Option<(bool, u64, i64)>,
    /// Whether the name is among those asked for.
    pub wanted: bool,
}

/// The entries of `items` by key; of two with the same key the later one counts.
pub open spec fn by_key(items: Seq<(Seq<char>, ItemView)>) -> Map<Seq<char>, ItemView>
    decreases items.len(),
{
    if items.len() == 0 {
        Map::empty()
    } else {
        by_key(items.drop_last()).insert(items.last().0, items.last().1)
    }
}

/// What the markers among `entries` leave of `m`: neither the names that they hide nor their
/// own.
pub open spec fn unmarked(m: Map<Seq<char>, ItemView>, entries: Seq<OverlayEntry>) -> Map<
    Seq<char>,
    ItemView,
>
    decreases entries.len(),
{
    if entries.len() == 0 {
        m
    } else {
        let e = entries.last();
        let rest = unmarked(m, entries.drop_last());
        if is_marker(e.name@) {
            rest.remove(e.base_key@).remove(e.key@)
        } else {
            rest
        }
    }
}

/// The listing entry of an entry of the overlay, where it adds one.
pub open spec fn added(e: OverlayEntry) -> Option<ItemView> {
    match e.meta {
        Some((is_dir, size, mtime)) => if !is_marker(e.name@) && e.wanted {
            Some(ItemView { name: e.name@, is_dir, size, mtime })
        } else {
            None
        },
        None => None,
    }
}

/// `m` with what `entries` add to it or replace in it.
pub open spec fn overlaid(m: Map<Seq<char>, ItemView>, entries: Seq<OverlayEntry>) -> Map<
    Seq<char>,
    ItemView,
>
    decreases entries.len(),
{
    if entries.len() == 0 {
        m
    } else {
        let rest = overlaid(m, entries.drop_last());
        match added(entries.last()) {
            Some(item) => rest.insert(entries.last().key@, item),
            None => rest,
        }
    }
}

/// Whether the keys stand in strictly rising order.
pub open spec fn keys_rise(items: Seq<(Seq<char>, ItemView)>) -> bool {
    forall|i: int, j: int|
        0 <= i < j < items.len() ==> tally::text_before(#[trigger] items[i].0, #[trigger] items[j].0)
}

/// Whether `items` is `m` in the order of its keys.
pub open spec fn lists(items: Seq<(Seq<char>, ItemView)>, m: Map<Seq<char>, ItemView>) -> bool {
    keys_rise(items) && by_key(items) == m
}

proof fn lemma_by_key(items: Seq<(Seq<char>, ItemView)>)
    requires
        keys_rise(items),
    ensures
        forall|i: int|
            0 <= i < items.len() ==> by_key(items).dom().contains((#[trigger] items[i]).0)
                && by_key(items)[items[i].0] == items[i].1,
        forall|k: Seq<char>| #[trigger]
            by_key(items).dom().contains(k) ==> exists|i: int|
                0 <= i < items.len() && (#[trigger] items[i]).0 == k,
    decreases items.len(),
{
    if items.len() > 0 {
        let init = items.drop_last();
        assert(keys_rise(init)) by {
            assert forall|i: int, j: int| 0 <= i < j < init.len() implies tally::text_before(
                #[trigger] init[i].0,
                #[trigger] init[j].0,
            ) by {
                assert(init[i] == items[i] && init[j] == items[j]);
            }
        }
        lemma_by_key(init);
        assert forall|i: int| 0 <= i < items.len() implies by_key(items).dom().contains(
            (#[trigger] items[i]).0,
        ) && by_key(items)[items[i].0] == items[i].1 by {
            if i < items.len() - 1 {
                assert(init[i] == items[i]);
                assert(tally::text_before(items[i].0, items[items.len() - 1].0));
                tally::lemma_text_before_total(items[i].0, items.last().0);
            }
        }
        assert forall|k: Seq<char>| #[trigger] by_key(items).dom().contains(k) implies exists|
            i: int,
        | 0 <= i < items.len() && (#[trigger] items[i]).0 == k by {
            if k == items.last().0 {
                assert(items[items.len() - 1].0 == k);
            } else {
                assert(by_key(init).dom().contains(k));
                let i = choose|i: int| 0 <= i < init.len() && (#[trigger] init[i]).0 == k;
                assert(items[i].0 == k);
            }
        }
    }
}

/// Two listings in the order of their keys with the same entries are the same.
proof fn lemma_by_key_is(items: Seq<(Seq<char>, ItemView)>, m: Map<Seq<char>, ItemView>)
    requires
        keys_rise(items),
        forall|i: int|
            0 <= i < items.len() ==> m.dom().contains((#[trigger] items[i]).0) && m[items[i].0]
                == items[i].1,
        forall|k: Seq<char>| #[trigger]
            m.dom().contains(k) ==> exists|i: int|
                0 <= i < items.len() && (#[trigger] items[i]).0 == k,
    ensures
        by_key(items) == m,
{
    lemma_by_key(items);
    assert forall|k: Seq<char>| by_key(items).dom().contains(k) == m.dom().contains(k) by {
        if by_key(items).dom().contains(k) {
            let i = choose|i: int| 0 <= i < items.len() && (#[trigger] items[i]).0 == k;
            assert(m.dom().contains(items[i].0));
        }
        if m.dom().contains(k) {
            let i = choose|i: int| 0 <= i < items.len() && (#[trigger] items[i]).0 == k;
            assert(by_key(items).dom().contains(items[i].0));
        }
    }
    assert forall|k: Seq<char>| by_key(items).dom().contains(k) implies by_key(items)[k]
        == m[k] by {
        let i = choose|i: int| 0 <= i < items.len() && (#[trigger] items[i]).0 == k;
        assert(by_key(items)[items[i].0] == items[i].1);
        assert(m[items[i].0] == items[i].1);
    }
    assert(by_key(items) =~= m);
}

/// The number of entries whose key comes before `key`.
fn place(v: &Vec<KeyedItem>, key: &str) -> (r: usize)
    requires
        keys_rise(keyed(v@)),
    ensures
        r <= v@.len(),
        forall|i: int| 0 <= i < r ==> tally::text_before(#[trigger] v@[i].key@, key@),
        forall|i: int| r <= i < v@.len() ==> !tally::text_before(#[trigger] v@[i].key@, key@),
{
    let mut r: usize = 0;
    while r < v.len() && tally::is_text_before(v[r].key.as_str(), key)
        invariant
            r <= v@.len(),
            forall|i: int| 0 <= i < r ==> tally::text_before(#[trigger] v@[i].key@, key@),
        decreases v@.len() - r,
    {
        r = r + 1;
    }
    proof {
        if r < v@.len() {
            assert forall|i: int| r <= i < v@.len() implies !tally::text_before(
                #[trigger] v@[i].key@,
                key@,
            ) by {
                if i > r && tally::text_before(v@[i].key@, key@) {
                    assert(tally::text_before(keyed(v@)[r as int].0, keyed(v@)[i].0));
                    tally::lemma_text_before_trans(v@[r as int].key@, v@[i].key@, key@);
                }
            }
        }
    }
    r
}

/// Puts `item` under `key`, in place of what stood there.
fn put(v: &mut Vec<KeyedItem>, key: String, base_key: String, item: DirItem)
    requires
        keys_rise(keyed(old(v)@)),
    ensures
        lists(keyed(final(v)@), by_key(keyed(old(v)@)).insert(key@, item@)),
{
    let ghost before = keyed(v@);
    let ghost k = key@;
    let ghost x = item@;
    let r: usize = place(v, key.as_str());
    if r < v.len() && text::same_text(v[r].key.as_str(), key.as_str()) {
        v.set(r, KeyedItem { key, base_key, item });
        proof {
            let after = keyed(v@);
            assert(after =~= before.update(r as int, (k, x)));
            assert(keys_rise(after)) by {
                assert forall|i: int, j: int| 0 <= i < j < after.len() implies tally::text_before(
                    #[trigger] after[i].0,
                    #[trigger] after[j].0,
                ) by {
                    assert(after[i].0 == before[i].0 && after[j].0 == before[j].0);
                }
            }
            lemma_by_key(before);
            let m = by_key(before).insert(k, x);
            assert forall|i: int| 0 <= i < after.len() implies m.dom().contains(
                (#[trigger] after[i]).0,
            ) && m[after[i].0] == after[i].1 by {
                if i != r {
                    assert(after[i] == before[i]);
                    tally::lemma_text_before_total(before[i].0, k);
                    if i < r {
                        assert(tally::text_before(before[i].0, before[r as int].0));
                    } else {
                        assert(tally::text_before(before[r as int].0, before[i].0));
                    }
                }
            }
            assert forall|q: Seq<char>| #[trigger] m.dom().contains(q) implies exists|i: int|
                0 <= i < after.len() && (#[trigger] after[i]).0 == q by {
                if q == k {
                    assert(after[r as int].0 == q);
                } else {
                    assert(by_key(before).dom().contains(q));
                    let i = choose|i: int| 0 <= i < before.len() && (#[trigger] before[i]).0 == q;
                    assert(after[i].0 == q);
                }
            }
            lemma_by_key_is(after, m);
        }
    } else {
        v.insert(r, KeyedItem { key, base_key, item });
        proof {
            let after = keyed(v@);
            assert(after =~= before.insert(r as int, (k, x)));
            if r < before.len() {
                tally::lemma_text_before_total(before[r as int].0, k);
                assert(tally::text_before(k, before[r as int].0));
            }
            assert(keys_rise(after)) by {
                assert forall|i: int, j: int| 0 <= i < j < after.len() implies tally::text_before(
                    #[trigger] after[i].0,
                    #[trigger] after[j].0,
                ) by {
                    let a = if i < r {
                        i
                    } else {
                        i - 1
                    };
                    let b = if j < r {
                        j
                    } else {
                        j - 1
                    };
                    if i == r {
                        assert(after[j] == before[j - 1]);
                        if j - 1 > r {
                            assert(tally::text_before(before[r as int].0, before[j - 1].0));
                            tally::lemma_text_before_trans(k, before[r as int].0, before[j - 1].0);
                        }
                    } else if j == r {
                        assert(after[i] == before[i]);
                    } else {
                        assert(after[i] == before[a] && after[j] == before[b]);
                        assert(tally::text_before(before[a].0, before[b].0));
                    }
                }
            }
            lemma_by_key(before);
            let m = by_key(before).insert(k, x);
            assert forall|i: int| 0 <= i < after.len() implies m.dom().contains(
                (#[trigger] after[i]).0,
            ) && m[after[i].0] == after[i].1 by {
                if i < r {
                    assert(after[i] == before[i]);
                    tally::lemma_text_before_total(before[i].0, k);
                } else if i > r {
                    assert(after[i] == before[i - 1]);
                    assert(tally::text_before(after[r as int].0, after[i].0));
                    tally::lemma_text_before_total(k, before[i - 1].0);
                }
            }
            assert forall|q: Seq<char>| #[trigger] m.dom().contains(q) implies exists|i: int|
                0 <= i < after.len() && (#[trigger] after[i]).0 == q by {
                if q == k {
                    assert(after[r as int].0 == q);
                } else {
                    assert(by_key(before).dom().contains(q));
                    let i = choose|i: int| 0 <= i < before.len() && (#[trigger] before[i]).0 == q;
                    if i < r {
                        assert(after[i].0 == q);
                    } else {
                        assert(after[i + 1].0 == q);
                    }
                }
            }
            lemma_by_key_is(after, m);
        }
    }
}

/// Takes out what stands under `key`.
fn take_out(v: &mut Vec<KeyedItem>, key: &str)
    requires
        keys_rise(keyed(old(v)@)),
    ensures
        lists(keyed(final(v)@), by_key(keyed(old(v)@)).remove(key@)),
{
    let ghost before = keyed(v@);
    let ghost k = key@;
    let r: usize = place(v, key);
    proof {
        lemma_by_key(before);
    }
    if r < v.len() && text::same_text(v[r].key.as_str(), key) {
        let _ = v.remove(r);
        proof {
            let after = keyed(v@);
            assert(after =~= before.remove(r as int));
            assert(keys_rise(after)) by {
                assert forall|i: int, j: int| 0 <= i < j < after.len() implies tally::text_before(
                    #[trigger] after[i].0,
                    #[trigger] after[j].0,
                ) by {
                    let a = if i < r {
                        i
                    } else {
                        i + 1
                    };
                    let b = if j < r {
                        j
                    } else {
                        j + 1
                    };
                    assert(after[i] == before[a] && after[j] == before[b]);
                    assert(tally::text_before(before[a].0, before[b].0));
                }
            }
            let m = by_key(before).remove(k);
            assert forall|i: int| 0 <= i < after.len() implies m.dom().contains(
                (#[trigger] after[i]).0,
            ) && m[after[i].0] == after[i].1 by {
                let a = if i < r {
                    i
                } else {
                    i + 1
                };
                assert(after[i] == before[a]);
                if a < r {
                    assert(tally::text_before(before[a].0, before[r as int].0));
                } else {
                    assert(tally::text_before(before[r as int].0, before[a].0));
                }
                tally::lemma_text_before_total(before[a].0, k);
            }
            assert forall|q: Seq<char>| #[trigger] m.dom().contains(q) implies exists|i: int|
                0 <= i < after.len() && (#[trigger] after[i]).0 == q by {
                assert(by_key(before).dom().contains(q));
                let i = choose|i: int| 0 <= i < before.len() && (#[trigger] before[i]).0 == q;
                if i < r {
                    assert(after[i].0 == q);
                } else {
                    assert(i != r);
                    assert(after[i - 1].0 == q);
                }
            }
            lemma_by_key_is(after, m);
        }
    } else {
        proof {
            assert(!by_key(before).dom().contains(k)) by {
                if by_key(before).dom().contains(k) {
                    let i = choose|i: int| 0 <= i < before.len() && (#[trigger] before[i]).0 == k;
                    tally::lemma_text_before_total(k, k);
                    assert(i >= r);
                    if i > r {
                        assert(tally::text_before(before[r as int].0, before[i].0));
                        assert(!tally::text_before(v@[r as int].key@, k));
                    }
                }
            }
            assert(by_key(before).remove(k) =~= by_key(before));
        }
    }
}

impl Overlay {
    /// The overlay's own entries of a directory laid over the listing `merged`, which first
    /// loses its own markers and what they hide: a marker takes out the name that it hides and
    /// its own, a file adds an entry or replaces one. The result stands in the order of the
    /// keys. `entries` is what the overlay's directory holds; where
    /// it cannot be read there is nothing to lay over, and `merged` comes back as it is.
    pub fn apply_to_listing(&self, merged: Vec<KeyedItem>, entries: Option<&[OverlayEntry]>) -> (r:
        Vec<KeyedItem>)
        ensures
            match entries {
                Some(e) => lists(
                    keyed(r@),
                    overlaid(unmarked(by_key(shown(merged@, merged@)), e@), e@),
                ),
                None => keyed(r@) == keyed(merged@),
            },
    {
        let entries = match entries {
            Some(e) => e,
            None => {
                return merged;
            },
        };
        let merged = strip_whiteout_markers(merged);
        let ghost given = keyed(merged@);
        let mut out: Vec<KeyedItem> = Vec::new();
        let mut i: usize = 0;
        assert(keyed(out@) =~= Seq::<(Seq<char>, ItemView)>::empty());
        while i < merged.len()
            invariant
                i <= merged@.len(),
                given == keyed(merged@),
                lists(keyed(out@), by_key(given.take(i as int))),
            decreases merged@.len() - i,
        {
            assert(given.take(i + 1).drop_last() =~= given.take(i as int));
            assert(given.take(i + 1).last() == (merged@[i as int].key@, merged@[i as int].item@));
            put(
                &mut out,
                merged[i].key.clone(),
                merged[i].base_key.clone(),
                merged[i].item.copy(),
            );
            i = i + 1;
        }
        assert(given.take(i as int) =~= given);
        let ghost base = by_key(given);
        let mut j: usize = 0;
        assert(entries@.take(0) =~= Seq::<OverlayEntry>::empty());
        while j < entries.len()
            invariant
                j <= entries@.len(),
                lists(keyed(out@), unmarked(base, entries@.take(j as int))),
            decreases entries@.len() - j,
        {
            assert(entries@.take(j + 1).drop_last() =~= entries@.take(j as int));
            let e = &entries[j];
            if whiteout_base(e.name.as_str()).is_some() {
                take_out(&mut out, e.base_key.as_str());
                take_out(&mut out, e.key.as_str());
            }
            j = j + 1;
        }
        assert(entries@.take(j as int) =~= entries@);
        let ghost left = unmarked(base, entries@);
        let mut n: usize = 0;
        while n < entries.len()
            invariant
                n <= entries@.len(),
                lists(keyed(out@), overlaid(left, entries@.take(n as int))),
            decreases entries@.len() - n,
        {
            assert(entries@.take(n + 1).drop_last() =~= entries@.take(n as int));
            let e = &entries[n];
            if whiteout_base(e.name.as_str()).is_none() && e.wanted {
                if let Some((is_dir, size, mtime)) = e.meta {
                    put(
                        &mut out,
                        e.key.clone(),
                        e.base_key.clone(),
                        DirItem { name: e.name.clone(), is_dir, size, mtime },
                    );
                }
            }
            n = n + 1;
        }
        assert(entries@.take(n as int) =~= entries@);
        out
    }
}

proof fn lemma_unmarked_lacks(
    m: Map<Seq<char>, ItemView>,
    entries: Seq<OverlayEntry>,
    i: int,
    k: Seq<char>,
)
    requires
        0 <= i < entries.len(),
        is_marker(entries[i].name@),
        k == entries[i].base_key@ || k == entries[i].key@,
    ensures
        !unmarked(m, entries).dom().contains(k),
    decreases entries.len(),
{
    if i < entries.len() - 1 {
        assert(entries.drop_last()[i] == entries[i]);
        lemma_unmarked_lacks(m, entries.drop_last(), i, k);
    }
}

proof fn lemma_overlaid_keeps_out(
    m: Map<Seq<char>, ItemView>,
    entries: Seq<OverlayEntry>,
    k: Seq<char>,
)
    requires
        forall|i: int| 0 <= i < entries.len() && (#[trigger] entries[i]).key@ == k ==> added(
            entries[i],
        ) is None,
    ensures
        overlaid(m, entries).dom().contains(k) == m.dom().contains(k),
        overlaid(m, entries).dom().contains(k) ==> overlaid(m, entries)[k] == m[k],
    decreases entries.len(),
{
    if entries.len() > 0 {
        assert forall|i: int| 0 <= i < entries.drop_last().len() && (
        #[trigger] entries.drop_last()[i]).key@ == k implies added(entries.drop_last()[i]) is None by {
            assert(entries.drop_last()[i] == entries[i]);
        }
        lemma_overlaid_keeps_out(m, entries.drop_last(), k);
        let e = entries[entries.len() - 1];
        assert(e == entries.last());
    }
}

/// A marker in the overlay's directory takes its own name out of a listing, and the name that
/// it hides: neither is listed, unless the overlay holds a file of that name.
pub proof fn law_markers_hide_their_names_and_themselves(
    merged: Seq<(Seq<char>, ItemView)>,
    entries: Seq<OverlayEntry>,
    i: int,
    k: Seq<char>,
)
    requires
        0 <= i < entries.len(),
        is_marker(entries[i].name@),
        k == entries[i].base_key@ || k == entries[i].key@,
        forall|j: int| 0 <= j < entries.len() && (#[trigger] entries[j]).key@ == k ==> added(
            entries[j],
        ) is None,
    ensures
        !overlaid(unmarked(by_key(merged), entries), entries).dom().contains(k),
{
    lemma_unmarked_lacks(by_key(merged), entries, i, k);
    lemma_overlaid_keeps_out(unmarked(by_key(merged), entries), entries, k);
}

proof fn lemma_unmarked_keeps(
    m: Map<Seq<char>, ItemView>,
    entries: Seq<OverlayEntry>,
    k: Seq<char>,
)
    requires
        forall|i: int|
            0 <= i < entries.len() && is_marker((#[trigger] entries[i]).name@)
                ==> entries[i].base_key@ != k && entries[i].key@ != k,
    ensures
        unmarked(m, entries).dom().contains(k) == m.dom().contains(k),
        m.dom().contains(k) ==> unmarked(m, entries)[k] == m[k],
    decreases entries.len(),
{
    if entries.len() > 0 {
        assert forall|i: int|
            0 <= i < entries.drop_last().len() && is_marker(
                (#[trigger] entries.drop_last()[i]).name@,
            ) implies entries.drop_last()[i].base_key@ != k && entries.drop_last()[i].key@ != k by {
            assert(entries.drop_last()[i] == entries[i]);
        }
        lemma_unmarked_keeps(m, entries.drop_last(), k);
        let e = entries[entries.len() - 1];
        assert(e == entries.last());
    }
}

/// An entry that no marker hides and no file of the overlay replaces stays as it is.
pub proof fn law_other_entries_survive(
    merged: Seq<(Seq<char>, ItemView)>,
    entries: Seq<OverlayEntry>,
    k: Seq<char>,
)
    requires
        forall|i: int|
            0 <= i < entries.len() && is_marker((#[trigger] entries[i]).name@)
                ==> entries[i].base_key@ != k && entries[i].key@ != k,
        forall|j: int| 0 <= j < entries.len() && (#[trigger] entries[j]).key@ == k ==> added(
            entries[j],
        ) is None,
    ensures
        overlaid(unmarked(by_key(merged), entries), entries).dom().contains(k) == by_key(
            merged,
        ).dom().contains(k),
        by_key(merged).dom().contains(k) ==> overlaid(
            unmarked(by_key(merged), entries),
            entries,
        )[k] == by_key(merged)[k],
{
    lemma_unmarked_keeps(by_key(merged), entries, k);
    lemma_overlaid_keeps_out(unmarked(by_key(merged), entries), entries, k);
}

/// The overlay's files lie where the path says: each root has the directory `root-` and its
/// number below the overlay's own, each component is one directory further, a file stands in
/// the directory of its parent, and the marker that hides a path is the path with the suffix.
pub proof fn law_overlay_paths_follow_the_components(
    overlay_root: Seq<char>,
    root: u32,
    comps: Seq<Seq<char>>,
    name: Seq<char>,
)
    requires
        all_plain(comps),
        overlay_root.len() > 2,
        overlay_root.last() != '\\',
        overlay_root.last() != '/',
    ensures
        file_at(overlay_root, root, seq![]) == overlay_root + "\\root-"@ + text::decimal(
            root as nat,
        ),
        file_at(overlay_root, root, comps.push(name)) == file_at(overlay_root, root, comps)
            + "\\"@ + name,
        parent_at(overlay_root, root, comps.push(name)) == file_at(overlay_root, root, comps),
        marker_at(overlay_root, root, comps.push(name)) == file_at(
            overlay_root,
            root,
            comps.push(name),
        ) + ".__vfs_wh__"@,
    decreases comps.len(),
{
    reveal_strlit("\\");
    reveal_strlit("root-");
    reveal_strlit("\\root-");
    reveal_strlit(".__vfs_wh__");
    assert("\\root-"@ =~= "\\"@ + "root-"@);
    assert(file_at(overlay_root, root, seq![]) =~= overlay_root + "\\root-"@ + text::decimal(
        root as nat,
    ));
    assert(comps.push(name).drop_last() =~= comps);
    lemma_layer_dir_ends_in_a_digit(overlay_root, root);
    let dir = file_at(overlay_root, root, comps);
    if comps.len() > 0 {
        let init = comps.drop_last();
        assert(all_plain(init)) by {
            assert forall|i: int| 0 <= i < init.len() implies is_plain(#[trigger] init[i]) by {
                assert(init[i] == comps[i]);
            }
        }
        law_overlay_paths_follow_the_components(overlay_root, root, init, comps.last());
        assert(init.push(comps.last()) =~= comps);
        let c = comps.last();
        assert(c == comps[comps.len() - 1]);
        assert(is_plain(c));
        assert(!text::is_separator(c[c.len() - 1]));
        assert(dir.last() == c.last());
        lemma_files_stay_in_layer(overlay_root, root, comps);
        assert(dir.len() > 2);
    }
    assert(dir + "\\"@ + marker_name(name) =~= dir + "\\"@ + name + ".__vfs_wh__"@);
}

/// Names with a separator or a colon, and empty ones, are no single step of a path.
pub proof fn law_plain_names(comps: Seq<Seq<char>>, i: int, j: int)
    requires
        0 <= i < comps.len(),
    ensures
        comps[i].len() == 0 ==> !all_plain(comps),
        0 <= j < comps[i].len() && (comps[i][j] == '\\' || comps[i][j] == '/' || comps[i][j] == ':')
            ==> !all_plain(comps),
        (forall|k: int, m: int|
            0 <= k < comps.len() && 0 <= m < comps[k].len() ==> (#[trigger] comps[k][m]) != '\\'
                && comps[k][m] != '/' && comps[k][m] != ':') && (forall|k: int|
            0 <= k < comps.len() ==> (#[trigger] comps[k]).len() > 0) ==> all_plain(comps),
{
    assert(!is_plain(comps[i]) ==> !all_plain(comps));
    if (forall|k: int, m: int|
        0 <= k < comps.len() && 0 <= m < comps[k].len() ==> (#[trigger] comps[k][m]) != '\\'
            && comps[k][m] != '/' && comps[k][m] != ':') && (forall|k: int|
        0 <= k < comps.len() ==> (#[trigger] comps[k]).len() > 0) {
        assert forall|k: int| 0 <= k < comps.len() implies is_plain(#[trigger] comps[k]) by {
            assert forall|m: int| 0 <= m < comps[k].len() implies !text::is_separator(
                #[trigger] comps[k][m],
            ) && comps[k][m] != ':' by {}
        }
    }
}

/// A marker is a name with the markers' suffix, and nothing else is one.
pub proof fn law_markers_are_told_by_their_suffix(name: Seq<char>)
    ensures
        is_marker(name + ".__vfs_wh__"@),
        marker_name(name) == name + ".__vfs_wh__"@,
        is_marker(name) ==> name == name.take(name.len() - 11) + ".__vfs_wh__"@,
        name.len() < 11 ==> !is_marker(name),
        name.len() > 0 && name.last() != '_' ==> !is_marker(name),
{
    reveal_strlit(".__vfs_wh__");
    let m = name + ".__vfs_wh__"@;
    assert(m.skip(m.len() - 11) =~= ".__vfs_wh__"@);
    if is_marker(name) {
        assert(name =~= name.take(name.len() - 11) + name.skip(name.len() - 11));
        assert(name.skip(name.len() - 11)[10] == name.last());
    }
}

/// What the overlay says of a path below a root: the file that stands there, with its size and
/// kind, whether a marker stands beside it or not; else that it is hidden, where a marker
/// stands; else nothing. Of a root itself it says nothing.
pub proof fn law_a_file_outweighs_its_marker(
    overlay_root: Seq<char>,
    root: u32,
    comps: Seq<Seq<char>>,
    is_dir: bool,
    size: u64,
    marked: bool,
)
    ensures
        comps.len() > 0 ==> looked_up(overlay_root, root, comps, Some((is_dir, size)), marked)
            == (OverlayView::Present { path: file_at(overlay_root, root, comps), is_dir, size }),
        comps.len() > 0 ==> looked_up(overlay_root, root, comps, None, true)
            == OverlayView::Whiteout,
        looked_up(overlay_root, root, comps, None, false) == OverlayView::Absent,
        comps.len() == 0 ==> looked_up(overlay_root, root, comps, Some((is_dir, size)), marked)
            == OverlayView::Absent && looked_up(overlay_root, root, comps, None, marked)
            == OverlayView::Absent,
{
}

/// A step that was done lets its plan go on; one that was not does only where that is
/// tolerated.
pub proof fn law_failures_end_a_plan_unless_tolerated(tolerates: Tolerance, result: FsResult)
    ensures
        goes_on(tolerates, FsResult::Done),
        goes_on(Tolerance::Anything, result),
        goes_on(Tolerance::Nothing, result) ==> result == FsResult::Done,
        goes_on(Tolerance::Missing, FsResult::Missing),
        !goes_on(Tolerance::Missing, FsResult::Failed),
{
}

/// Every plan that puts something into the overlay makes the directory for it first, and does
/// not go on without it. What must stand in the end is written or moved with no failure
/// tolerated; only what is taken away may be missing, and the overlay's own copy of a hidden
/// file may even stay.
pub proof fn law_plans_make_room_first(
    overlay_root: Seq<char>,
    root: u32,
    comps: Seq<Seq<char>>,
    to: Seq<Seq<char>>,
    name: Seq<char>,
)
    ensures
        ({
            let p = comps.push(name);
            let hide = whiteout_steps(overlay_root, root, p);
            let moves = rename_steps(overlay_root, root, to, p);
            let make = FsOpView::MakeDirs { path: file_at(overlay_root, root, comps) };
            &&& ensure_parent_steps(overlay_root, root, p).len() == 1
            &&& ensure_parent_steps(overlay_root, root, p)[0].op == make
            &&& ensure_parent_steps(overlay_root, root, p)[0].tolerates == Tolerance::Nothing
            &&& hide.len() == 3
            &&& hide[0].op == make && hide[0].tolerates == Tolerance::Nothing
            &&& hide[1].op == (FsOpView::Remove { path: file_at(overlay_root, root, p) })
            &&& hide[1].tolerates == Tolerance::Anything
            &&& hide[2].op == (FsOpView::WriteEmpty {
                path: file_at(overlay_root, root, p) + ".__vfs_wh__"@,
            })
            &&& hide[2].tolerates == Tolerance::Nothing
            &&& moves.len() == 4
            &&& moves[0].op == make && moves[0].tolerates == Tolerance::Nothing
            &&& moves[1].op == (FsOpView::Move {
                from: file_at(overlay_root, root, to),
                to: file_at(overlay_root, root, p),
            })
            &&& moves[1].tolerates == Tolerance::Missing
            &&& moves[2].op == (FsOpView::Remove {
                path: file_at(overlay_root, root, p) + ".__vfs_wh__"@,
            })
            &&& moves[2].tolerates == Tolerance::Missing
            &&& moves[3].op is WriteEmpty
            &&& moves[3].tolerates == Tolerance::Nothing
            &&& clear_whiteout_steps(overlay_root, root, p).len() == 1
            &&& clear_whiteout_steps(overlay_root, root, p)[0].op == moves[2].op
            &&& clear_whiteout_steps(overlay_root, root, p)[0].tolerates == Tolerance::Missing
        }),
{
    let p = comps.push(name);
    assert(p.drop_last() =~= comps);
    lemma_marker_is_no_own_file(overlay_root, root, p);
}

/// A listing is stripped entry by entry: what is left of two pieces is what is left of the
/// whole, in the same order. Without markers everything is left.
pub proof fn law_a_listing_is_stripped_piece_by_piece(
    items: Seq<KeyedItem>,
    first: Seq<KeyedItem>,
    second: Seq<KeyedItem>,
)
    ensures
        shown(items, first + second) == shown(items, first) + shown(items, second),
        (forall|i: int|
            0 <= i < items.len() ==> {
                let n = (#[trigger] items[i]).item.name@;
                n.len() > 0 && n.last() != '_'
            }) ==> shown(items, items) == keyed(items),
    decreases second.len(),
{
    if second.len() == 0 {
        assert(first + second =~= first);
        assert(shown(items, first) + shown(items, second) =~= shown(items, first));
    } else {
        law_a_listing_is_stripped_piece_by_piece(items, first, second.drop_last());
        assert((first + second).drop_last() =~= first + second.drop_last());
        assert((first + second).last() == second.last());
        assert(shown(items, first + second) =~= shown(items, first) + shown(items, second));
    }
    if forall|i: int|
        0 <= i < items.len() ==> {
            let n = (#[trigger] items[i]).item.name@;
            n.len() > 0 && n.last() != '_'
        } {
        assert forall|i: int| 0 <= i < items.len() implies !is_marker(
            (#[trigger] items[i]).item.name@,
        ) by {
            law_markers_are_told_by_their_suffix(items[i].item.name@);
        }
        lemma_all_are_shown(items, items.len() as int);
        assert(items.take(items.len() as int) =~= items);
    }
}

proof fn lemma_all_are_shown(items: Seq<KeyedItem>, n: int)
    requires
        0 <= n <= items.len(),
        forall|i: int| 0 <= i < items.len() ==> !is_marker((#[trigger] items[i]).item.name@),
    ensures
        shown(items, items.take(n)) == keyed(items.take(n)),
    decreases n,
{
    if n == 0 {
        assert(keyed(items.take(n)) =~= seq![]);
    } else {
        lemma_all_are_shown(items, n - 1);
        assert(items.take(n).drop_last() =~= items.take(n - 1));
        assert(items.take(n).last() == items[n - 1]);
        assert(keyed(items.take(n)) =~= keyed(items.take(n - 1)).push(
            (items[n - 1].key@, items[n - 1].item@),
        ));
    }
}

/// A file of the overlay that is among those asked for is listed with its own name, kind, size
/// and time, whatever the listing had under that name; of two under one name the later counts.
pub proof fn law_overlay_files_are_listed(
    m: Map<Seq<char>, ItemView>,
    entries: Seq<OverlayEntry>,
    i: int,
)
    requires
        0 <= i < entries.len(),
        entries[i].wanted,
        entries[i].meta is Some,
        entries[i].name@.len() > 0,
        entries[i].name@.last() != '_',
        forall|j: int| i < j < entries.len() ==> (#[trigger] entries[j]).key@ != entries[i].key@,
    ensures
        overlaid(m, entries).contains_key(entries[i].key@),
        overlaid(m, entries)[entries[i].key@].name == entries[i].name@,
        overlaid(m, entries)[entries[i].key@].is_dir == (entries[i].meta->0).0,
        overlaid(m, entries)[entries[i].key@].size == (entries[i].meta->0).1,
        overlaid(m, entries)[entries[i].key@].mtime == (entries[i].meta->0).2,
    decreases entries.len(),
{
    law_markers_are_told_by_their_suffix(entries[i].name@);
    if i < entries.len() - 1 {
        let init = entries.drop_last();
        assert(init[i] == entries[i]);
        assert forall|j: int| i < j < init.len() implies (#[trigger] init[j]).key@
            != init[i].key@ by {
            assert(init[j] == entries[j]);
        }
        law_overlay_files_are_listed(m, init, i);
        assert(entries.last() == entries[entries.len() - 1]);
    }
}

/// Nothing is added for a file that was not asked for, that cannot be read, or that is a
/// marker.
pub proof fn law_other_overlay_files_are_not_listed(e: OverlayEntry)
    ensures
        !e.wanted ==> added(e) is None,
        e.meta is None ==> added(e) is None,
        e.name@.len() >= 11 && e.name@.skip(e.name@.len() - 11) == ".__vfs_wh__"@ ==> added(
            e,
        ) is None,
{
}

/// Of the entries under one name the last counts; the others are as they were.
pub proof fn law_the_later_entry_counts(
    items: Seq<(Seq<char>, ItemView)>,
    key: Seq<char>,
    item: ItemView,
    other: Seq<char>,
)
    ensures
        by_key(items.push((key, item))).contains_key(key),
        by_key(items.push((key, item)))[key] == item,
        other != key ==> by_key(items.push((key, item))).contains_key(other) == by_key(
            items,
        ).contains_key(other),
        other != key && by_key(items).contains_key(other) ==> by_key(items.push((key, item)))[other]
            == by_key(items)[other],
        items.len() == 0 ==> !by_key(items).contains_key(other),
{
    assert(items.push((key, item)).drop_last() =~= items);
}

} // verus!

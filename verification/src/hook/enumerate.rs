//! An enumeration from its first decision to its answer: a tracked directory is listed by the
//! director where it knows the directory, and else from the overlay, and its entries are handed
//! out from there.

use crate::fuse_client::RingStatus;
use crate::hook::listing;
use crate::hook::listing::DirStatus;
use crate::hook::listing::DirStep;
use crate::hook::listing::DirStepView;
use crate::hook::open;
use crate::hook::tables;
use crate::hook::tables::HandleTables;
use crate::hookstats;
use crate::hookstats::ReadDirSource;
use crate::hookstats::Stats;
use crate::overlay;
use crate::overlay::DirItem;
use crate::overlay::KeyedItem;
use crate::text;
use vstd::prelude::*;
use vstd::string::*;

verus! {

/// How far an enumeration is.
pub enum DirPhase {
    /// It is asked whether the director knows the directory.
    Routing { dir: String },
    /// The director was asked for the entries.
    Listing,
    /// It is asked which of these entries match the pattern.
    Matching { items: Vec<KeyedItem> },
    /// The overlay was asked for the entries.
    Overlay,
    /// Entries are written into the caller's buffer.
    Writing,
    /// Nothing more is asked.
    Ended,
}

/// How far an enumeration is, as values.
#[verifier::ext_equal]
pub enum DirPhaseView {
    Routing { dir: Seq<char> },
    Listing,
    Matching { items: Seq<(Seq<char>, overlay::ItemView)> },
    Overlay,
    Writing,
    Ended,
}

impl View for DirPhase {
    type V = DirPhaseView;

    open spec fn view(&self) -> DirPhaseView {
        match *self {
            DirPhase::Routing { dir } => DirPhaseView::Routing { dir: dir@ },
            DirPhase::Listing => DirPhaseView::Listing,
            DirPhase::Matching { items } => DirPhaseView::Matching { items: overlay::keyed(items@) },
            DirPhase::Overlay => DirPhaseView::Overlay,
            DirPhase::Writing => DirPhaseView::Writing,
            DirPhase::Ended => DirPhaseView::Ended,
        }
    }
}

/// An enumeration under way, of the entries that `filter` names.
pub struct DirRun {
    pub handle: u64,
    pub filter: Option<String>,
    pub phase: DirPhase,
}

/// The next step of an enumeration.
pub enum DirAsk {
    /// Hand the call to the system.
    Real,
    /// Say how the director knows this directory, where it does.
    Route { dir: String },
    /// Ask the director for the entries.
    Readdir { root: u32, vpath: String },
    /// Say which of these names match the pattern.
    Match { names: Vec<String> },
    /// List this directory from the overlay.
    Overlay { dir: String },
    /// Write as many of these entries as fit.
    Write { entries: Vec<DirItem> },
    /// Answer the call.
    Finish { status: i32, bytes: u64 },
}

/// The next step of an enumeration, as values.
#[verifier::ext_equal]
pub enum DirAskView {
    Real,
    Route { dir: Seq<char> },
    Readdir { root: u32, vpath: Seq<char> },
    Match { names: Seq<Seq<char>> },
    Overlay { dir: Seq<char> },
    Write { entries: Seq<overlay::ItemView> },
    Finish { status: i32, bytes: u64 },
}

impl View for DirAsk {
    type V = DirAskView;

    open spec fn view(&self) -> DirAskView {
        match *self {
            DirAsk::Real => DirAskView::Real,
            DirAsk::Route { dir } => DirAskView::Route { dir: dir@ },
            DirAsk::Readdir { root, vpath } => DirAskView::Readdir { root, vpath: vpath@ },
            DirAsk::Match { names } => DirAskView::Match { names: text::texts(names@) },
            DirAsk::Overlay { dir } => DirAskView::Overlay { dir: dir@ },
            DirAsk::Write { entries } => DirAskView::Write { entries: tables::items_view(entries@) },
            DirAsk::Finish { status, bytes } => DirAskView::Finish { status, bytes },
        }
    }
}

/// The outcome of a step.
pub enum DirEvent {
    /// The root and the path in it by which the director knows the directory.
    Routed(Option<(u32, String)>),
    /// The director's entries.
    Listed(Result<Vec<KeyedItem>, RingStatus>),
    /// Of each name, whether it matches.
    Matched(Vec<bool>),
    /// The overlay's entries that match.
    OverlayListed(Vec<DirItem>),
    /// How many entries were written, into how many bytes, and how that ended.
    Written { count: usize, bytes: u64, status: DirStatus },
}

/// The names of entries.
pub open spec fn names_of(items: Seq<(Seq<char>, overlay::ItemView)>) -> Seq<Seq<char>> {
    items.map_values(|x: (Seq<char>, overlay::ItemView)| x.1.name)
}

/// The entries of the director that are shown.
pub open spec fn listed(r: Result<Vec<KeyedItem>, RingStatus>) -> Seq<
    (Seq<char>, overlay::ItemView),
> {
    match r {
        Ok(v) => overlay::shown(v@, v@),
        Err(_) => seq![],
    }
}

/// What comes after the listing is there: its entries are handed out, unless the handle is no
/// longer tracked.
pub open spec fn handed_out(t: tables::TablesView, handle: u64) -> (DirPhaseView, DirAskView) {
    match listing::pending(t, handle) {
        Some(entries) => (DirPhaseView::Writing, DirAskView::Write { entries }),
        None => (DirPhaseView::Ended, DirAskView::Real),
    }
}

/// The tables after a listing was built: as before, where the handle is no longer tracked.
pub open spec fn kept(
    t: tables::TablesView,
    handle: u64,
    items: Seq<overlay::ItemView>,
) -> tables::TablesView {
    if t.dirs.contains_key(handle) {
        listing::listing_stored(t, handle, items)
    } else {
        t
    }
}

/// The listing that `event` completes, and where it comes from.
pub open spec fn built(filter: Option<Seq<char>>, phase: DirPhaseView, event: DirEvent) -> Option<
    (Seq<overlay::ItemView>, ReadDirSource),
> {
    match (phase, event) {
        (DirPhaseView::Matching { items }, DirEvent::Matched(flags)) => Some(
            (listing::wanted(items, filter, flags@), ReadDirSource::Director),
        ),
        (DirPhaseView::Overlay, DirEvent::OverlayListed(items)) => Some(
            (tables::items_view(items@), ReadDirSource::ContainedNoDirector),
        ),
        _ => None,
    }
}

/// Whether `event` is the outcome of what was asked in `phase`.
pub open spec fn follows(phase: DirPhaseView, event: DirEvent) -> bool {
    match (phase, event) {
        (DirPhaseView::Routing { .. }, DirEvent::Routed(_)) => true,
        (DirPhaseView::Listing, DirEvent::Listed(_)) => true,
        (DirPhaseView::Matching { items }, DirEvent::Matched(flags)) => flags@.len()
            == items.len(),
        (DirPhaseView::Overlay, DirEvent::OverlayListed(_)) => true,
        (DirPhaseView::Writing, DirEvent::Written { .. }) => true,
        _ => false,
    }
}

/// Whether `count` entries are there to be handed out.
pub open spec fn in_stock(t: tables::TablesView, handle: u64, count: usize) -> bool {
    listing::pending(t, handle) matches Some(p) && count <= p.len()
}

/// The phase and the step after `event`, with the tables `t`.
pub open spec fn advanced(
    t: tables::TablesView,
    handle: u64,
    filter: Option<Seq<char>>,
    phase: DirPhaseView,
    event: DirEvent,
) -> (DirPhaseView, DirAskView) {
    match (phase, event) {
        (DirPhaseView::Routing { dir }, DirEvent::Routed(Some((root, vpath)))) => (
            DirPhaseView::Listing,
            DirAskView::Readdir { root, vpath: open::director_path(vpath@) },
        ),
        (DirPhaseView::Routing { dir }, DirEvent::Routed(None)) => (
            DirPhaseView::Overlay,
            DirAskView::Overlay { dir },
        ),
        (DirPhaseView::Listing, DirEvent::Listed(r)) => (
            DirPhaseView::Matching { items: listed(r) },
            DirAskView::Match { names: names_of(listed(r)) },
        ),
        (DirPhaseView::Writing, DirEvent::Written { count, bytes, status }) => if in_stock(
            t,
            handle,
            count,
        ) {
            (
                DirPhaseView::Ended,
                DirAskView::Finish { status: listing::dir_status(status), bytes },
            )
        } else {
            (DirPhaseView::Ended, DirAskView::Real)
        },
        _ => match built(filter, phase, event) {
            Some((items, _)) => if t.dirs.contains_key(handle) {
                handed_out(kept(t, handle, items), handle)
            } else {
                (DirPhaseView::Ended, DirAskView::Real)
            },
            None => (DirPhaseView::Ended, DirAskView::Real),
        },
    }
}

/// The tables after `event`.
pub open spec fn tables_after(
    t: tables::TablesView,
    handle: u64,
    filter: Option<Seq<char>>,
    phase: DirPhaseView,
    event: DirEvent,
) -> tables::TablesView {
    match (phase, event) {
        (DirPhaseView::Writing, DirEvent::Written { count, .. }) => if count > 0 && in_stock(
            t,
            handle,
            count,
        ) {
            listing::advanced(t, handle, count as nat)
        } else {
            t
        },
        _ => match built(filter, phase, event) {
            Some((items, _)) => kept(t, handle, items),
            None => t,
        },
    }
}

/// The counters after `event`: a listing is counted when it is built.
pub open spec fn counted_after(
    c: hookstats::SnapshotView,
    t: tables::TablesView,
    handle: u64,
    filter: Option<Seq<char>>,
    phase: DirPhaseView,
    event: DirEvent,
) -> hookstats::SnapshotView {
    match built(filter, phase, event) {
        Some((items, source)) => if t.dirs.contains_key(handle) {
            listing::dir_counted(c, t.dirs[handle].path, filter, items.len(), source)
        } else {
            c
        },
        None => c,
    }
}

/// What an enumeration begins with.
pub open spec fn begun(t: tables::TablesView, handle: u64, class_known: bool, restart: bool) -> (
    DirPhaseView,
    DirAskView,
) {
    match listing::dir_begun(t, handle, class_known, restart) {
        DirStepView::Real => (DirPhaseView::Ended, DirAskView::Real),
        DirStepView::Build { dir } => (DirPhaseView::Routing { dir }, DirAskView::Route { dir }),
        DirStepView::Serve => handed_out(t, handle),
    }
}

/// The disk beneath a managed root is never listed: an enumeration that was begun here goes to
/// the system only when its handle stopped being tracked meanwhile, or another call handed out
/// what it had found.
pub proof fn law_a_managed_listing_never_comes_from_disk(
    t: tables::TablesView,
    handle: u64,
    filter: Option<Seq<char>>,
    phase: DirPhaseView,
    event: DirEvent,
)
    requires
        follows(phase, event),
        t.dirs.contains_key(handle),
        event matches DirEvent::Written { count, .. } ==> in_stock(t, handle, count),
    ensures
        advanced(t, handle, filter, phase, event).1 !is Real,
{
    if let Some((items, _)) = built(filter, phase, event) {
        listing::law_entries_are_handed_out_once(t, handle, items, 0);
    }
}

/// What was listed is what is handed out: the entries that come up for writing are those that
/// the listing holds, from its first on.
pub proof fn law_what_is_listed_is_handed_out(
    t: tables::TablesView,
    handle: u64,
    filter: Option<Seq<char>>,
    phase: DirPhaseView,
    event: DirEvent,
)
    requires
        t.dirs.contains_key(handle),
        built(filter, phase, event) is Some,
    ensures
        advanced(t, handle, filter, phase, event).1 == (DirAskView::Write {
            entries: (built(filter, phase, event)->0).0,
        }),
        listing::pending(tables_after(t, handle, filter, phase, event), handle) == Some(
            (built(filter, phase, event)->0).0,
        ),
{
    let items = (built(filter, phase, event)->0).0;
    listing::law_entries_are_handed_out_once(t, handle, items, 0);
}

/// The names of entries, copied.
fn copied_names(items: &[KeyedItem]) -> (names: Vec<String>)
    ensures
        text::texts(names@) == names_of(overlay::keyed(items@)),
{
    let ghost all = names_of(overlay::keyed(items@));
    let mut names: Vec<String> = Vec::new();
    let mut i: usize = 0;
    assert(text::texts(names@) =~= all.take(0));
    while i < items.len()
        invariant
            i <= items@.len(),
            all == names_of(overlay::keyed(items@)),
            text::texts(names@) == all.take(i as int),
        decreases items@.len() - i,
    {
        let ghost before = text::texts(names@);
        names.push(items[i].item.name.clone());
        assert(text::texts(names@) =~= before.push(all[i as int]));
        assert(all.take(i + 1) =~= before.push(all[i as int]));
        i = i + 1;
    }
    assert(all.take(i as int) =~= all);
    names
}

/// Hands out what is pending: [`handed_out`].
fn hand_out(t: &HandleTables, handle: u64) -> (r: (DirPhase, DirAsk))
    ensures
        (r.0@, r.1@) == handed_out(t@, handle),
{
    match listing::pending_entries(t, handle) {
        Some(entries) => (DirPhase::Writing, DirAsk::Write { entries }),
        None => (DirPhase::Ended, DirAsk::Real),
    }
}

/// Begins an enumeration: [`begun`]. One of a directory that is not tracked is recorded.
pub fn serve_dir_query(
    s: &mut Stats,
    t: &HandleTables,
    handle: u64,
    class_known: bool,
    restart: bool,
    filter: Option<String>,
) -> (r: (DirRun, DirAsk))
    requires
        old(s).wf(),
    ensures
        final(s).wf(),
        r.0.handle == handle,
        r.0.filter == filter,
        (r.0.phase@, r.1@) == begun(t@, handle, class_known, restart),
        final(s)@ == (if class_known && !t@.dirs.contains_key(handle) {
            hookstats::counted(
                old(s)@,
                listing::os_listing(
                    old(s)@.counts,
                    tables::path_in(t@.handle_paths, handle),
                    text::option_text(filter),
                ),
            )
        } else {
            old(s)@
        }),
{
    let pattern = match &filter {
        Some(f) => Some(f.as_str()),
        None => None,
    };
    let (phase, ask) = match listing::dir_query_begin(
        s,
        t,
        handle,
        class_known,
        restart,
        pattern,
    ) {
        DirStep::Real => (DirPhase::Ended, DirAsk::Real),
        DirStep::Build { dir } => {
            let asked = dir.clone();
            (DirPhase::Routing { dir }, DirAsk::Route { dir: asked })
        },
        DirStep::Serve => hand_out(t, handle),
    };
    (DirRun { handle, filter, phase }, ask)
}

impl DirRun {
    /// Keeps a listing and begins to hand it out.
    fn keep(
        &mut self,
        s: &mut Stats,
        t: &mut HandleTables,
        items: Vec<DirItem>,
        source: ReadDirSource,
    ) -> (r: DirAsk)
        requires
            old(s).wf(),
        ensures
            final(s).wf(),
            final(self).handle == old(self).handle,
            final(self).filter == old(self).filter,
            (final(self).phase@, r@) == (if old(t)@.dirs.contains_key(old(self).handle) {
                handed_out(
                    kept(old(t)@, old(self).handle, tables::items_view(items@)),
                    old(self).handle,
                )
            } else {
                (DirPhaseView::Ended, DirAskView::Real)
            }),
            final(t)@ == kept(old(t)@, old(self).handle, tables::items_view(items@)),
            final(s)@ == hookstats::counted(
                old(s)@,
                if old(t)@.dirs.contains_key(old(self).handle) {
                    listing::dir_counted(
                        old(s)@.counts,
                        old(t)@.dirs[old(self).handle].path,
                        text::option_text(old(self).filter),
                        items@.len(),
                        source,
                    )
                } else {
                    old(s)@.counts
                },
            ),
    {
        let pattern = match &self.filter {
            Some(f) => Some(f.as_str()),
            None => None,
        };
        if !listing::dir_query_store(s, t, self.handle, pattern, items, source) {
            self.phase = DirPhase::Ended;
            return DirAsk::Real;
        }
        let (phase, ask) = hand_out(t, self.handle);
        self.phase = phase;
        ask
    }

    /// Takes in the outcome of the last step: [`advanced`], with the tables changed as
    /// [`tables_after`] says and the counters as [`counted_after`] says.
    pub fn advance(&mut self, s: &mut Stats, t: &mut HandleTables, event: DirEvent) -> (r: DirAsk)
        requires
            follows(old(self).phase@, event),
            old(s).wf(),
        ensures
            final(s).wf(),
            final(self).handle == old(self).handle,
            final(self).filter == old(self).filter,
            (final(self).phase@, r@) == advanced(
                old(t)@,
                old(self).handle,
                text::option_text(old(self).filter),
                old(self).phase@,
                event,
            ),
            final(t)@ == tables_after(
                old(t)@,
                old(self).handle,
                text::option_text(old(self).filter),
                old(self).phase@,
                event,
            ),
            final(s)@ == hookstats::counted(
                old(s)@,
                counted_after(
                    old(s)@.counts,
                    old(t)@,
                    old(self).handle,
                    text::option_text(old(self).filter),
                    old(self).phase@,
                    event,
                ),
            ),
    {
        let mut phase = DirPhase::Ended;
        std::mem::swap(&mut phase, &mut self.phase);
        match (phase, event) {
            (DirPhase::Routing { dir }, DirEvent::Routed(hit)) => match hit {
                Some((root, vpath)) => {
                    self.phase = DirPhase::Listing;
                    DirAsk::Readdir { root, vpath: open::vpath_or_dot(vpath.as_str()).to_owned() }
                },
                None => {
                    self.phase = DirPhase::Overlay;
                    DirAsk::Overlay { dir }
                },
            },
            (DirPhase::Listing, DirEvent::Listed(r)) => {
                let items = listing::director_listing(r);
                let names = copied_names(items.as_slice());
                self.phase = DirPhase::Matching { items };
                DirAsk::Match { names }
            },
            (DirPhase::Matching { items }, DirEvent::Matched(flags)) => {
                let pattern = match &self.filter {
                    Some(f) => Some(f.as_str()),
                    None => None,
                };
                let found = listing::wanted_items(items.as_slice(), pattern, flags.as_slice());
                self.keep(s, t, found, ReadDirSource::Director)
            },
            (DirPhase::Overlay, DirEvent::OverlayListed(items)) => self.keep(
                s,
                t,
                items,
                ReadDirSource::ContainedNoDirector,
            ),
            (DirPhase::Writing, DirEvent::Written { count, bytes, status }) => {
                let left = match listing::pending_entries(t, self.handle) {
                    Some(p) => p.len() >= count,
                    None => false,
                };
                if !left {
                    return DirAsk::Real;
                }
                let status: i32 = listing::dir_query_end(t, self.handle, count, status);
                DirAsk::Finish { status, bytes }
            },
            _ => DirAsk::Real,
        }
    }
}

// ---------------------------------------------------------------------------------------
// What an enumeration is for.

/// A directory that the director knows is listed by the director, under its own root and path;
/// one that it does not know from the overlay, under the path that it was opened as.
pub proof fn law_a_directory_is_listed_by_who_knows_it(
    t: tables::TablesView,
    handle: u64,
    filter: Option<Seq<char>>,
    dir: Seq<char>,
    root: u32,
    vpath: String,
)
    ensures
        advanced(
            t,
            handle,
            filter,
            DirPhaseView::Routing { dir },
            DirEvent::Routed(Some((root, vpath))),
        ) == (
            DirPhaseView::Listing,
            DirAskView::Readdir {
                root,
                vpath: if vpath@.len() == 0 {
                    seq!['.']
                } else {
                    vpath@
                },
            },
        ),
        advanced(t, handle, filter, DirPhaseView::Routing { dir }, DirEvent::Routed(None)) == (
            DirPhaseView::Overlay,
            DirAskView::Overlay { dir },
        ),
{
    reveal_strlit(".");
    assert("."@ =~= seq!['.']);
}

/// A listing without a pattern, from the director's answer to what comes up for writing: every
/// entry that no marker hides and that is no marker itself, as the director gave it, and nothing
/// else. The names that are matched are those of these entries.
pub proof fn law_the_directors_entries_are_handed_out(
    t: tables::TablesView,
    handle: u64,
    entries: Vec<KeyedItem>,
    flags: Vec<bool>,
    i: int,
)
    requires
        t.dirs.contains_key(handle),
        0 <= i < entries@.len(),
    ensures
        ({
            let (matching, asks) = advanced(
                t,
                handle,
                None,
                DirPhaseView::Listing,
                DirEvent::Listed(Ok(entries)),
            );
            let written = advanced(t, handle, None, matching, DirEvent::Matched(flags)).1;
            &&& matching is Matching
            &&& asks matches DirAskView::Match { names } && names.len()
                == matching->Matching_items.len() && (forall|k: int|
                0 <= k < names.len() ==> #[trigger] names[k] == matching->Matching_items[k].1.name)
            &&& written matches DirAskView::Write { entries: out } && out.len()
                == matching->Matching_items.len() && (forall|k: int|
                0 <= k < out.len() ==> #[trigger] out[k] == matching->Matching_items[k].1)
            &&& matching->Matching_items.contains((entries@[i].key@, entries@[i].item@))
                <==> !overlay::is_marker(entries@[i].item.name@) && !overlay::hidden_in(
                entries@,
                entries@[i].key@,
            )
        }),
{
    overlay::law_stripped_listing(entries@, i);
    let items = overlay::shown(entries@, entries@);
    listing::law_everything_is_listed_without_a_pattern(items, flags@);
    listing::law_entries_are_handed_out_once(
        t,
        handle,
        listing::wanted(items, None, flags@),
        0,
    );
}

/// A director that does not answer lists nothing, and the overlay's own entries are handed out
/// as they are.
pub proof fn law_other_listings(
    t: tables::TablesView,
    handle: u64,
    filter: Option<Seq<char>>,
    status: RingStatus,
    items: Vec<DirItem>,
)
    requires
        t.dirs.contains_key(handle),
    ensures
        advanced(t, handle, filter, DirPhaseView::Listing, DirEvent::Listed(Err(status))).0 == (
        DirPhaseView::Matching { items: seq![] }),
        advanced(t, handle, filter, DirPhaseView::Overlay, DirEvent::OverlayListed(items)).1
            matches DirAskView::Write { entries } && entries.len() == items@.len() && forall|k: int|
            0 <= k < entries.len() ==> #[trigger] entries[k] == items@[k]@,
{
    listing::law_entries_are_handed_out_once(t, handle, tables::items_view(items@), 0);
}

/// What was written is answered as it was, and taken off what is pending; nothing that was
/// handed out comes again.
pub proof fn law_what_was_written_is_answered(
    t: tables::TablesView,
    handle: u64,
    filter: Option<Seq<char>>,
    count: usize,
    bytes: u64,
    status: DirStatus,
    left: Seq<overlay::ItemView>,
)
    requires
        listing::pending(t, handle) == Some(left),
        count <= left.len(),
    ensures
        advanced(
            t,
            handle,
            filter,
            DirPhaseView::Writing,
            DirEvent::Written { count, bytes, status },
        ).1 == (DirAskView::Finish {
            status: if status is Success {
                0
            } else if status is NoMoreFiles {
                -0x7fff_fffai32
            } else {
                -0x7fff_fffbi32
            },
            bytes,
        }),
        listing::pending(
            tables_after(
                t,
                handle,
                filter,
                DirPhaseView::Writing,
                DirEvent::Written { count, bytes, status },
            ),
            handle,
        ) == Some(left.skip(count as int)),
{
    listing::law_entries_are_handed_out_once(t, handle, left, count as nat);
    assert(left.skip(0) =~= left);
}

/// An enumeration begins with the system only where it is not the shim's; a fresh one asks who
/// knows the directory, and one under way goes on with what is pending.
pub proof fn law_an_enumeration_begins_where_it_belongs(
    t: tables::TablesView,
    handle: u64,
    class_known: bool,
    restart: bool,
)
    ensures
        !class_known || !t.dirs.contains_key(handle) ==> begun(t, handle, class_known, restart).1
            is Real,
        class_known && t.dirs.contains_key(handle) && (restart || t.dirs[handle].state is None)
            ==> begun(t, handle, class_known, restart).1 == (DirAskView::Route {
            dir: t.dirs[handle].path,
        }),
        class_known && t.dirs.contains_key(handle) && !restart && t.dirs[handle].state is Some
            ==> (begun(t, handle, class_known, restart).1 matches DirAskView::Write { entries }
            && listing::pending(t, handle) == Some(entries)),
{
}

} // verus!

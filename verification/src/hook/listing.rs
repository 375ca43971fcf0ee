//! Directory enumeration: a directory under a managed root is listed by the director, or from
//! the overlay alone; what stands on disk beneath the root never appears.

use crate::fuse_client::RingStatus;
use crate::hook::tables;
use crate::hook::tables::DirTracked;
use crate::hook::tables::EnumState;
use crate::hook::tables::HandleTables;
use crate::hookstats;
use crate::hookstats::ReadDirSource;
use crate::hookstats::Stats;
use crate::ntdef;
use crate::ntdef::UnicodeString;
use crate::overlay;
use crate::overlay::DirItem;
use crate::overlay::KeyedItem;
use crate::text;
use vstd::prelude::*;
use vstd::string::*;

verus! {

/// The names that an enumeration asks for; `None` for all of them.
pub open spec fn wildcard(name: Option<Seq<char>>) -> Option<Seq<char>> {
    match name {
        Some(w) => if w.len() == 0 || w == "*"@ || w == "*.*"@ {
            None
        } else {
            Some(w)
        },
        None => None,
    }
}

/// [`wildcard`], of the pattern of a call.
pub fn wildcard_of(file_name: Option<&UnicodeString>) -> (r: Option<String>)
    requires
        file_name matches Some(n) ==> n.wf(),
    ensures
        text::option_text(r) == wildcard(
            match file_name {
                Some(n) => n.text(),
                None => None,
            },
        ),
{
    let s = match file_name {
        Some(n) => match n.to_text() {
            Some(s) => s,
            None => {
                return None;
            },
        },
        None => {
            return None;
        },
    };
    if s.unicode_len() == 0 || text::same_text(s.as_str(), "*") || text::same_text(
        s.as_str(),
        "*.*",
    ) {
        None
    } else {
        Some(s)
    }
}

/// What an enumeration begins with.
pub enum DirStep {
    /// Hand the call to the system.
    Real,
    /// Build the listing of this directory first.
    Build { dir: String },
    /// Hand out the next entries.
    Serve,
}

/// What an enumeration begins with, as values.
pub enum DirStepView {
    Real,
    Build { dir: Seq<char> },
    Serve,
}

impl View for DirStep {
    type V = DirStepView;

    open spec fn view(&self) -> DirStepView {
        match *self {
            DirStep::Real => DirStepView::Real,
            DirStep::Build { dir } => DirStepView::Build { dir: dir@ },
            DirStep::Serve => DirStepView::Serve,
        }
    }
}

/// What an enumeration begins with: a class that is not known, and a directory that is not
/// tracked, are the system's. A listing is built on the first call and when the caller starts
/// over.
pub open spec fn dir_begun(
    t: tables::TablesView,
    handle: u64,
    class_known: bool,
    restart: bool,
) -> DirStepView {
    if !class_known || !t.dirs.contains_key(handle) {
        DirStepView::Real
    } else if restart || t.dirs[handle].state is None {
        DirStepView::Build { dir: t.dirs[handle].path }
    } else {
        DirStepView::Serve
    }
}

/// The record of an enumeration that the system answers.
pub open spec fn os_listing(
    c: hookstats::SnapshotView,
    dir: Option<Seq<char>>,
    filter: Option<Seq<char>>,
) -> hookstats::SnapshotView {
    dir_counted(
        c,
        match dir {
            Some(d) => d,
            None => "<unknown>"@,
        },
        filter,
        0,
        ReadDirSource::Os,
    )
}

/// The counters after an enumeration.
pub open spec fn dir_counted(
    c: hookstats::SnapshotView,
    dir: Seq<char>,
    filter: Option<Seq<char>>,
    count: nat,
    source: ReadDirSource,
) -> hookstats::SnapshotView {
    hookstats::SnapshotView {
        readdirs: if c.readdirs.len() < hookstats::READDIRS_MAX {
            c.readdirs.push(hookstats::readdir_line(dir, filter, count, source))
        } else {
            c.readdirs
        },
        ..c
    }
}

/// Begins an enumeration: [`dir_begun`]. One of a directory that is not tracked is recorded.
pub fn dir_query_begin(
    s: &mut Stats,
    t: &HandleTables,
    handle: u64,
    class_known: bool,
    restart: bool,
    filter: Option<&str>,
) -> (r: DirStep)
    requires
        old(s).wf(),
    ensures
        final(s).wf(),
        r@ == dir_begun(t@, handle, class_known, restart),
        final(s)@ == (if class_known && !t@.dirs.contains_key(handle) {
            hookstats::counted(
                old(s)@,
                os_listing(
                    old(s)@.counts,
                    tables::path_in(t@.handle_paths, handle),
                    hookstats::optional(filter),
                ),
            )
        } else {
            old(s)@
        }),
{
    if !class_known {
        return DirStep::Real;
    }
    match t.dir(handle) {
        None => {
            match tables::path_of_handle(t, handle) {
                Some(dir) => hookstats::note_readdir(
                    s,
                    dir.as_str(),
                    filter,
                    0,
                    ReadDirSource::Os,
                ),
                None => hookstats::note_readdir(s, "<unknown>", filter, 0, ReadDirSource::Os),
            }
            DirStep::Real
        },
        Some(d) => {
            if restart || d.state.is_none() {
                DirStep::Build { dir: d.dir_nt_path.clone() }
            } else {
                DirStep::Serve
            }
        },
    }
}

/// The director's answer as a listing: without the overlay's markers and without what they
/// hide. A director that does not answer lists nothing.
pub fn director_listing(entries: Result<Vec<KeyedItem>, RingStatus>) -> (r: Vec<KeyedItem>)
    ensures
        overlay::keyed(r@) == (match entries {
            Ok(v) => overlay::shown(v@, v@),
            Err(_) => Seq::<(Seq<char>, overlay::ItemView)>::empty(),
        }),
{
    match entries {
        Ok(v) => overlay::strip_whiteout_markers(v),
        Err(_) => {
            let r: Vec<KeyedItem> = Vec::new();
            assert(overlay::keyed(r@) =~= Seq::<(Seq<char>, overlay::ItemView)>::empty());
            r
        },
    }
}

/// Whether an entry is among those asked for: it matches the pattern, or is the pattern.
pub open spec fn is_wanted(
    name: Seq<char>,
    filter: Option<Seq<char>>,
    matched: bool,
) -> bool {
    match filter {
        None => true,
        Some(w) => matched || text::ascii_lowered(name) == text::ascii_lowered(w),
    }
}

/// The entries that are asked for, in order.
pub open spec fn wanted(
    items: Seq<(Seq<char>, overlay::ItemView)>,
    filter: Option<Seq<char>>,
    matches_: Seq<bool>,
) -> Seq<overlay::ItemView>
    decreases items.len(),
{
    if items.len() == 0 {
        seq![]
    } else {
        let rest = wanted(items.drop_last(), filter, matches_);
        let i = items.len() - 1;
        if is_wanted(items[i].1.name, filter, matches_[i]) {
            rest.push(items[i].1)
        } else {
            rest
        }
    }
}

/// [`wanted`]. `matches_` says of each entry whether it matches the pattern.
pub fn wanted_items(items: &[KeyedItem], filter: Option<&str>, matches_: &[bool]) -> (r: Vec<
    DirItem,
>)
    requires
        matches_@.len() == items@.len(),
    ensures
        tables::items_view(r@) == wanted(
            overlay::keyed(items@),
            hookstats::optional(filter),
            matches_@,
        ),
{
    let ghost all = overlay::keyed(items@);
    let mut r: Vec<DirItem> = Vec::new();
    let mut i: usize = 0;
    assert(tables::items_view(r@) =~= wanted(all.take(0), hookstats::optional(filter), matches_@));
    while i < items.len()
        invariant
            i <= items@.len() == matches_@.len(),
            all == overlay::keyed(items@),
            tables::items_view(r@) == wanted(
                all.take(i as int),
                hookstats::optional(filter),
                matches_@,
            ),
        decreases items@.len() - i,
    {
        assert(all.take(i + 1).drop_last() =~= all.take(i as int));
        let item = &items[i].item;
        let take = match filter {
            None => true,
            Some(w) => matches_[i] || text::same_ignoring_ascii_case(item.name.as_str(), w),
        };
        let ghost before = tables::items_view(r@);
        if take {
            r.push(item.copy());
            assert(tables::items_view(r@) =~= before.push(all[i as int].1));
        }
        i = i + 1;
    }
    assert(all.take(i as int) =~= all);
    r
}

/// The tables after a listing was built for a tracked directory.
pub open spec fn listing_stored(
    t: tables::TablesView,
    handle: u64,
    items: Seq<overlay::ItemView>,
) -> tables::TablesView {
    tables::TablesView {
        dirs: t.dirs.insert(
            handle,
            tables::DirView {
                state: Some(tables::EnumView { entries: items, cursor: 0 }),
                ..t.dirs[handle]
            },
        ),
        ..t
    }
}

/// Keeps the listing of a tracked directory, and records it. The result says whether the
/// directory was still tracked.
pub fn dir_query_store(
    s: &mut Stats,
    t: &mut HandleTables,
    handle: u64,
    filter: Option<&str>,
    items: Vec<DirItem>,
    source: ReadDirSource,
) -> (r: bool)
    requires
        old(s).wf(),
    ensures
        final(s).wf(),
        r == old(t)@.dirs.contains_key(handle),
        r ==> final(t)@ == listing_stored(old(t)@, handle, tables::items_view(items@)),
        !r ==> final(t)@ == old(t)@,
        final(s)@ == (if r {
            hookstats::counted(
                old(s)@,
                dir_counted(
                    old(s)@.counts,
                    old(t)@.dirs[handle].path,
                    hookstats::optional(filter),
                    items@.len(),
                    source,
                ),
            )
        } else {
            old(s)@
        }),
{
    let ghost before = t@;
    match t.take_dir(handle) {
        None => {
            assert(t@.dirs =~= before.dirs);
            false
        },
        Some(d) => {
            let mut d = d;
            hookstats::note_readdir(s, d.dir_nt_path.as_str(), filter, items.len(), source);
            let ghost kept = tables::items_view(items@);
            d.state = Some(EnumState { entries: items, cursor: 0 });
            t.put_dir(handle, d);
            assert(t@.dirs =~= listing_stored(before, handle, kept).dirs);
            true
        },
    }
}

/// The entries that are still to be handed out.
pub open spec fn pending(t: tables::TablesView, handle: u64) -> Option<Seq<overlay::ItemView>> {
    if t.dirs.contains_key(handle) {
        match t.dirs[handle].state {
            Some(e) => if e.cursor <= e.entries.len() {
                Some(e.entries.skip(e.cursor as int))
            } else {
                Some(seq![])
            },
            None => None,
        }
    } else {
        None
    }
}

/// The entries of a tracked directory that are still to be handed out.
pub fn pending_entries(t: &HandleTables, handle: u64) -> (r: Option<Vec<DirItem>>)
    ensures
        match r {
            Some(v) => pending(t@, handle) == Some(tables::items_view(v@)),
            None => pending(t@, handle) is None,
        },
{
    let e = match t.dir(handle) {
        Some(d) => match &d.state {
            Some(e) => e,
            None => {
                return None;
            },
        },
        None => {
            return None;
        },
    };
    let ghost all = tables::items_view(e.entries@);
    let mut v: Vec<DirItem> = Vec::new();
    let mut i: usize = e.cursor;
    let n: usize = e.entries.len();
    if i > n {
        assert(tables::items_view(v@) =~= Seq::<overlay::ItemView>::empty());
        return Some(v);
    }
    assert(tables::items_view(v@) =~= all.subrange(e.cursor as int, i as int));
    while i < n
        invariant
            e.cursor <= i <= n == e.entries@.len(),
            all == tables::items_view(e.entries@),
            tables::items_view(v@) == all.subrange(e.cursor as int, i as int),
        decreases n - i,
    {
        let ghost before = tables::items_view(v@);
        v.push(e.entries[i].copy());
        assert(tables::items_view(v@) =~= before.push(all[i as int]));
        assert(all.subrange(e.cursor as int, i + 1) =~= before.push(all[i as int]));
        i = i + 1;
    }
    assert(all.subrange(e.cursor as int, n as int) =~= all.skip(e.cursor as int));
    Some(v)
}

/// How the entries were written into the caller's buffer.
#[derive(Clone, Copy, Debug, PartialEq, Eq, Structural)]
pub enum DirStatus {
    Success,
    NoMoreFiles,
    BufferOverflow,
}

/// The status of an enumeration.
pub open spec fn dir_status(status: DirStatus) -> i32 {
    match status {
        DirStatus::Success => ntdef::STATUS_SUCCESS,
        DirStatus::NoMoreFiles => ntdef::STATUS_NO_MORE_FILES,
        DirStatus::BufferOverflow => ntdef::STATUS_BUFFER_OVERFLOW,
    }
}

/// The tables after `count` more entries were handed out.
pub open spec fn advanced(t: tables::TablesView, handle: u64, count: nat) -> tables::TablesView {
    let e = t.dirs[handle].state->0;
    tables::TablesView {
        dirs: t.dirs.insert(
            handle,
            tables::DirView {
                state: Some(tables::EnumView { cursor: e.cursor + count, ..e }),
                ..t.dirs[handle]
            },
        ),
        ..t
    }
}

/// Ends an enumeration that handed out `count` entries of those that were pending.
pub fn dir_query_end(t: &mut HandleTables, handle: u64, count: usize, status: DirStatus) -> (r: i32)
    requires
        pending(old(t)@, handle) matches Some(p) && count <= p.len(),
    ensures
        r == dir_status(status),
        count == 0 ==> final(t)@ == old(t)@,
        count > 0 ==> final(t)@ == advanced(old(t)@, handle, count as nat),
{
    let ghost before = t@;
    if count > 0 {
        if let Some(d) = t.take_dir(handle) {
            let mut d = d;
            let ghost path = d.dir_nt_path@;
            if let Some(e) = d.state {
                let n: usize = e.entries.len();
                assert(tables::items_view(e.entries@).len() == n);
                assert(e.cursor + count <= n);
                let moved = EnumState { entries: e.entries, cursor: e.cursor + count };
                d = DirTracked { dir_nt_path: d.dir_nt_path, state: Some(moved) };
                t.put_dir(handle, d);
                assert(t@.dirs =~= advanced(before, handle, count as nat).dirs);
            }
        }
    }
    match status {
        DirStatus::Success => ntdef::STATUS_SUCCESS,
        DirStatus::NoMoreFiles => ntdef::STATUS_NO_MORE_FILES,
        DirStatus::BufferOverflow => ntdef::STATUS_BUFFER_OVERFLOW,
    }
}

/// Every entry of a listing is handed out once and in order: a fresh listing is pending in
/// full, and what was handed out is taken from the front of what was pending.
pub proof fn law_entries_are_handed_out_once(
    t: tables::TablesView,
    handle: u64,
    items: Seq<overlay::ItemView>,
    count: nat,
)
    requires
        t.dirs.contains_key(handle),
    ensures
        pending(listing_stored(t, handle, items), handle) == Some(items),
        pending(t, handle) matches Some(p) ==> (0 < count <= p.len() ==> pending(
            advanced(t, handle, count),
            handle,
        ) == Some(p.skip(count as int))),
{
    assert(items.skip(0) =~= items);
    if let Some(p) = pending(t, handle) {
        if count <= p.len() && count > 0 {
            let e = t.dirs[handle].state->0;
            assert(e.entries.skip((e.cursor + count) as int) =~= p.skip(count as int));
        }
    }
}

/// A directory under a managed root, which is what is tracked, is never listed by the system.
pub proof fn law_tracked_directories_are_listed_here(
    t: tables::TablesView,
    handle: u64,
    restart: bool,
)
    requires
        t.dirs.contains_key(handle),
    ensures
        dir_begun(t, handle, true, restart) !is Real,
        restart ==> dir_begun(t, handle, true, restart) is Build,
{
}

// ---------------------------------------------------------------------------------------
// What a listing is for.

/// Without a pattern every entry of the listing is handed out, directories and files alike, in
/// the listing's own order.
pub proof fn law_everything_is_listed_without_a_pattern(
    items: Seq<(Seq<char>, overlay::ItemView)>,
    matched: Seq<bool>,
)
    ensures
        wanted(items, None, matched) == Seq::new(items.len(), |i: int| items[i].1),
    decreases items.len(),
{
    if items.len() > 0 {
        law_everything_is_listed_without_a_pattern(items.drop_last(), matched);
    }
    assert(wanted(items, None, matched) =~= Seq::new(items.len(), |i: int| items[i].1));
}

/// With a pattern an entry is handed out exactly where its own name matches it, or is it without
/// regard to case: whatever else the entry says, a directory no less than a file, and as it is.
pub proof fn law_a_pattern_picks_by_name_alone(
    items: Seq<(Seq<char>, overlay::ItemView)>,
    w: Seq<char>,
    matched: Seq<bool>,
)
    ensures
        forall|i: int|
            0 <= i < items.len() && (matched[i] || text::ascii_lowered(items[i].1.name)
                == text::ascii_lowered(w)) ==> wanted(items, Some(w), matched).contains(
                (#[trigger] items[i]).1,
            ),
        forall|j: int|
            0 <= j < wanted(items, Some(w), matched).len() ==> exists|i: int|
                0 <= i < items.len() && (#[trigger] items[i]).1 == (#[trigger] wanted(
                    items,
                    Some(w),
                    matched,
                )[j]) && (matched[i] || text::ascii_lowered(items[i].1.name)
                    == text::ascii_lowered(w)),
    decreases items.len(),
{
    if items.len() > 0 {
        let init = items.drop_last();
        let n = items.len() - 1;
        let rest = wanted(init, Some(w), matched);
        let all = wanted(items, Some(w), matched);
        law_a_pattern_picks_by_name_alone(init, w, matched);
        assert forall|i: int|
            0 <= i < items.len() && (matched[i] || text::ascii_lowered(items[i].1.name)
                == text::ascii_lowered(w)) implies all.contains((#[trigger] items[i]).1) by {
            if i < n {
                assert(init[i] == items[i]);
                assert(rest.contains(init[i].1));
                let j = choose|j: int| 0 <= j < rest.len() && rest[j] == items[i].1;
                assert(all[j] == items[i].1);
            } else {
                assert(all[rest.len() as int] == items[n].1);
            }
        }
        assert forall|j: int| 0 <= j < all.len() implies exists|i: int|
            0 <= i < items.len() && (#[trigger] items[i]).1 == (#[trigger] all[j]) && (matched[i]
                || text::ascii_lowered(items[i].1.name) == text::ascii_lowered(w)) by {
            if j < rest.len() {
                assert(all[j] == rest[j]);
                let i = choose|i: int|
                    0 <= i < init.len() && (#[trigger] init[i]).1 == rest[j] && (matched[i]
                        || text::ascii_lowered(init[i].1.name) == text::ascii_lowered(w));
                assert(items[i] == init[i]);
            } else {
                assert(items[n].1 == all[j]);
            }
        }
    }
}

/// What is picked of a listing is what is picked of its first part, and behind it what is picked
/// of the rest: the order stays, nothing is handed out twice, and no entry counts for another.
pub proof fn law_a_listing_is_picked_piece_by_piece(
    items: Seq<(Seq<char>, overlay::ItemView)>,
    filter: Option<Seq<char>>,
    matched: Seq<bool>,
    k: int,
)
    requires
        0 <= k <= items.len() == matched.len(),
    ensures
        wanted(items, filter, matched) == wanted(items.take(k), filter, matched.take(k)) + wanted(
            items.skip(k),
            filter,
            matched.skip(k),
        ),
    decreases items.len(),
{
    lemma_wanted_reads_its_own(items.take(k), filter, matched.take(k), matched);
    if k == items.len() {
        assert(items.take(k) =~= items);
        assert(items.skip(k).len() == 0);
        assert(wanted(items, filter, matched) =~= wanted(items.take(k), filter, matched.take(k))
            + wanted(items.skip(k), filter, matched.skip(k)));
    } else {
        let init = items.drop_last();
        let m = matched.drop_last();
        law_a_listing_is_picked_piece_by_piece(init, filter, m, k);
        assert(init.take(k) =~= items.take(k));
        assert(m.take(k) =~= matched.take(k));
        let tail = items.skip(k);
        assert(tail.drop_last() =~= init.skip(k));
        assert(tail.last() == items.last());
        lemma_wanted_reads_its_own(init.skip(k), filter, m.skip(k), matched.skip(k));
        lemma_wanted_reads_its_own(init, filter, m, matched);
        assert(matched.skip(k)[tail.len() - 1] == matched[items.len() - 1]);
        assert(wanted(items, filter, matched) =~= wanted(items.take(k), filter, matched.take(k))
            + wanted(items.skip(k), filter, matched.skip(k)));
    }
}

/// Only the flags of the entries themselves are read.
proof fn lemma_wanted_reads_its_own(
    items: Seq<(Seq<char>, overlay::ItemView)>,
    filter: Option<Seq<char>>,
    a: Seq<bool>,
    b: Seq<bool>,
)
    requires
        forall|i: int| 0 <= i < items.len() ==> #[trigger] a[i] == b[i],
    ensures
        wanted(items, filter, a) == wanted(items, filter, b),
    decreases items.len(),
{
    if items.len() > 0 {
        lemma_wanted_reads_its_own(items.drop_last(), filter, a, b);
        assert(a[items.len() - 1] == b[items.len() - 1]);
    }
}

/// An empty pattern, `*` and `*.*` ask for everything; any other pattern is the caller's own.
pub proof fn law_a_pattern_is_taken_as_given(name: Option<Seq<char>>)
    ensures
        wildcard(name) is None <==> (name is None || name->0.len() == 0 || name->0 == seq!['*']
            || name->0 == seq!['*', '.', '*']),
        wildcard(name) is Some ==> wildcard(name) == name,
{
    reveal_strlit("*");
    reveal_strlit("*.*");
    assert("*"@ =~= seq!['*']);
    assert("*.*"@ =~= seq!['*', '.', '*']);
}

/// A directory that is not tracked, and a class that is not known, are the system's. A tracked
/// directory is listed anew on its first call and where the caller starts over, under its own
/// path, and a listing under way goes on.
pub proof fn law_an_enumeration_begins_or_goes_on(
    t: tables::TablesView,
    handle: u64,
    class_known: bool,
    restart: bool,
)
    ensures
        dir_begun(t, handle, class_known, restart) is Real <==> !class_known
            || !t.dirs.contains_key(handle),
        class_known && t.dirs.contains_key(handle) && (restart || t.dirs[handle].state is None)
            ==> dir_begun(t, handle, class_known, restart) == (DirStepView::Build {
            dir: t.dirs[handle].path,
        }),
        class_known && t.dirs.contains_key(handle) && !restart && t.dirs[handle].state is Some
            ==> dir_begun(t, handle, class_known, restart) is Serve,
{
}

/// A listing that is kept, and one that is handed out, stays under its own directory: its path,
/// its entries and every other directory are as they were, and so is all else that is
/// remembered.
pub proof fn law_a_listing_stays_its_own(
    t: tables::TablesView,
    handle: u64,
    other: u64,
    items: Seq<overlay::ItemView>,
    count: nat,
)
    requires
        t.dirs.contains_key(handle),
        other != handle,
    ensures
        ({
            let stored = listing_stored(t, handle, items);
            &&& stored.dirs[handle].path == t.dirs[handle].path
            &&& stored.dirs[handle].state matches Some(e) && e.entries == items && e.cursor == 0
            &&& stored.dirs.contains_key(other) == t.dirs.contains_key(other)
            &&& stored.dirs[other] == t.dirs[other]
            &&& stored.paths == t.paths && stored.identities == t.identities
                && stored.handle_paths == t.handle_paths
        }),
        t.dirs[handle].state matches Some(e) ==> ({
            let after = advanced(t, handle, count);
            &&& after.dirs[handle].path == t.dirs[handle].path
            &&& after.dirs[handle].state matches Some(now) && now.entries == e.entries
                && now.cursor == e.cursor + count
            &&& after.dirs.contains_key(other) == t.dirs.contains_key(other)
            &&& after.dirs[other] == t.dirs[other]
            &&& after.paths == t.paths && after.identities == t.identities && after.handle_paths
                == t.handle_paths
        }),
{
}

/// An enumeration that gave entries succeeds, one at its end says so, and a buffer that cannot
/// hold the next entry is told apart from both: the last two are warnings, which are no success.
pub proof fn law_the_end_of_a_listing_is_told(status: DirStatus)
    ensures
        dir_status(status) == 0 <==> status is Success,
        dir_status(status) == -0x7fff_fffa <==> status is NoMoreFiles,
        dir_status(status) == -0x7fff_fffb <==> status is BufferOverflow,
{
}

/// A listing is noted by one line, while there are fewer than 300: with its directory, its
/// pattern, its number of entries and where it came from. One of the system's has no number.
pub proof fn law_listings_are_noted(
    c: hookstats::SnapshotView,
    dir: Seq<char>,
    filter: Option<Seq<char>>,
    count: nat,
    source: ReadDirSource,
)
    ensures
        c.readdirs.len() < 300 ==> dir_counted(c, dir, filter, count, source).readdirs
            == c.readdirs.push(hookstats::readdir_line(dir, filter, count, source)),
        c.readdirs.len() >= 300 ==> dir_counted(c, dir, filter, count, source) == c,
        os_listing(c, Some(dir), filter) == dir_counted(c, dir, filter, 0, ReadDirSource::Os),
        os_listing(c, None, filter) == dir_counted(
            c,
            "<unknown>"@,
            filter,
            0,
            ReadDirSource::Os,
        ),
{
}

} // verus!

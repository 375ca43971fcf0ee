//! Address ranges that back synthetic sections: who owns them, how long they live, and which
//! part of a demand-paged one a fault brings in.
//!
//! A range belongs to its section, never to a view. It is released only once the section's
//! handle is closed and the last view is gone.

use crate::zipserve;
use std::collections::{BTreeMap, BTreeSet};
use vstd::prelude::*;

verus! {

/// The size of a page.
pub const PAGE: u64 = 4096;

/// Bytes brought in by one fault.
pub const CHUNK: u64 = 262144;

/// Bytes brought in when a section is created.
pub const WARM_BYTES: u64 = 2097152;

/// The largest file that gets a demand-paged section.
pub const MAX_LAZY: u64 = 68719476736;

/// Code of an access violation.
pub const STATUS_ACCESS_VIOLATION: u32 = 0xC000_0005;

/// An owned address range.
pub struct OwnedRegion {
    /// First address.
    pub base: u64,
    /// Length in bytes.
    pub reserved: u64,
    /// The file's size.
    pub file_size: u64,
    /// The director's handle.
    pub fh: u64,
    /// Whether its pages are brought in by faults.
    pub lazy: bool,
    /// Whether the section's handle is open.
    pub section_open: bool,
    /// The chunks that are there.
    pub committed: BTreeSet<u64>,
}

/// An owned address range, as values.
#[verifier::ext_equal]
pub struct RegionView {
    pub base: u64,
    pub reserved: u64,
    pub file_size: u64,
    pub fh: u64,
    pub lazy: bool,
    pub section_open: bool,
    pub committed: Set<u64>,
}

impl View for OwnedRegion {
    type V = RegionView;

    open spec fn view(&self) -> RegionView {
        RegionView {
            base: self.base,
            reserved: self.reserved,
            file_size: self.file_size,
            fh: self.fh,
            lazy: self.lazy,
            section_open: self.section_open,
            committed: self.committed@,
        }
    }
}

/// The owned address ranges.
pub struct RegionTable {
    regions: BTreeMap<u64, OwnedRegion>,
}

/// Whether `k` is the greatest key not above `addr`.
pub open spec fn is_floor(m: Map<u64, RegionView>, k: u64, addr: u64) -> bool {
    &&& m.contains_key(k)
    &&& k <= addr
    &&& forall|j: u64| #[trigger] m.contains_key(j) && j <= addr ==> j <= k
}

/// The key of the range that holds `addr`.
pub open spec fn region_at(m: Map<u64, RegionView>, addr: u64) -> Option<u64> {
    if exists|k: u64| is_floor(m, k, addr) && addr < m[k].base + m[k].reserved {
        Some(choose|k: u64| is_floor(m, k, addr) && addr < m[k].base + m[k].reserved)
    } else {
        None
    }
}

/// The nearest range at or below an address is the one that holds it, where one does.
pub proof fn lemma_region_at(m: Map<u64, RegionView>, k: u64, addr: u64)
    requires
        is_floor(m, k, addr),
    ensures
        region_at(m, addr) == if addr < m[k].base + m[k].reserved {
            Some(k)
        } else {
            None
        },
{
    assert forall|j: u64| is_floor(m, j, addr) implies j == k by {
        assert(m.contains_key(j) && m.contains_key(k));
    }
}

/// A range that nothing uses any more: its section is closed, and no view begins in it.
pub open spec fn dead(r: RegionView, views: Map<u64, zipserve::SynthView>) -> bool {
    !r.section_open && !zipserve::view_within(views, r.base, r.reserved)
}

/// The ranges without range `k`, where nothing uses it any more.
pub open spec fn reaped(
    m: Map<u64, RegionView>,
    views: Map<u64, zipserve::SynthView>,
    k: u64,
) -> Map<u64, RegionView> {
    if m.contains_key(k) && dead(m[k], views) {
        m.remove(k)
    } else {
        m
    }
}

/// The ranges after a view at `addr` was unmapped.
pub open spec fn after_view_unmapped(
    m: Map<u64, RegionView>,
    views: Map<u64, zipserve::SynthView>,
    addr: u64,
) -> Map<u64, RegionView> {
    match region_at(m, addr) {
        Some(k) => reaped(m, views, k),
        None => m,
    }
}

/// The ranges with the section of range `k` closed.
pub open spec fn closed(m: Map<u64, RegionView>, k: u64) -> Map<u64, RegionView> {
    m.insert(k, RegionView { section_open: false, ..m[k] })
}

/// The ranges after the section over `addr` was closed.
pub open spec fn after_section_closed(
    m: Map<u64, RegionView>,
    views: Map<u64, zipserve::SynthView>,
    addr: u64,
) -> Map<u64, RegionView> {
    match region_at(m, addr) {
        Some(k) => reaped(closed(m, k), views, k),
        None => m,
    }
}

/// The range that a step took out of the table: its memory is to be released.
pub open spec fn released(
    before: Map<u64, RegionView>,
    after: Map<u64, RegionView>,
    addr: u64,
) -> Option<u64> {
    match region_at(before, addr) {
        Some(k) => if after.contains_key(k) {
            None
        } else {
            Some(k)
        },
        None => None,
    }
}

/// Whether every range lies under its own first address and fits the address space.
pub open spec fn ranges_fit(m: Map<u64, RegionView>) -> bool {
    forall|k: u64| #[trigger]
        m.contains_key(k) ==> m[k].base == k && k + m[k].reserved <= u64::MAX
}

/// Whether every range reserves its file in whole pages.
pub open spec fn whole_pages(m: Map<u64, RegionView>) -> bool {
    forall|k: u64| #[trigger]
        m.contains_key(k) ==> m[k].reserved == aligned(m[k].file_size as int, PAGE as int)
}

/// Whether no two ranges overlap.
pub open spec fn ranges_apart(m: Map<u64, RegionView>) -> bool {
    forall|j: u64, k: u64|
        #![trigger m.contains_key(j), m.contains_key(k)]
        m.contains_key(j) && m.contains_key(k) && j < k ==> j + m[j].reserved <= k
}

/// Whether no range is there that nothing uses.
pub open spec fn none_dead(
    m: Map<u64, RegionView>,
    views: Map<u64, zipserve::SynthView>,
) -> bool {
    forall|k: u64| #[trigger] m.contains_key(k) ==> !dead(m[k], views)
}

// ---------------------------------------------------------------------------------------
// Lifetime laws.

/// A range is released by the unmapping of a view or the closing of a section only where its
/// section is closed and no view begins in it any more; every other range stays.
pub proof fn law_released_only_when_unused(
    m: Map<u64, RegionView>,
    views: Map<u64, zipserve::SynthView>,
    addr: u64,
    k: u64,
)
    requires
        ranges_fit(m),
        m.contains_key(k),
    ensures
        !after_view_unmapped(m, views, addr).contains_key(k) ==> !m[k].section_open
            && !zipserve::view_within(views, k, m[k].reserved),
        !after_section_closed(m, views, addr).contains_key(k) ==> region_at(m, addr) == Some(k)
            && !zipserve::view_within(views, k, m[k].reserved),
        after_view_unmapped(m, views, addr).contains_key(k) ==> after_view_unmapped(
            m,
            views,
            addr,
        )[k] == m[k],
        after_section_closed(m, views, addr).contains_key(k) && region_at(m, addr) != Some(k)
            ==> after_section_closed(m, views, addr)[k] == m[k],
{
}

/// An address inside a range belongs to that range alone.
proof fn lemma_inside(m: Map<u64, RegionView>, k: u64, addr: u64)
    requires
        ranges_fit(m),
        ranges_apart(m),
        m.contains_key(k),
        k <= addr < k + m[k].reserved,
    ensures
        region_at(m, addr) == Some(k),
{
    assert(is_floor(m, k, addr)) by {
        assert forall|j: u64| #[trigger] m.contains_key(j) && j <= addr implies j <= k by {
            if j > k {
                assert(k + m[k].reserved <= j);
            }
        }
    }
    lemma_region_at(m, k, addr);
}

/// Unmapping a view leaks nothing: where every range was used before, every range that is left
/// after the view and the unused ranges are gone is used too.
pub proof fn law_unmapping_leaks_nothing(
    m: Map<u64, RegionView>,
    views: Map<u64, zipserve::SynthView>,
    base: u64,
)
    requires
        ranges_fit(m),
        ranges_apart(m),
        none_dead(m, views),
    ensures
        ({
            let now = zipserve::views_unmapped(views, base);
            none_dead(after_view_unmapped(m, now, base), now)
        }),
{
    let now = zipserve::views_unmapped(views, base);
    let after = after_view_unmapped(m, now, base);
    assert forall|k: u64| #[trigger] after.contains_key(k) implies !dead(after[k], now) by {
        assert(m.contains_key(k));
        assert(!dead(m[k], views));
        if !m[k].section_open {
            let b = choose|b: u64| #[trigger]
                views.contains_key(b) && k <= b < k.saturating_add(m[k].reserved);
            if b == base {
                lemma_inside(m, k, base);
            } else {
                assert(now.contains_key(b));
            }
        }
    }
}

/// Closing a section leaks nothing: where every range was used before, every range that is left
/// is used.
pub proof fn law_closing_leaks_nothing(
    m: Map<u64, RegionView>,
    views: Map<u64, zipserve::SynthView>,
    window: u64,
)
    requires
        ranges_fit(m),
        none_dead(m, views),
    ensures
        none_dead(after_section_closed(m, views, window), views),
{
    let after = after_section_closed(m, views, window);
    assert forall|k: u64| #[trigger] after.contains_key(k) implies !dead(after[k], views) by {
        assert(m.contains_key(k));
        assert(!dead(m[k], views));
    }
}

/// Unmapping a view of a section that is still open never releases its range: the section can be
/// mapped again.
pub proof fn law_unmapping_keeps_an_open_section(
    m: Map<u64, RegionView>,
    views: Map<u64, zipserve::SynthView>,
    addr: u64,
    k: u64,
)
    requires
        m.contains_key(k),
        m[k].section_open,
    ensures
        after_view_unmapped(m, views, addr).contains_key(k),
        after_view_unmapped(m, views, addr)[k] == m[k],
{
}

/// Closing a section and unmapping its last view release its range, in either order.
pub proof fn law_close_and_last_unmap_release(
    m: Map<u64, RegionView>,
    views: Map<u64, zipserve::SynthView>,
    k: u64,
    view: u64,
)
    requires
        ranges_fit(m),
        ranges_apart(m),
        m.contains_key(k),
        k <= view < k + m[k].reserved,
        views.contains_key(view),
        views[view].refs == 1,
        forall|b: u64| #[trigger]
            views.contains_key(b) && k <= b < k + m[k].reserved ==> b == view,
    ensures
        ({
            let gone = zipserve::views_unmapped(views, view);
            let closed_first = after_section_closed(m, views, k);
            let unmapped_first = after_view_unmapped(m, gone, view);
            &&& closed_first.contains_key(k)
            &&& !after_view_unmapped(closed_first, gone, view).contains_key(k)
            &&& !after_section_closed(unmapped_first, gone, k).contains_key(k)
        }),
{
    let gone = zipserve::views_unmapped(views, view);
    assert(!gone.contains_key(view));
    lemma_inside(m, k, k);
    lemma_inside(m, k, view);
    let closed_first = after_section_closed(m, views, k);
    assert(zipserve::view_within(views, k, m[k].reserved)) by {
        assert(views.contains_key(view));
    }
    assert(closed_first =~= closed(m, k));
    assert(ranges_fit(closed_first));
    assert(ranges_apart(closed_first));
    lemma_inside(closed_first, k, view);
    assert(!zipserve::view_within(gone, k, m[k].reserved)) by {
        assert forall|b: u64| #[trigger] gone.contains_key(b) implies !(k <= b < k.saturating_add(
            m[k].reserved,
        )) by {
            assert(views.contains_key(b));
        }
    }
    let unmapped_first = after_view_unmapped(m, gone, view);
    if unmapped_first.contains_key(k) {
        assert(unmapped_first =~= m);
    } else {
        assert(!after_section_closed(unmapped_first, gone, k).contains_key(k)) by {
            match region_at(unmapped_first, k) {
                Some(j) => {
                    assert(is_floor(unmapped_first, j, k));
                    assert(unmapped_first.contains_key(j));
                },
                None => {},
            }
        }
    }
}

/// Whether nothing of the shim's lies in `[base, base + len)`: what the system gives out is not
/// in use.
pub open spec fn is_free(
    m: Map<u64, RegionView>,
    views: Map<u64, zipserve::SynthView>,
    base: u64,
    len: u64,
) -> bool {
    &&& !m.contains_key(base)
    &&& forall|k: u64| #[trigger]
        m.contains_key(k) ==> k + m[k].reserved <= base || base + len <= k
    &&& !zipserve::view_within(views, base, len)
}

/// A range that was free when its section was made, over the whole life of the section: its
/// first view covers it; closing the section while the view is mapped keeps it, and every
/// address in it still belongs to it; unmapping the view then releases it, and no address in it
/// belongs to any range. Without a view, closing the section releases it. Either way nothing
/// else has changed. The ranges never overlap.
pub proof fn law_a_range_lives_until_its_last_use(
    m: Map<u64, RegionView>,
    views: Map<u64, zipserve::SynthView>,
    base: u64,
    reserved: u64,
    file_size: u64,
    fh: u64,
    lazy: bool,
    addr: u64,
)
    requires
        ranges_fit(m),
        ranges_apart(m),
        0 < file_size <= reserved,
        base + reserved <= u64::MAX,
        is_free(m, views, base, reserved),
        base <= addr < base + reserved,
    ensures
        ({
            let created = m.insert(base, fresh_region(base, reserved, file_size, fh, lazy));
            let section = zipserve::SynthSection { window: base, length: file_size };
            let mapped = zipserve::views_mapped(views, base, file_size);
            let kept = after_section_closed(created, mapped, base);
            let gone = zipserve::views_unmapped(mapped, base);
            let after = after_view_unmapped(kept, gone, base);
            let at_once = after_section_closed(created, views, base);
            &&& ranges_fit(created) && ranges_apart(created)
            &&& lazy_at(created, addr) == lazy
            &&& zipserve::view_of(section, 0, 0) == Some((base, file_size))
            &&& released(created, kept, base) is None
            &&& lazy_at(kept, addr) == lazy
            &&& gone == views
            &&& released(kept, after, base) == Some(base)
            &&& after == m
            &&& !lazy_at(after, addr)
            &&& released(created, at_once, base) == Some(base)
            &&& at_once == m
        }),
{
    let region = fresh_region(base, reserved, file_size, fh, lazy);
    let created = m.insert(base, region);
    let mapped = zipserve::views_mapped(views, base, file_size);
    assert(ranges_apart(created)) by {
        assert forall|j: u64, k: u64|
            #![trigger created.contains_key(j), created.contains_key(k)]
            created.contains_key(j) && created.contains_key(k) && j < k implies j
            + created[j].reserved <= k by {
            assert(j == base || m.contains_key(j));
            assert(k == base || m.contains_key(k));
        }
    }
    assert(ranges_fit(created)) by {
        assert forall|k: u64| #[trigger] created.contains_key(k) implies created[k].base == k && k
            + created[k].reserved <= u64::MAX by {
            assert(k == base || m.contains_key(k));
        }
    }
    lemma_inside(created, base, base);
    lemma_inside(created, base, addr);
    assert(!views.contains_key(base)) by {
        if views.contains_key(base) {
            assert(zipserve::view_within(views, base, reserved));
        }
    }
    let kept = after_section_closed(created, mapped, base);
    assert(zipserve::view_within(mapped, base, reserved)) by {
        assert(mapped.contains_key(base));
    }
    assert(kept =~= closed(created, base));
    assert(ranges_fit(kept)) by {
        assert forall|k: u64| #[trigger] kept.contains_key(k) implies kept[k].base == k && k
            + kept[k].reserved <= u64::MAX by {
            assert(created.contains_key(k));
        }
    }
    assert(ranges_apart(kept)) by {
        assert forall|j: u64, k: u64|
            #![trigger kept.contains_key(j), kept.contains_key(k)]
            kept.contains_key(j) && kept.contains_key(k) && j < k implies j + kept[j].reserved
            <= k by {
            assert(created.contains_key(j) && created.contains_key(k));
        }
    }
    lemma_inside(kept, base, base);
    lemma_inside(kept, base, addr);
    let gone = zipserve::views_unmapped(mapped, base);
    assert(gone =~= views);
    assert(after_view_unmapped(kept, gone, base) =~= m);
    assert(after_section_closed(created, views, base) =~= m);
    assert(region_at(m, addr) is None) by {
        assert forall|k: u64| is_floor(m, k, addr) implies addr >= m[k].base + m[k].reserved by {
            assert(m.contains_key(k));
        }
    }
}

// ---------------------------------------------------------------------------------------
// The table.

/// `n` rounded up to a multiple of `a`.
pub open spec fn aligned(n: int, a: int) -> int {
    (n + (a - 1)) / a * a
}

/// [`aligned`]: the least multiple of `a` that is not below `n`.
pub fn align_up(n: u64, a: u64) -> (r: u64)
    requires
        a > 0,
        n + a <= u64::MAX,
    ensures
        r == aligned(n as int, a as int),
        r as int % a as int == 0,
        n <= r < n + a,
{
    let q: u64 = (n + (a - 1)) / a;
    proof {
        vstd::arithmetic::div_mod::lemma_fundamental_div_mod(n + (a - 1), a as int);
        vstd::arithmetic::mul::lemma_mul_is_commutative(a as int, q as int);
        vstd::arithmetic::div_mod::lemma_mod_multiples_basic(q as int, a as int);
    }
    q * a
}

impl RegionTable {
    /// The ranges by their first addresses.
    pub closed spec fn regions(self) -> Map<u64, RegionView> {
        self.regions@.map_values(|r: OwnedRegion| r@)
    }

    /// Every range fits the address space, and reserves its file in whole pages.
    pub open spec fn wf(self) -> bool {
        ranges_fit(self.regions()) && whole_pages(self.regions())
    }

    /// No range is owned.
    pub fn new() -> (t: RegionTable)
        ensures
            t.wf(),
            t.regions() == Map::<u64, RegionView>::empty(),
    {
        let t = RegionTable { regions: BTreeMap::new() };
        assert(t.regions() =~= Map::<u64, RegionView>::empty());
        t
    }

    /// The greatest key not above `addr`.
    fn floor(&self, addr: u64) -> (r: Option<u64>)
        ensures
            match r {
                Some(k) => is_floor(self.regions(), k, addr),
                None => forall|j: u64| #[trigger] self.regions().contains_key(j) ==> j > addr,
            },
    {
        let mut best: Option<u64> = None;
        for kv in it: self.regions.iter()
            invariant
                match best {
                    Some(k) => {
                        &&& self.regions@.contains_key(k)
                        &&& k <= addr
                        &&& forall|j: int|
                            0 <= j < it.index() && *(#[trigger] it.seq()[j]).0 <= addr
                                ==> *it.seq()[j].0 <= k
                    },
                    None => forall|j: int|
                        0 <= j < it.index() ==> *(#[trigger] it.seq()[j]).0 > addr,
                },
        {
            let (k, _r) = kv;
            if *k <= addr {
                match best {
                    Some(b) => {
                        if *k > b {
                            best = Some(*k);
                        }
                    },
                    None => {
                        best = Some(*k);
                    },
                }
            }
        }
        assert forall|j: u64| #[trigger] self.regions().contains_key(j) implies
            self.regions@.contains_key(j) by {}
        best
    }
}

/// The key of the range that holds `addr`: [`region_at`].
pub fn region_key(t: &RegionTable, addr: u64) -> (r: Option<u64>)
    requires
        t.wf(),
    ensures
        r == region_at(t.regions(), addr),
{
    match t.floor(addr) {
        Some(k) => {
            proof {
                lemma_region_at(t.regions(), k, addr);
            }
            match t.regions.get(&k) {
                Some(r) => {
                    assert(t.regions()[k] == r@);
                    if addr - r.base < r.reserved {
                        Some(k)
                    } else {
                        None
                    }
                },
                None => None,
            }
        },
        None => None,
    }
}

/// The entry of a fresh range.
pub open spec fn fresh_region(
    base: u64,
    reserved: u64,
    file_size: u64,
    fh: u64,
    lazy: bool,
) -> RegionView {
    RegionView { base, reserved, file_size, fh, lazy, section_open: true, committed: Set::empty() }
}

/// Tracks a range whose section is open.
fn track(t: &mut RegionTable, base: u64, reserved: u64, file_size: u64, fh: u64, lazy: bool)
    requires
        old(t).wf(),
        base + reserved <= u64::MAX,
        reserved == aligned(file_size as int, PAGE as int),
    ensures
        final(t).wf(),
        final(t).regions() == old(t).regions().insert(
            base,
            fresh_region(base, reserved, file_size, fh, lazy),
        ),
{
    let r = OwnedRegion {
        base,
        reserved,
        file_size,
        fh,
        lazy,
        section_open: true,
        committed: BTreeSet::new(),
    };
    t.regions.insert(base, r);
    assert(t.regions() =~= old(t).regions().insert(
        base,
        fresh_region(base, reserved, file_size, fh, lazy),
    ));
}

/// Tracks a range that is filled already, so that closing its section releases it.
pub fn track_eager_section(t: &mut RegionTable, base: u64, size: u64) -> (r: bool)
    requires
        old(t).wf(),
        base + size + PAGE <= u64::MAX,
    ensures
        r,
        final(t).wf(),
        final(t).regions() == old(t).regions().insert(
            base,
            fresh_region(base, aligned(size as int, PAGE as int) as u64, size, 0, false),
        ),
{
    let reserved: u64 = align_up(size, PAGE);
    track(t, base, reserved, size, 0, false);
    true
}

/// Drops a range from the table.
pub fn forget(t: &mut RegionTable, base: u64)
    requires
        old(t).wf(),
    ensures
        final(t).wf(),
        final(t).regions() == old(t).regions().remove(base),
{
    let _gone = t.regions.remove(&base);
    assert(t.regions() =~= old(t).regions().remove(base));
}

/// Drops range `key` where nothing uses it any more, and says whether it did.
fn reap(t: &mut RegionTable, v: &zipserve::ViewTable, key: u64) -> (r: bool)
    requires
        old(t).wf(),
        old(t).regions().contains_key(key),
    ensures
        final(t).wf(),
        final(t).regions() == reaped(old(t).regions(), v.views(), key),
        r == dead(old(t).regions()[key], v.views()),
{
    let is_dead = match t.regions.get(&key) {
        Some(r) => {
            assert(t.regions()[key] == r@);
            !r.section_open && !zipserve::has_view_in(v, r.base, r.reserved)
        },
        None => false,
    };
    if is_dead {
        forget(t, key);
    }
    is_dead
}

/// Notes that a view over `addr` went away. Gives back the range to release: the one that held
/// the view, where its section is closed and no other view is left in it.
pub fn on_view_unmapped(t: &mut RegionTable, v: &zipserve::ViewTable, addr: u64) -> (r: Option<
    u64,
>)
    requires
        old(t).wf(),
    ensures
        final(t).wf(),
        final(t).regions() == after_view_unmapped(old(t).regions(), v.views(), addr),
        r == released(old(t).regions(), final(t).regions(), addr),
{
    match region_key(t, addr) {
        Some(k) => {
            assert(is_floor(t.regions(), k, addr));
            if reap(t, v, k) {
                Some(k)
            } else {
                None
            }
        },
        None => None,
    }
}

/// Notes that the section over `base` was closed. Gives back the range to release, where no view
/// is left in it.
pub fn on_section_closed(t: &mut RegionTable, v: &zipserve::ViewTable, base: u64) -> (r: Option<
    u64,
>)
    requires
        old(t).wf(),
    ensures
        final(t).wf(),
        final(t).regions() == after_section_closed(old(t).regions(), v.views(), base),
        r == released(old(t).regions(), final(t).regions(), base),
{
    match region_key(t, base) {
        Some(k) => {
            assert(is_floor(t.regions(), k, base));
            match t.regions.remove(&k) {
                Some(region) => {
                    assert(old(t).regions()[k] == region@);
                    let mut region = region;
                    region.section_open = false;
                    t.regions.insert(k, region);
                    assert(t.regions() =~= closed(old(t).regions(), k));
                },
                None => {},
            }
            if reap(t, v, k) {
                Some(k)
            } else {
                None
            }
        },
        None => None,
    }
}

/// Whether `addr` lies in a demand-paged range, so that a fault there is served.
pub open spec fn lazy_at(m: Map<u64, RegionView>, addr: u64) -> bool {
    match region_at(m, addr) {
        Some(k) => m[k].lazy,
        None => false,
    }
}

/// A demand-paged file is told by its first address, and a fault anywhere in it is served:
/// ranges that do not overlap hide no part of it. Behind its last page no address is its own.
pub proof fn law_a_file_is_served_to_its_end(m: Map<u64, RegionView>, k: u64, addr: u64)
    requires
        ranges_fit(m),
        whole_pages(m),
        m.contains_key(k),
    ensures
        m[k].file_size > 0 ==> lazy_at(m, k) == m[k].lazy,
        m[k].file_size <= m[k].reserved < m[k].file_size + PAGE,
        ranges_apart(m) && k <= addr < k + m[k].file_size ==> lazy_at(m, addr) == m[k].lazy,
        addr >= k + m[k].file_size + PAGE ==> region_at(m, addr) != Some(k),
{
    let size = m[k].file_size as int;
    assert(m[k].reserved == aligned(size, PAGE as int));
    assert(size <= aligned(size, PAGE as int) < size + PAGE);
    if size > 0 {
        assert(is_floor(m, k, k));
        lemma_region_at(m, k, k);
    }
    if ranges_apart(m) && k <= addr < k + size {
        lemma_inside(m, k, addr);
    }
    if region_at(m, addr) == Some(k) {
        assert(exists|j: u64| is_floor(m, j, addr) && addr < m[j].base + m[j].reserved);
    }
}

/// [`lazy_at`].
pub fn is_lazy_base(t: &RegionTable, addr: u64) -> (r: bool)
    requires
        t.wf(),
    ensures
        r == lazy_at(t.regions(), addr),
{
    match region_key(t, addr) {
        Some(k) => {
            assert(is_floor(t.regions(), k, addr));
            match t.regions.get(&k) {
                Some(r) => {
                    assert(t.regions()[k] == r@);
                    r.lazy
                },
                None => false,
            }
        },
        None => false,
    }
}

// ---------------------------------------------------------------------------------------
// Sections that are brought in by faults.

/// The address range that a demand-paged section of `file_size` bytes reserves: whole pages.
/// `None` for an empty file and for one above the limit.
pub open spec fn lazy_reservation(file_size: u64) -> Option<u64> {
    if file_size == 0 || file_size > MAX_LAZY {
        None
    } else {
        Some(aligned(file_size as int, PAGE as int) as u64)
    }
}

/// [`lazy_reservation`].
pub fn reserve_for(file_size: u64) -> (r: Option<u64>)
    ensures
        r == lazy_reservation(file_size),
        r matches Some(n) ==> file_size <= n < file_size + PAGE,
{
    if file_size == 0 || file_size > MAX_LAZY {
        return None;
    }
    Some(align_up(file_size, PAGE))
}

/// Bytes to bring in as soon as a demand-paged section is created.
pub open spec fn warmed(file_size: u64) -> int {
    if file_size <= WARM_BYTES {
        file_size as int
    } else {
        WARM_BYTES as int
    }
}

/// [`warmed`].
pub fn warm_bytes(file_size: u64) -> (n: u64)
    ensures
        n == warmed(file_size),
{
    if file_size <= WARM_BYTES {
        file_size
    } else {
        WARM_BYTES
    }
}

/// Creates a demand-paged section over the reserved range at `base`; `None` where the file is
/// empty or too large, or where no range could be reserved.
pub fn create_lazy_data_section(
    t: &mut RegionTable,
    sections: &mut zipserve::SectionTable,
    base: Option<u64>,
    fh: u64,
    file_size: u64,
) -> (r: Option<u64>)
    requires
        old(t).wf(),
        match (lazy_reservation(file_size), base) {
            (Some(reserved), Some(b)) => b + reserved <= u64::MAX,
            _ => true,
        },
    ensures
        final(t).wf(),
        match (lazy_reservation(file_size), base) {
            (Some(reserved), Some(b)) => {
                &&& r == Some(zipserve::section_handle_of(old(sections).next_slot()))
                &&& final(t).regions() == old(t).regions().insert(
                    b,
                    fresh_region(b, reserved, file_size, fh, true),
                )
                &&& final(sections).next_slot() == old(sections).next_slot().wrapping_add(1)
                &&& final(sections).sections() == old(sections).sections().insert(
                    r.unwrap(),
                    (zipserve::SynthSection { window: b, length: file_size }),
                )
            },
            _ => r is None && *final(t) == *old(t) && *final(sections) == *old(sections),
        },
{
    let reserved: u64 = match reserve_for(file_size) {
        Some(n) => n,
        None => {
            return None;
        },
    };
    match base {
        None => None,
        Some(b) => {
            track(t, b, reserved, file_size, fh, true);
            Some(zipserve::register_mapped_image(sections, b, file_size))
        },
    }
}

/// The addresses of the chunks that cover `[offset, offset + len)` of a range.
pub open spec fn chunks_of(base: int, offset: int, end: int) -> Seq<u64> {
    let first = offset / CHUNK as int * CHUNK;
    let count = if end <= offset {
        0
    } else {
        (end - first + (CHUNK - 1)) / CHUNK as int
    };
    Seq::new(count as nat, |i: int| (base + first + i * CHUNK) as u64)
}

/// [`chunks_of`]: what has to be brought in, in order, before the range can be read.
pub fn ensure_range(base: u64, offset: u64, len: u64) -> (out: Vec<u64>)
    requires
        base + offset + len <= u64::MAX,
    ensures
        out@ == chunks_of(base as int, offset as int, offset + len),
{
    let mut out: Vec<u64> = Vec::new();
    if len == 0 {
        assert(out@ =~= chunks_of(base as int, offset as int, offset + len));
        return out;
    }
    let end: u64 = offset + len;
    let first: u64 = offset / CHUNK * CHUNK;
    let count: u64 = (end - first - 1) / CHUNK + 1;
    let mut i: u64 = 0;
    while i < count
        invariant
            first == offset / CHUNK * CHUNK,
            offset < end,
            base + end <= u64::MAX,
            i <= count,
            count == (end - first - 1) / CHUNK as int + 1,
            out@.len() == i,
            forall|k: int| 0 <= k < out@.len() ==> out@[k] == base + first + k * CHUNK,
        decreases count - i,
    {
        out.push(base + first + i * CHUNK);
        i = i + 1;
    }
    assert(out@ =~= chunks_of(base as int, offset as int, offset + len));
    out
}

/// What a fault at an address asks for.
#[derive(Clone, Copy, Debug, PartialEq, Eq, Structural)]
pub enum FillPlan {
    /// The address lies in no demand-paged range.
    NotOurs,
    /// Its chunk is there.
    Ready,
    /// Its chunk has to be brought in.
    Fill(ChunkFill),
}

/// One chunk to bring in.
#[derive(Clone, Copy, Debug, PartialEq, Eq, Structural)]
pub struct ChunkFill {
    /// The range's first address.
    pub base: u64,
    /// The director's handle.
    pub fh: u64,
    /// The chunk's number.
    pub chunk: u64,
    /// Its offset in the range, and in the file.
    pub offset: u64,
    /// Bytes of memory to commit: whole pages.
    pub commit: u64,
    /// Bytes to read from the file; the rest of the memory is zero.
    pub readable: u64,
}

/// The chunk of range `r` that holds `addr`.
pub open spec fn chunk_fill(r: RegionView, addr: u64) -> ChunkFill {
    let chunk = (addr - r.base) / CHUNK as int;
    let offset = chunk * CHUNK;
    let left = r.reserved - offset;
    let commit = aligned(
        if left < CHUNK {
            left
        } else {
            CHUNK as int
        },
        PAGE as int,
    );
    let rest = r.file_size - offset;
    ChunkFill {
        base: r.base,
        fh: r.fh,
        chunk: chunk as u64,
        offset: offset as u64,
        commit: commit as u64,
        readable: if rest <= 0 {
            0
        } else if rest < commit {
            rest as u64
        } else {
            commit as u64
        },
    }
}

/// What a fault at `addr` asks for.
pub open spec fn fill_plan(m: Map<u64, RegionView>, addr: u64) -> FillPlan {
    match region_at(m, addr) {
        Some(k) if m[k].lazy => if m[k].committed.contains(chunk_fill(m[k], addr).chunk) {
            FillPlan::Ready
        } else {
            FillPlan::Fill(chunk_fill(m[k], addr))
        },
        _ => FillPlan::NotOurs,
    }
}

/// A chunk's memory covers the faulting address, begins inside the range, and what is read into
/// it lies inside the file and inside that memory.
pub proof fn law_a_fill_covers_its_fault(m: Map<u64, RegionView>, addr: u64)
    requires
        ranges_fit(m),
        fill_plan(m, addr) is Fill,
    ensures
        ({
            let f = fill_plan(m, addr)->Fill_0;
            &&& f.base + f.offset <= addr < f.base + f.offset + f.commit
            &&& f.offset < m[f.base].reserved
            &&& f.commit <= CHUNK
            &&& f.readable <= f.commit
            &&& f.readable > 0 ==> f.offset + f.readable <= m[f.base].file_size
        }),
{
    let k = region_at(m, addr)->Some_0;
    assert(is_floor(m, k, addr));
    assert(m.contains_key(k));
}

/// [`fill_plan`].
pub fn fill_chunk_at(t: &RegionTable, addr: u64) -> (r: FillPlan)
    requires
        t.wf(),
    ensures
        r == fill_plan(t.regions(), addr),
{
    match region_key(t, addr) {
        None => FillPlan::NotOurs,
        Some(k) => {
            assert(is_floor(t.regions(), k, addr));
            assert(t.regions().contains_key(k));
            match t.regions.get(&k) {
                None => FillPlan::NotOurs,
                Some(r) => {
                    assert(t.regions()[k] == r@);
                    if !r.lazy {
                        return FillPlan::NotOurs;
                    }
                    let chunk: u64 = (addr - r.base) / CHUNK;
                    if r.committed.contains(&chunk) {
                        return FillPlan::Ready;
                    }
                    let offset: u64 = chunk * CHUNK;
                    let left: u64 = r.reserved - offset;
                    let commit: u64 = align_up(
                        if left < CHUNK {
                            left
                        } else {
                            CHUNK
                        },
                        PAGE,
                    );
                    let readable: u64 = if offset >= r.file_size {
                        0
                    } else if r.file_size - offset < commit {
                        r.file_size - offset
                    } else {
                        commit
                    };
                    FillPlan::Fill(
                        ChunkFill { base: r.base, fh: r.fh, chunk, offset, commit, readable },
                    )
                },
            }
        },
    }
}

/// Whether a chunk is there; asked again where its memory could not be committed, since another
/// thread may have brought it in.
pub fn chunk_is_there(t: &RegionTable, base: u64, chunk: u64) -> (r: bool)
    ensures
        r == (t.regions().contains_key(base) && t.regions()[base].committed.contains(chunk)),
{
    match t.regions.get(&base) {
        Some(region) => {
            assert(t.regions()[base] == region@);
            region.committed.contains(&chunk)
        },
        None => false,
    }
}

/// A range with one more chunk there.
pub open spec fn with_chunk(r: RegionView, chunk: u64) -> RegionView {
    RegionView { committed: r.committed.insert(chunk), ..r }
}

/// Notes that a chunk was brought in.
pub fn note_chunk(t: &mut RegionTable, base: u64, chunk: u64)
    requires
        old(t).wf(),
    ensures
        final(t).wf(),
        final(t).regions() == if old(t).regions().contains_key(base) {
            old(t).regions().insert(base, with_chunk(old(t).regions()[base], chunk))
        } else {
            old(t).regions()
        },
{
    match t.regions.remove(&base) {
        Some(region) => {
            assert(old(t).regions()[base] == region@);
            let mut region = region;
            region.committed.insert(chunk);
            t.regions.insert(base, region);
            assert(t.regions() =~= old(t).regions().insert(
                base,
                with_chunk(old(t).regions()[base], chunk),
            ));
        },
        None => {
            assert(t.regions() =~= old(t).regions());
        },
    }
}

/// Makes a chunk's memory whole after `read` of its first `readable` bytes came from the file:
/// everything behind them is zero, and so is all of it where the read failed.
pub fn settle_page(page: &mut [u8], readable: u64, read: Option<u64>)
    requires
        readable <= old(page)@.len(),
    ensures
        final(page)@.len() == old(page)@.len(),
        ({
            let kept = match read {
                Some(n) => if n < readable {
                    n as int
                } else {
                    readable as int
                },
                None => 0,
            };
            final(page)@ == old(page)@.take(kept) + crate::bytes::zeros(
                (old(page)@.len() - kept) as nat,
            )
        }),
{
    let kept: u64 = match read {
        Some(n) => if n < readable {
            n
        } else {
            readable
        },
        None => 0,
    };
    let size: usize = page.len();
    assert(kept <= size);
    let mut i: usize = kept as usize;
    while i < page.len()
        invariant
            kept <= i <= page@.len(),
            page@.len() == old(page)@.len(),
            forall|k: int| 0 <= k < kept ==> page@[k] == old(page)@[k],
            forall|k: int| kept <= k < i ==> page@[k] == 0,
        decreases page@.len() - i,
    {
        page[i] = 0;
        i = i + 1;
    }
    assert(page@ =~= old(page)@.take(kept as int) + crate::bytes::zeros(
        (old(page)@.len() - kept) as nat,
    ));
}

/// A fault as the exception handler sees it.
#[derive(Clone, Copy, Debug, PartialEq, Eq, Structural)]
pub struct Fault {
    /// Whether there is an exception record.
    pub record: bool,
    /// Whether this thread is serving a fault already.
    pub in_handler: bool,
    /// Whether this is the thread that reads for faults.
    pub on_worker: bool,
    /// The exception's code.
    pub code: u32,
    /// The number of its parameters.
    pub params: u32,
    /// The address that was touched.
    pub address: u64,
}

/// Whether a fault is served: an access violation at a demand-paged address, on a thread that
/// neither serves a fault already nor reads for faults.
pub open spec fn is_served(m: Map<u64, RegionView>, f: Fault) -> bool {
    &&& f.record
    &&& !f.in_handler
    &&& !f.on_worker
    &&& f.code == STATUS_ACCESS_VIOLATION
    &&& f.params >= 2
    &&& lazy_at(m, f.address)
}

/// [`is_served`].
pub fn veh_handler(t: &RegionTable, f: &Fault) -> (r: bool)
    requires
        t.wf(),
    ensures
        r == is_served(t.regions(), *f),
{
    f.record && !f.in_handler && !f.on_worker && f.code == STATUS_ACCESS_VIOLATION && f.params >= 2
        && is_lazy_base(t, f.address)
}

/// A range is found at every address in it and at none behind its end; what is kept of it is
/// what it was made with, open and with nothing in memory.
pub proof fn law_a_range_is_found_at_its_addresses(
    m: Map<u64, RegionView>,
    base: u64,
    reserved: u64,
    file_size: u64,
    fh: u64,
    lazy: bool,
    addr: u64,
)
    requires
        base <= addr,
        base + reserved <= u64::MAX,
        forall|k: u64| #[trigger] m.contains_key(k) && k <= addr ==> k <= base,
    ensures
        ({
            let r = fresh_region(base, reserved, file_size, fh, lazy);
            let now = m.insert(base, r);
            &&& addr < base + reserved ==> region_at(now, addr) == Some(base)
            &&& addr >= base + reserved ==> region_at(now, addr) is None
            &&& r.base == base && r.reserved == reserved && r.file_size == file_size && r.fh == fh
            &&& r.lazy == lazy && r.section_open && r.committed == Set::<u64>::empty()
            &&& lazy_at(now, addr) <==> lazy && addr < base + reserved
        }),
{
    let now = m.insert(base, fresh_region(base, reserved, file_size, fh, lazy));
    assert(is_floor(now, base, addr));
    lemma_region_at(now, base, addr);
}

/// A large file of up to 64 GiB gets whole pages, no more than one byte short of a page too
/// many; an empty or a larger one gets none.
pub proof fn law_reservations_are_whole_pages(file_size: u64)
    ensures
        lazy_reservation(file_size) is None <==> file_size == 0 || file_size > 68719476736,
        lazy_reservation(file_size) matches Some(n) ==> n % 4096 == 0 && file_size <= n < file_size
            + 4096,
{
}

/// Up to 2 MiB of a file is brought in at once, from its start, a chunk of 256 KiB at a time.
pub proof fn law_the_start_of_a_file_is_brought_in(base: u64, file_size: u64, i: int)
    requires
        base + file_size + 262144 <= u64::MAX,
    ensures
        ({
            let chunks = chunks_of(base as int, 0, warmed(file_size));
            &&& warmed(file_size) == if file_size <= 2097152 {
                file_size as int
            } else {
                2097152
            }
            &&& chunks.len() * 262144 >= warmed(file_size)
            &&& chunks.len() * 262144 < warmed(file_size) + 262144
            &&& 0 <= i < chunks.len() ==> chunks[i] == base + i * 262144
        }),
{
}

/// What a fault brings in is the 256 KiB chunk that it lies in: from the chunk's start, the rest
/// of the range where that is less, with as much of the file as lies there.
pub proof fn law_a_fault_brings_in_its_chunk(r: RegionView, addr: u64)
    requires
        r.base <= addr < r.base + r.reserved,
        r.reserved % 4096 == 0,
        r.base + r.reserved <= u64::MAX,
    ensures
        ({
            let f = chunk_fill(r, addr);
            let at = f.chunk * 262144;
            &&& f.base == r.base && f.fh == r.fh
            &&& f.offset == at
            &&& at <= addr - r.base < at + 262144
            &&& f.commit == if r.reserved - at < 262144 {
                r.reserved - at
            } else {
                262144
            }
            &&& f.readable == if r.file_size <= at {
                0
            } else if r.file_size - at < f.commit {
                r.file_size - at
            } else {
                f.commit as int
            }
        }),
{
}

/// A fault is served where its chunk is not there yet, and is at once over where it is; an
/// address that belongs to no demand-paged range is someone else's.
pub proof fn law_faults_are_planned_by_what_is_there(m: Map<u64, RegionView>, k: u64, addr: u64)
    requires
        m.contains_key(k),
        m[k].base == k,
        k <= addr < k + m[k].reserved,
        k + m[k].reserved <= u64::MAX,
        forall|j: u64| #[trigger] m.contains_key(j) && j <= addr ==> j <= k,
    ensures
        !m[k].lazy ==> fill_plan(m, addr) == FillPlan::NotOurs,
        m[k].lazy ==> {
            let chunk = ((addr - k) / 262144) as u64;
            &&& m[k].committed.contains(chunk) ==> fill_plan(m, addr) == FillPlan::Ready
            &&& !m[k].committed.contains(chunk) ==> (fill_plan(m, addr) matches FillPlan::Fill(f)
                && f.chunk == chunk && f.base == k)
        },
        m[k].lazy ==> {
            let now = m.insert(k, with_chunk(m[k], ((addr - k) / 262144) as u64));
            &&& fill_plan(now, addr) == FillPlan::Ready
            &&& now[k].base == m[k].base && now[k].reserved == m[k].reserved && now[k].file_size
                == m[k].file_size && now[k].fh == m[k].fh && now[k].lazy == m[k].lazy
                && now[k].section_open == m[k].section_open
        },
{
    assert(is_floor(m, k, addr));
    lemma_region_at(m, k, addr);
    let now = m.insert(k, with_chunk(m[k], ((addr - k) / 262144) as u64));
    assert(is_floor(now, k, addr));
    lemma_region_at(now, k, addr);
}

/// A fault is served only where it is an access violation that names its address, on a thread
/// that neither serves one already nor reads for one, at a demand-paged address.
pub proof fn law_only_own_faults_are_served(m: Map<u64, RegionView>, f: Fault)
    ensures
        is_served(m, f) <==> f.record && !f.in_handler && !f.on_worker && f.code == 0xC000_0005
            && f.params >= 2 && lazy_at(m, f.address),
{
}

} // verus!

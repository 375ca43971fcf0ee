//! A record of the entry point that is running, on a page that an outside process can read while
//! this one is stuck.
//!
//! Little-endian, from the start of the page:
//!
//! | offset | size | meaning |
//! |---|---|---|
//! | 0 | 4 | the magic, so that a foreign or unfinished page is not misread |
//! | 4 | 4 | the entry point that is running, or [`NONE`] |
//! | 8 | 8 | entries so far |
//! | 16 | 8 | exits so far |
//! | 24 | 4 | the last entry point to complete, or [`NONE`] |
//! | 32 | 4 | the number of trail entries written |
//! | 40 | 32 | the trail: the last eight entries |
//! | 76 | 4 | a sub-phase marker |

use crate::bytes;
use crate::overlay;
use crate::text;
use vstd::prelude::*;
use vstd::string::*;

pub mod mark_close;

verus! {

/// No entry point is running. It is not zero, since zero is an entry point of its own.
pub const NONE: u32 = 0xffff_ffff;

/// What a finished page begins with.
pub const MAGIC: u32 = 0x4252_4342;

/// How many entries the trail holds.
pub const TRAIL: usize = 8;

/// The size of the page.
pub const MAP_BYTES: usize = 4096;

const OFF_MAGIC: usize = 0;

const OFF_CURRENT: usize = 4;

const OFF_ENTRIES: usize = 8;

const OFF_EXITS: usize = 16;

const OFF_LAST_DONE: usize = 24;

const OFF_TRAIL_IDX: usize = 32;

const OFF_TRAIL: usize = 40;

const OFF_MARK: usize = 76;

/// The fields of a page.
#[verifier::ext_equal]
pub struct Crumb {
    /// Whether the page is finished, by its magic.
    pub magic: u32,
    /// The entry point that is running, or [`NONE`].
    pub current: u32,
    /// Entries so far.
    pub entries: u64,
    /// Exits so far.
    pub exits: u64,
    /// The last entry point to complete, or [`NONE`].
    pub last_done: u32,
    /// The number of trail entries written.
    pub trail_idx: u32,
    /// The last entries; the most recent stands just before the index.
    pub trail: Seq<u32>,
    /// The sub-phase marker.
    pub mark: u32,
}

/// The fields that a page holds.
pub open spec fn crumb(page: Seq<u8>) -> Crumb {
    Crumb {
        magic: bytes::u32_in(page, 0),
        current: bytes::u32_in(page, 4),
        entries: bytes::u64_in(page, 8),
        exits: bytes::u64_in(page, 16),
        last_done: bytes::u32_in(page, 24),
        trail_idx: bytes::u32_in(page, 32),
        trail: Seq::new(8, |i: int| bytes::u32_in(page, 40 + 4 * i)),
        mark: bytes::u32_in(page, 76),
    }
}

/// The bytes of a page that hold no field.
pub open spec fn spare(page: Seq<u8>) -> Seq<u8> {
    page.subrange(28, 32) + page.subrange(36, 40) + page.subrange(72, 76) + page.skip(80)
}

/// A fresh record: nothing has run, and the marker is as it was.
pub open spec fn fresh(mark: u32) -> Crumb {
    Crumb {
        magic: MAGIC,
        current: NONE,
        entries: 0,
        exits: 0,
        last_done: NONE,
        trail_idx: 0,
        trail: Seq::new(8, |i: int| NONE),
        mark,
    }
}

/// The record after `hook` was entered.
pub open spec fn entered(c: Crumb, hook: u32) -> Crumb {
    Crumb {
        current: hook,
        entries: c.entries.wrapping_add(1),
        trail_idx: c.trail_idx.wrapping_add(1),
        trail: c.trail.update(c.trail_idx as int % 8, hook),
        ..c
    }
}

/// The record after `hook` completed.
pub open spec fn exited(c: Crumb, hook: u32) -> Crumb {
    Crumb { current: NONE, exits: c.exits.wrapping_add(1), last_done: hook, ..c }
}

/// The page with `block` at `off`.
spec fn patched(page: Seq<u8>, off: int, block: Seq<u8>) -> Seq<u8> {
    page.take(off) + block + page.skip(off + block.len())
}

proof fn lemma_other_field(page: Seq<u8>, off: int, block: Seq<u8>, at: int)
    requires
        0 <= off,
        off + block.len() <= page.len(),
        0 <= at,
    ensures
        patched(page, off, block).len() == page.len(),
        at + 4 <= page.len() && (at + 4 <= off || off + block.len() <= at) ==> bytes::u32_in(
            patched(page, off, block),
            at,
        ) == bytes::u32_in(page, at),
        at + 8 <= page.len() && (at + 8 <= off || off + block.len() <= at) ==> bytes::u64_in(
            patched(page, off, block),
            at,
        ) == bytes::u64_in(page, at),
        patched(page, off, block).subrange(off, off + block.len()) == block,
{
    let now = patched(page, off, block);
    assert(now.subrange(off, off + block.len()) =~= block);
    if at + 4 <= page.len() && (at + 4 <= off || off + block.len() <= at) {
        assert(now.subrange(at, at + 4) =~= page.subrange(at, at + 4));
    }
    if at + 8 <= page.len() && (at + 8 <= off || off + block.len() <= at) {
        assert(now.subrange(at, at + 8) =~= page.subrange(at, at + 8));
    }
}

/// What every field reads after `block` was written at `off`.
proof fn lemma_fields(page: Seq<u8>, off: int, block: Seq<u8>)
    requires
        page.len() >= 80,
        0 <= off,
        off + block.len() <= 80,
    ensures
        ({
            let now = patched(page, off, block);
            let a = crumb(page);
            let b = crumb(now);
            let end = off + block.len();
            &&& now.len() == page.len()
            &&& now.subrange(off, end) == block
            &&& (off >= 32 || end <= 28) && (off >= 40 || end <= 36) && (off >= 76 || end <= 72)
                ==> spare(now) == spare(page)
            &&& (off >= 4 || end <= 0) ==> b.magic == a.magic
            &&& (off >= 8 || end <= 4) ==> b.current == a.current
            &&& (off >= 16 || end <= 8) ==> b.entries == a.entries
            &&& (off >= 24 || end <= 16) ==> b.exits == a.exits
            &&& (off >= 28 || end <= 24) ==> b.last_done == a.last_done
            &&& (off >= 36 || end <= 32) ==> b.trail_idx == a.trail_idx
            &&& (off >= 72 || end <= 40) ==> b.trail == a.trail
            &&& (off >= 80 || end <= 76) ==> b.mark == a.mark
        }),
{
    let now = patched(page, off, block);
    lemma_other_field(page, off, block, 0);
    lemma_other_field(page, off, block, 4);
    lemma_other_field(page, off, block, 8);
    lemma_other_field(page, off, block, 16);
    lemma_other_field(page, off, block, 24);
    lemma_other_field(page, off, block, 32);
    lemma_other_field(page, off, block, 76);
    if (off >= 32 || off + block.len() <= 28) && (off >= 40 || off + block.len() <= 36) && (off
        >= 76 || off + block.len() <= 72) {
        assert(spare(now) =~= spare(page));
    }
    if off >= 72 || off + block.len() <= 40 {
        assert forall|i: int| 0 <= i < 8 implies crumb(now).trail[i] == crumb(page).trail[i] by {
            lemma_other_field(page, off, block, 40 + 4 * i);
        }
        assert(crumb(now).trail =~= crumb(page).trail);
    }
}

fn put_block(page: &mut [u8], off: usize, block: &[u8])
    requires
        off + block@.len() <= old(page)@.len(),
    ensures
        final(page)@ == patched(old(page)@, off as int, block@),
{
    let ghost before = page@;
    let len: usize = page.len();
    let n: usize = block.len();
    let mut i: usize = 0;
    while i < n
        invariant
            i <= n == block@.len(),
            off + n <= before.len(),
            page@.len() == before.len() == len,
            forall|k: int| 0 <= k < off ==> page@[k] == before[k],
            forall|k: int| 0 <= k < i ==> page@[off + k] == block@[k],
            forall|k: int| off + i <= k < before.len() ==> page@[k] == before[k],
        decreases n - i,
    {
        page[off + i] = block[i];
        i = i + 1;
    }
    assert(page@ =~= patched(before, off as int, block@));
}

fn put32(page: &mut [u8], off: usize, value: u32)
    requires
        off + 4 <= 80 <= old(page)@.len(),
    ensures
        final(page)@ == patched(old(page)@, off as int, bytes::le32(value)),
        bytes::le32(value).len() == 4,
        bytes::u32_in(final(page)@, off as int) == value,
{
    broadcast use bytes::lemma_le32;

    let mut block: Vec<u8> = Vec::new();
    bytes::push_u32(&mut block, value);
    assert(block@ =~= bytes::le32(value));
    put_block(page, off, block.as_slice());
    proof {
        lemma_other_field(old(page)@, off as int, bytes::le32(value), 0);
    }
}

fn put64(page: &mut [u8], off: usize, value: u64)
    requires
        off + 8 <= 80 <= old(page)@.len(),
    ensures
        final(page)@ == patched(old(page)@, off as int, bytes::le64(value)),
        bytes::le64(value).len() == 8,
        bytes::u64_in(final(page)@, off as int) == value,
{
    broadcast use bytes::lemma_le64;

    let mut block: Vec<u8> = Vec::new();
    bytes::push_u64(&mut block, value);
    assert(block@ =~= bytes::le64(value));
    put_block(page, off, block.as_slice());
    proof {
        lemma_other_field(old(page)@, off as int, bytes::le64(value), 0);
    }
}

/// Makes a page ready: the magic comes last, so that who sees it finds the rest in place.
pub fn init(page: &mut [u8])
    requires
        old(page)@.len() >= MAP_BYTES,
    ensures
        crumb(final(page)@) == fresh(crumb(old(page)@).mark),
        final(page)@.len() == old(page)@.len(),
        spare(final(page)@) == spare(old(page)@),
{
    let ghost p0 = page@;
    put32(page, OFF_CURRENT, NONE);
    let ghost p1 = page@;
    put64(page, OFF_ENTRIES, 0);
    let ghost p2 = page@;
    put64(page, OFF_EXITS, 0);
    let ghost p3 = page@;
    put32(page, OFF_LAST_DONE, NONE);
    let ghost p4 = page@;
    put32(page, OFF_TRAIL_IDX, 0);
    proof {
        lemma_fields(p0, 4, bytes::le32(NONE));
        lemma_fields(p1, 8, bytes::le64(0));
        lemma_fields(p2, 16, bytes::le64(0));
        lemma_fields(p3, 24, bytes::le32(NONE));
        lemma_fields(p4, 32, bytes::le32(0));
    }
    let ghost c = crumb(page@);
    let mut i: usize = 0;
    while i < TRAIL
        invariant
            i <= TRAIL,
            page@.len() == p0.len() >= MAP_BYTES,
            spare(page@) == spare(p0),
            crumb(page@) == (Crumb { trail: crumb(page@).trail, ..c }),
            forall|k: int| 0 <= k < i ==> crumb(page@).trail[k] == NONE,
        decreases TRAIL - i,
    {
        let ghost before = page@;
        put32(page, OFF_TRAIL + 4 * i, NONE);
        proof {
            lemma_fields(before, 40 + 4 * i, bytes::le32(NONE));
            assert forall|k: int| 0 <= k <= i implies crumb(page@).trail[k] == NONE by {
                lemma_other_field(before, 40 + 4 * i, bytes::le32(NONE), 40 + 4 * k);
                if k < i {
                    assert(crumb(before).trail[k] == NONE);
                }
            }
        }
        i = i + 1;
    }
    let ghost p5 = page@;
    put32(page, OFF_MAGIC, MAGIC);
    proof {
        lemma_fields(p5, 0, bytes::le32(MAGIC));
        assert(crumb(page@).trail =~= fresh(c.mark).trail);
        assert(crumb(page@) =~= fresh(crumb(p0).mark));
    }
}

/// Records that `hook` was entered.
pub fn enter(page: &mut [u8], hook: u32)
    requires
        old(page)@.len() >= MAP_BYTES,
    ensures
        crumb(final(page)@) == entered(crumb(old(page)@), hook),
        final(page)@.len() == old(page)@.len(),
        spare(final(page)@) == spare(old(page)@),
{
    let ghost p0 = page@;
    let entries: u64 = bytes::u64_at(page, OFF_ENTRIES).wrapping_add(1);
    put64(page, OFF_ENTRIES, entries);
    let ghost p1 = page@;
    put32(page, OFF_CURRENT, hook);
    let ghost p2 = page@;
    let slot: u32 = bytes::u32_at(page, OFF_TRAIL_IDX);
    put32(page, OFF_TRAIL_IDX, slot.wrapping_add(1));
    let ghost p3 = page@;
    let at: usize = 4 * (slot % 8) as usize;
    put32(page, OFF_TRAIL + at, hook);
    proof {
        lemma_fields(p0, 8, bytes::le64(entries));
        lemma_fields(p1, 4, bytes::le32(hook));
        lemma_fields(p2, 32, bytes::le32(slot.wrapping_add(1)));
        lemma_fields(p3, 40 + at, bytes::le32(hook));
        let k0 = slot as int % 8;
        assert forall|k: int| 0 <= k < 8 implies crumb(page@).trail[k] == crumb(p0).trail.update(
            k0,
            hook,
        )[k] by {
            lemma_other_field(p3, 40 + at, bytes::le32(hook), 40 + 4 * k);
            assert(crumb(p3).trail[k] == crumb(p0).trail[k]);
        }
        assert(crumb(page@).trail =~= crumb(p0).trail.update(k0, hook));
        assert(crumb(page@) =~= entered(crumb(p0), hook));
    }
}

/// Records that `hook` completed. The running entry point goes back to [`NONE`], so that one
/// that is shown is being run at that moment.
pub fn exit(page: &mut [u8], hook: u32)
    requires
        old(page)@.len() >= MAP_BYTES,
    ensures
        crumb(final(page)@) == exited(crumb(old(page)@), hook),
        final(page)@.len() == old(page)@.len(),
        spare(final(page)@) == spare(old(page)@),
{
    let ghost p0 = page@;
    let exits: u64 = bytes::u64_at(page, OFF_EXITS).wrapping_add(1);
    put64(page, OFF_EXITS, exits);
    let ghost p1 = page@;
    put32(page, OFF_LAST_DONE, hook);
    let ghost p2 = page@;
    put32(page, OFF_CURRENT, NONE);
    proof {
        lemma_fields(p0, 16, bytes::le64(exits));
        lemma_fields(p1, 24, bytes::le32(hook));
        lemma_fields(p2, 4, bytes::le32(NONE));
        assert(crumb(page@) =~= exited(crumb(p0), hook));
    }
}

/// Records a sub-phase.
pub fn mark(page: &mut [u8], m: u32)
    requires
        old(page)@.len() >= MAP_BYTES,
    ensures
        crumb(final(page)@) == (Crumb { mark: m, ..crumb(old(page)@) }),
        final(page)@.len() == old(page)@.len(),
        spare(final(page)@) == spare(old(page)@),
{
    let ghost p0 = page@;
    put32(page, OFF_MARK, m);
    proof {
        lemma_fields(p0, 76, bytes::le32(m));
        assert(crumb(page@) =~= (Crumb { mark: m, ..crumb(p0) }));
    }
}

/// Whether there is a page.
pub fn is_active(page: Option<&[u8]>) -> (r: bool)
    ensures
        r == page.is_some(),
{
    page.is_some()
}

/// Running entry point, entries, exits and last completed entry point of a finished page.
pub fn snapshot(page: Option<&[u8]>) -> (r: Option<(u32, u64, u64, u32)>)
    requires
        page matches Some(p) ==> p@.len() >= MAP_BYTES,
    ensures
        r == match page {
            Some(p) if crumb(p@).magic == MAGIC => Some(
                (crumb(p@).current, crumb(p@).entries, crumb(p@).exits, crumb(p@).last_done),
            ),
            _ => None,
        },
{
    match page {
        None => None,
        Some(p) => {
            if bytes::u32_at(p, OFF_MAGIC) != MAGIC {
                return None;
            }
            Some(
                (
                    bytes::u32_at(p, OFF_CURRENT),
                    bytes::u64_at(p, OFF_ENTRIES),
                    bytes::u64_at(p, OFF_EXITS),
                    bytes::u32_at(p, OFF_LAST_DONE),
                ),
            )
        },
    }
}

/// The file of a process's page: `dir`, the name's stem, the process id and the extension, so
/// that two processes never share one. The pieces are those of the path that was asked for.
pub open spec fn page_path(
    parent: Option<Seq<char>>,
    stem: Option<Seq<char>>,
    ext: Option<Seq<char>>,
    pid: u32,
) -> Seq<char> {
    let stem = match stem {
        Some(s) => s,
        None => "breadcrumb"@,
    };
    let ext = match ext {
        Some(e) => e,
        None => "bin"@,
    };
    let name = stem + "."@ + text::decimal(pid as nat) + "."@ + ext;
    match parent {
        Some(d) if d.len() > 0 => overlay::path_join(d, name),
        _ => name,
    }
}

/// [`page_path`].
pub fn pid_path(parent: Option<&str>, stem: Option<&str>, ext: Option<&str>, pid: u32) -> (out:
    String)
    ensures
        out@ == page_path(
            crate::hookstats::optional(parent),
            crate::hookstats::optional(stem),
            crate::hookstats::optional(ext),
            pid,
        ),
{
    let mut name = match stem {
        Some(s) => s.to_owned(),
        None => "breadcrumb".to_owned(),
    };
    name.append(".");
    text::push_decimal(&mut name, pid as u128);
    name.append(".");
    match ext {
        Some(e) => name.append(e),
        None => name.append("bin"),
    }
    match parent {
        Some(d) => {
            if d.unicode_len() > 0 {
                return overlay::join_path(d, name.as_str());
            }
            name
        },
        None => name,
    }
}

/// A foreign or unfinished page is not taken for a record: only one that begins with the
/// magic's own bytes is, which read `BCRB`.
pub proof fn law_a_foreign_page_is_not_misread(page: Seq<u8>)
    requires
        page.len() >= MAP_BYTES,
    ensures
        crumb(page).magic == MAGIC <==> page.subrange(0, 4) == bytes::le32(MAGIC),
        bytes::le32(MAGIC) == seq![0x42u8, 0x43u8, 0x52u8, 0x42u8],
{
    let head = page.subrange(0, 4);
    bytes::lemma_u32_of(head);
    bytes::lemma_le32(MAGIC);
    if head =~= bytes::le32(MAGIC) {
        assert(crumb(page).magic == bytes::u32_of(head));
    }
    bytes::law_le32_digits(MAGIC, head);
    assert(bytes::le32(MAGIC) =~= seq![0x42u8, 0x43u8, 0x52u8, 0x42u8]);
}

/// What is shown as running is being run: entering shows the entry point, and its completion
/// takes it away again, counts one entry and one exit, and names it as the last.
pub proof fn law_entry_and_exit_balance(c: Crumb, hook: u32)
    requires
        c.trail.len() == 8,
    ensures
        entered(c, hook).current == hook,
        exited(entered(c, hook), hook).current == NONE,
        exited(entered(c, hook), hook).last_done == hook,
        exited(entered(c, hook), hook).entries == c.entries.wrapping_add(1),
        exited(entered(c, hook), hook).exits == c.exits.wrapping_add(1),
{
}

/// The trail names the most recent entries: the slot just before the index is the last one, and
/// the seven before it are kept.
pub proof fn law_the_trail_keeps_the_last_entries(c: Crumb, hook: u32, k: int)
    requires
        c.trail.len() == 8,
        0 <= k < 8,
    ensures
        entered(c, hook).trail[(entered(c, hook).trail_idx - 1) % 8] == hook,
        k != c.trail_idx as int % 8 ==> entered(c, hook).trail[k] == c.trail[k],
{
}

/// A fresh page shows nothing as running and nothing as done, and counts nothing.
pub proof fn law_a_fresh_page_is_blank(mark: u32, k: int)
    requires
        0 <= k < 8,
    ensures
        fresh(mark).magic == 0x4252_4342,
        fresh(mark).current == 0xffff_ffff,
        fresh(mark).last_done == 0xffff_ffff,
        fresh(mark).entries == 0 && fresh(mark).exits == 0 && fresh(mark).trail_idx == 0,
        fresh(mark).trail.len() == 8 && fresh(mark).trail[k] == 0xffff_ffff,
        fresh(mark).mark == mark,
{
}

/// Entering changes no exit, and leaving changes no entry; the page's own marks stay.
pub proof fn law_entries_and_exits_are_apart(c: Crumb, hook: u32)
    ensures
        entered(c, hook).exits == c.exits && entered(c, hook).last_done == c.last_done,
        entered(c, hook).entries == c.entries.wrapping_add(1),
        entered(c, hook).trail_idx == c.trail_idx.wrapping_add(1),
        entered(c, hook).magic == c.magic && entered(c, hook).mark == c.mark,
        exited(c, hook).entries == c.entries && exited(c, hook).trail == c.trail && exited(
            c,
            hook,
        ).trail_idx == c.trail_idx,
        exited(c, hook).exits == c.exits.wrapping_add(1),
        exited(c, hook).magic == c.magic && exited(c, hook).mark == c.mark,
{
}

/// Every process has a page of its own: the name holds its number, between the stem and the
/// extension that were asked for, in the directory that was asked for.
pub proof fn law_pages_are_named_by_process(
    dir: Seq<char>,
    stem: Seq<char>,
    ext: Seq<char>,
    pid: u32,
)
    requires
        dir.len() > 2,
        dir.last() != '\\',
        dir.last() != '/',
    ensures
        page_path(Some(dir), Some(stem), Some(ext), pid) == dir + seq!['\\'] + stem + seq!['.']
            + text::decimal(pid as nat) + seq!['.'] + ext,
        page_path(None, Some(stem), Some(ext), pid) == stem + seq!['.'] + text::decimal(pid as nat)
            + seq!['.'] + ext,
        page_path(Some(seq![]), Some(stem), Some(ext), pid) == page_path(
            None,
            Some(stem),
            Some(ext),
            pid,
        ),
        page_path(None, None, None, pid) == page_path(
            None,
            Some("breadcrumb"@),
            Some("bin"@),
            pid,
        ),
{
    reveal_strlit("\\");
    reveal_strlit(".");
    assert("\\"@ =~= seq!['\\']);
    assert("."@ =~= seq!['.']);
    let d = text::decimal(pid as nat);
    let name = stem + seq!['.'] + d + seq!['.'] + ext;
    assert(dir + seq!['\\'] + name =~= dir + seq!['\\'] + stem + seq!['.'] + d + seq!['.'] + ext);
}

} // verus!

//! Questions about a path or a handle: attributes, sizes, names.

use crate::bytes;
use crate::fuse_client::Attr;
use crate::fuse_client::RingStatus;
use crate::fuse_synth;
use crate::fuse_synth::FuseTable;
use crate::hook::tables;
use crate::hook::tables::HandleTables;
use crate::hookstats;
use crate::hookstats::Stats;
use crate::ntdef;
use crate::ntdef::FileBasicInformation;
use crate::ntdef::FileFsDeviceInformation;
use crate::ntdef::FileNetworkOpenInformation;
use crate::ntdef::FileStandardInformation;
use crate::overlay;
use crate::overlay::OverlayState;
use crate::paths;
use crate::text;
use vstd::prelude::*;
use vstd::string::*;

verus! {

/// The time that every served file reports: the first of January 2024, in units of 100 ns since
/// 1601. It is the same in every run and never in the future.
pub const SYNTH_FILETIME: i64 = 133485408000000000;

// ---------------------------------------------------------------------------------------
// Information blocks.

/// The times and attributes of a served file.
pub open spec fn basic_of(is_dir: bool) -> FileBasicInformation {
    FileBasicInformation {
        creation_time: SYNTH_FILETIME,
        last_access_time: SYNTH_FILETIME,
        last_write_time: SYNTH_FILETIME,
        change_time: SYNTH_FILETIME,
        file_attributes: ntdef::attributes_of(is_dir),
        reserved: 0,
    }
}

/// The times, sizes and attributes of a served file.
pub open spec fn network_of(is_dir: bool, size: u64) -> FileNetworkOpenInformation {
    FileNetworkOpenInformation {
        creation_time: SYNTH_FILETIME,
        last_access_time: SYNTH_FILETIME,
        last_write_time: SYNTH_FILETIME,
        change_time: SYNTH_FILETIME,
        allocation_size: size as i64,
        end_of_file: size as i64,
        file_attributes: ntdef::attributes_of(is_dir),
        reserved: 0,
    }
}

/// The sizes of a served file.
pub open spec fn standard_of(is_dir: bool, size: u64) -> FileStandardInformation {
    FileStandardInformation {
        allocation_size: size as i64,
        end_of_file: size as i64,
        number_of_links: 1,
        delete_pending: 0,
        directory: if is_dir {
            1
        } else {
            0
        },
        pad: 0,
    }
}

/// [`basic_of`].
pub fn basic_information(is_dir: bool) -> (r: FileBasicInformation)
    ensures
        r == basic_of(is_dir),
{
    FileBasicInformation {
        creation_time: SYNTH_FILETIME,
        last_access_time: SYNTH_FILETIME,
        last_write_time: SYNTH_FILETIME,
        change_time: SYNTH_FILETIME,
        file_attributes: ntdef::file_attributes(is_dir),
        reserved: 0,
    }
}

/// [`network_of`].
pub fn network_information(is_dir: bool, size: u64) -> (r: FileNetworkOpenInformation)
    ensures
        r == network_of(is_dir, size),
{
    FileNetworkOpenInformation {
        creation_time: SYNTH_FILETIME,
        last_access_time: SYNTH_FILETIME,
        last_write_time: SYNTH_FILETIME,
        change_time: SYNTH_FILETIME,
        allocation_size: size as i64,
        end_of_file: size as i64,
        file_attributes: ntdef::file_attributes(is_dir),
        reserved: 0,
    }
}

/// What an attribute query writes: the times and the attributes. The four bytes behind them are
/// the caller's.
pub fn attributes_block(is_dir: bool) -> (r: Vec<u8>)
    ensures
        r@ == basic_of(is_dir).layout().take(36),
        r@.len() == 36,
{
    let mut b = basic_information(is_dir).to_bytes();
    b.truncate(36);
    assert(b@ =~= basic_of(is_dir).layout().take(36));
    b
}

/// What a full attribute query writes: the times, the sizes and the attributes. The four bytes
/// behind them are the caller's.
pub fn full_attributes_block(is_dir: bool, size: u64) -> (r: Vec<u8>)
    ensures
        r@ == network_of(is_dir, size).layout().take(52),
        r@.len() == 52,
{
    let mut b = network_information(is_dir, size).to_bytes();
    b.truncate(52);
    assert(b@ =~= network_of(is_dir, size).layout().take(52));
    b
}

/// [`standard_of`].
pub fn standard_information(is_dir: bool, size: u64) -> (r: FileStandardInformation)
    ensures
        r == standard_of(is_dir, size),
{
    FileStandardInformation {
        allocation_size: size as i64,
        end_of_file: size as i64,
        number_of_links: 1,
        delete_pending: 0,
        directory: if is_dir {
            1
        } else {
            0
        },
        pad: 0,
    }
}

/// The four times of a served file.
pub open spec fn times() -> Seq<u8> {
    let t = ntdef::le64s(SYNTH_FILETIME);
    t + t + t + t
}

/// The part that both stat blocks begin with: no number, the times, the sizes, the attributes,
/// no reparse tag, one link.
pub open spec fn stat_of(is_dir: bool, size: u64) -> Seq<u8> {
    bytes::zeros(8) + times() + bytes::le64(size) + bytes::le64(size) + bytes::le32(
        ntdef::attributes_of(is_dir),
    ) + bytes::zeros(4) + bytes::le32(1)
}

/// What a query by name writes for each class; `None` for a class that is not answered.
pub open spec fn by_name(class: u32, is_dir: bool, size: u64) -> Option<Seq<u8>> {
    if class == ntdef::FILE_BASIC_INFORMATION {
        Some(basic_of(is_dir).layout())
    } else if class == ntdef::FILE_STANDARD_INFORMATION {
        Some(standard_of(is_dir, size).layout())
    } else if class == ntdef::FILE_NETWORK_OPEN_INFORMATION {
        Some(network_of(is_dir, size).layout())
    } else if class == ntdef::FILE_STAT_INFORMATION {
        Some(stat_of(is_dir, size) + bytes::zeros(4))
    } else if class == ntdef::FILE_STAT_BASIC_INFORMATION {
        Some(stat_of(is_dir, size) + bytes::zeros(36))
    } else {
        None
    }
}

/// `buf` with `block` at its beginning.
pub open spec fn overwritten(buf: Seq<u8>, block: Seq<u8>) -> Seq<u8> {
    block + buf.skip(block.len() as int)
}

/// [`overwritten`].
fn write_block(buf: &mut [u8], block: &[u8])
    requires
        block@.len() <= old(buf)@.len(),
    ensures
        final(buf)@ == overwritten(old(buf)@, block@),
{
    let ghost before = buf@;
    let n: usize = block.len();
    let mut i: usize = 0;
    while i < n
        invariant
            i <= n == block@.len(),
            n <= before.len(),
            buf@.len() == before.len(),
            forall|k: int| 0 <= k < i ==> buf@[k] == block@[k],
            forall|k: int| i <= k < before.len() ==> buf@[k] == before[k],
        decreases n - i,
    {
        buf[i] = block[i];
        i = i + 1;
    }
    assert(buf@ =~= overwritten(before, block@));
}

/// The bytes of the four times.
fn push_times(out: &mut Vec<u8>)
    ensures
        final(out)@ == old(out)@ + times(),
{
    let ghost start = out@;
    ntdef::push_i64(out, SYNTH_FILETIME);
    ntdef::push_i64(out, SYNTH_FILETIME);
    ntdef::push_i64(out, SYNTH_FILETIME);
    ntdef::push_i64(out, SYNTH_FILETIME);
    assert(out@ =~= start + times());
}

/// [`stat_of`].
fn stat_block(is_dir: bool, size: u64) -> (out: Vec<u8>)
    ensures
        out@ == stat_of(is_dir, size),
        out@.len() == 68,
{
    broadcast use {bytes::lemma_le32, bytes::lemma_le64};

    let mut out: Vec<u8> = Vec::new();
    bytes::push_zeros(&mut out, 8);
    push_times(&mut out);
    bytes::push_u64(&mut out, size);
    bytes::push_u64(&mut out, size);
    bytes::push_u32(&mut out, ntdef::file_attributes(is_dir));
    bytes::push_zeros(&mut out, 4);
    bytes::push_u32(&mut out, 1);
    assert(out@ =~= stat_of(is_dir, size));
    out
}

/// [`by_name`].
fn name_block(class: u32, is_dir: bool, size: u64) -> (r: Option<Vec<u8>>)
    ensures
        match r {
            Some(b) => by_name(class, is_dir, size) == Some(b@),
            None => by_name(class, is_dir, size) is None,
        },
        r matches Some(b) ==> b@.len() == (if class == 4 {
            40int
        } else if class == 5 {
            24
        } else if class == 34 {
            56
        } else if class == 68 {
            72
        } else {
            104
        }),
{
    match class {
        ntdef::FILE_BASIC_INFORMATION => Some(basic_information(is_dir).to_bytes()),
        ntdef::FILE_STANDARD_INFORMATION => Some(standard_information(is_dir, size).to_bytes()),
        ntdef::FILE_NETWORK_OPEN_INFORMATION => Some(network_information(is_dir, size).to_bytes()),
        ntdef::FILE_STAT_INFORMATION => {
            let mut b = stat_block(is_dir, size);
            bytes::push_zeros(&mut b, 4);
            Some(b)
        },
        ntdef::FILE_STAT_BASIC_INFORMATION => {
            let mut b = stat_block(is_dir, size);
            bytes::push_zeros(&mut b, 36);
            Some(b)
        },
        _ => None,
    }
}

/// Answers a query by name into `buf`, and says how many bytes it wrote. A class that is not
/// answered, or a buffer that is too short, leaves `buf` as it is.
pub fn fill_by_name(class: u32, buf: &mut [u8], is_dir: bool, size: u64) -> (r: Option<usize>)
    ensures
        match by_name(class, is_dir, size) {
            Some(block) => if block.len() <= old(buf)@.len() {
                r == Some(block.len() as usize) && final(buf)@ == overwritten(old(buf)@, block)
            } else {
                r is None && final(buf)@ == old(buf)@
            },
            None => r is None && final(buf)@ == old(buf)@,
        },
{
    match name_block(class, is_dir, size) {
        None => None,
        Some(block) => {
            let n: usize = block.len();
            if buf.len() < n {
                return None;
            }
            write_block(buf, block.as_slice());
            Some(n)
        },
    }
}

/// Whether a query by name can be answered into a buffer of `length` bytes.
pub fn can_fill(class: u32, length: usize) -> (r: bool)
    ensures
        r == (by_name(class, true, 0) matches Some(b) && b.len() <= length),
{
    match name_block(class, true, 0) {
        None => false,
        Some(block) => block.len() <= length,
    }
}

/// How many bytes a query by name writes depends on its class alone, and they are the
/// documented ones; the size stands where the class defines it, and a directory is told from a
/// file in each.
pub proof fn law_by_name_layouts(is_dir: bool, size: u64)
    ensures
        by_name(4, is_dir, size)->0.len() == 40,
        by_name(5, is_dir, size)->0.len() == 24,
        by_name(34, is_dir, size)->0.len() == 56,
        by_name(68, is_dir, size)->0.len() == 72,
        by_name(77, is_dir, size)->0.len() == 104,
        bytes::u32_in(by_name(4, is_dir, size)->0, 32) == ntdef::attributes_of(is_dir),
        bytes::u64_in(by_name(5, is_dir, size)->0, 0) == size,
        bytes::u64_in(by_name(5, is_dir, size)->0, 8) == size,
        by_name(5, is_dir, size)->0[21] == (if is_dir {
            1u8
        } else {
            0u8
        }),
        bytes::u64_in(by_name(34, is_dir, size)->0, 32) == size,
        bytes::u64_in(by_name(34, is_dir, size)->0, 40) == size,
        bytes::u32_in(by_name(34, is_dir, size)->0, 48) == ntdef::attributes_of(is_dir),
        bytes::u64_in(by_name(68, is_dir, size)->0, 40) == size,
        bytes::u64_in(by_name(68, is_dir, size)->0, 48) == size,
        bytes::u32_in(by_name(68, is_dir, size)->0, 56) == ntdef::attributes_of(is_dir),
        bytes::u64_in(by_name(77, is_dir, size)->0, 40) == size,
        bytes::u64_in(by_name(77, is_dir, size)->0, 48) == size,
        bytes::u32_in(by_name(77, is_dir, size)->0, 56) == ntdef::attributes_of(is_dir),
{
    broadcast use {bytes::lemma_le16, bytes::lemma_le32, bytes::lemma_le64};

    assert((size as i64) as u64 == size) by (bit_vector);
    let a = bytes::le32(ntdef::attributes_of(is_dir));
    let z = bytes::le64(size);
    let b4 = by_name(4, is_dir, size)->0;
    let b5 = by_name(5, is_dir, size)->0;
    let b34 = by_name(34, is_dir, size)->0;
    let b68 = by_name(68, is_dir, size)->0;
    let b77 = by_name(77, is_dir, size)->0;
    assert(b4.subrange(32, 36) =~= a);
    assert(b5.subrange(0, 8) =~= z);
    assert(b5.subrange(8, 16) =~= z);
    assert(b34.subrange(32, 40) =~= z);
    assert(b34.subrange(40, 48) =~= z);
    assert(b34.subrange(48, 52) =~= a);
    assert(b68.subrange(40, 48) =~= z);
    assert(b68.subrange(48, 56) =~= z);
    assert(b68.subrange(56, 60) =~= a);
    assert(b77.subrange(40, 48) =~= z);
    assert(b77.subrange(48, 56) =~= z);
    assert(b77.subrange(56, 60) =~= a);
}

// ---------------------------------------------------------------------------------------
// Attributes by path.

/// The director's answer about a path: directory flag, size and time, or its status.
pub open spec fn path_attr(r: Result<Attr, RingStatus>) -> Result<(bool, u64, i64), RingStatus> {
    match r {
        Ok(a) => if a.found {
            Ok((a.is_dir, a.size, a.mtime))
        } else {
            Err(RingStatus::NotFound)
        },
        Err(status) => Err(status),
    }
}

/// [`path_attr`].
pub fn fuse_path_attr(r: Result<Attr, RingStatus>) -> (out: Result<(bool, u64, i64), RingStatus>)
    ensures
        out == path_attr(r),
{
    match r {
        Ok(a) => if a.found {
            Ok((a.is_dir, a.size, a.mtime))
        } else {
            Err(RingStatus::NotFound)
        },
        Err(status) => Err(status),
    }
}

/// What becomes of a question about a path.
#[derive(Clone, Copy, Debug, PartialEq, Eq, Structural)]
pub enum AttrStep {
    /// Answer it: whether it is a directory, and its size.
    Answer(bool, u64),
    /// Fail the call.
    Fail(i32),
    /// Hand the call to the system.
    Real,
}

/// What the overlay makes of a question.
pub open spec fn overlay_attr(state: Option<overlay::OverlayView>, can_answer: bool) -> AttrStep {
    match state {
        Some(overlay::OverlayView::Present { path, is_dir, size }) => if can_answer {
            AttrStep::Answer(is_dir, size)
        } else {
            AttrStep::Real
        },
        Some(overlay::OverlayView::Whiteout) => AttrStep::Fail(ntdef::STATUS_OBJECT_NAME_NOT_FOUND),
        _ => AttrStep::Real,
    }
}

/// What becomes of a question about a path: the director answers for what it places under a
/// root, and where it does not, or its answer cannot be written, the overlay. What nothing
/// serves under a root is missing, unless falling through is switched on.
pub open spec fn attr_step(
    director: Option<Result<(bool, u64, i64), RingStatus>>,
    allow_disk_fallthrough: bool,
    state: Option<overlay::OverlayView>,
    can_answer: bool,
) -> AttrStep {
    match director {
        Some(Ok((is_dir, size, mtime))) => if can_answer {
            AttrStep::Answer(is_dir, size)
        } else {
            overlay_attr(state, can_answer)
        },
        Some(Err(status)) => if status != RingStatus::NotFound {
            AttrStep::Fail(ntdef::STATUS_UNSUCCESSFUL)
        } else if allow_disk_fallthrough {
            overlay_attr(state, can_answer)
        } else {
            AttrStep::Fail(ntdef::STATUS_OBJECT_NAME_NOT_FOUND)
        },
        None => overlay_attr(state, can_answer),
    }
}

/// The view of what the overlay says.
pub open spec fn state_view(state: Option<OverlayState>) -> Option<overlay::OverlayView> {
    match state {
        Some(s) => Some(s@),
        None => None,
    }
}

/// [`attr_step`].
fn answer_attr(
    director: Option<Result<(bool, u64, i64), RingStatus>>,
    allow_disk_fallthrough: bool,
    state: Option<OverlayState>,
    can_answer: bool,
) -> (r: AttrStep)
    ensures
        r == attr_step(director, allow_disk_fallthrough, state_view(state), can_answer),
{
    match director {
        Some(Ok((is_dir, size, _))) => {
            if can_answer {
                return AttrStep::Answer(is_dir, size);
            }
        },
        Some(Err(status)) => {
            if status != RingStatus::NotFound {
                return AttrStep::Fail(ntdef::STATUS_UNSUCCESSFUL);
            }
            if !allow_disk_fallthrough {
                return AttrStep::Fail(ntdef::STATUS_OBJECT_NAME_NOT_FOUND);
            }
        },
        None => {},
    }
    match state {
        Some(OverlayState::Present { is_dir, size, .. }) => if can_answer {
            AttrStep::Answer(is_dir, size)
        } else {
            AttrStep::Real
        },
        Some(OverlayState::Whiteout) => AttrStep::Fail(ntdef::STATUS_OBJECT_NAME_NOT_FOUND),
        _ => AttrStep::Real,
    }
}

/// With the switch off, which is the default, a question about a path that the director places
/// under a root is never answered with what stands on disk beneath that root.
pub proof fn law_under_root_questions_are_sealed(
    director: Result<(bool, u64, i64), RingStatus>,
    state: Option<overlay::OverlayView>,
)
    ensures
        attr_step(Some(director), false, state, true) !is Real,
        director == Err::<(bool, u64, i64), RingStatus>(RingStatus::NotFound) ==> attr_step(
            Some(director),
            false,
            state,
            true,
        ) == AttrStep::Fail(ntdef::STATUS_OBJECT_NAME_NOT_FOUND),
{
}

/// The counters after an attribute query.
pub open spec fn stat_counted(
    c: hookstats::SnapshotView,
    path: Seq<char>,
    outcome: Seq<char>,
) -> hookstats::SnapshotView {
    hookstats::SnapshotView {
        trace: hookstats::traced(c.trace, "stat"@, path, outcome),
        stats: crate::tally::bumped(
            c.stats,
            hookstats::stat_key(path, outcome),
            hookstats::STATS_MAX as int,
        ),
        ..c
    }
}

/// How an attribute query is recorded.
pub open spec fn attr_label(director: Option<Result<(bool, u64, i64), RingStatus>>) -> Seq<char> {
    match director {
        None => "outside-root"@,
        Some(Ok(_)) => "found"@,
        Some(Err(status)) => if status == RingStatus::NotFound {
            "NOT-FOUND"@
        } else {
            "ERROR"@
        },
    }
}

/// Answers an attribute query of a decoded path, with what the director says of it, where it
/// places it under a root, and what the overlay says. Both attribute queries decide alike; they
/// differ in the block that an answer fills.
pub fn qattr_hook(
    s: &mut Stats,
    path: &str,
    director: Option<Result<(bool, u64, i64), RingStatus>>,
    allow_disk_fallthrough: bool,
    state: Option<OverlayState>,
) -> (r: AttrStep)
    requires
        old(s).wf(),
    ensures
        final(s).wf(),
        r == attr_step(director, allow_disk_fallthrough, state_view(state), true),
        final(s)@ == hookstats::counted(
            old(s)@,
            stat_counted(old(s)@.counts, path@, attr_label(director)),
        ),
{
    let label = match &director {
        None => "outside-root",
        Some(Ok(_)) => "found",
        Some(Err(status)) => if *status == RingStatus::NotFound {
            "NOT-FOUND"
        } else {
            "ERROR"
        },
    };
    hookstats::note_stat(s, path, label);
    answer_attr(director, allow_disk_fallthrough, state, true)
}

/// The record of a query by name, where it leaves one.
pub open spec fn by_name_label(
    class: u32,
    director: Option<Result<(bool, u64, i64), RingStatus>>,
    can_answer: bool,
) -> Option<Seq<char>> {
    let head = "byname"@ + text::decimal(class as nat);
    match director {
        None => Some(head + "-outside"@),
        Some(Ok(_)) => if can_answer {
            Some(head + "-ok"@)
        } else {
            Some(head + "-UNSUP"@)
        },
        Some(Err(status)) => if status == RingStatus::NotFound {
            Some(head + "-missing"@)
        } else {
            None
        },
    }
}

/// Answers a query by name of a decoded path into `buf`. The second result is how many bytes
/// were written, where it was answered.
pub fn qibn_hook(
    s: &mut Stats,
    path: &str,
    class: u32,
    buf: &mut [u8],
    director: Option<Result<(bool, u64, i64), RingStatus>>,
    allow_disk_fallthrough: bool,
    state: Option<OverlayState>,
) -> (r: (AttrStep, usize))
    requires
        old(s).wf(),
    ensures
        final(s).wf(),
        ({
            let fits = by_name(class, true, 0) matches Some(b) && b.len() <= old(buf)@.len();
            let step = attr_step(director, allow_disk_fallthrough, state_view(state), fits);
            &&& r.0 == step
            &&& match step {
                AttrStep::Answer(is_dir, size) => final(buf)@ == overwritten(
                    old(buf)@,
                    by_name(class, is_dir, size)->0,
                ) && r.1 == by_name(class, is_dir, size)->0.len(),
                _ => final(buf)@ == old(buf)@ && r.1 == 0,
            }
            &&& final(s)@ == match by_name_label(class, director, fits) {
                Some(label) => hookstats::counted(
                    old(s)@,
                    stat_counted(old(s)@.counts, path@, label),
                ),
                None => old(s)@,
            }
        }),
{
    let fits = can_fill(class, buf.len());
    let suffix = match &director {
        None => Some("-outside"),
        Some(Ok(_)) => if fits {
            Some("-ok")
        } else {
            Some("-UNSUP")
        },
        Some(Err(status)) => if *status == RingStatus::NotFound {
            Some("-missing")
        } else {
            None
        },
    };
    if let Some(tail) = suffix {
        let mut label = "byname".to_owned();
        text::push_decimal(&mut label, class as u128);
        label.append(tail);
        hookstats::note_stat(s, path, label.as_str());
    }
    let step = answer_attr(director, allow_disk_fallthrough, state, fits);
    if let AttrStep::Answer(is_dir, size) = step {
        proof {
            law_by_name_layouts(is_dir, size);
            law_by_name_layouts(true, 0);
        }
        let n = fill_by_name(class, buf, is_dir, size);
        return (
            step,
            match n {
                Some(k) => k,
                None => 0,
            },
        );
    }
    (step, 0)
}

// ---------------------------------------------------------------------------------------
// Questions about a handle.

/// A status, and the information of the completed call where it is written.
#[derive(Clone, Copy, Debug, PartialEq, Eq, Structural)]
pub struct QueryAnswer {
    pub status: i32,
    pub information: Option<u64>,
}

/// A successful answer of `n` bytes.
pub open spec fn answered(n: int) -> QueryAnswer {
    QueryAnswer { status: ntdef::STATUS_SUCCESS, information: Some(n as u64) }
}

/// A failure.
pub open spec fn failed(status: i32) -> QueryAnswer {
    QueryAnswer { status, information: None }
}

/// The prefix of everything that is known of a handle: times and attributes, sizes, number,
/// no extended attributes, no access, position, no mode, no alignment, no name.
pub open spec fn all_of(handle: u64, is_dir: bool, size: u64, position: u64) -> Seq<u8> {
    basic_of(is_dir).layout() + standard_of(is_dir, size).layout() + bytes::le64(handle)
        + bytes::zeros(8) + bytes::le64(position) + bytes::zeros(12)
}

/// What a query of a synthetic handle writes for each class; `None` for a class that is
/// answered with nothing. Of the network block the four bytes behind the attributes are left to
/// the caller.
pub open spec fn by_handle(
    class: u32,
    handle: u64,
    is_dir: bool,
    size: u64,
    position: u64,
) -> Option<Seq<u8>> {
    if class == ntdef::FILE_BASIC_INFORMATION {
        Some(basic_of(is_dir).layout())
    } else if class == ntdef::FILE_STANDARD_INFORMATION {
        Some(standard_of(is_dir, size).layout())
    } else if class == ntdef::FILE_INTERNAL_INFORMATION {
        Some(bytes::le64(handle))
    } else if class == ntdef::FILE_POSITION_INFORMATION {
        Some(bytes::le64(position))
    } else if class == ntdef::FILE_NETWORK_OPEN_INFORMATION {
        Some(network_of(is_dir, size).layout().take(52))
    } else if class == ntdef::FILE_ALL_INFORMATION {
        Some(all_of(handle, is_dir, size, position))
    } else {
        None
    }
}

/// The length of the structure of a class, of which `block` is what is written: that of the
/// network block counts the bytes that are left as they are.
pub open spec fn room_by_handle(class: u32, block: Seq<u8>) -> int {
    if class == ntdef::FILE_NETWORK_OPEN_INFORMATION {
        56
    } else {
        block.len() as int
    }
}

/// [`by_handle`].
fn handle_block(class: u32, handle: u64, is_dir: bool, size: u64, position: u64) -> (r: Option<
    Vec<u8>,
>)
    ensures
        match r {
            Some(b) => by_handle(class, handle, is_dir, size, position) == Some(b@),
            None => by_handle(class, handle, is_dir, size, position) is None,
        },
        r matches Some(b) ==> b@.len() <= room_by_handle(class, b@) <= 100,
{
    broadcast use bytes::lemma_le64;

    match class {
        ntdef::FILE_BASIC_INFORMATION => Some(basic_information(is_dir).to_bytes()),
        ntdef::FILE_STANDARD_INFORMATION => Some(standard_information(is_dir, size).to_bytes()),
        ntdef::FILE_INTERNAL_INFORMATION => {
            let mut b: Vec<u8> = Vec::new();
            bytes::push_u64(&mut b, handle);
            assert(b@ =~= bytes::le64(handle));
            Some(b)
        },
        ntdef::FILE_POSITION_INFORMATION => {
            let mut b: Vec<u8> = Vec::new();
            bytes::push_u64(&mut b, position);
            assert(b@ =~= bytes::le64(position));
            Some(b)
        },
        ntdef::FILE_NETWORK_OPEN_INFORMATION => Some(full_attributes_block(is_dir, size)),
        ntdef::FILE_ALL_INFORMATION => {
            let mut b = basic_information(is_dir).to_bytes();
            bytes::push_bytes(&mut b, standard_information(is_dir, size).to_bytes().as_slice());
            bytes::push_u64(&mut b, handle);
            bytes::push_zeros(&mut b, 8);
            bytes::push_u64(&mut b, position);
            bytes::push_zeros(&mut b, 12);
            Some(b)
        },
        _ => None,
    }
}

/// Answers a query of a synthetic handle into `buf`; `present` says whether the caller gave a
/// buffer at all. A handle that is not open is invalid, a buffer that is too short overflows,
/// and a class that is not known is answered with nothing.
pub fn fuse_query_information(
    t: &FuseTable,
    handle: u64,
    class: u32,
    present: bool,
    buf: &mut [u8],
) -> (r: QueryAnswer)
    ensures
        ({
            let e = t.opens()[handle];
            if !t.opens().contains_key(handle) {
                r == failed(ntdef::STATUS_INVALID_HANDLE) && final(buf)@ == old(buf)@
            } else if !present {
                r == failed(ntdef::STATUS_UNSUCCESSFUL) && final(buf)@ == old(buf)@
            } else {
                match by_handle(class, handle, e.is_dir, e.size, e.position) {
                    Some(block) => if room_by_handle(class, block) <= old(buf)@.len() {
                        r == answered(room_by_handle(class, block)) && final(buf)@ == overwritten(
                            old(buf)@,
                            block,
                        )
                    } else {
                        r == failed(ntdef::STATUS_BUFFER_OVERFLOW) && final(buf)@ == old(buf)@
                    },
                    None => r == answered(0) && final(buf)@ == old(buf)@,
                }
            }
        }),
{
    let (_, size, is_dir, position, _) = match fuse_synth::lookup(t, handle) {
        Some(e) => e,
        None => {
            return QueryAnswer { status: ntdef::STATUS_INVALID_HANDLE, information: None };
        },
    };
    if !present {
        return QueryAnswer { status: ntdef::STATUS_UNSUCCESSFUL, information: None };
    }
    match handle_block(class, handle, is_dir, size, position) {
        None => QueryAnswer { status: ntdef::STATUS_SUCCESS, information: Some(0) },
        Some(block) => {
            let room: usize = if class == ntdef::FILE_NETWORK_OPEN_INFORMATION {
                56
            } else {
                block.len()
            };
            if buf.len() < room {
                return QueryAnswer { status: ntdef::STATUS_BUFFER_OVERFLOW, information: None };
            }
            write_block(buf, block.as_slice());
            QueryAnswer { status: ntdef::STATUS_SUCCESS, information: Some(room as u64) }
        },
    }
}

/// A query by handle of the network block answers what one by name does, but for the four bytes
/// behind the attributes: by name they are cleared, by handle they stay as they were.
pub proof fn law_network_block_by_handle(
    buf: Seq<u8>,
    handle: u64,
    is_dir: bool,
    size: u64,
    position: u64,
)
    requires
        buf.len() >= 56,
    ensures
        ({
            let class = ntdef::FILE_NETWORK_OPEN_INFORMATION;
            let named = overwritten(buf, by_name(class, is_dir, size)->0);
            let held = overwritten(buf, by_handle(class, handle, is_dir, size, position)->0);
            &&& held.len() == buf.len()
            &&& held.take(52) == named.take(52)
            &&& held.skip(56) == named.skip(56)
            &&& held.subrange(52, 56) == buf.subrange(52, 56)
            &&& named.subrange(52, 56) == bytes::le32(0)
        }),
{
    broadcast use {bytes::lemma_le32, bytes::lemma_le64};

    let class = ntdef::FILE_NETWORK_OPEN_INFORMATION;
    let block = by_name(class, is_dir, size)->0;
    let named = overwritten(buf, block);
    let held = overwritten(buf, by_handle(class, handle, is_dir, size, position)->0);
    assert(block.len() == 56);
    assert(held.take(52) =~= named.take(52));
    assert(held.skip(56) =~= named.skip(56));
    assert(held.subrange(52, 56) =~= buf.subrange(52, 56));
    assert(block.subrange(52, 56) =~= bytes::le32(0));
    assert(named.subrange(52, 56) =~= block.subrange(52, 56));
}

/// Answers a volume query of a synthetic handle into `buf`, which is empty where the caller gave
/// no buffer: its device is a disk, and any other class reads as zeros, of the length `length`
/// that the caller said. `None` for a handle that is not synthetic.
pub fn qvol_hook(handle: u64, class: u32, length: u32, buf: &mut [u8]) -> (r: Option<QueryAnswer>)
    ensures
        ({
            let device = FileFsDeviceInformation {
                device_type: ntdef::FILE_DEVICE_DISK,
                characteristics: 0,
            };
            if !fuse_synth::tagged(handle) {
                r is None && final(buf)@ == old(buf)@
            } else if class == ntdef::FILE_FS_DEVICE_INFORMATION {
                if old(buf)@.len() < 8 {
                    r == Some(failed(ntdef::STATUS_BUFFER_OVERFLOW)) && final(buf)@ == old(buf)@
                } else {
                    r == Some(answered(8)) && final(buf)@ == overwritten(
                        old(buf)@,
                        device.layout(),
                    )
                }
            } else {
                r == Some(answered(length as int)) && final(buf)@ == bytes::zeros(
                    old(buf)@.len(),
                )
            }
        }),
{
    if !fuse_synth::is_fuse_synth(handle) {
        return None;
    }
    if class == ntdef::FILE_FS_DEVICE_INFORMATION {
        if buf.len() < 8 {
            return Some(
                QueryAnswer { status: ntdef::STATUS_BUFFER_OVERFLOW, information: None },
            );
        }
        let device = FileFsDeviceInformation {
            device_type: ntdef::FILE_DEVICE_DISK,
            characteristics: 0,
        };
        write_block(buf, device.to_bytes().as_slice());
        return Some(QueryAnswer { status: ntdef::STATUS_SUCCESS, information: Some(8) });
    }
    let n: usize = buf.len();
    let ghost before = buf@;
    let mut i: usize = 0;
    while i < n
        invariant
            i <= n == before.len(),
            buf@.len() == n,
            forall|k: int| 0 <= k < i ==> buf@[k] == 0u8,
        decreases n - i,
    {
        buf[i] = 0;
        i = i + 1;
    }
    assert(buf@ =~= bytes::zeros(before.len()));
    Some(QueryAnswer { status: ntdef::STATUS_SUCCESS, information: Some(length as u64) })
}

/// What becomes of a query of a handle.
pub enum QifStep {
    /// Answer it from the table of synthetic handles.
    Synthetic,
    /// Answer it with this virtual path.
    Name(String),
    /// Hand the call to the system.
    Real,
}

/// What becomes of a query of a handle: a synthetic one is answered by the shim, the name of a
/// redirected one is the virtual path, by either name class, and everything else is the
/// system's.
pub fn qif_hook(t: &HandleTables, handle: u64, class: u32, present: bool) -> (r: QifStep)
    ensures
        if fuse_synth::tagged(handle) {
            r is Synthetic
        } else if (class == ntdef::FILE_NORMALIZED_NAME_INFORMATION || class
            == ntdef::FILE_NAME_INFORMATION) && present && t@.identities.contains_key(handle) {
            r matches QifStep::Name(p) && p@ == t@.identities[handle]
        } else {
            r is Real
        },
{
    if fuse_synth::is_fuse_synth(handle) {
        return QifStep::Synthetic;
    }
    if (class == ntdef::FILE_NORMALIZED_NAME_INFORMATION || class == ntdef::FILE_NAME_INFORMATION)
        && present {
        if let Some(p) = tables::identity_of(t, handle) {
            return QifStep::Name(p);
        }
    }
    QifStep::Real
}

/// The status of a name that was written, in full or cut.
pub fn name_status(whole: bool) -> (r: i32)
    ensures
        r == (if whole {
            ntdef::STATUS_SUCCESS
        } else {
            ntdef::STATUS_BUFFER_OVERFLOW
        }),
{
    if whole {
        ntdef::STATUS_SUCCESS
    } else {
        ntdef::STATUS_BUFFER_OVERFLOW
    }
}

// ---------------------------------------------------------------------------------------
// Object names.

/// Whether `dos` is a drive, alone or with a rooted path behind it.
pub open spec fn is_drive_path(dos: Seq<char>) -> bool {
    &&& dos.len() >= 2
    &&& ('a' <= dos[0] <= 'z' || 'A' <= dos[0] <= 'Z')
    &&& dos[1] == ':'
    &&& dos.len() > 2 ==> dos[2] == '\\'
}

/// How the name of a redirected handle is built.
pub enum NamePlan {
    /// It is not: the system's own answer stands.
    Decline,
    /// The NT prefix and this path.
    Dos(Seq<char>),
    /// The device of this drive, and this path on it.
    Device(Seq<char>, Seq<char>),
}

/// How the name of a redirected handle is built: the virtual path, in the form that the
/// system's own answer `host` has.
pub open spec fn name_plan(host: Seq<char>, vpath: Seq<char>) -> NamePlan {
    let dos = paths::without_device(vpath);
    if !is_drive_path(dos) {
        NamePlan::Decline
    } else if paths::nt_prefix().is_prefix_of(host) {
        NamePlan::Dos(dos)
    } else if "\\Device\\"@.is_prefix_of(host) {
        NamePlan::Device(dos.take(2), dos.skip(2))
    } else {
        NamePlan::Decline
    }
}

/// Of the system's own answer only its prefix counts: two answers with the same prefix
/// convention give the same name, so that nothing else of where the file is backed shows in it.
/// One with neither convention gives none, and a drive's device is needed for one that begins
/// with a device alone.
pub proof fn law_only_the_hosts_prefix_counts(a: Seq<char>, b: Seq<char>, vpath: Seq<char>)
    ensures
        paths::nt_prefix().is_prefix_of(a) == paths::nt_prefix().is_prefix_of(b)
            && "\\Device\\"@.is_prefix_of(a) == "\\Device\\"@.is_prefix_of(b) ==> name_plan(
            a,
            vpath,
        ) == name_plan(b, vpath),
        !paths::nt_prefix().is_prefix_of(a) && !"\\Device\\"@.is_prefix_of(a) ==> name_plan(
            a,
            vpath,
        ) is Decline,
        name_plan(a, vpath) is Device ==> "\\Device\\"@.is_prefix_of(a),
        paths::nt_prefix().is_prefix_of(a) ==> !(name_plan(a, vpath) is Device),
{
}

/// How the name of a redirected handle is built, with its texts.
pub enum NameForm {
    /// It is not: the system's own answer stands.
    Decline,
    /// This name.
    Dos(String),
    /// The device of the drive `drive`, and `rest` behind it.
    Device { drive: String, rest: String },
}

/// [`name_plan`].
pub fn name_form(host: &str, vpath: &str) -> (r: NameForm)
    ensures
        match name_plan(host@, vpath@) {
            NamePlan::Decline => r is Decline,
            NamePlan::Dos(dos) => r matches NameForm::Dos(n) && n@ == paths::nt_prefix() + dos,
            NamePlan::Device(d, e) => r matches NameForm::Device { drive, rest } && drive@ == d
                && rest@ == e,
        },
{
    let dos = paths::strip_device(vpath);
    let n: usize = dos.unicode_len();
    if n < 2 {
        return NameForm::Decline;
    }
    let first = dos.get_char(0);
    if !(('a' <= first && first <= 'z') || ('A' <= first && first <= 'Z')) {
        return NameForm::Decline;
    }
    if dos.get_char(1) != ':' {
        return NameForm::Decline;
    }
    if n > 2 && dos.get_char(2) != '\\' {
        return NameForm::Decline;
    }
    if text::has_prefix(host, paths::nt_prefix_text()) {
        return NameForm::Dos(text::joined(paths::nt_prefix_text(), dos));
    }
    if text::has_prefix(host, "\\Device\\") {
        let drive = dos.substring_char(0, 2);
        let rest = dos.substring_char(2, n);
        assert(drive@ =~= dos@.take(2));
        assert(rest@ =~= dos@.skip(2));
        return NameForm::Device { drive: drive.to_owned(), rest: rest.to_owned() };
    }
    NameForm::Decline
}

/// The first terminator in `units`, or `written` where there is none.
pub open spec fn device_end(units: Seq<u16>, written: int) -> int {
    if units.contains(0) {
        units.index_of_first(0).unwrap()
    } else {
        written
    }
}

/// The device path of a drive, from the buffer that the system filled with `written` units:
/// `None` where it wrote nothing, and for an empty name.
pub fn device_for_drive(units: &[u16], written: u32) -> (r: Option<String>)
    requires
        written <= units@.len(),
    ensures
        match r {
            Some(s) => written != 0 && device_end(units@, written as int) != 0 && s@
                == text::utf16_text(units@.take(device_end(units@, written as int))),
            None => written == 0 || device_end(units@, written as int) == 0,
        },
{
    if written == 0 {
        return None;
    }
    let mut end: usize = 0;
    while end < units.len() && units[end] != 0
        invariant
            end <= units@.len(),
            forall|k: int| 0 <= k < end ==> units@[k] != 0,
        decreases units@.len() - end,
    {
        end = end + 1;
    }
    proof {
        units@.index_of_first_ensures(0);
    }
    if end == units.len() {
        assert(!units@.contains(0));
        end = written as usize;
    } else {
        assert(units@[end as int] == 0);
        let ghost first = units@.index_of_first(0).unwrap();
        assert(units@[first] == 0);
        assert(first == end);
    }
    if end == 0 {
        return None;
    }
    let name = vstd::slice::slice_subrange(units, 0, end);
    assert(name@ =~= units@.take(end as int));
    Some(text::decode_utf16(name))
}

/// The name that a redirected handle reports, in the form of the system's own answer. The
/// drive's device is asked of `device_of` only where that form needs it, of that drive alone and
/// once; where it is not known, there is no name.
pub fn spoofed_object_name(
    host: &str,
    vpath: &str,
    device_of: impl FnOnce(&str) -> Option<String>,
) -> (r: Option<String>)
    requires
        name_plan(host@, vpath@) matches NamePlan::Device(drive, _) ==> forall|d: &str|
            d@ == drive ==> #[trigger] call_requires(device_of, (d,)),
    ensures
        match name_plan(host@, vpath@) {
            NamePlan::Decline => r is None,
            NamePlan::Dos(dos) => r matches Some(n) && n@ == paths::nt_prefix() + dos,
            NamePlan::Device(drive, rest) => exists|d: &str, dev: Option<String>|
                d@ == drive && #[trigger] call_ensures(device_of, (d,), dev) && match dev {
                    Some(v) => r matches Some(n) && n@ == v@ + rest,
                    None => r is None,
                },
        },
{
    match name_form(host, vpath) {
        NameForm::Decline => None,
        NameForm::Dos(name) => Some(name),
        NameForm::Device { drive, rest } => {
            let dev = device_of(drive.as_str());
            match dev {
                Some(v) => Some(text::joined(v.as_str(), rest.as_str())),
                None => None,
            }
        },
    }
}

/// Where the name stands behind its header.
pub const NAME_AT: usize = 16;

/// Whether the system's answer did not fit and has to be asked for again with more room.
pub fn name_needs_room(status: i32, needed: u32, room: usize) -> (r: bool)
    ensures
        r == ((status == ntdef::STATUS_BUFFER_OVERFLOW || status
            == ntdef::STATUS_INFO_LENGTH_MISMATCH) && needed > room),
{
    (status == ntdef::STATUS_BUFFER_OVERFLOW || status == ntdef::STATUS_INFO_LENGTH_MISMATCH)
        && needed as usize > room
}

/// The name in the system's answer `b`; `None` where it holds none.
pub open spec fn name_in(b: Seq<u8>) -> Option<Seq<char>> {
    let n = bytes::u16_in(b, 0);
    if b.len() < 16 || n == 0 || n % 2 != 0 || 16 + n > b.len() {
        None
    } else {
        Some(text::utf16_text(bytes::units_in(b, 16, (n / 2) as nat)))
    }
}

/// [`name_in`].
pub fn object_name_in(b: &[u8]) -> (r: Option<String>)
    ensures
        text::option_text(r) == name_in(b@),
{
    let len: usize = b.len();
    if len < NAME_AT {
        return None;
    }
    let n: u16 = bytes::u16_at(b, 0);
    if n == 0 || n % 2 != 0 || len - NAME_AT < n as usize {
        return None;
    }
    let units = bytes::units_at(b, NAME_AT, (n / 2) as usize);
    Some(text::decode_utf16(units.as_slice()))
}

/// What becomes of a query for an object's name.
#[derive(Clone, Copy, Debug, PartialEq, Eq, Structural)]
pub enum NameAnswer {
    /// The status, and the length that the caller is told to have room for.
    Answered(i32, u32),
    /// Hand the call to the system.
    Real,
}

/// The bytes that a name of `units` needs, header and terminator included.
pub open spec fn name_room(units: Seq<u16>) -> int {
    (16 + 2 * units.len() + 2) as int
}

/// The buffer after a name was written into it at `address`: the two lengths, the pointer to
/// the name behind the header, the name and its terminator.
pub open spec fn name_written(buf: Seq<u8>, units: Seq<u16>, address: u64) -> Seq<u8> {
    bytes::le16((2 * units.len()) as u16) + bytes::le16((2 * units.len() + 2) as u16)
        + buf.subrange(4, 8) + bytes::le64(address.wrapping_add(16)) + bytes::units_bytes(units)
        + bytes::le16(0) + buf.skip(name_room(units))
}

/// Whether an object's name is answered by the shim: the query asks for it, and the handle's
/// path is tracked.
pub fn qobj_hook(t: &HandleTables, handle: u64, class: u32) -> (r: Option<String>)
    ensures
        text::option_text(r) == (if class == ntdef::OBJECT_NAME_INFORMATION {
            tables::path_in(t@.paths, handle)
        } else {
            None
        }),
{
    if class != ntdef::OBJECT_NAME_INFORMATION {
        return None;
    }
    tables::tracked_path(t, handle)
}

/// Answers a query for an object's name with `name` into `buf`, which stands at `address`. The
/// caller is told the room that the name needs in every case; a name that its counted form
/// cannot hold is left to the system.
pub fn answer_object_name(name: &str, buf: &mut [u8], address: u64) -> (r: NameAnswer)
    ensures
        ({
            let units = text::utf16_units(name@);
            let need = name_room(units);
            if 2 * units.len() + 2 > 65535 {
                r == NameAnswer::Real && final(buf)@ == old(buf)@
            } else if old(buf)@.len() < 16 {
                r == NameAnswer::Answered(ntdef::STATUS_INFO_LENGTH_MISMATCH, need as u32)
                    && final(buf)@ == old(buf)@
            } else if old(buf)@.len() < need {
                r == NameAnswer::Answered(ntdef::STATUS_BUFFER_OVERFLOW, need as u32)
                    && final(buf)@ == old(buf)@
            } else {
                r == NameAnswer::Answered(ntdef::STATUS_SUCCESS, need as u32) && final(buf)@
                    == name_written(old(buf)@, units, address)
            }
        }),
{
    broadcast use {bytes::lemma_le16, bytes::lemma_le64};

    let units = text::encode_utf16(name);
    if units.len() > 32766 {
        return NameAnswer::Real;
    }
    let name_bytes: usize = units.len() * 2;
    let required: usize = NAME_AT + name_bytes + 2;
    if buf.len() < NAME_AT {
        return NameAnswer::Answered(ntdef::STATUS_INFO_LENGTH_MISMATCH, required as u32);
    }
    if buf.len() < required {
        return NameAnswer::Answered(ntdef::STATUS_BUFFER_OVERFLOW, required as u32);
    }
    let mut block: Vec<u8> = Vec::new();
    bytes::push_u16(&mut block, name_bytes as u16);
    bytes::push_u16(&mut block, (name_bytes + 2) as u16);
    block.push(buf[4]);
    block.push(buf[5]);
    block.push(buf[6]);
    block.push(buf[7]);
    bytes::push_u64(&mut block, address.wrapping_add(16));
    bytes::push_units(&mut block, units.as_slice());
    bytes::push_u16(&mut block, 0);
    proof {
        bytes::lemma_units_bytes_len(units@);
    }
    let ghost before = buf@;
    assert(block@.len() == required);
    write_block(buf, block.as_slice());
    assert(buf@ =~= name_written(before, units@, address));
    NameAnswer::Answered(ntdef::STATUS_SUCCESS, required as u32)
}

/// A caller that asks for the room first and then for the name gets the name: with the room
/// that it was told, the name that was written reads back from its buffer.
pub proof fn law_object_names_read_back(buf: Seq<u8>, units: Seq<u16>, address: u64)
    requires
        0 < units.len() <= 32766,
        buf.len() >= name_room(units),
    ensures
        name_in(name_written(buf, units, address)) == Some(text::utf16_text(units)),
        name_written(buf, units, address).len() == buf.len(),
{
    broadcast use {bytes::lemma_le16, bytes::lemma_le64};

    bytes::lemma_units_bytes_len(units);
    let n = (2 * units.len()) as u16;
    let head = bytes::le16(n) + bytes::le16((2 * units.len() + 2) as u16) + buf.subrange(4, 8)
        + bytes::le64(address.wrapping_add(16));
    let tail = bytes::le16(0) + buf.skip(name_room(units));
    let b = name_written(buf, units, address);
    assert(b =~= head + bytes::units_bytes(units) + tail);
    assert(b.subrange(0, 2) =~= bytes::le16(n));
    assert(bytes::u16_in(b, 0) == n);
    bytes::lemma_units_read_back(head, units, tail);
}

// ---------------------------------------------------------------------------------------
// What a question is for.

/// What the director says of a path is what the caller gets: a directory as a directory, a file
/// as a file, with its own size, where the answer fits. A path that it does not find is missing,
/// and a director that fails fails the question.
pub proof fn law_the_directors_word_is_the_answer(
    d: bool,
    n: u64,
    m: i64,
    allow: bool,
    state: Option<overlay::OverlayView>,
    status: RingStatus,
    fits: bool,
)
    ensures
        attr_step(Some(Ok((d, n, m))), allow, state, true) == AttrStep::Answer(d, n),
        status != RingStatus::NotFound ==> attr_step(Some(Err(status)), allow, state, fits)
            == AttrStep::Fail(ntdef::STATUS_UNSUCCESSFUL),
        attr_step(Some(Err(RingStatus::NotFound)), false, state, fits) == AttrStep::Fail(
            ntdef::STATUS_OBJECT_NAME_NOT_FOUND,
        ),
{
}

/// Where the director does not speak for a path, and where it finds nothing and looking on is
/// allowed, and where its answer does not fit, the overlay is asked: what is there is answered
/// as it is, what is hidden is missing, and what it does not know is the system's.
pub proof fn law_the_overlay_speaks_behind_the_director(
    path: Seq<char>,
    d: bool,
    n: u64,
    found: (bool, u64, i64),
    allow: bool,
    fits: bool,
    state: Option<overlay::OverlayView>,
)
    ensures
        attr_step(None, allow, Some(overlay::OverlayView::Present { path, is_dir: d, size: n }), true)
            == AttrStep::Answer(d, n),
        attr_step(
            None,
            allow,
            Some(overlay::OverlayView::Present { path, is_dir: d, size: n }),
            false,
        ) == AttrStep::Real,
        attr_step(None, allow, Some(overlay::OverlayView::Whiteout), fits) == AttrStep::Fail(
            ntdef::STATUS_OBJECT_NAME_NOT_FOUND,
        ),
        attr_step(None, allow, Some(overlay::OverlayView::Absent), fits) == AttrStep::Real,
        attr_step(None, allow, None, fits) == AttrStep::Real,
        attr_step(Some(Err(RingStatus::NotFound)), true, state, fits) == attr_step(
            None,
            allow,
            state,
            fits,
        ),
        attr_step(Some(Ok(found)), allow, state, false) == attr_step(None, allow, state, false),
{
}

/// A path that the director found is described as it did; one that it looked for in vain is
/// missing, and a refusal stays what it is.
pub proof fn law_attributes_come_through(r: Result<Attr, RingStatus>)
    ensures
        r matches Ok(a) ==> (a.found ==> path_attr(r) == Ok::<(bool, u64, i64), RingStatus>(
            (a.is_dir, a.size, a.mtime),
        )),
        r matches Ok(a) ==> (!a.found ==> path_attr(r) == Err::<(bool, u64, i64), RingStatus>(
            RingStatus::NotFound,
        )),
        r matches Err(status) ==> path_attr(r) == Err::<(bool, u64, i64), RingStatus>(status),
{
}

/// A directory carries the directory's attribute and no other, a file that of a plain file; both
/// report the same times, in every block that has them.
pub proof fn law_blocks_tell_directories_from_files(
    is_dir: bool,
    size: u64,
    handle: u64,
    position: u64,
)
    ensures
        basic_of(is_dir).file_attributes == (if is_dir {
            0x10u32
        } else {
            0x80u32
        }),
        network_of(is_dir, size).file_attributes == basic_of(is_dir).file_attributes,
        standard_of(is_dir, size).directory == (if is_dir {
            1u8
        } else {
            0u8
        }),
        standard_of(is_dir, size).number_of_links == 1,
        standard_of(is_dir, size).delete_pending == 0,
        standard_of(is_dir, size).end_of_file as u64 == size,
        standard_of(is_dir, size).allocation_size as u64 == size,
        network_of(is_dir, size).end_of_file as u64 == size,
        network_of(is_dir, size).allocation_size as u64 == size,
        basic_of(is_dir).creation_time == 133485408000000000,
        basic_of(is_dir).last_access_time == 133485408000000000,
        basic_of(is_dir).last_write_time == 133485408000000000,
        basic_of(is_dir).change_time == 133485408000000000,
        network_of(is_dir, size).creation_time == 133485408000000000,
        network_of(is_dir, size).last_access_time == 133485408000000000,
        network_of(is_dir, size).last_write_time == 133485408000000000,
        network_of(is_dir, size).change_time == 133485408000000000,
{
    assert((size as i64) as u64 == size) by (bit_vector);
}

/// What a query by name holds besides sizes and attributes: the times, one link and nothing to
/// be deleted. Classes that are not answered write nothing.
pub proof fn law_by_name_times(is_dir: bool, size: u64, class: u32)
    ensures
        forall|i: int|
            0 <= i < 4 ==> bytes::u64_in(by_name(4, is_dir, size)->0, #[trigger] (8 * i))
                == 133485408000000000,
        forall|i: int|
            0 <= i < 4 ==> bytes::u64_in(by_name(34, is_dir, size)->0, #[trigger] (8 * i))
                == 133485408000000000,
        forall|i: int|
            0 <= i < 4 ==> bytes::u64_in(by_name(68, is_dir, size)->0, 8 + #[trigger] (8 * i))
                == 133485408000000000,
        forall|i: int|
            0 <= i < 4 ==> bytes::u64_in(by_name(77, is_dir, size)->0, 8 + #[trigger] (8 * i))
                == 133485408000000000,
        bytes::u32_in(by_name(5, is_dir, size)->0, 16) == 1,
        by_name(5, is_dir, size)->0[20] == 0,
        bytes::u32_in(by_name(68, is_dir, size)->0, 64) == 1,
        bytes::u32_in(by_name(77, is_dir, size)->0, 64) == 1,
        by_name(class, is_dir, size) is Some <==> class == 4 || class == 5 || class == 34 || class
            == 68 || class == 77,
{
    broadcast use {bytes::lemma_le16, bytes::lemma_le32, bytes::lemma_le64};

    let t = bytes::le64(133485408000000000u64);
    assert(ntdef::le64s(SYNTH_FILETIME) =~= t) by {
        assert((133485408000000000i64) as u64 == 133485408000000000u64) by (bit_vector);
    }
    let one = bytes::le32(1);
    let b4 = by_name(4, is_dir, size)->0;
    let b5 = by_name(5, is_dir, size)->0;
    let b34 = by_name(34, is_dir, size)->0;
    let b68 = by_name(68, is_dir, size)->0;
    let b77 = by_name(77, is_dir, size)->0;
    assert(t.len() == 8);
    assert(b5.subrange(16, 20) =~= one);
    assert(b68.subrange(64, 68) =~= one);
    assert(b77.subrange(64, 68) =~= one);
    assert forall|i: int| 0 <= i < 4 implies bytes::u64_in(b4, #[trigger] (8 * i))
        == 133485408000000000 by {
        assert(b4.subrange(8 * i, 8 * i + 8) =~= t) by {
            assert(i == 0 || i == 1 || i == 2 || i == 3);
        }
    }
    assert forall|i: int| 0 <= i < 4 implies bytes::u64_in(b34, #[trigger] (8 * i))
        == 133485408000000000 by {
        assert(b34.subrange(8 * i, 8 * i + 8) =~= t) by {
            assert(i == 0 || i == 1 || i == 2 || i == 3);
        }
    }
    assert forall|i: int| 0 <= i < 4 implies bytes::u64_in(b68, 8 + #[trigger] (8 * i))
        == 133485408000000000 by {
        assert(b68.subrange(8 + 8 * i, 8 + 8 * i + 8) =~= t) by {
            assert(i == 0 || i == 1 || i == 2 || i == 3);
        }
    }
    assert forall|i: int| 0 <= i < 4 implies bytes::u64_in(b77, 8 + #[trigger] (8 * i))
        == 133485408000000000 by {
        assert(b77.subrange(8 + 8 * i, 8 + 8 * i + 8) =~= t) by {
            assert(i == 0 || i == 1 || i == 2 || i == 3);
        }
    }
}

/// What a query through a handle writes: times and attributes, sizes, the number and the
/// position stand where their class has them, and are those of the handle; the block of
/// everything holds each of them at its own place. A class that is not known writes nothing.
pub proof fn law_by_handle_layouts(
    class: u32,
    handle: u64,
    is_dir: bool,
    size: u64,
    position: u64,
)
    ensures
        by_handle(4, handle, is_dir, size, position) == by_name(4, is_dir, size),
        by_handle(5, handle, is_dir, size, position) == by_name(5, is_dir, size),
        by_handle(6, handle, is_dir, size, position) matches Some(b) && b.len() == 8
            && bytes::u64_in(b, 0) == handle,
        by_handle(14, handle, is_dir, size, position) matches Some(b) && b.len() == 8
            && bytes::u64_in(b, 0) == position,
        by_handle(34, handle, is_dir, size, position) matches Some(b) && b.len() == 52
            && bytes::u64_in(b, 32) == size && bytes::u64_in(b, 40) == size && bytes::u32_in(b, 48)
            == (if is_dir {
            0x10u32
        } else {
            0x80u32
        }),
        by_handle(18, handle, is_dir, size, position) matches Some(b) && b.len() == 100 && Some(
            b.subrange(0, 40),
        ) == by_name(4, is_dir, size) && Some(b.subrange(40, 64)) == by_name(5, is_dir, size)
            && bytes::u64_in(b, 64) == handle && bytes::u64_in(b, 80) == position && bytes::u32_in(
            b,
            96,
        ) == 0,
        by_handle(class, handle, is_dir, size, position) is Some <==> class == 4 || class == 5
            || class == 6 || class == 14 || class == 18 || class == 34,
{
    broadcast use {bytes::lemma_le16, bytes::lemma_le32, bytes::lemma_le64};

    assert((size as i64) as u64 == size) by (bit_vector);
    let z = bytes::le64(size);
    let a = bytes::le32(if is_dir {
        0x10u32
    } else {
        0x80u32
    });
    let b6 = by_handle(6, handle, is_dir, size, position)->0;
    let b14 = by_handle(14, handle, is_dir, size, position)->0;
    let b34 = by_handle(34, handle, is_dir, size, position)->0;
    let b18 = by_handle(18, handle, is_dir, size, position)->0;
    assert(b6.subrange(0, 8) =~= bytes::le64(handle));
    assert(b14.subrange(0, 8) =~= bytes::le64(position));
    assert(b34.subrange(32, 40) =~= z);
    assert(b34.subrange(40, 48) =~= z);
    assert(b34.subrange(48, 52) =~= a);
    assert(b18.subrange(0, 40) =~= by_name(4, is_dir, size)->0);
    assert(b18.subrange(40, 64) =~= by_name(5, is_dir, size)->0);
    assert(b18.subrange(64, 72) =~= bytes::le64(handle));
    assert(b18.subrange(80, 88) =~= bytes::le64(position));
    assert(b18.subrange(96, 100) =~= bytes::zeros(4));
    assert(b18[96] == 0 && b18[97] == 0 && b18[98] == 0 && b18[99] == 0);
    assert(0u32 | (0u32 << 8) | (0u32 << 16) | (0u32 << 24) == 0) by (bit_vector);
}

/// Writing a block changes the buffer's first bytes and nothing behind them.
pub proof fn law_blocks_end_where_they_end(buf: Seq<u8>, block: Seq<u8>)
    requires
        block.len() <= buf.len(),
    ensures
        overwritten(buf, block).len() == buf.len(),
        overwritten(buf, block).take(block.len() as int) == block,
        overwritten(buf, block).skip(block.len() as int) == buf.skip(block.len() as int),
{
    assert(overwritten(buf, block).take(block.len() as int) =~= block);
    assert(overwritten(buf, block).skip(block.len() as int) =~= buf.skip(block.len() as int));
}

/// The spoofed name of a file on a drive is that file's own: behind the NT prefix its path
/// stands in full, and behind the drive's device what follows the drive. A path on no drive has
/// none.
pub proof fn law_spoofed_names_name_the_virtual_file(
    host: Seq<char>,
    drive: char,
    rest: Seq<char>,
)
    requires
        'a' <= drive <= 'z' || 'A' <= drive <= 'Z',
        rest.len() > 0 ==> rest[0] == '\\',
    ensures
        ({
            let dos = seq![drive, ':'] + rest;
            let vpath = seq!['\\', '?', '?', '\\'] + dos;
            &&& seq!['\\', '?', '?', '\\'].is_prefix_of(host) ==> name_plan(host, vpath)
                == NamePlan::Dos(dos)
            &&& "\\Device\\"@.is_prefix_of(host) ==> name_plan(host, vpath) == NamePlan::Device(
                seq![drive, ':'],
                rest,
            )
            &&& name_plan(host, dos) == name_plan(host, vpath)
        }),
{
    let dos = seq![drive, ':'] + rest;
    let prefix = seq!['\\', '?', '?', '\\'];
    let vpath = prefix + dos;
    reveal_strlit("\\Device\\");
    assert(vpath.subrange(0, 4) =~= prefix);
    assert(vpath.skip(4) =~= dos);
    assert(dos[0] == drive);
    assert(!prefix.is_prefix_of(dos));
    assert(!seq!['\\', '\\', '?', '\\'].is_prefix_of(dos));
    assert(dos.take(2) =~= seq![drive, ':']);
    assert(dos.skip(2) =~= rest);
    if "\\Device\\"@.is_prefix_of(host) {
        assert("\\Device\\"@[1] == 'D');
        assert(host.subrange(0, 8)[1] == 'D');
        assert(host[1] == 'D');
        assert(prefix[1] == '?');
        assert(!prefix.is_prefix_of(host));
    }
}

/// How a question was answered is recorded under labels that tell the outcomes apart.
pub proof fn law_question_labels_are_distinct(found: (bool, u64, i64), status: RingStatus)
    requires
        status != RingStatus::NotFound,
    ensures
        attr_label(None) != attr_label(Some(Ok(found))),
        attr_label(None) != attr_label(Some(Err(status))),
        attr_label(None) != attr_label(Some(Err(RingStatus::NotFound))),
        attr_label(Some(Ok(found))) != attr_label(Some(Err(status))),
        attr_label(Some(Ok(found))) != attr_label(Some(Err(RingStatus::NotFound))),
        attr_label(Some(Err(status))) != attr_label(Some(Err(RingStatus::NotFound))),
{
    reveal_strlit("outside-root");
    reveal_strlit("found");
    reveal_strlit("NOT-FOUND");
    reveal_strlit("ERROR");
    assert("outside-root"@.len() == 12 && "found"@.len() == 5 && "NOT-FOUND"@.len() == 9
        && "ERROR"@.len() == 5);
    assert("found"@[0] == 'f' && "ERROR"@[0] == 'E');
}

/// A question is counted under its outcome and its path, and stands in the trace.
pub proof fn law_questions_are_counted(
    c: hookstats::SnapshotView,
    path: Seq<char>,
    outcome: Seq<char>,
)
    ensures
        stat_counted(c, path, outcome).trace == hookstats::traced(
            c.trace,
            "stat"@,
            path,
            outcome,
        ),
        stat_counted(c, path, outcome).stats == crate::tally::bumped(
            c.stats,
            text::left_aligned(outcome, 12) + seq![' '] + text::ascii_lowered(path),
            4000,
        ),
        stat_counted(c, path, outcome).outcome_counts == c.outcome_counts,
{
    reveal_strlit(" ");
    assert(" "@ =~= seq![' ']);
}

/// How a question by name is labelled: by its class, and by whether the path is outside every
/// root, was answered, has no such block, or is missing. A failure has no label.
pub proof fn law_questions_by_name_are_labelled(
    class: u32,
    found: (bool, u64, i64),
    status: RingStatus,
    can_answer: bool,
)
    ensures
        ({
            let head = "byname"@ + text::decimal(class as nat);
            &&& by_name_label(class, None, can_answer) == Some(head + "-outside"@)
            &&& by_name_label(class, Some(Ok(found)), true) == Some(head + "-ok"@)
            &&& by_name_label(class, Some(Ok(found)), false) == Some(head + "-UNSUP"@)
            &&& by_name_label(class, Some(Err(RingStatus::NotFound)), can_answer) == Some(
                head + "-missing"@,
            )
            &&& status != RingStatus::NotFound ==> by_name_label(
                class,
                Some(Err(status)),
                can_answer,
            ) is None
        }),
{
}

/// An answer is a success with the number of bytes that it has; a failure has its status and no
/// number. The network block has its whole length, though its last bytes are left alone.
pub proof fn law_answers_say_their_length(n: u64, status: i32, class: u32, block: Seq<u8>)
    ensures
        answered(n as int).status == 0,
        answered(n as int).information == Some(n),
        failed(status).status == status,
        failed(status).information is None,
        class == 34 ==> room_by_handle(class, block) == 56,
        class != 34 ==> room_by_handle(class, block) == block.len(),
{
}

/// What the system says of a name is read to its last byte: the length at the start of its
/// block, in whole units, from byte 16 on. An empty name, half a unit or a name that the block
/// does not hold is none.
pub proof fn law_names_are_read_as_far_as_they_say(b: Seq<u8>)
    ensures
        b.len() < 16 ==> name_in(b) is None,
        ({
            let n = bytes::u16_in(b, 0);
            &&& n == 0 || n % 2 == 1 || b.len() < 16 + n ==> name_in(b) is None
            &&& n > 0 && n % 2 == 0 && b.len() >= 16 + n ==> name_in(b) == Some(
                text::utf16_text(bytes::units_in(b, 16, (n / 2) as nat)),
            )
        }),
{
}

} // verus!

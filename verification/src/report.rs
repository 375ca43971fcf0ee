//! The counters as a text: one section for each kind of thing counted, all of one snapshot, so
//! that no two sections can disagree.

use crate::hookstats;
use crate::hookstats::ClassCount;
use crate::hookstats::CopyUp;
use crate::hookstats::Hook;
use crate::hookstats::OpenOutcome;
use crate::hookstats::OverlayFail;
use crate::hookstats::Snapshot;
use crate::tally;
use crate::tally::Row;
use crate::tally::RowOrder;
use crate::text;
use vstd::prelude::*;
use vstd::string::*;

verus! {

/// Milliseconds between two reports, where nothing else is set.
pub const REPORT_INTERVAL_MS: u64 = 250;

/// Milliseconds between two reports: what is set, where that is a number.
pub fn interval_ms(set: Option<u64>) -> (r: u64)
    ensures
        r == match set {
            Some(n) => n,
            None => REPORT_INTERVAL_MS,
        },
{
    match set {
        Some(n) => n,
        None => REPORT_INTERVAL_MS,
    }
}

// ---------------------------------------------------------------------------------------
// Lines.

/// A counted key on a line of its own.
pub open spec fn row_line(lead: Seq<char>, width: int, row: tally::RowView) -> Seq<char> {
    lead + text::right_aligned(text::decimal(row.count as nat), width) + "x  "@ + row.key + "\n"@
}

/// Counted keys, a line each.
pub open spec fn row_lines(lead: Seq<char>, width: int, rows: Seq<tally::RowView>) -> Seq<char>
    decreases rows.len(),
{
    if rows.len() == 0 {
        seq![]
    } else {
        row_lines(lead, width, rows.drop_last()) + row_line(lead, width, rows.last())
    }
}

/// `n` in a column `width` wide, appended to `out`.
fn push_number(out: &mut String, n: u64, width: usize)
    ensures
        final(out)@ == old(out)@ + text::right_aligned(text::decimal(n as nat), width as int),
{
    let number = text::decimal_text(n);
    text::push_right(out, number.as_str(), width);
}

/// The first `shown` rows as [`row_lines`], appended to `out`.
fn push_rows(out: &mut String, lead: &str, width: usize, rows: &[Row], shown: usize)
    requires
        shown <= rows@.len(),
    ensures
        final(out)@ == old(out)@ + row_lines(
            lead@,
            width as int,
            tally::rows_view(rows@).take(shown as int),
        ),
{
    let ghost all = tally::rows_view(rows@);
    let ghost start = out@;
    let mut i: usize = 0;
    assert(out@ =~= start + row_lines(lead@, width as int, all.take(0)));
    while i < shown
        invariant
            i <= shown <= rows@.len(),
            all == tally::rows_view(rows@),
            out@ == start + row_lines(lead@, width as int, all.take(i as int)),
        decreases shown - i,
    {
        let ghost before = out@;
        out.append(lead);
        push_number(out, rows[i].count, width);
        out.append("x  ");
        out.append(rows[i].key.as_str());
        out.append("\n");
        assert(out@ =~= before + row_line(lead@, width as int, all[i as int]));
        assert(all.take(i + 1).drop_last() =~= all.take(i as int));
        assert(out@ =~= start + row_lines(lead@, width as int, all.take(i + 1)));
        i = i + 1;
    }
}

/// A label and its count on a line of its own.
pub open spec fn label_line(label: Seq<char>, count: u64) -> Seq<char> {
    "  "@ + text::left_aligned(label, 32) + " "@ + text::right_aligned(
        text::decimal(count as nat),
        8,
    ) + "\n"@
}

/// [`label_line`], appended to `out`.
fn push_label(out: &mut String, label: &str, count: u64)
    ensures
        final(out)@ == old(out)@ + label_line(label@, count),
{
    let ghost start = out@;
    out.append("  ");
    text::push_left(out, label, 32);
    out.append(" ");
    push_number(out, count, 8);
    out.append("\n");
    assert(out@ =~= start + label_line(label@, count));
}

/// The smaller of two numbers.
pub open spec fn at_most(n: int, limit: int) -> int {
    if n < limit {
        n
    } else {
        limit
    }
}

/// [`at_most`].
fn limited(n: usize, limit: usize) -> (r: usize)
    ensures
        r == at_most(n as int, limit as int),
{
    if n < limit {
        n
    } else {
        limit
    }
}

// ---------------------------------------------------------------------------------------
// Mebibytes with one decimal place.

/// `a / b`, rounded to the nearest whole number, a half to the even one.
pub open spec fn half_even(a: int, b: int) -> int {
    let q = a / b;
    let r = a % b;
    if 2 * r > b || (2 * r == b && q % 2 == 1) {
        q + 1
    } else {
        q
    }
}

/// The distance between two neighbouring numbers of 53 significant bits at `n`.
pub open spec fn grain(n: int, step: int, room: nat) -> int
    decreases room,
{
    if room == 0 || n < 0x20_0000_0000_0000 * step {
        step
    } else {
        grain(n, 2 * step, (room - 1) as nat)
    }
}

/// `n` bytes in tenths of a mebibyte. The count is first rounded to 53 significant bits, which
/// are all that a double-precision number holds.
pub open spec fn mebibyte_tenths(n: int) -> int {
    let step = grain(n, 1, 11);
    half_even(10 * (half_even(n, step) * step), 0x10_0000)
}

/// `n` bytes in mebibytes, with one decimal place.
pub open spec fn mebibytes(n: u64) -> Seq<char> {
    let t = mebibyte_tenths(n as int);
    text::decimal((t / 10) as nat) + "."@ + text::decimal((t % 10) as nat)
}

/// [`half_even`].
fn rounded_quotient(a: u128, b: u128) -> (q: u128)
    requires
        0 < b <= 0x10_0000,
        a <= 0xff_ffff_ffff_ffff_ffff_ffff,
    ensures
        q == half_even(a as int, b as int),
        q <= a + 1,
{
    let q: u128 = a / b;
    let r: u128 = a % b;
    assert(q <= a) by (nonlinear_arith)
        requires
            q == a / b,
            b > 0,
    ;
    if 2 * r > b || (2 * r == b && q % 2 == 1) {
        q + 1
    } else {
        q
    }
}

/// [`mebibytes`], appended to `out`.
fn push_mebibytes(out: &mut String, n: u64)
    ensures
        final(out)@ == old(out)@ + mebibytes(n),
{
    let wide: u128 = n as u128;
    let mut step: u128 = 1;
    let mut room: u128 = 11;
    while room > 0 && wide >= 0x20_0000_0000_0000 * step
        invariant
            room <= 11,
            wide == n,
            1 <= step <= 2048,
            room == 11 ==> step == 1,
            room == 10 ==> step == 2,
            room == 9 ==> step == 4,
            room == 8 ==> step == 8,
            room == 7 ==> step == 16,
            room == 6 ==> step == 32,
            room == 5 ==> step == 64,
            room == 4 ==> step == 128,
            room == 3 ==> step == 256,
            room == 2 ==> step == 512,
            room == 1 ==> step == 1024,
            grain(n as int, step as int, room as nat) == grain(n as int, 1, 11),
        decreases room,
    {
        step = 2 * step;
        room = room - 1;
    }
    let units: u128 = rounded_quotient(wide, step);
    assert(units * step <= 0x1_0000_0000_0000_0000 * 2048) by (nonlinear_arith)
        requires
            units <= 0x1_0000_0000_0000_0000,
            step <= 2048,
    ;
    let whole: u128 = units * step;
    let tenths: u128 = rounded_quotient(10 * whole, 0x10_0000);
    let ghost start = out@;
    text::push_decimal(out, tenths / 10);
    out.append(".");
    text::push_decimal(out, tenths % 10);
    assert(out@ =~= start + mebibytes(n));
}

// ---------------------------------------------------------------------------------------
// Sections.

/// The busiest paths of all opens.
pub open spec fn paths_section(rows: Seq<tally::RowView>) -> Seq<char> {
    let shown = at_most(rows.len() as int, hookstats::PATHS_SHOWN as int);
    if rows.len() == 0 {
        seq![]
    } else {
        "\nopen paths by frequency (top "@ + text::decimal(shown as nat) + " of "@ + text::decimal(
            rows.len(),
        ) + " distinct, "@ + text::decimal(tally::total(rows) as nat) + " opens):\n"@ + row_lines(
            "  "@,
            8,
            tally::sorted_rows(RowOrder::BusiestFirst, rows).take(shown),
        )
    }
}

/// [`paths_section`].
pub fn format_paths(pairs: &tally::Tally) -> (s: String)
    ensures
        s@ == paths_section(pairs.view_rows()),
{
    if pairs.rows.len() == 0 {
        return String::new();
    }
    let distinct: usize = pairs.rows.len();
    let sum: u128 = pairs.sum();
    let sorted = tally::sort_rows(RowOrder::BusiestFirst, pairs.rows.as_slice());
    let shown: usize = limited(distinct, hookstats::PATHS_SHOWN);
    let mut s = "\nopen paths by frequency (top ".to_owned();
    text::push_decimal(&mut s, shown as u128);
    s.append(" of ");
    text::push_decimal(&mut s, distinct as u128);
    s.append(" distinct, ");
    text::push_decimal(&mut s, sum);
    s.append(" opens):\n");
    push_rows(&mut s, "  ", 8, sorted.as_slice(), shown);
    s
}

/// The paths of all opens.
pub fn render_passthrough(snap: &Snapshot) -> (s: String)
    ensures
        s@ == paths_section(snap@.passthrough),
{
    format_paths(&snap.passthrough)
}

/// The busiest paths of one outcome, and how many are left out.
pub open spec fn outcome_paths_lines(rows: Seq<tally::RowView>) -> Seq<char> {
    let shown = at_most(rows.len() as int, hookstats::OUTCOME_PATHS_SHOWN as int);
    let lines = row_lines(
        "      "@,
        6,
        tally::sorted_rows(RowOrder::BusiestFirst, rows).take(shown),
    );
    if rows.len() > shown {
        lines + "      ... and "@ + text::decimal((rows.len() - shown) as nat) + " more\n"@
    } else {
        lines
    }
}

/// [`outcome_paths_lines`].
pub fn format_outcome_paths(pairs: &tally::Tally) -> (s: String)
    ensures
        s@ == outcome_paths_lines(pairs.view_rows()),
{
    let distinct: usize = pairs.rows.len();
    let sorted = tally::sort_rows(RowOrder::BusiestFirst, pairs.rows.as_slice());
    let shown: usize = limited(distinct, hookstats::OUTCOME_PATHS_SHOWN);
    let mut s = String::new();
    push_rows(&mut s, "      ", 6, sorted.as_slice(), shown);
    assert(s@ =~= row_lines(
        "      "@,
        6,
        tally::sorted_rows(RowOrder::BusiestFirst, pairs.view_rows()).take(shown as int),
    ));
    if distinct > shown {
        s.append("      ... and ");
        text::push_decimal(&mut s, (distinct - shown) as u128);
        s.append(" more\n");
    }
    s
}

/// One outcome: its count and its paths; nothing where it never occurred.
pub open spec fn outcome_section(
    outcome: OpenOutcome,
    count: u64,
    paths: Seq<tally::RowView>,
) -> Seq<char> {
    if count == 0 {
        seq![]
    } else {
        label_line(outcome.label_text(), count) + outcome_paths_lines(paths)
    }
}

/// [`outcome_section`].
pub fn render_outcome(outcome: OpenOutcome, snap: &Snapshot) -> (s: String)
    requires
        snap.wf(),
    ensures
        s@ == outcome_section(
            outcome,
            snap@.outcome_counts[outcome.spec_index()],
            snap@.outcome_paths[outcome.spec_index()],
        ),
{
    let i: usize = outcome.index();
    let count: u64 = snap.outcome_counts[i];
    if count == 0 {
        return String::new();
    }
    let mut s = String::new();
    push_label(&mut s, outcome.label(), count);
    assert(s@ =~= label_line(outcome.label_text(), count));
    s.append(format_outcome_paths(&snap.outcome_paths[i]).as_str());
    s
}

/// The sections of the first `n` outcomes.
pub open spec fn outcome_sections(c: hookstats::SnapshotView, n: int) -> Seq<char>
    decreases n,
{
    if n <= 0 {
        seq![]
    } else {
        outcome_sections(c, n - 1) + outcome_section(
            outcome_at(n - 1),
            c.outcome_counts[n - 1],
            c.outcome_paths[n - 1],
        )
    }
}

/// The outcome at position `i` of the counters.
pub open spec fn outcome_at(i: int) -> OpenOutcome {
    if i == 0 {
        OpenOutcome::Routed
    } else if i == 1 {
        OpenOutcome::FellThroughRedirect
    } else if i == 2 {
        OpenOutcome::FellThroughServe
    } else if i == 3 {
        OpenOutcome::FellThroughPassthrough
    } else if i == 4 {
        OpenOutcome::FellThroughDrmException
    } else if i == 5 {
        OpenOutcome::FellThroughWriteFallback
    } else {
        OpenOutcome::Denied
    }
}

/// Every outcome of an open under a managed root, and the opens that none accounts for.
pub open spec fn outcomes_section(c: hookstats::SnapshotView) -> Seq<char> {
    let body = outcome_sections(c, 7) + (if c.unrouted_director_opens > 0 {
        label_line(hookstats::unrouted_label(), c.unrouted_director_opens)
    } else {
        seq![]
    });
    if body.len() == 0 {
        seq![]
    } else {
        "\nunder-root open outcomes:\n"@ + body
    }
}

/// [`outcomes_section`].
pub fn render_outcomes(snap: &Snapshot) -> (s: String)
    requires
        snap.wf(),
    ensures
        s@ == outcomes_section(snap@),
{
    let all = hookstats::all_outcomes();
    let mut body = String::new();
    let mut i: usize = 0;
    assert(body@ =~= outcome_sections(snap@, 0));
    while i < all.len()
        invariant
            i <= all@.len() == 7,
            snap.wf(),
            forall|k: int| 0 <= k < 7 ==> (#[trigger] all@[k]).spec_index() == k,
            body@ == outcome_sections(snap@, i as int),
        decreases 7 - i,
    {
        assert(all@[i as int] == outcome_at(i as int));
        body.append(render_outcome(all[i], snap).as_str());
        i = i + 1;
    }
    if snap.unrouted_director_opens > 0 {
        push_label(&mut body, hookstats::unrouted_open_label(), snap.unrouted_director_opens);
    } else {
        assert(body@ =~= body@ + Seq::<char>::empty());
    }
    if body.unicode_len() == 0 {
        return String::new();
    }
    let mut s = "\nunder-root open outcomes:\n".to_owned();
    s.append(body.as_str());
    s
}

/// Whether a class comes before another in the report: the higher count first, equal counts by
/// class.
pub open spec fn class_before(a: ClassCount, b: ClassCount) -> bool {
    a.count > b.count || (a.count == b.count && a.class < b.class)
}

/// Sorted classes with one more in its place.
pub open spec fn with_class(s: Seq<ClassCount>, row: ClassCount) -> Seq<ClassCount>
    decreases s.len(),
{
    if s.len() == 0 || !class_before(row, s.last()) {
        s.push(row)
    } else {
        with_class(s.drop_last(), row).push(s.last())
    }
}

/// The classes in order.
pub open spec fn sorted_classes(rows: Seq<ClassCount>) -> Seq<ClassCount>
    decreases rows.len(),
{
    if rows.len() == 0 {
        seq![]
    } else {
        with_class(sorted_classes(rows.drop_last()), rows.last())
    }
}

proof fn lemma_with_class(s: Seq<ClassCount>, row: ClassCount)
    requires
        forall|i: int, j: int| 0 <= i < j < s.len() ==> !class_before(s[j], s[i]),
    ensures
        forall|i: int, j: int|
            0 <= i < j < with_class(s, row).len() ==> !class_before(
                with_class(s, row)[j],
                with_class(s, row)[i],
            ),
        with_class(s, row).to_multiset() == s.to_multiset().insert(row),
        with_class(s, row).len() == s.len() + 1,
    decreases s.len(),
{
    broadcast use vstd::seq_lib::group_to_multiset_ensures;

    let out = with_class(s, row);
    if s.len() == 0 || !class_before(row, s.last()) {
        assert forall|i: int, j: int| 0 <= i < j < out.len() implies !class_before(
            out[j],
            out[i],
        ) by {
            if j == s.len() && i < s.len() - 1 {
                assert(!class_before(s[s.len() - 1], s[i]));
            }
        }
        assert(s.push(row).to_multiset() =~= s.to_multiset().insert(row));
    } else {
        let init = s.drop_last();
        lemma_with_class(init, row);
        let placed = with_class(init, row);
        assert(init.push(s.last()) =~= s);
        assert(s.to_multiset() =~= init.to_multiset().insert(s.last()));
        assert(out.to_multiset() =~= placed.to_multiset().insert(s.last()));
        assert(out.to_multiset() =~= s.to_multiset().insert(row));
        assert forall|i: int, j: int| 0 <= i < j < out.len() implies !class_before(
            out[j],
            out[i],
        ) by {
            if j == out.len() - 1 {
                let x = placed[i];
                assert(placed.contains(x));
                assert(placed.to_multiset().contains(x));
                assert(init.to_multiset().insert(row).contains(x));
                if x != row {
                    assert(init.to_multiset().contains(x));
                    assert(init.contains(x));
                    let k = choose|k: int| 0 <= k < init.len() && init[k] == x;
                    assert(!class_before(s[s.len() - 1], s[k]));
                }
            } else {
                assert(out[i] == placed[i] && out[j] == placed[j]);
            }
        }
    }
}

/// The report lists every class exactly once, the busiest first, equal counts by class.
pub proof fn law_classes_are_sorted(rows: Seq<ClassCount>)
    ensures
        forall|i: int, j: int|
            0 <= i < j < sorted_classes(rows).len() ==> !class_before(
                sorted_classes(rows)[j],
                sorted_classes(rows)[i],
            ),
        sorted_classes(rows).to_multiset() == rows.to_multiset(),
        sorted_classes(rows).len() == rows.len(),
    decreases rows.len(),
{
    broadcast use vstd::seq_lib::group_to_multiset_ensures;

    if rows.len() > 0 {
        let init = rows.drop_last();
        law_classes_are_sorted(init);
        lemma_with_class(sorted_classes(init), rows.last());
        assert(init.push(rows.last()) =~= rows);
        assert(rows.to_multiset() =~= init.to_multiset().insert(rows.last()));
    } else {
        assert(sorted_classes(rows) =~= rows);
    }
}

proof fn lemma_with_class_at(s: Seq<ClassCount>, row: ClassCount, j: int)
    requires
        0 <= j <= s.len(),
        forall|k: int| j <= k < s.len() ==> class_before(row, s[k]),
        j > 0 ==> !class_before(row, s[j - 1]),
    ensures
        with_class(s, row) == s.insert(j, row),
    decreases s.len(),
{
    if j < s.len() {
        lemma_with_class_at(s.drop_last(), row, j);
        assert(s.drop_last().insert(j, row).push(s.last()) =~= s.insert(j, row));
    } else {
        assert(s.push(row) =~= s.insert(j, row));
    }
}

/// [`sorted_classes`].
fn sort_classes(rows: &[ClassCount]) -> (out: Vec<ClassCount>)
    ensures
        out@ == sorted_classes(rows@),
        out@.len() == rows@.len(),
{
    let mut out: Vec<ClassCount> = Vec::new();
    let mut i: usize = 0;
    assert(out@ =~= sorted_classes(rows@.take(0)));
    while i < rows.len()
        invariant
            i <= rows@.len(),
            out@.len() == i,
            out@ == sorted_classes(rows@.take(i as int)),
        decreases rows@.len() - i,
    {
        let row = rows[i];
        let mut j: usize = out.len();
        while j > 0 && (row.count > out[j - 1].count || (row.count == out[j - 1].count && row.class
            < out[j - 1].class))
            invariant
                j <= out@.len(),
                forall|k: int| j <= k < out@.len() ==> class_before(row, out@[k]),
            decreases j,
        {
            j = j - 1;
        }
        proof {
            lemma_with_class_at(out@, row, j as int);
            assert(rows@.take(i + 1).drop_last() =~= rows@.take(i as int));
            assert(rows@.take(i + 1).last() == row);
        }
        out.insert(j, row);
        i = i + 1;
    }
    assert(rows@.take(i as int) =~= rows@);
    out
}

/// A class and its count on a line of its own.
pub open spec fn class_line(row: ClassCount) -> Seq<char> {
    "  "@ + text::right_aligned(text::decimal(row.count as nat), 6) + "x  class="@ + text::decimal(
        row.class as nat,
    ) + "\n"@
}

/// Classes, a line each.
pub open spec fn class_lines(rows: Seq<ClassCount>) -> Seq<char>
    decreases rows.len(),
{
    if rows.len() == 0 {
        seq![]
    } else {
        class_lines(rows.drop_last()) + class_line(rows.last())
    }
}

/// The set-information classes that did nothing.
pub open spec fn setinfo_section(rows: Seq<ClassCount>) -> Seq<char> {
    if rows.len() == 0 {
        seq![]
    } else {
        "\nNtSetInformationFile classes taking the soft no-op on synthetic handles ("@
            + text::decimal(rows.len()) + " distinct):\n"@ + class_lines(sorted_classes(rows))
    }
}

/// [`setinfo_section`].
pub fn render_setinfo_noop(snap: &Snapshot) -> (s: String)
    ensures
        s@ == setinfo_section(snap@.setinfo_noop),
{
    if snap.setinfo_noop.len() == 0 {
        return String::new();
    }
    let rows = sort_classes(snap.setinfo_noop.as_slice());
    let mut s =
        "\nNtSetInformationFile classes taking the soft no-op on synthetic handles (".to_owned();
    text::push_decimal(&mut s, rows.len() as u128);
    s.append(" distinct):\n");
    let ghost start = s@;
    let mut i: usize = 0;
    assert(s@ =~= start + class_lines(rows@.take(0)));
    while i < rows.len()
        invariant
            i <= rows@.len(),
            s@ == start + class_lines(rows@.take(i as int)),
        decreases rows@.len() - i,
    {
        let ghost before = s@;
        s.append("  ");
        push_number(&mut s, rows[i].count, 6);
        s.append("x  class=");
        text::push_decimal(&mut s, rows[i].class as u128);
        s.append("\n");
        assert(s@ =~= before + class_line(rows@[i as int]));
        assert(rows@.take(i + 1).drop_last() =~= rows@.take(i as int));
        assert(s@ =~= start + class_lines(rows@.take(i + 1)));
        i = i + 1;
    }
    assert(rows@.take(i as int) =~= rows@);
    s
}

/// The locks and flushes that were answered without a lock.
pub open spec fn locks_section(rows: Seq<tally::RowView>) -> Seq<char> {
    if rows.len() == 0 {
        seq![]
    } else {
        "\nsynthetic byte-range locks/flushes answered locally ("@ + text::decimal(
            tally::total(rows) as nat,
        ) + ", "@ + text::decimal(rows.len()) + " distinct):\n"@
            + "  NOTE: no lock is actually held — see hook::lock_hook. Safe only while one process\n"@
            + "  at a time touches each of these paths.\n"@ + row_lines(
            "  "@,
            6,
            tally::sorted_rows(RowOrder::ByKey, rows),
        )
    }
}

/// [`locks_section`].
pub fn render_synth_locks(snap: &Snapshot) -> (s: String)
    ensures
        s@ == locks_section(snap@.synth_locks),
{
    let n: usize = snap.synth_locks.rows.len();
    if n == 0 {
        return String::new();
    }
    let rows = tally::sort_rows(RowOrder::ByKey, snap.synth_locks.rows.as_slice());
    let mut s = "\nsynthetic byte-range locks/flushes answered locally (".to_owned();
    text::push_decimal(&mut s, snap.synth_locks.sum());
    s.append(", ");
    text::push_decimal(&mut s, n as u128);
    s.append(" distinct):\n");
    s.append(
        "  NOTE: no lock is actually held — see hook::lock_hook. Safe only while one process\n",
    );
    s.append("  at a time touches each of these paths.\n");
    assert(tally::rows_view(rows@).take(n as int) =~= tally::rows_view(rows@));
    push_rows(&mut s, "  ", 6, rows.as_slice(), n);
    s
}

/// How synthetic handles are used asynchronously.
pub open spec fn async_section(c: hookstats::SnapshotView) -> Seq<char> {
    if c.async_opens == 0 && c.sync_opens == 0 && c.apc_reads == 0 && c.event_reads == 0
        && c.bare_reads == 0 && c.iocp_binds == 0 {
        seq![]
    } else {
        "\nasync I/O on synthetic handles:\n  opens: "@ + text::decimal(c.async_opens as nat)
            + " async / "@ + text::decimal(c.sync_opens as nat) + " synchronous\n  reads: "@
            + text::decimal(c.apc_reads as nat) + " with APC / "@ + text::decimal(
            c.event_reads as nat,
        ) + " with event / "@ + text::decimal(c.bare_reads as nat)
            + " bare\n  IOCP binds (FileCompletionInformation): "@ + text::decimal(
            c.iocp_binds as nat,
        ) + "\n  NOTE: APC reads and IOCP binds are completions we never deliver.\n"@
    }
}

/// [`async_section`].
pub fn render_async(snap: &Snapshot) -> (s: String)
    ensures
        s@ == async_section(snap@),
{
    if snap.async_opens == 0 && snap.sync_opens == 0 && snap.apc_reads == 0 && snap.event_reads == 0
        && snap.bare_reads == 0 && snap.iocp_binds == 0 {
        return String::new();
    }
    let mut s = "\nasync I/O on synthetic handles:\n  opens: ".to_owned();
    text::push_decimal(&mut s, snap.async_opens as u128);
    s.append(" async / ");
    text::push_decimal(&mut s, snap.sync_opens as u128);
    s.append(" synchronous\n  reads: ");
    text::push_decimal(&mut s, snap.apc_reads as u128);
    s.append(" with APC / ");
    text::push_decimal(&mut s, snap.event_reads as u128);
    s.append(" with event / ");
    text::push_decimal(&mut s, snap.bare_reads as u128);
    s.append(" bare\n  IOCP binds (FileCompletionInformation): ");
    text::push_decimal(&mut s, snap.iocp_binds as u128);
    s.append("\n  NOTE: APC reads and IOCP binds are completions we never deliver.\n");
    s
}

/// The fills of mapped windows. `seconds` and `slowest` are the texts of the total and of the
/// longest time.
pub open spec fn fills_section(
    c: hookstats::SnapshotView,
    seconds: Seq<char>,
    slowest: Seq<char>,
) -> Seq<char> {
    let in_flight = c.fills_started.saturating_sub(c.fills_completed);
    if c.fills_started == 0 {
        seq![]
    } else {
        "\ndemand-paged section fills:\n  started "@ + text::decimal(c.fills_started as nat)
            + " / completed "@ + text::decimal(c.fills_completed as nat) + " / failed "@
            + text::decimal(c.fills_failed as nat) + " / IN FLIGHT "@ + text::decimal(
            in_flight as nat,
        ) + "\n  "@ + mebibytes(c.fill_bytes) + " MiB, "@ + seconds + "s total, max "@ + slowest
            + "ms"@ + (if in_flight > 0 {
            "   <-- a fill never returned; the faulting thread is wedged"@
        } else {
            ""@
        }) + "\n"@
    }
}

/// [`fills_section`].
pub fn render_fills(snap: &Snapshot, seconds: &str, slowest: &str) -> (s: String)
    ensures
        s@ == fills_section(snap@, seconds@, slowest@),
{
    if snap.fills_started == 0 {
        return String::new();
    }
    let in_flight: u64 = snap.fills_started.saturating_sub(snap.fills_completed);
    let mut s = "\ndemand-paged section fills:\n  started ".to_owned();
    text::push_decimal(&mut s, snap.fills_started as u128);
    s.append(" / completed ");
    text::push_decimal(&mut s, snap.fills_completed as u128);
    s.append(" / failed ");
    text::push_decimal(&mut s, snap.fills_failed as u128);
    s.append(" / IN FLIGHT ");
    text::push_decimal(&mut s, in_flight as u128);
    s.append("\n  ");
    push_mebibytes(&mut s, snap.fill_bytes);
    s.append(" MiB, ");
    s.append(seconds);
    s.append("s total, max ");
    s.append(slowest);
    s.append("ms");
    if in_flight > 0 {
        s.append("   <-- a fill never returned; the faulting thread is wedged");
    } else {
        s.append("");
    }
    s.append("\n");
    s
}

/// The opens whose path could not be decoded.
pub open spec fn undecodable_section(rows: Seq<tally::RowView>) -> Seq<char> {
    let shown = at_most(rows.len() as int, hookstats::UNDECODABLE_SHOWN as int);
    if rows.len() == 0 {
        seq![]
    } else {
        "\nundecodable opens ("@ + text::decimal(rows.len()) + " distinct, "@ + text::decimal(
            tally::total(rows) as nat,
        ) + " calls):\n"@ + row_lines(
            "  "@,
            6,
            tally::sorted_rows(RowOrder::BusiestFirst, rows).take(shown),
        )
    }
}

/// [`undecodable_section`].
pub fn render_undecodable(snap: &Snapshot) -> (s: String)
    ensures
        s@ == undecodable_section(snap@.undecodable),
{
    let n: usize = snap.undecodable.rows.len();
    if n == 0 {
        return String::new();
    }
    let rows = tally::sort_rows(RowOrder::BusiestFirst, snap.undecodable.rows.as_slice());
    let shown: usize = limited(n, hookstats::UNDECODABLE_SHOWN);
    let mut s = "\nundecodable opens (".to_owned();
    text::push_decimal(&mut s, n as u128);
    s.append(" distinct, ");
    text::push_decimal(&mut s, snap.undecodable.sum());
    s.append(" calls):\n");
    push_rows(&mut s, "  ", 6, rows.as_slice(), shown);
    s
}

/// The lines of the trace, numbered from zero.
pub open spec fn trace_lines(lines: Seq<Seq<char>>) -> Seq<char>
    decreases lines.len(),
{
    if lines.len() == 0 {
        seq![]
    } else {
        trace_lines(lines.drop_last()) + ("  "@ + text::right_aligned(
            text::decimal((lines.len() - 1) as nat),
            5,
        ) + "  "@ + lines.last() + "\n"@)
    }
}

/// The operations under managed roots, in order.
pub open spec fn trace_section(lines: Seq<Seq<char>>) -> Seq<char> {
    if lines.len() == 0 {
        seq![]
    } else {
        "\nordered trace of under-root operations ("@ + text::decimal(lines.len()) + "):\n"@
            + trace_lines(lines)
    }
}

/// [`trace_section`].
pub fn render_trace(snap: &Snapshot) -> (s: String)
    ensures
        s@ == trace_section(snap@.trace),
{
    let ghost all = snap@.trace;
    if snap.trace.len() == 0 {
        return String::new();
    }
    let mut s = "\nordered trace of under-root operations (".to_owned();
    text::push_decimal(&mut s, snap.trace.len() as u128);
    s.append("):\n");
    let ghost start = s@;
    let mut i: usize = 0;
    assert(s@ =~= start + trace_lines(all.take(0)));
    while i < snap.trace.len()
        invariant
            i <= snap.trace@.len(),
            all == snap@.trace,
            s@ == start + trace_lines(all.take(i as int)),
        decreases snap.trace@.len() - i,
    {
        let ghost before = s@;
        s.append("  ");
        push_number(&mut s, i as u64, 5);
        s.append("  ");
        s.append(snap.trace[i].as_str());
        s.append("\n");
        assert(all.take(i + 1).drop_last() =~= all.take(i as int));
        assert(all.take(i + 1).last() == snap.trace@[i as int]@);
        assert(s@ =~= start + trace_lines(all.take(i + 1)));
        i = i + 1;
    }
    assert(all.take(i as int) =~= all);
    s
}

/// The attribute queries.
pub open spec fn stats_section(rows: Seq<tally::RowView>) -> Seq<char> {
    if rows.len() == 0 {
        seq![]
    } else {
        "\nattribute queries ("@ + text::decimal(rows.len()) + " distinct):\n"@ + row_lines(
            "  "@,
            6,
            tally::sorted_rows(RowOrder::ByKey, rows),
        )
    }
}

/// [`stats_section`].
pub fn render_stats(snap: &Snapshot) -> (s: String)
    ensures
        s@ == stats_section(snap@.stats),
{
    let n: usize = snap.stats.rows.len();
    if n == 0 {
        return String::new();
    }
    let rows = tally::sort_rows(RowOrder::ByKey, snap.stats.rows.as_slice());
    let mut s = "\nattribute queries (".to_owned();
    text::push_decimal(&mut s, n as u128);
    s.append(" distinct):\n");
    assert(tally::rows_view(rows@).take(n as int) =~= tally::rows_view(rows@));
    push_rows(&mut s, "  ", 6, rows.as_slice(), n);
    s
}

/// Texts, an indented line each.
pub open spec fn plain_lines(lines: Seq<Seq<char>>) -> Seq<char>
    decreases lines.len(),
{
    if lines.len() == 0 {
        seq![]
    } else {
        plain_lines(lines.drop_last()) + ("  "@ + lines.last() + "\n"@)
    }
}

/// The directory enumerations.
pub open spec fn readdirs_section(lines: Seq<Seq<char>>) -> Seq<char> {
    if lines.len() == 0 {
        seq![]
    } else {
        "\ndirectory enumerations ("@ + text::decimal(lines.len()) + "):\n"@ + plain_lines(lines)
    }
}

/// [`readdirs_section`].
pub fn render_readdirs(snap: &Snapshot) -> (s: String)
    ensures
        s@ == readdirs_section(snap@.readdirs),
{
    let ghost all = snap@.readdirs;
    if snap.readdirs.len() == 0 {
        return String::new();
    }
    let mut s = "\ndirectory enumerations (".to_owned();
    text::push_decimal(&mut s, snap.readdirs.len() as u128);
    s.append("):\n");
    let ghost start = s@;
    let mut i: usize = 0;
    assert(s@ =~= start + plain_lines(all.take(0)));
    while i < snap.readdirs.len()
        invariant
            i <= snap.readdirs@.len(),
            all == snap@.readdirs,
            s@ == start + plain_lines(all.take(i as int)),
        decreases snap.readdirs@.len() - i,
    {
        s.append("  ");
        s.append(snap.readdirs[i].as_str());
        s.append("\n");
        assert(all.take(i + 1).drop_last() =~= all.take(i as int));
        assert(all.take(i + 1).last() == snap.readdirs@[i as int]@);
        assert(s@ =~= start + plain_lines(all.take(i + 1)));
        i = i + 1;
    }
    assert(all.take(i as int) =~= all);
    s
}

/// The sum of the first `n` counts.
pub open spec fn counts_sum(counts: Seq<u64>, n: int) -> int
    decreases n,
{
    if n <= 0 {
        0
    } else {
        counts_sum(counts, n - 1) + counts[n - 1]
    }
}

/// The copy-up outcome at position `i` of the counters.
pub open spec fn copy_up_at(i: int) -> CopyUp {
    if i == 0 {
        CopyUp::Seeded
    } else if i == 1 {
        CopyUp::DeclinedNoDirector
    } else if i == 2 {
        CopyUp::DeclinedReentrant
    } else if i == 3 {
        CopyUp::DeclinedStream
    } else if i == 4 {
        CopyUp::DirectorRefused
    } else if i == 5 {
        CopyUp::ReadFailed
    } else {
        CopyUp::DestWriteFailed
    }
}

/// The lines of the first `n` copy-up outcomes; none for one that never occurred.
pub open spec fn copy_up_lines(counts: Seq<u64>, n: int) -> Seq<char>
    decreases n,
{
    if n <= 0 {
        seq![]
    } else if counts[n - 1] == 0 {
        copy_up_lines(counts, n - 1)
    } else {
        copy_up_lines(counts, n - 1) + label_line(copy_up_at(n - 1).label_text(), counts[n - 1])
    }
}

/// The copy-ups: how many in all, how many of each outcome, and which files.
pub open spec fn copy_ups_section(c: hookstats::SnapshotView) -> Seq<char> {
    let all = counts_sum(c.copy_up_counts, 7);
    if all == 0 {
        seq![]
    } else {
        "\ncopy-on-write copy-ups ("@ + text::decimal(all as nat) + ", "@ + mebibytes(
            c.copy_up_bytes,
        ) + " MiB seeded):\n"@ + copy_up_lines(c.copy_up_counts, 7) + row_lines(
            "    "@,
            6,
            tally::sorted_rows(RowOrder::ByKey, c.copy_ups),
        )
    }
}

/// [`copy_ups_section`].
pub fn render_copy_ups(snap: &Snapshot) -> (s: String)
    ensures
        s@ == copy_ups_section(snap@),
{
    let ghost counts = snap@.copy_up_counts;
    let all = hookstats::all_copy_ups();
    let mut sum: u128 = 0;
    let mut i: usize = 0;
    while i < 7
        invariant
            i <= 7,
            counts == snap@.copy_up_counts,
            sum == counts_sum(counts, i as int),
            sum <= i * 0xffff_ffff_ffff_ffff,
        decreases 7 - i,
    {
        sum = sum + snap.copy_up_counts[i] as u128;
        i = i + 1;
    }
    if sum == 0 {
        return String::new();
    }
    let mut s = "\ncopy-on-write copy-ups (".to_owned();
    text::push_decimal(&mut s, sum);
    s.append(", ");
    push_mebibytes(&mut s, snap.copy_up_bytes);
    s.append(" MiB seeded):\n");
    let ghost start = s@;
    i = 0;
    assert(s@ =~= start + copy_up_lines(counts, 0));
    while i < 7
        invariant
            i <= 7,
            all@.len() == 7,
            forall|k: int| 0 <= k < 7 ==> (#[trigger] all@[k]).spec_index() == k,
            counts == snap@.copy_up_counts,
            s@ == start + copy_up_lines(counts, i as int),
        decreases 7 - i,
    {
        assert(all@[i as int] == copy_up_at(i as int));
        let c: u64 = snap.copy_up_counts[i];
        if c != 0 {
            push_label(&mut s, all[i].label(), c);
        }
        assert(s@ =~= start + copy_up_lines(counts, i + 1));
        i = i + 1;
    }
    let n: usize = snap.copy_ups.rows.len();
    let rows = tally::sort_rows(RowOrder::ByKey, snap.copy_ups.rows.as_slice());
    assert(tally::rows_view(rows@).take(n as int) =~= tally::rows_view(rows@));
    push_rows(&mut s, "    ", 6, rows.as_slice(), n);
    s
}

/// The overlay outcome at position `i` of the counters.
pub open spec fn overlay_at(i: int) -> OverlayFail {
    if i == 0 {
        OverlayFail::EnsureParent
    } else if i == 1 {
        OverlayFail::ClearWhiteout
    } else if i == 2 {
        OverlayFail::Whiteout
    } else if i == 3 {
        OverlayFail::Rename
    } else if i == 4 {
        OverlayFail::DeclinedReentrant
    } else {
        OverlayFail::Succeeded
    }
}

/// The lines of the first `n` overlay outcomes; none for one that never occurred.
pub open spec fn overlay_lines(counts: Seq<u64>, n: int) -> Seq<char>
    decreases n,
{
    if n <= 0 {
        seq![]
    } else if counts[n - 1] == 0 {
        overlay_lines(counts, n - 1)
    } else {
        overlay_lines(counts, n - 1) + label_line(overlay_at(n - 1).label_text(), counts[n - 1])
    }
}

/// The changes of the overlay. The number in the heading counts those that were not made; the
/// section is there as soon as any change was tried.
pub open spec fn overlay_section(c: hookstats::SnapshotView) -> Seq<char> {
    if counts_sum(c.overlay_fail_counts, 6) == 0 {
        seq![]
    } else {
        "\nshim-local overlay failures ("@ + text::decimal(
            counts_sum(c.overlay_fail_counts, 5) as nat,
        ) + "):\n"@ + overlay_lines(c.overlay_fail_counts, 6) + row_lines(
            "    "@,
            6,
            tally::sorted_rows(RowOrder::ByKey, c.overlay_fails),
        )
    }
}

/// [`overlay_section`].
pub fn render_overlay_fails(snap: &Snapshot) -> (s: String)
    ensures
        s@ == overlay_section(snap@),
{
    let ghost counts = snap@.overlay_fail_counts;
    let all = hookstats::all_overlay_fails();
    let mut failed: u128 = 0;
    let mut i: usize = 0;
    while i < 5
        invariant
            i <= 5,
            counts == snap@.overlay_fail_counts,
            failed == counts_sum(counts, i as int),
            failed <= i * 0xffff_ffff_ffff_ffff,
        decreases 5 - i,
    {
        failed = failed + snap.overlay_fail_counts[i] as u128;
        i = i + 1;
    }
    assert(counts_sum(counts, 6) == counts_sum(counts, 5) + counts[5]);
    if failed == 0 && snap.overlay_fail_counts[5] == 0 {
        return String::new();
    }
    let mut s = "\nshim-local overlay failures (".to_owned();
    text::push_decimal(&mut s, failed);
    s.append("):\n");
    let ghost start = s@;
    i = 0;
    assert(s@ =~= start + overlay_lines(counts, 0));
    while i < 6
        invariant
            i <= 6,
            all@.len() == 6,
            forall|k: int| 0 <= k < 6 ==> (#[trigger] all@[k]).spec_index() == k,
            counts == snap@.overlay_fail_counts,
            s@ == start + overlay_lines(counts, i as int),
        decreases 6 - i,
    {
        assert(all@[i as int] == overlay_at(i as int));
        let c: u64 = snap.overlay_fail_counts[i];
        if c != 0 {
            push_label(&mut s, all[i].label(), c);
        }
        assert(s@ =~= start + overlay_lines(counts, i + 1));
        i = i + 1;
    }
    let n: usize = snap.overlay_fails.rows.len();
    let rows = tally::sort_rows(RowOrder::ByKey, snap.overlay_fails.rows.as_slice());
    assert(tally::rows_view(rows@).take(n as int) =~= tally::rows_view(rows@));
    push_rows(&mut s, "    ", 6, rows.as_slice(), n);
    s
}

/// The first line of a report. `elapsed` is the text of the time since the start, in seconds.
pub open spec fn banner_text(elapsed: Seq<char>) -> Seq<char> {
    "SNAPSHOT at t+"@ + elapsed
        + "s — process still running, no exit report exists. An absent row means \"not by t+"@
        + elapsed + "s\", which is weaker than \"never\".\n"@
}

/// [`banner_text`].
pub fn banner(elapsed: &str) -> (s: String)
    ensures
        s@ == banner_text(elapsed@),
{
    let mut s = "SNAPSHOT at t+".to_owned();
    s.append(elapsed);
    s.append(
        "s — process still running, no exit report exists. An absent row means \"not by t+",
    );
    s.append(elapsed);
    s.append("s\", which is weaker than \"never\".\n");
    s
}

/// What was measured of one entry point.
#[derive(Clone, Copy, Debug, PartialEq, Eq, Structural)]
pub struct HookRow {
    pub hook: Hook,
    pub calls: u64,
    pub nanos: u64,
    pub rooted: u64,
    pub max_nanos: u64,
    pub slow: u64,
}

/// The entry point at position `i` of the counters.
pub open spec fn hook_at(i: int) -> Hook {
    if i == 0 {
        Hook::Create
    } else if i == 1 {
        Hook::Open
    } else if i == 2 {
        Hook::QAttr
    } else if i == 3 {
        Hook::QFull
    } else if i == 4 {
        Hook::Read
    } else if i == 5 {
        Hook::Write
    } else if i == 6 {
        Hook::Close
    } else if i == 7 {
        Hook::QDirEx
    } else if i == 8 {
        Hook::QueryInfo
    } else if i == 9 {
        Hook::CreateSection
    } else if i == 10 {
        Hook::MapView
    } else if i == 11 {
        Hook::QDir
    } else if i == 12 {
        Hook::QByName
    } else if i == 13 {
        Hook::SetInfo
    } else if i == 14 {
        Hook::QVol
    } else if i == 15 {
        Hook::Lock
    } else if i == 16 {
        Hook::Unlock
    } else {
        Hook::FlushBuffers
    }
}

/// Every entry point, in the order of the counters.
pub fn all_hooks() -> (v: Vec<Hook>)
    ensures
        v@.len() == hookstats::HOOKS,
        forall|i: int| 0 <= i < hookstats::HOOKS ==> #[trigger] v@[i] == hook_at(i),
        forall|i: int| 0 <= i < hookstats::HOOKS ==> (#[trigger] v@[i]).spec_index() == i,
{
    vec![
        Hook::Create,
        Hook::Open,
        Hook::QAttr,
        Hook::QFull,
        Hook::Read,
        Hook::Write,
        Hook::Close,
        Hook::QDirEx,
        Hook::QueryInfo,
        Hook::CreateSection,
        Hook::MapView,
        Hook::QDir,
        Hook::QByName,
        Hook::SetInfo,
        Hook::QVol,
        Hook::Lock,
        Hook::Unlock,
        Hook::FlushBuffers,
    ]
}

/// What was measured of the entry point at position `i`.
pub open spec fn hook_row(c: hookstats::SnapshotView, i: int) -> HookRow {
    HookRow {
        hook: hook_at(i),
        calls: c.calls[i],
        nanos: c.nanos[i],
        rooted: c.rooted[i],
        max_nanos: c.max_nanos[i],
        slow: c.slow[i],
    }
}

/// The rows of the first `n` entry points; none for one that was never called.
pub open spec fn hook_rows_upto(c: hookstats::SnapshotView, n: int) -> Seq<HookRow>
    decreases n,
{
    if n <= 0 {
        seq![]
    } else if c.calls[n - 1] == 0 {
        hook_rows_upto(c, n - 1)
    } else {
        hook_rows_upto(c, n - 1).push(hook_row(c, n - 1))
    }
}

/// What was measured of every entry point that was called.
pub fn hook_rows(snap: &Snapshot) -> (rows: Vec<HookRow>)
    ensures
        rows@ == hook_rows_upto(snap@, hookstats::HOOKS as int),
{
    let all = all_hooks();
    let mut rows: Vec<HookRow> = Vec::new();
    let mut i: usize = 0;
    assert(rows@ =~= hook_rows_upto(snap@, 0));
    while i < hookstats::HOOKS
        invariant
            i <= hookstats::HOOKS,
            all@.len() == hookstats::HOOKS,
            forall|k: int| 0 <= k < hookstats::HOOKS ==> #[trigger] all@[k] == hook_at(k),
            rows@ == hook_rows_upto(snap@, i as int),
        decreases hookstats::HOOKS - i,
    {
        if snap.calls[i] != 0 {
            rows.push(
                HookRow {
                    hook: all[i],
                    calls: snap.calls[i],
                    nanos: snap.nanos[i],
                    rooted: snap.rooted[i],
                    max_nanos: snap.max_nanos[i],
                    slow: snap.slow[i],
                },
            );
        }
        i = i + 1;
    }
    rows
}

/// The figures of a row that are quotients, as texts: they are written with a fixed number of
/// decimals.
pub struct RowFigures {
    /// Seconds in all.
    pub seconds: String,
    /// Microseconds for each call.
    pub per_call: String,
    /// The longest call in milliseconds.
    pub longest: String,
    /// The least share of the time that slow calls took, in percent.
    pub slow_share: String,
}

/// The figures of the last line that are quotients, as texts.
pub struct TotalFigures {
    /// Seconds in all.
    pub seconds: String,
    /// Microseconds for each call.
    pub per_call: String,
    /// The share of calls under a managed root, in percent.
    pub rooted_share: String,
}

/// The line of an entry point.
pub open spec fn hook_line(row: HookRow, f: RowFigures) -> Seq<char> {
    "  "@ + text::left_aligned(row.hook.label_text(), 28) + " "@ + text::right_aligned(
        text::decimal(row.calls as nat),
        7,
    ) + " calls "@ + text::right_aligned(f.seconds@, 8) + "s "@ + text::right_aligned(
        f.per_call@,
        8,
    ) + " us/call  max "@ + text::right_aligned(f.longest@, 8) + "ms  >1ms "@
        + text::right_aligned(text::decimal(row.slow as nat), 5) + " ("@ + text::right_aligned(
        f.slow_share@,
        4,
    ) + "% min-share)\n"@
}

/// The lines of the first `n` rows.
pub open spec fn hook_lines(rows: Seq<HookRow>, figures: Seq<RowFigures>, n: int) -> Seq<char>
    decreases n,
{
    if n <= 0 {
        seq![]
    } else {
        hook_lines(rows, figures, n - 1) + hook_line(rows[n - 1], figures[n - 1])
    }
}

/// What the rows come to, as counters wrap.
pub open spec fn rows_calls(rows: Seq<HookRow>, n: int) -> u64
    decreases n,
{
    if n <= 0 {
        0
    } else {
        rows_calls(rows, n - 1).wrapping_add(rows[n - 1].calls)
    }
}

/// The calls under a managed root that the rows come to, as counters wrap.
pub open spec fn rows_rooted(rows: Seq<HookRow>, n: int) -> u64
    decreases n,
{
    if n <= 0 {
        0
    } else {
        rows_rooted(rows, n - 1).wrapping_add(rows[n - 1].rooted)
    }
}

/// The table of entry points: a line for each that was called, and their total.
pub open spec fn table_text(
    pid: u32,
    rows: Seq<HookRow>,
    figures: Seq<RowFigures>,
    total: TotalFigures,
) -> Seq<char> {
    "vfs-shim hook stats (pid "@ + text::decimal(pid as nat) + ")\n"@ + hook_lines(
        rows,
        figures,
        rows.len() as int,
    ) + "  "@ + text::left_aligned("TOTAL"@, 28) + " "@ + text::right_aligned(
        text::decimal(rows_calls(rows, rows.len() as int) as nat),
        9,
    ) + " calls  "@ + text::right_aligned(total.seconds@, 8) + "s  "@ + text::right_aligned(
        total.per_call@,
        7,
    ) + " us/call  rooted "@ + text::right_aligned(
        text::decimal(rows_rooted(rows, rows.len() as int) as nat),
        7,
    ) + " ("@ + text::right_aligned(total.rooted_share@, 4) + "%)\n"@
}

/// [`hook_line`], appended to `out`.
fn push_hook_line(out: &mut String, row: &HookRow, f: &RowFigures)
    ensures
        final(out)@ == old(out)@ + hook_line(*row, *f),
{
    let ghost start = out@;
    out.append("  ");
    text::push_left(out, row.hook.label(), 28);
    out.append(" ");
    push_number(out, row.calls, 7);
    out.append(" calls ");
    text::push_right(out, f.seconds.as_str(), 8);
    out.append("s ");
    text::push_right(out, f.per_call.as_str(), 8);
    out.append(" us/call  max ");
    text::push_right(out, f.longest.as_str(), 8);
    out.append("ms  >1ms ");
    push_number(out, row.slow, 5);
    out.append(" (");
    text::push_right(out, f.slow_share.as_str(), 4);
    out.append("% min-share)\n");
    assert(out@ =~= start + hook_line(*row, *f));
}

/// [`table_text`] of a snapshot; `figures` belong to [`hook_rows`] of it, in order.
pub fn render(snap: &Snapshot, pid: u32, figures: &[RowFigures], total: &TotalFigures) -> (out:
    String)
    requires
        figures@.len() == hook_rows_upto(snap@, hookstats::HOOKS as int).len(),
    ensures
        out@ == table_text(
            pid,
            hook_rows_upto(snap@, hookstats::HOOKS as int),
            figures@,
            *total,
        ),
{
    let rows = hook_rows(snap);
    let mut out = "vfs-shim hook stats (pid ".to_owned();
    text::push_decimal(&mut out, pid as u128);
    out.append(")\n");
    let ghost head = out@;
    let mut calls: u64 = 0;
    let mut rooted: u64 = 0;
    let mut i: usize = 0;
    assert(out@ =~= head + hook_lines(rows@, figures@, 0));
    while i < rows.len()
        invariant
            i <= rows@.len(),
            figures@.len() == rows@.len(),
            out@ == head + hook_lines(rows@, figures@, i as int),
            calls == rows_calls(rows@, i as int),
            rooted == rows_rooted(rows@, i as int),
        decreases rows@.len() - i,
    {
        let ghost before = out@;
        push_hook_line(&mut out, &rows[i], &figures[i]);
        calls = calls.wrapping_add(rows[i].calls);
        rooted = rooted.wrapping_add(rows[i].rooted);
        assert(out@ =~= head + hook_lines(rows@, figures@, i + 1));
        i = i + 1;
    }
    out.append("  ");
    text::push_left(&mut out, "TOTAL", 28);
    out.append(" ");
    push_number(&mut out, calls, 9);
    out.append(" calls  ");
    text::push_right(&mut out, total.seconds.as_str(), 8);
    out.append("s  ");
    text::push_right(&mut out, total.per_call.as_str(), 7);
    out.append(" us/call  rooted ");
    push_number(&mut out, rooted, 7);
    out.append(" (");
    text::push_right(&mut out, total.rooted_share.as_str(), 4);
    out.append("%)\n");
    out
}

/// The whole report: the first line, the table of entry points, and every section.
pub open spec fn report_text(
    c: hookstats::SnapshotView,
    elapsed: Seq<char>,
    table: Seq<char>,
    seconds: Seq<char>,
    slowest: Seq<char>,
) -> Seq<char> {
    banner_text(elapsed) + table + async_section(c) + fills_section(c, seconds, slowest)
        + stats_section(c.stats) + trace_section(c.trace) + undecodable_section(c.undecodable)
        + readdirs_section(c.readdirs) + paths_section(c.passthrough) + setinfo_section(
        c.setinfo_noop,
    ) + locks_section(c.synth_locks) + outcomes_section(c) + copy_ups_section(c)
        + overlay_section(c)
}

/// [`report_text`]. `table` is the text of the table of entry points.
pub fn render_report(
    snap: &Snapshot,
    elapsed: &str,
    table: &str,
    seconds: &str,
    slowest: &str,
) -> (s: String)
    requires
        snap.wf(),
    ensures
        s@ == report_text(snap@, elapsed@, table@, seconds@, slowest@),
{
    let mut s = banner(elapsed);
    s.append(table);
    s.append(render_async(snap).as_str());
    s.append(render_fills(snap, seconds, slowest).as_str());
    s.append(render_stats(snap).as_str());
    s.append(render_trace(snap).as_str());
    s.append(render_undecodable(snap).as_str());
    s.append(render_readdirs(snap).as_str());
    s.append(render_passthrough(snap).as_str());
    s.append(render_setinfo_noop(snap).as_str());
    s.append(render_synth_locks(snap).as_str());
    s.append(render_outcomes(snap).as_str());
    s.append(render_copy_ups(snap).as_str());
    s.append(render_overlay_fails(snap).as_str());
    s
}

proof fn lemma_counts_sum_zero(counts: Seq<u64>, n: int)
    requires
        0 <= n <= counts.len(),
    ensures
        counts_sum(counts, n) >= 0,
        counts_sum(counts, n) == 0 <==> forall|i: int| 0 <= i < n ==> counts[i] == 0,
    decreases n,
{
    if n > 0 {
        lemma_counts_sum_zero(counts, n - 1);
    }
}

/// An absent section of overlay changes means that none was tried at all, and an absent section
/// of copy-ups that none was tried: neither is confused with every one of them having worked.
pub proof fn law_absent_section_means_nothing_happened(c: hookstats::SnapshotView)
    requires
        c.overlay_fail_counts.len() == hookstats::OVERLAY_FAILS,
        c.copy_up_counts.len() == hookstats::COPY_UPS,
    ensures
        overlay_section(c) == Seq::<char>::empty() <==> forall|i: int|
            0 <= i < hookstats::OVERLAY_FAILS ==> c.overlay_fail_counts[i] == 0,
        copy_ups_section(c) == Seq::<char>::empty() <==> forall|i: int|
            0 <= i < hookstats::COPY_UPS ==> c.copy_up_counts[i] == 0,
{
    lemma_counts_sum_zero(c.overlay_fail_counts, 6);
    lemma_counts_sum_zero(c.copy_up_counts, 7);
    reveal_strlit("\nshim-local overlay failures (");
    reveal_strlit("\ncopy-on-write copy-ups (");
    assert(counts_sum(c.overlay_fail_counts, 6) != 0 ==> overlay_section(c).len() > 0);
    assert(counts_sum(c.copy_up_counts, 7) != 0 ==> copy_ups_section(c).len() > 0);
}

/// A quotient is rounded to the nearest, and to the even one where it lies between two.
pub proof fn law_quotients_are_rounded_to_the_nearest(a: int, b: int)
    requires
        a >= 0,
        b > 0,
    ensures
        2 * (half_even(a, b) * b - a) <= b,
        2 * (a - half_even(a, b) * b) <= b,
        2 * (half_even(a, b) * b - a) == b || 2 * (a - half_even(a, b) * b) == b ==> half_even(a, b)
            % 2 == 0,
{
    let q = a / b;
    let r = a % b;
    vstd::arithmetic::div_mod::lemma_fundamental_div_mod(a, b);
    assert(b * q == q * b) by (nonlinear_arith);
    assert((q + 1) * b == q * b + b) by (nonlinear_arith);
}

/// Sizes below 8 PiB are shown in tenths of a mebibyte, rounded to the nearest.
pub proof fn law_sizes_are_shown_in_mebibytes(n: u64)
    requires
        n < 0x20_0000_0000_0000,
    ensures
        2 * (mebibyte_tenths(n as int) * 0x10_0000 - 10 * n) <= 0x10_0000,
        2 * (10 * n - mebibyte_tenths(n as int) * 0x10_0000) <= 0x10_0000,
{
    assert(grain(n as int, 1, 11) == 1);
    assert(half_even(n as int, 1) == n);
    law_quotients_are_rounded_to_the_nearest(10 * n, 0x10_0000);
}

/// Rows are listed one line each, in their order: the lines of two lists are the lines of the
/// one behind the other.
pub proof fn law_rows_are_listed_line_by_line(
    lead: Seq<char>,
    width: int,
    first: Seq<tally::RowView>,
    second: Seq<tally::RowView>,
    row: tally::RowView,
)
    ensures
        row_lines(lead, width, first + second) == row_lines(lead, width, first) + row_lines(
            lead,
            width,
            second,
        ),
        row_lines(lead, width, seq![row]) == lead + text::right_aligned(
            text::decimal(row.count as nat),
            width,
        ) + "x  "@ + row.key + "\n"@,
    decreases second.len(),
{
    if second.len() == 0 {
        assert(first + second =~= first);
        assert(row_lines(lead, width, first) + row_lines(lead, width, second) =~= row_lines(
            lead,
            width,
            first,
        ));
    } else {
        law_rows_are_listed_line_by_line(lead, width, first, second.drop_last(), row);
        assert((first + second).drop_last() =~= first + second.drop_last());
        assert((first + second).last() == second.last());
        assert(row_lines(lead, width, first + second) =~= row_lines(lead, width, first)
            + row_lines(lead, width, second));
    }
    assert(seq![row].drop_last() =~= Seq::<tally::RowView>::empty());
    assert(row_lines(lead, width, Seq::<tally::RowView>::empty()) == Seq::<char>::empty());
    assert(row_lines(lead, width, seq![row]) =~= row_line(lead, width, row));
}

/// Every counter is shown under its own name.
pub proof fn law_labels_stand_at_their_counters(
    hook: Hook,
    outcome: OpenOutcome,
    copy: CopyUp,
    fail: OverlayFail,
)
    ensures
        hook_at(hook.spec_index()) == hook,
        outcome_at(outcome.spec_index()) == outcome,
        copy_up_at(copy.spec_index()) == copy,
        overlay_at(fail.spec_index()) == fail,
{
}

proof fn lemma_rows_hold(c: hookstats::SnapshotView, i: int, n: int)
    requires
        0 <= i < n <= 18,
        c.calls[i] > 0,
    ensures
        hook_rows_upto(c, n).contains(hook_row(c, i)),
    decreases n,
{
    let rows = hook_rows_upto(c, n);
    let before = hook_rows_upto(c, n - 1);
    if i < n - 1 {
        lemma_rows_hold(c, i, n - 1);
        let k = choose|k: int| 0 <= k < before.len() && before[k] == hook_row(c, i);
        assert(rows[k] == hook_row(c, i));
    } else {
        assert(rows[before.len() as int] == hook_row(c, i));
    }
}

/// Every entry point that was called has a row with its own counters; an entry point that was
/// not called has none.
pub proof fn law_every_called_entry_point_has_its_row(c: hookstats::SnapshotView, hook: Hook)
    ensures
        ({
            let i = hook.spec_index();
            c.calls[i] > 0 ==> hook_rows_upto(c, 18).contains(
                HookRow {
                    hook,
                    calls: c.calls[i],
                    nanos: c.nanos[i],
                    rooted: c.rooted[i],
                    max_nanos: c.max_nanos[i],
                    slow: c.slow[i],
                },
            )
        }),
        forall|k: int|
            0 <= k < hook_rows_upto(c, 18).len() ==> (#[trigger] hook_rows_upto(c, 18)[k]).calls
                > 0,
{
    let i = hook.spec_index();
    law_labels_stand_at_their_counters(
        hook,
        OpenOutcome::Routed,
        CopyUp::Seeded,
        OverlayFail::EnsureParent,
    );
    if c.calls[i] > 0 {
        lemma_rows_hold(c, i, 18);
    }
    lemma_rows_were_called(c, 18);
}

proof fn lemma_rows_were_called(c: hookstats::SnapshotView, n: int)
    ensures
        forall|k: int|
            0 <= k < hook_rows_upto(c, n).len() ==> (#[trigger] hook_rows_upto(c, n)[k]).calls > 0,
    decreases n,
{
    if n > 0 {
        lemma_rows_were_called(c, n - 1);
        let before = hook_rows_upto(c, n - 1);
        assert forall|k: int| 0 <= k < hook_rows_upto(c, n).len() implies (#[trigger] hook_rows_upto(
            c,
            n,
        )[k]).calls > 0 by {
            if k < before.len() {
                assert(hook_rows_upto(c, n)[k] == before[k]);
            }
        }
    }
}

/// The totals take in every row once, and nothing else.
pub proof fn law_totals_take_in_every_row(rows: Seq<HookRow>, n: int)
    requires
        0 <= n < rows.len(),
    ensures
        rows_calls(rows, 0) == 0 && rows_rooted(rows, 0) == 0,
        rows_calls(rows, n + 1) == rows_calls(rows, n).wrapping_add(rows[n].calls),
        rows_rooted(rows, n + 1) == rows_rooted(rows, n).wrapping_add(rows[n].rooted),
{
}

/// Classes are listed with the most frequent first, and equally frequent ones by number.
pub proof fn law_the_most_frequent_class_comes_first(rows: Seq<ClassCount>, i: int, j: int)
    requires
        0 <= i < j < rows.len(),
    ensures
        ({
            let s = sorted_classes(rows);
            &&& s.len() == rows.len()
            &&& s[i].count > s[j].count || (s[i].count == s[j].count && s[i].class <= s[j].class)
        }),
{
    law_classes_are_sorted(rows);
    let s = sorted_classes(rows);
    assert(!class_before(s[j], s[i]));
}

} // verus!

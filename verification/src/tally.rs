//! Counted keys: a bounded table of texts with a count each, and its two orders of report.

use crate::text;
use vstd::prelude::*;
use vstd::string::*;

verus! {

/// A key and its count.
pub struct Row {
    pub key: String,
    pub count: u64,
}

/// A key and its count, as values.
pub struct RowView {
    pub key: Seq<char>,
    pub count: u64,
}

impl View for Row {
    type V = RowView;

    open spec fn view(&self) -> RowView {
        RowView { key: self.key@, count: self.count }
    }
}

/// The values of rows.
pub open spec fn rows_view(v: Seq<Row>) -> Seq<RowView> {
    v.map_values(|r: Row| r@)
}

/// Counted keys, in the order in which they were first seen.
pub struct Tally {
    pub rows: Vec<Row>,
}

/// The position of `key`, or the number of rows where it is not there.
pub open spec fn key_index(rows: Seq<RowView>, key: Seq<char>) -> int
    decreases rows.len(),
{
    if rows.len() == 0 || rows[0].key == key {
        0
    } else {
        1 + key_index(rows.skip(1), key)
    }
}

/// The rows after `key` was seen once more: a known key counts up; a new one is learned while
/// there are fewer than `cap` rows.
pub open spec fn bumped(rows: Seq<RowView>, key: Seq<char>, cap: int) -> Seq<RowView> {
    let i = key_index(rows, key);
    if i < rows.len() {
        rows.update(i, RowView { count: rows[i].count.wrapping_add(1), ..rows[i] })
    } else if rows.len() < cap {
        rows.push(RowView { key, count: 1 })
    } else {
        rows
    }
}

/// The rows after `key` was seen once more, where every new key is learned.
pub open spec fn learned(rows: Seq<RowView>, key: Seq<char>) -> Seq<RowView> {
    bumped(rows, key, rows.len() as int + 1)
}

/// The count of `key`; zero where it was never seen.
pub open spec fn count_in(rows: Seq<RowView>, key: Seq<char>) -> u64 {
    let i = key_index(rows, key);
    if i < rows.len() {
        rows[i].count
    } else {
        0
    }
}

/// Whether no key occurs twice.
pub open spec fn distinct_keys(rows: Seq<RowView>) -> bool {
    forall|i: int, j: int| 0 <= i < j < rows.len() ==> rows[i].key != rows[j].key
}

/// The sum of all counts, as the counters keep it.
pub open spec fn total(rows: Seq<RowView>) -> int
    decreases rows.len(),
{
    if rows.len() == 0 {
        0
    } else {
        total(rows.drop_last()) + rows.last().count
    }
}

proof fn lemma_key_index(rows: Seq<RowView>, key: Seq<char>)
    ensures
        0 <= key_index(rows, key) <= rows.len(),
        key_index(rows, key) < rows.len() ==> rows[key_index(rows, key)].key == key,
        forall|k: int| 0 <= k < key_index(rows, key) ==> rows[k].key != key,
    decreases rows.len(),
{
    if rows.len() > 0 && rows[0].key != key {
        lemma_key_index(rows.skip(1), key);
        let j = key_index(rows.skip(1), key);
        if j < rows.skip(1).len() {
            assert(rows[j + 1] == rows.skip(1)[j]);
        }
        assert forall|k: int| 0 <= k < key_index(rows, key) implies rows[k].key != key by {
            if k > 0 {
                assert(rows[k] == rows.skip(1)[k - 1]);
            }
        }
    }
}

proof fn lemma_key_index_is(rows: Seq<RowView>, key: Seq<char>, i: int)
    requires
        0 <= i <= rows.len(),
        i < rows.len() ==> rows[i].key == key,
        forall|k: int| 0 <= k < i ==> rows[k].key != key,
    ensures
        key_index(rows, key) == i,
{
    lemma_key_index(rows, key);
    let j = key_index(rows, key);
    if j < i {
        assert(rows[j].key != key);
    }
    if i < j {
        assert(rows[i].key != key);
    }
}

/// Seeing a key keeps every key distinct, never forgets one, stays within the limit, and counts
/// exactly that key: a known key counts on even where no new key is learned any more.
pub proof fn law_bumping(rows: Seq<RowView>, key: Seq<char>, other: Seq<char>, cap: int)
    requires
        distinct_keys(rows),
        rows.len() <= cap,
    ensures
        distinct_keys(bumped(rows, key, cap)),
        rows.len() <= bumped(rows, key, cap).len() <= cap,
        key_index(rows, key) < rows.len() || rows.len() < cap ==> count_in(
            bumped(rows, key, cap),
            key,
        ) == count_in(rows, key).wrapping_add(1),
        other != key ==> count_in(bumped(rows, key, cap), other) == count_in(rows, other),
{
    let now = bumped(rows, key, cap);
    lemma_key_index(rows, key);
    lemma_key_index(rows, other);
    let i = key_index(rows, key);
    if i < rows.len() {
        lemma_key_index_is(now, key, i);
        if other != key {
            let j = key_index(rows, other);
            lemma_key_index_is(now, other, j);
        }
    } else if rows.len() < cap {
        lemma_key_index_is(now, key, rows.len() as int);
        if other != key {
            let j = key_index(rows, other);
            lemma_key_index_is(
                now,
                other,
                if j < rows.len() {
                    j
                } else {
                    now.len() as int
                },
            );
        }
    }
}

impl Tally {
    /// The rows.
    pub open spec fn view_rows(self) -> Seq<RowView> {
        rows_view(self.rows@)
    }

    /// No row.
    pub fn new() -> (t: Tally)
        ensures
            t.view_rows() == Seq::<RowView>::empty(),
    {
        let t = Tally { rows: Vec::new() };
        assert(t.view_rows() =~= Seq::<RowView>::empty());
        t
    }

    /// The same rows again.
    pub fn copy(&self) -> (t: Tally)
        ensures
            t.view_rows() == self.view_rows(),
    {
        let mut rows: Vec<Row> = Vec::new();
        let mut i: usize = 0;
        while i < self.rows.len()
            invariant
                i <= self.rows@.len(),
                rows@.len() == i,
                forall|k: int| 0 <= k < i ==> rows@[k]@ == self.rows@[k]@,
            decreases self.rows@.len() - i,
        {
            rows.push(Row { key: self.rows[i].key.clone(), count: self.rows[i].count });
            i = i + 1;
        }
        let t = Tally { rows };
        assert(t.view_rows() =~= self.view_rows());
        t
    }

    /// [`key_index`].
    fn find(&self, key: &str) -> (i: usize)
        ensures
            i == key_index(self.view_rows(), key@),
            i <= self.rows@.len(),
    {
        let mut i: usize = 0;
        while i < self.rows.len()
            invariant
                i <= self.rows@.len(),
                forall|k: int| 0 <= k < i ==> self.view_rows()[k].key != key@,
            decreases self.rows@.len() - i,
        {
            if text::same_text(self.rows[i].key.as_str(), key) {
                proof {
                    lemma_key_index_is(self.view_rows(), key@, i as int);
                }
                return i;
            }
            i = i + 1;
        }
        proof {
            lemma_key_index_is(self.view_rows(), key@, i as int);
        }
        i
    }

    /// [`bumped`].
    pub fn bump(&mut self, key: &str, cap: usize)
        ensures
            final(self).view_rows() == bumped(old(self).view_rows(), key@, cap as int),
    {
        let i: usize = self.find(key);
        let ghost before = self.view_rows();
        if i < self.rows.len() {
            let count: u64 = self.rows[i].count.wrapping_add(1);
            let k = self.rows[i].key.clone();
            self.rows.set(i, Row { key: k, count });
            assert(self.view_rows() =~= bumped(before, key@, cap as int));
        } else if self.rows.len() < cap {
            self.rows.push(Row { key: key.to_owned(), count: 1 });
            assert(self.view_rows() =~= bumped(before, key@, cap as int));
        }
    }

    /// [`learned`].
    pub fn learn(&mut self, key: &str)
        ensures
            final(self).view_rows() == learned(old(self).view_rows(), key@),
    {
        let i: usize = self.find(key);
        let ghost before = self.view_rows();
        if i < self.rows.len() {
            let count: u64 = self.rows[i].count.wrapping_add(1);
            let k = self.rows[i].key.clone();
            self.rows.set(i, Row { key: k, count });
        } else {
            self.rows.push(Row { key: key.to_owned(), count: 1 });
        }
        assert(self.view_rows() =~= learned(before, key@));
    }

    /// [`count_in`].
    pub fn count(&self, key: &str) -> (c: u64)
        ensures
            c == count_in(self.view_rows(), key@),
    {
        let i: usize = self.find(key);
        if i < self.rows.len() {
            self.rows[i].count
        } else {
            0
        }
    }

    /// The sum of all counts.
    pub fn sum(&self) -> (c: u128)
        ensures
            c == total(self.view_rows()),
    {
        let ghost all = self.view_rows();
        let mut c: u128 = 0;
        let mut i: usize = 0;
        while i < self.rows.len()
            invariant
                i <= self.rows@.len(),
                all == self.view_rows(),
                c == total(all.take(i as int)),
                c <= i * 0xffff_ffff_ffff_ffff,
            decreases self.rows@.len() - i,
        {
            assert(all.take(i + 1).drop_last() =~= all.take(i as int));
            assert(i * 0xffff_ffff_ffff_ffff + 0xffff_ffff_ffff_ffff <= u128::MAX)
                by (nonlinear_arith)
                requires
                    i < 0xffff_ffff_ffff_ffff,
            ;
            c = c + self.rows[i].count as u128;
            i = i + 1;
        }
        assert(all.take(i as int) =~= all);
        c
    }
}

// ---------------------------------------------------------------------------------------
// Orders of report.

/// Whether `a` comes before `b` in the order of characters.
pub open spec fn text_before(a: Seq<char>, b: Seq<char>) -> bool
    decreases a.len(),
{
    if b.len() == 0 {
        false
    } else if a.len() == 0 {
        true
    } else {
        a[0] < b[0] || (a[0] == b[0] && text_before(a.skip(1), b.skip(1)))
    }
}

/// The two orders of report.
#[derive(Clone, Copy, PartialEq, Eq, Structural)]
pub enum RowOrder {
    /// By key.
    ByKey,
    /// The highest count first; equal counts by key, so that two reports can be compared.
    BusiestFirst,
}

/// Whether row `a` comes before row `b`.
pub open spec fn row_before(order: RowOrder, a: RowView, b: RowView) -> bool {
    match order {
        RowOrder::ByKey => text_before(a.key, b.key),
        RowOrder::BusiestFirst => a.count > b.count || (a.count == b.count && text_before(
            a.key,
            b.key,
        )),
    }
}

/// Sorted rows with one more row in its place.
pub open spec fn with_row(order: RowOrder, s: Seq<RowView>, row: RowView) -> Seq<RowView>
    decreases s.len(),
{
    if s.len() == 0 || !row_before(order, row, s.last()) {
        s.push(row)
    } else {
        with_row(order, s.drop_last(), row).push(s.last())
    }
}

/// The rows in order.
pub open spec fn sorted_rows(order: RowOrder, rows: Seq<RowView>) -> Seq<RowView>
    decreases rows.len(),
{
    if rows.len() == 0 {
        seq![]
    } else {
        with_row(order, sorted_rows(order, rows.drop_last()), rows.last())
    }
}

/// Whether no row stands in front of one that comes before it.
pub open spec fn in_order(order: RowOrder, s: Seq<RowView>) -> bool {
    forall|i: int, j: int| 0 <= i < j < s.len() ==> !row_before(order, s[j], s[i])
}

pub proof fn lemma_text_before_total(a: Seq<char>, b: Seq<char>)
    ensures
        text_before(a, b) || text_before(b, a) || a == b,
        !(text_before(a, b) && text_before(b, a)),
        !text_before(a, a),
    decreases a.len(),
{
    if a.len() > 0 {
        lemma_text_before_total(a.skip(1), a.skip(1));
    }
    if a.len() > 0 && b.len() > 0 {
        lemma_text_before_total(a.skip(1), b.skip(1));
        if a[0] == b[0] && a.skip(1) == b.skip(1) {
            assert(a =~= seq![a[0]] + a.skip(1));
            assert(b =~= seq![b[0]] + b.skip(1));
        }
    } else if a.len() == 0 && b.len() == 0 {
        assert(a =~= b);
    }
}

pub proof fn lemma_text_before_trans(a: Seq<char>, b: Seq<char>, c: Seq<char>)
    requires
        text_before(a, b),
        text_before(b, c),
    ensures
        text_before(a, c),
    decreases a.len(),
{
    if a.len() > 0 && a[0] == b[0] && b[0] == c[0] {
        lemma_text_before_trans(a.skip(1), b.skip(1), c.skip(1));
    }
}

/// If `c` is not before `b` and `b` is not before `a`, `c` is not before `a`.
proof fn lemma_row_order(order: RowOrder, a: RowView, b: RowView, c: RowView)
    ensures
        !row_before(order, b, a) && !row_before(order, c, b) ==> !row_before(order, c, a),
        !(row_before(order, a, b) && row_before(order, b, a)),
{
    lemma_text_before_total(a.key, b.key);
    lemma_text_before_total(b.key, c.key);
    lemma_text_before_total(a.key, c.key);
    if text_before(c.key, a.key) && text_before(a.key, b.key) {
        lemma_text_before_trans(c.key, a.key, b.key);
    }
    if text_before(c.key, a.key) && text_before(b.key, c.key) {
        lemma_text_before_trans(b.key, c.key, a.key);
    }
}

proof fn lemma_with_row(order: RowOrder, s: Seq<RowView>, row: RowView)
    requires
        in_order(order, s),
    ensures
        in_order(order, with_row(order, s, row)),
        with_row(order, s, row).to_multiset() == s.to_multiset().insert(row),
        with_row(order, s, row).len() == s.len() + 1,
    decreases s.len(),
{
    broadcast use vstd::seq_lib::group_to_multiset_ensures;

    let out = with_row(order, s, row);
    if s.len() == 0 || !row_before(order, row, s.last()) {
        assert forall|i: int, j: int| 0 <= i < j < out.len() implies !row_before(
            order,
            out[j],
            out[i],
        ) by {
            if j == s.len() {
                lemma_row_order(order, s[i], s.last(), row);
                if i == s.len() - 1 {
                } else {
                    assert(!row_before(order, s[s.len() - 1], s[i]));
                }
            }
        }
        assert(s.push(row).to_multiset() =~= s.to_multiset().insert(row));
    } else {
        let init = s.drop_last();
        lemma_with_row(order, init, row);
        let placed = with_row(order, init, row);
        assert(init.push(s.last()) =~= s);
        assert(s.to_multiset() =~= init.to_multiset().insert(s.last()));
        assert(out.to_multiset() =~= placed.to_multiset().insert(s.last()));
        assert(out.to_multiset() =~= s.to_multiset().insert(row));
        assert forall|i: int, j: int| 0 <= i < j < out.len() implies !row_before(
            order,
            out[j],
            out[i],
        ) by {
            if j == out.len() - 1 {
                let x = placed[i];
                assert(placed.to_multiset().contains(x)) by {
                    assert(placed.contains(x));
                }
                assert(init.to_multiset().insert(row).contains(x));
                if x == row {
                    lemma_row_order(order, row, s.last(), row);
                } else {
                    assert(init.to_multiset().contains(x));
                    assert(init.contains(x));
                    let k = choose|k: int| 0 <= k < init.len() && init[k] == x;
                    assert(!row_before(order, s[s.len() - 1], s[k]));
                }
            } else {
                assert(out[i] == placed[i] && out[j] == placed[j]);
            }
        }
    }
}

/// A report lists every row exactly once, and in order: with the busiest first, no row stands
/// behind one with a lower count, and rows of equal count stand in the order of their keys.
pub proof fn law_reports_are_sorted(order: RowOrder, rows: Seq<RowView>)
    ensures
        in_order(order, sorted_rows(order, rows)),
        sorted_rows(order, rows).to_multiset() == rows.to_multiset(),
        sorted_rows(order, rows).len() == rows.len(),
    decreases rows.len(),
{
    broadcast use vstd::seq_lib::group_to_multiset_ensures;

    if rows.len() > 0 {
        let init = rows.drop_last();
        law_reports_are_sorted(order, init);
        lemma_with_row(order, sorted_rows(order, init), rows.last());
        assert(init.push(rows.last()) =~= rows);
        assert(rows.to_multiset() =~= init.to_multiset().insert(rows.last()));
    } else {
        assert(sorted_rows(order, rows) =~= rows);
    }
}

/// [`text_before`].
pub fn is_text_before(a: &str, b: &str) -> (r: bool)
    ensures
        r == text_before(a@, b@),
{
    let x = text::chars_of(a);
    let y = text::chars_of(b);
    let mut i: usize = 0;
    assert(x@.skip(0) =~= x@);
    assert(y@.skip(0) =~= y@);
    while i < x.len() && i < y.len()
        invariant
            x@ == a@,
            y@ == b@,
            i <= x@.len(),
            i <= y@.len(),
            text_before(a@, b@) == text_before(a@.skip(i as int), b@.skip(i as int)),
        decreases x@.len() - i,
    {
        assert(a@.skip(i as int)[0] == x@[i as int]);
        assert(b@.skip(i as int)[0] == y@[i as int]);
        assert(a@.skip(i as int).skip(1) =~= a@.skip(i + 1));
        assert(b@.skip(i as int).skip(1) =~= b@.skip(i + 1));
        if x[i] < y[i] {
            return true;
        }
        if x[i] > y[i] {
            return false;
        }
        i = i + 1;
    }
    i < y.len()
}

/// [`row_before`].
fn is_row_before(order: RowOrder, a: &Row, b: &Row) -> (r: bool)
    ensures
        r == row_before(order, a@, b@),
{
    match order {
        RowOrder::ByKey => is_text_before(a.key.as_str(), b.key.as_str()),
        RowOrder::BusiestFirst => a.count > b.count || (a.count == b.count && is_text_before(
            a.key.as_str(),
            b.key.as_str(),
        )),
    }
}

proof fn lemma_with_row_at(order: RowOrder, s: Seq<RowView>, row: RowView, j: int)
    requires
        0 <= j <= s.len(),
        forall|k: int| j <= k < s.len() ==> row_before(order, row, s[k]),
        j > 0 ==> !row_before(order, row, s[j - 1]),
    ensures
        with_row(order, s, row) == s.insert(j, row),
    decreases s.len(),
{
    if j < s.len() {
        lemma_with_row_at(order, s.drop_last(), row, j);
        assert(s.drop_last().insert(j, row).push(s.last()) =~= s.insert(j, row));
    } else {
        assert(s.push(row) =~= s.insert(j, row));
    }
}

/// [`sorted_rows`].
pub fn sort_rows(order: RowOrder, rows: &[Row]) -> (out: Vec<Row>)
    ensures
        rows_view(out@) == sorted_rows(order, rows_view(rows@)),
        out@.len() == rows@.len(),
{
    let ghost all = rows_view(rows@);
    let mut out: Vec<Row> = Vec::new();
    let mut i: usize = 0;
    assert(rows_view(out@) =~= sorted_rows(order, all.take(0)));
    while i < rows.len()
        invariant
            i <= rows@.len(),
            all == rows_view(rows@),
            out@.len() == i,
            rows_view(out@) == sorted_rows(order, all.take(i as int)),
        decreases rows@.len() - i,
    {
        let row = Row { key: rows[i].key.clone(), count: rows[i].count };
        let mut j: usize = out.len();
        while j > 0 && is_row_before(order, &row, &out[j - 1])
            invariant
                j <= out@.len(),
                forall|k: int| j <= k < out@.len() ==> row_before(order, row@, rows_view(out@)[k]),
            decreases j,
        {
            j = j - 1;
        }
        proof {
            lemma_with_row_at(order, rows_view(out@), row@, j as int);
            assert(all.take(i + 1).drop_last() =~= all.take(i as int));
            assert(all.take(i + 1).last() == row@);
        }
        let ghost before = rows_view(out@);
        out.insert(j, row);
        assert(rows_view(out@) =~= before.insert(j as int, row@));
        i = i + 1;
    }
    assert(all.take(i as int) =~= all);
    out
}

/// Texts are ordered as in a dictionary: by the first character in which they differ, and a
/// text stands before those that it begins.
pub proof fn law_texts_are_ordered_by_their_first_difference(
    a: Seq<char>,
    x: char,
    b: Seq<char>,
    y: char,
    c: Seq<char>,
)
    ensures
        x < y ==> text_before(a + seq![x] + b, a + seq![y] + c),
        x > y ==> !text_before(a + seq![x] + b, a + seq![y] + c),
        text_before(a, a + seq![x] + b),
        !text_before(a + seq![x] + b, a),
        !text_before(a, a),
    decreases a.len(),
{
    let p = a + seq![x] + b;
    let q = a + seq![y] + c;
    if a.len() > 0 {
        law_texts_are_ordered_by_their_first_difference(a.skip(1), x, b, y, c);
        assert(p.skip(1) =~= a.skip(1) + seq![x] + b);
        assert(q.skip(1) =~= a.skip(1) + seq![y] + c);
        assert(p[0] == a[0] && q[0] == a[0]);
    } else {
        assert(p[0] == x && q[0] == y);
    }
}

/// A report with the busiest first has no row behind one with fewer calls, and rows with as many
/// in the order of their keys; a report by key is in that order altogether.
pub proof fn law_the_busiest_comes_first(rows: Seq<RowView>, i: int, j: int)
    requires
        0 <= i < j < rows.len(),
    ensures
        ({
            let busy = sorted_rows(RowOrder::BusiestFirst, rows);
            let keyed = sorted_rows(RowOrder::ByKey, rows);
            &&& busy.len() == rows.len() && keyed.len() == rows.len()
            &&& busy[i].count >= busy[j].count
            &&& busy[i].count == busy[j].count ==> !text_before(busy[j].key, busy[i].key)
            &&& !text_before(keyed[j].key, keyed[i].key)
        }),
{
    law_reports_are_sorted(RowOrder::BusiestFirst, rows);
    law_reports_are_sorted(RowOrder::ByKey, rows);
    let busy = sorted_rows(RowOrder::BusiestFirst, rows);
    let keyed = sorted_rows(RowOrder::ByKey, rows);
    assert(!row_before(RowOrder::BusiestFirst, busy[j], busy[i]));
    assert(!row_before(RowOrder::ByKey, keyed[j], keyed[i]));
}

/// A key that is not there yet is learned with one call, whatever the number of rows; one that
/// is there has one call more.
pub proof fn law_new_keys_are_learned(rows: Seq<RowView>, key: Seq<char>)
    requires
        distinct_keys(rows),
    ensures
        count_in(learned(rows, key), key) == count_in(rows, key).wrapping_add(1),
        (forall|i: int| 0 <= i < rows.len() ==> (#[trigger] rows[i]).key != key) ==> learned(
            rows,
            key,
        ) == rows.push(RowView { key, count: 1 }),
{
    law_bumping(rows, key, key, rows.len() as int + 1);
    lemma_key_index(rows, key);
}

} // verus!

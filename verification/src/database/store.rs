//! The write disciplines of the sink, as mathematics: what a table holds
//! after a write, and why replaying writes is safe.
//!
//! A table maps a natural key to one row and the height the row was written
//! at. Two disciplines exist. *Insert-if-absent* keeps the stored row and
//! discards the newcomer. *Height-gated upsert* replaces the stored row unless
//! the newcomer is older (its height is smaller).

use vstd::prelude::*;

verus! {

/// A natural key, as mathematics.
pub enum KeyView {
    /// A number: a block height, a proposal id.
    Int(int),
    /// A text: an address, a hash.
    Text(Seq<char>),
    /// A number and a text: a proposal id and a voter, a height and a voter.
    IntText(int, Seq<char>),
    /// The one key of a table that holds a single row.
    Unit,
}

/// A row together with the height it was written at.
pub struct Versioned<R> {
    pub height: int,
    pub row: R,
}

/// How a table resolves a write that meets a stored row.
#[derive(Clone, Copy, Debug, PartialEq, Eq, Structural)]
pub enum Rule {
    /// The stored row stays.
    InsertIfAbsent,
    /// The newcomer replaces the stored row unless it is older.
    HeightGated,
}

/// One write: a key and the versioned row to store under it.
pub struct Write<R> {
    pub key: KeyView,
    pub value: Versioned<R>,
}

/// The model of a table.
pub type TableView<R> = Map<KeyView, Versioned<R>>;

/// Whether a write is discarded by a table in the given state.
pub open spec fn discards<R>(rule: Rule, table: TableView<R>, w: Write<R>) -> bool {
    table.contains_key(w.key) && (rule is InsertIfAbsent || w.value.height < table[w.key].height)
}

/// The table after one write.
pub open spec fn put<R>(rule: Rule, table: TableView<R>, w: Write<R>) -> TableView<R> {
    if discards(rule, table, w) {
        table
    } else {
        table.insert(w.key, w.value)
    }
}

/// The table after a sequence of writes, applied first to last.
pub open spec fn replay<R>(rule: Rule, table: TableView<R>, writes: Seq<Write<R>>) -> TableView<R>
    decreases writes.len(),
{
    if writes.len() == 0 {
        table
    } else {
        put(rule, replay(rule, table, writes.drop_last()), writes.last())
    }
}

/// Two writes that may meet in a table agree: under insert-if-absent, writes
/// to one key carry one row; under the height gate, writes to one key at one
/// height carry one row.
pub open spec fn agree<R>(rule: Rule, a: Write<R>, b: Write<R>) -> bool {
    a.key == b.key && (rule is InsertIfAbsent || a.value.height == b.value.height) ==> a.value
        == b.value
}

/// The stored row under a key, as the write that would have put it there.
pub open spec fn stored<R>(table: TableView<R>, key: KeyView) -> Write<R> {
    Write { key, value: table[key] }
}

/// All writes of a sequence agree pairwise, and with what the table holds.
pub open spec fn coherent<R>(rule: Rule, table: TableView<R>, writes: Seq<Write<R>>) -> bool {
    &&& forall|i: int, j: int|
        0 <= i < writes.len() && 0 <= j < writes.len() ==> agree(
            rule,
            #[trigger] writes[i],
            #[trigger] writes[j],
        )
    &&& forall|i: int|
        0 <= i < writes.len() && table.contains_key((#[trigger] writes[i]).key) ==> agree(
            rule,
            writes[i],
            stored(table, writes[i].key),
        )
}

/// Two sequences hold the same writes, whatever the order and the number of
/// repetitions.
pub open spec fn same_writes<R>(a: Seq<Write<R>>, b: Seq<Write<R>>) -> bool {
    &&& forall|i: int| 0 <= i < a.len() ==> b.contains(#[trigger] a[i])
    &&& forall|j: int| 0 <= j < b.len() ==> a.contains(#[trigger] b[j])
}

/// Where a row of the replayed table comes from: the table before, or one
/// of the writes.
pub open spec fn origin<R>(table: TableView<R>, writes: Seq<Write<R>>, w: Write<R>) -> bool {
    (table.contains_key(w.key) && table[w.key] == w.value) || writes.contains(w)
}

/// What a replay leaves: exactly the keys seen, each with a row that was
/// stored before or written, and under the height gate none newer was seen.
pub open spec fn settled<R>(
    rule: Rule,
    table: TableView<R>,
    writes: Seq<Write<R>>,
    result: TableView<R>,
) -> bool {
    &&& forall|k: KeyView| #[trigger]
        result.contains_key(k) ==> origin(table, writes, stored(result, k))
    &&& forall|k: KeyView| #[trigger]
        table.contains_key(k) ==> result.contains_key(k) && (rule is HeightGated
            ==> result[k].height >= table[k].height)
    &&& forall|i: int|
        0 <= i < writes.len() ==> result.contains_key((#[trigger] writes[i]).key) && (rule
            is HeightGated ==> result[writes[i].key].height >= writes[i].value.height)
}

/// A write applied twice leaves what applying it once leaves.
pub proof fn lemma_put_idempotent<R>(rule: Rule, table: TableView<R>, w: Write<R>)
    ensures
        put(rule, put(rule, table, w), w) == put(rule, table, w),
{
    let once = put(rule, table, w);
    if !discards(rule, table, w) {
        assert(once.insert(w.key, w.value) =~= once);
    }
}

/// Under the height gate a stored height never decreases, and a key once
/// stored stays stored under either discipline.
pub proof fn lemma_put_monotone<R>(rule: Rule, table: TableView<R>, w: Write<R>, key: KeyView)
    requires
        table.contains_key(key),
    ensures
        put(rule, table, w).contains_key(key),
        rule is HeightGated ==> put(rule, table, w)[key].height >= table[key].height,
        rule is InsertIfAbsent ==> put(rule, table, w)[key] == table[key],
{
}

/// After a height-gated save at one height, no later save at a smaller
/// height lowers the stored height, nor changes the row.
pub proof fn lemma_older_write_is_discarded<R>(
    table: TableView<R>,
    first: Write<R>,
    second: Write<R>,
)
    requires
        first.key == second.key,
        second.value.height < first.value.height,
    ensures
        put(Rule::HeightGated, put(Rule::HeightGated, table, first), second) == put(
            Rule::HeightGated,
            table,
            first,
        ),
        put(Rule::HeightGated, put(Rule::HeightGated, table, first), second)[first.key].height
            >= first.value.height,
{
}

/// A replay leaves a settled table.
pub proof fn lemma_replay_settled<R>(rule: Rule, table: TableView<R>, writes: Seq<Write<R>>)
    ensures
        settled(rule, table, writes, replay(rule, table, writes)),
    decreases writes.len(),
{
    let result = replay(rule, table, writes);
    if writes.len() == 0 {
        assert forall|k: KeyView| #[trigger] result.contains_key(k) implies origin(
            table,
            writes,
            stored(result, k),
        ) by {}
    } else {
        let before = writes.drop_last();
        let w = writes.last();
        let mid = replay(rule, table, before);
        lemma_replay_settled(rule, table, before);
        assert(result == put(rule, mid, w));
        assert forall|k: KeyView| #[trigger] result.contains_key(k) implies origin(
            table,
            writes,
            stored(result, k),
        ) by {
            if mid.contains_key(k) && result[k] == mid[k] {
                assert(origin(table, before, stored(mid, k)));
                if before.contains(stored(mid, k)) {
                    let i = choose|i: int| 0 <= i < before.len() && before[i] == stored(mid, k);
                    assert(writes[i] == stored(result, k));
                }
            } else {
                assert(k == w.key && result[k] == w.value);
                assert(writes[writes.len() - 1] == stored(result, k));
            }
        }
        assert forall|i: int| 0 <= i < writes.len() implies result.contains_key(
            (#[trigger] writes[i]).key,
        ) && (rule is HeightGated ==> result[writes[i].key].height >= writes[i].value.height) by {
            if i < before.len() {
                assert(before[i] == writes[i]);
                assert(mid.contains_key(before[i].key));
            }
        }
    }
}

/// Replaying the same writes in another order, or some of them again, leaves
/// the same table, provided the writes agree with one another and with what
/// the table held.
pub proof fn lemma_replay_any_order<R>(
    rule: Rule,
    table: TableView<R>,
    a: Seq<Write<R>>,
    b: Seq<Write<R>>,
)
    requires
        same_writes(a, b),
        coherent(rule, table, a),
    ensures
        replay(rule, table, a) == replay(rule, table, b),
{
    let ra = replay(rule, table, a);
    let rb = replay(rule, table, b);
    lemma_replay_settled(rule, table, a);
    lemma_replay_settled(rule, table, b);
    assert forall|k: KeyView| ra.contains_key(k) <==> rb.contains_key(k) by {
        if ra.contains_key(k) {
            lemma_key_kept(rule, table, a, b, ra, rb, k);
        }
        if rb.contains_key(k) {
            lemma_key_kept(rule, table, b, a, rb, ra, k);
        }
    }
    assert forall|k: KeyView| ra.contains_key(k) implies ra[k] == rb[k] by {
        lemma_row_agrees(rule, table, a, b, ra, rb, k);
    }
    assert(ra =~= rb);
}

/// Under insert-if-absent, writes whose keys the table holds already change
/// nothing.
pub proof fn lemma_replay_absorbed<R>(table: TableView<R>, writes: Seq<Write<R>>)
    requires
        forall|i: int| 0 <= i < writes.len() ==> table.contains_key((#[trigger] writes[i]).key),
    ensures
        replay(Rule::InsertIfAbsent, table, writes) == table,
    decreases writes.len(),
{
    if writes.len() > 0 {
        let front = writes.drop_last();
        assert forall|i: int| 0 <= i < front.len() implies table.contains_key(
            (#[trigger] front[i]).key,
        ) by {
            assert(front[i] == writes[i]);
        }
        lemma_replay_absorbed(table, front);
        assert(table.contains_key(writes[writes.len() - 1].key));
    }
}

/// After a replay the table holds the key of every write.
pub proof fn lemma_replay_holds<R>(rule: Rule, table: TableView<R>, writes: Seq<Write<R>>)
    ensures
        forall|i: int|
            0 <= i < writes.len() ==> replay(rule, table, writes).contains_key(
                (#[trigger] writes[i]).key,
            ),
{
    lemma_replay_settled(rule, table, writes);
}

/// Replaying one sequence after another is replaying the two joined.
pub proof fn lemma_replay_concat<R>(
    rule: Rule,
    table: TableView<R>,
    a: Seq<Write<R>>,
    b: Seq<Write<R>>,
)
    ensures
        replay(rule, table, a + b) == replay(rule, replay(rule, table, a), b),
    decreases b.len(),
{
    if b.len() == 0 {
        assert(a + b =~= a);
    } else {
        assert((a + b).drop_last() =~= a + b.drop_last());
        assert((a + b).last() == b.last());
        lemma_replay_concat(rule, table, a, b.drop_last());
    }
}

/// The table after the heights of a list were worked on one after the other,
/// first to last, where `writes_at` gives the writes that the work on a
/// height makes.
pub open spec fn after_heights<R>(
    rule: Rule,
    table: TableView<R>,
    writes_at: spec_fn(int) -> Seq<Write<R>>,
    heights: Seq<int>,
) -> TableView<R>
    decreases heights.len(),
{
    if heights.len() == 0 {
        table
    } else {
        replay(
            rule,
            after_heights(rule, table, writes_at, heights.drop_last()),
            writes_at(heights.last()),
        )
    }
}

/// The writes of the heights of a list, those of each height after those of
/// the heights before it in the list.
pub open spec fn writes_over<R>(writes_at: spec_fn(int) -> Seq<Write<R>>, heights: Seq<int>) -> Seq<
    Write<R>,
>
    decreases heights.len(),
{
    if heights.len() == 0 {
        Seq::empty()
    } else {
        writes_over(writes_at, heights.drop_last()) + writes_at(heights.last())
    }
}

/// Whether the work on height `h` makes the write `w`.
pub open spec fn written_at<R>(writes_at: spec_fn(int) -> Seq<Write<R>>, h: int, w: Write<R>) -> bool {
    writes_at(h).contains(w)
}

/// Two lists hold the same heights, whatever the order and the number of
/// repetitions.
pub open spec fn same_heights(a: Seq<int>, b: Seq<int>) -> bool {
    &&& forall|i: int| 0 <= i < a.len() ==> b.contains(#[trigger] a[i])
    &&& forall|j: int| 0 <= j < b.len() ==> a.contains(#[trigger] b[j])
}

/// Working on heights one after the other is replaying their writes in that
/// order.
pub proof fn lemma_after_heights_is_replay<R>(
    rule: Rule,
    table: TableView<R>,
    writes_at: spec_fn(int) -> Seq<Write<R>>,
    heights: Seq<int>,
)
    ensures
        after_heights(rule, table, writes_at, heights) == replay(
            rule,
            table,
            writes_over(writes_at, heights),
        ),
    decreases heights.len(),
{
    if heights.len() > 0 {
        lemma_after_heights_is_replay(rule, table, writes_at, heights.drop_last());
        lemma_replay_concat(
            rule,
            table,
            writes_over(writes_at, heights.drop_last()),
            writes_at(heights.last()),
        );
    }
}

/// A write is among the writes of a list of heights exactly if the work on
/// one of the heights makes it.
proof fn lemma_writes_over_member<R>(
    writes_at: spec_fn(int) -> Seq<Write<R>>,
    heights: Seq<int>,
    w: Write<R>,
)
    ensures
        writes_over(writes_at, heights).contains(w) <==> exists|i: int|
            0 <= i < heights.len() && #[trigger] written_at(writes_at, heights[i], w),
    decreases heights.len(),
{
    if heights.len() > 0 {
        let front = heights.drop_last();
        let head = writes_over(writes_at, front);
        let tail = writes_at(heights.last());
        lemma_writes_over_member(writes_at, front, w);
        if writes_over(writes_at, heights).contains(w) {
            let at = choose|at: int| 0 <= at < (head + tail).len() && (head + tail)[at] == w;
            if at < head.len() {
                assert(head[at] == w);
                let i = choose|i: int|
                    0 <= i < front.len() && #[trigger] written_at(writes_at, front[i], w);
                assert(written_at(writes_at, heights[i], w));
            } else {
                assert(tail[at - head.len()] == w);
                assert(written_at(writes_at, heights[heights.len() - 1], w));
            }
        }
        if exists|i: int| 0 <= i < heights.len() && #[trigger] written_at(writes_at, heights[i], w) {
            let i = choose|i: int|
                0 <= i < heights.len() && #[trigger] written_at(writes_at, heights[i], w);
            if i < front.len() {
                assert(written_at(writes_at, front[i], w));
                let at = choose|at: int| 0 <= at < head.len() && head[at] == w;
                assert((head + tail)[at] == w);
            } else {
                let k = choose|k: int| 0 <= k < tail.len() && tail[k] == w;
                assert((head + tail)[head.len() + k] == w);
            }
        }
    }
}

/// Working on the same heights in another order, or on some of them again,
/// leaves the same table, provided the writes of the heights agree with one
/// another and with what the table held: under insert-if-absent, writes to
/// one key carry one row; under the height gate, writes to one key at one
/// height carry one row.
pub proof fn lemma_heights_any_order<R>(
    rule: Rule,
    table: TableView<R>,
    writes_at: spec_fn(int) -> Seq<Write<R>>,
    a: Seq<int>,
    b: Seq<int>,
)
    requires
        same_heights(a, b),
        coherent(rule, table, writes_over(writes_at, a)),
    ensures
        after_heights(rule, table, writes_at, a) == after_heights(rule, table, writes_at, b),
{
    let wa = writes_over(writes_at, a);
    let wb = writes_over(writes_at, b);
    lemma_after_heights_is_replay(rule, table, writes_at, a);
    lemma_after_heights_is_replay(rule, table, writes_at, b);
    assert forall|i: int| 0 <= i < wa.len() implies wb.contains(#[trigger] wa[i]) by {
        let w = wa[i];
        lemma_writes_over_member(writes_at, a, w);
        lemma_writes_over_member(writes_at, b, w);
        let h = choose|h: int| 0 <= h < a.len() && #[trigger] written_at(writes_at, a[h], w);
        assert(b.contains(a[h]));
        let g = choose|g: int| 0 <= g < b.len() && b[g] == a[h];
        assert(written_at(writes_at, b[g], w));
    }
    assert forall|j: int| 0 <= j < wb.len() implies wa.contains(#[trigger] wb[j]) by {
        let w = wb[j];
        lemma_writes_over_member(writes_at, a, w);
        lemma_writes_over_member(writes_at, b, w);
        let h = choose|h: int| 0 <= h < b.len() && #[trigger] written_at(writes_at, b[h], w);
        assert(a.contains(b[h]));
        let g = choose|g: int| 0 <= g < a.len() && a[g] == b[h];
        assert(written_at(writes_at, a[g], w));
    }
    lemma_replay_any_order(rule, table, wa, wb);
}

/// Two tables hold the same keys and, but for one key, the same rows.
pub open spec fn agree_except<R>(a: TableView<R>, b: TableView<R>, key: KeyView) -> bool {
    &&& a.dom() == b.dom()
    &&& forall|k: KeyView| #[trigger] a.contains_key(k) && k != key ==> a[k] == b[k]
}

/// Every write of a sequence to one key is older than a given height.
pub open spec fn all_older<R>(writes: Seq<Write<R>>, key: KeyView, height: int) -> bool {
    forall|i: int|
        0 <= i < writes.len() && (#[trigger] writes[i]).key == key ==> writes[i].value.height
            < height
}

/// Under the height gate, writes that are all older than the stored row
/// leave it as it is.
proof fn lemma_older_writes_leave_row<R>(table: TableView<R>, writes: Seq<Write<R>>, key: KeyView)
    requires
        table.contains_key(key),
        all_older(writes, key, table[key].height),
    ensures
        replay(Rule::HeightGated, table, writes).contains_key(key),
        replay(Rule::HeightGated, table, writes)[key] == table[key],
    decreases writes.len(),
{
    if writes.len() > 0 {
        let front = writes.drop_last();
        assert forall|i: int| 0 <= i < front.len() && (#[trigger] front[i]).key == key implies front[i].value.height
            < table[key].height by {
            assert(front[i] == writes[i]);
        }
        lemma_older_writes_leave_row(table, front, key);
        assert(writes[writes.len() - 1] == writes.last());
    }
}

/// Replaying the same writes on two tables that differ in one row only, and
/// not in its height, leaves two tables that differ in that row at most;
/// and they differ there only if every write to that key was older than the
/// row.
proof fn lemma_replay_ignores_row<R>(
    rule: Rule,
    a: TableView<R>,
    b: TableView<R>,
    writes: Seq<Write<R>>,
    key: KeyView,
)
    requires
        a.contains_key(key),
        b.contains_key(key),
        a[key].height == b[key].height,
        agree_except(a, b, key),
    ensures
        agree_except(replay(rule, a, writes), replay(rule, b, writes), key),
        replay(rule, a, writes).contains_key(key),
        replay(rule, b, writes).contains_key(key),
        replay(rule, a, writes)[key].height == replay(rule, b, writes)[key].height,
        replay(rule, a, writes)[key] == replay(rule, b, writes)[key] || (replay(
            rule,
            a,
            writes,
        )[key] == a[key] && replay(rule, b, writes)[key] == b[key] && (rule is HeightGated
            ==> all_older(writes, key, a[key].height))),
    decreases writes.len(),
{
    if writes.len() > 0 {
        let front = writes.drop_last();
        let w = writes.last();
        lemma_replay_ignores_row(rule, a, b, front, key);
        let ra = replay(rule, a, front);
        let rb = replay(rule, b, front);
        let na = put(rule, ra, w);
        let nb = put(rule, rb, w);
        assert(ra.dom().contains(w.key) == rb.dom().contains(w.key));
        assert(na.dom() =~= nb.dom());
        if na[key] != nb[key] && rule is HeightGated {
            assert(ra[key] != rb[key]);
            assert forall|i: int| 0 <= i < writes.len() && (#[trigger] writes[i]).key == key implies writes[i].value.height
                < a[key].height by {
                if i < front.len() {
                    assert(front[i] == writes[i]);
                } else {
                    assert(writes[i] == w);
                }
            }
        }
    }
}

/// Replaying a single write is putting it.
proof fn lemma_replay_one<R>(rule: Rule, table: TableView<R>, w: Write<R>)
    ensures
        replay(rule, table, seq![w]) == put(rule, table, w),
{
    let one = seq![w];
    assert(one.drop_last() =~= Seq::<Write<R>>::empty());
    assert(one.last() == w);
    assert(replay(rule, table, one.drop_last()) == table);
}

/// Replaying a sequence of writes a second time changes nothing.
pub proof fn lemma_replay_twice<R>(rule: Rule, table: TableView<R>, writes: Seq<Write<R>>)
    ensures
        replay(rule, replay(rule, table, writes), writes) == replay(rule, table, writes),
    decreases writes.len(),
{
    if writes.len() > 0 {
        let w = writes[0];
        let rest = writes.subrange(1, writes.len() as int);
        let first = put(rule, table, w);
        let once = replay(rule, first, rest);
        assert(writes =~= seq![w] + rest);
        lemma_replay_one(rule, table, w);
        lemma_replay_concat(rule, table, seq![w], rest);
        assert(replay(rule, table, writes) == once);
        lemma_replay_twice(rule, first, rest);
        lemma_replay_monotone(rule, first, rest, w.key);
        let again = put(rule, once, w);
        lemma_replay_one(rule, once, w);
        lemma_replay_concat(rule, once, seq![w], rest);
        assert(replay(rule, once, writes) == replay(rule, again, rest));
        if !discards(rule, once, w) {
            // The row that the first pass left under the key has the height
            // of `w`; putting `w` back changes at most that row.
            assert(once[w.key].height == w.value.height);
            assert(again.dom() =~= once.dom());
            lemma_replay_ignores_row(rule, once, again, rest, w.key);
            let ra = replay(rule, once, rest);
            let rb = replay(rule, again, rest);
            if ra[w.key] != rb[w.key] {
                assert(first[w.key] == w.value);
                lemma_older_writes_leave_row(first, rest, w.key);
                assert(again =~= once);
            }
            assert(rb =~= ra);
        }
    }
}

/// Over any replay a stored key stays stored, and under the height gate its
/// stored height does not decrease.
pub proof fn lemma_replay_monotone<R>(
    rule: Rule,
    table: TableView<R>,
    writes: Seq<Write<R>>,
    key: KeyView,
)
    requires
        table.contains_key(key),
    ensures
        replay(rule, table, writes).contains_key(key),
        rule is HeightGated ==> replay(rule, table, writes)[key].height >= table[key].height,
{
    lemma_replay_settled(rule, table, writes);
}

/// A key that one settled table holds, the other holds too.
proof fn lemma_key_kept<R>(
    rule: Rule,
    table: TableView<R>,
    a: Seq<Write<R>>,
    b: Seq<Write<R>>,
    ra: TableView<R>,
    rb: TableView<R>,
    k: KeyView,
)
    requires
        same_writes(a, b),
        settled(rule, table, a, ra),
        settled(rule, table, b, rb),
        ra.contains_key(k),
    ensures
        rb.contains_key(k),
        rule is HeightGated ==> rb[k].height >= ra[k].height,
{
    let w = stored(ra, k);
    assert(origin(table, a, w));
    if a.contains(w) {
        let i = choose|i: int| 0 <= i < a.len() && a[i] == w;
        assert(b.contains(a[i]));
        let j = choose|j: int| 0 <= j < b.len() && b[j] == w;
        assert(rb.contains_key(b[j].key));
    }
}

/// Under a key that both settled tables hold, they hold the same row.
proof fn lemma_row_agrees<R>(
    rule: Rule,
    table: TableView<R>,
    a: Seq<Write<R>>,
    b: Seq<Write<R>>,
    ra: TableView<R>,
    rb: TableView<R>,
    k: KeyView,
)
    requires
        same_writes(a, b),
        coherent(rule, table, a),
        settled(rule, table, a, ra),
        settled(rule, table, b, rb),
        ra.contains_key(k),
    ensures
        rb.contains_key(k),
        ra[k] == rb[k],
{
    lemma_key_kept(rule, table, a, b, ra, rb, k);
    lemma_key_kept(rule, table, b, a, rb, ra, k);
    let wa = stored(ra, k);
    let wb = stored(rb, k);
    assert(origin(table, a, wa));
    assert(origin(table, b, wb));
    if b.contains(wb) {
        let j = choose|j: int| 0 <= j < b.len() && b[j] == wb;
        assert(a.contains(b[j]));
    }
    if a.contains(wa) {
        let i = choose|i: int| 0 <= i < a.len() && a[i] == wa;
        if a.contains(wb) {
            let j = choose|j: int| 0 <= j < a.len() && a[j] == wb;
            assert(agree(rule, a[i], a[j]));
        } else {
            assert(agree(rule, a[i], stored(table, a[i].key)));
        }
    } else {
        if a.contains(wb) {
            let j = choose|j: int| 0 <= j < a.len() && a[j] == wb;
            assert(agree(rule, a[j], stored(table, a[j].key)));
        }
    }
}

} // verus!

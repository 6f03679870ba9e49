//! Tables of the sink as values: rows stored under natural keys, written
//! under one of the two disciplines, and the records that know their own
//! key and height.

use crate::database::store::{put, replay, KeyView, Rule, TableView, Versioned, Write};
use vstd::prelude::*;

verus! {

/// A natural key.
pub enum Key {
    /// A number: a block height, a proposal id.
    Int(i64),
    /// A text: an address, a hash.
    Text(String),
    /// A number and a text: a proposal id and a voter, a height and a voter.
    IntText(i64, String),
    /// The one key of a table that holds a single row.
    Unit,
}

impl View for Key {
    type V = KeyView;

    open spec fn view(&self) -> KeyView {
        match self {
            Key::Int(n) => KeyView::Int(*n as int),
            Key::Text(t) => KeyView::Text(t@),
            Key::IntText(n, t) => KeyView::IntText(*n as int, t@),
            Key::Unit => KeyView::Unit,
        }
    }
}

impl Key {
    /// Whether two keys are the same key.
    pub fn same(&self, other: &Key) -> (b: bool)
        ensures
            b == (self@ == other@),
    {
        match (self, other) {
            (Key::Int(a), Key::Int(b)) => *a == *b,
            (Key::Text(a), Key::Text(b)) => *a == *b,
            (Key::IntText(a, s), Key::IntText(b, t)) => *a == *b && *s == *t,
            (Key::Unit, Key::Unit) => true,
            _ => false,
        }
    }

    /// A copy of the key.
    pub fn duplicate(&self) -> (copy: Key)
        ensures
            copy@ == self@,
    {
        match self {
            Key::Int(n) => Key::Int(*n),
            Key::Text(t) => Key::Text(t.clone()),
            Key::IntText(n, t) => Key::IntText(*n, t.clone()),
            Key::Unit => Key::Unit,
        }
    }
}

/// One stored row with its key and height.
struct Slot<R> {
    key: Key,
    height: i64,
    row: R,
}

/// The write that put a slot where it is.
spec fn slot_write<R>(slot: Slot<R>) -> Write<R> {
    Write { key: slot.key@, value: Versioned { height: slot.height as int, row: slot.row } }
}

/// Whether slot `i` holds key `k`.
spec fn holds<R>(slots: Seq<Slot<R>>, k: KeyView, i: int) -> bool {
    0 <= i < slots.len() && slots[i].key@ == k
}

/// No two slots hold the same key.
spec fn distinct<R>(slots: Seq<Slot<R>>) -> bool {
    forall|i: int, j: int|
        0 <= i < slots.len() && 0 <= j < slots.len() && i != j ==> (#[trigger] slots[i]).key@ != (
        #[trigger] slots[j]).key@
}

/// The keys that some slot holds.
spec fn key_set<R>(slots: Seq<Slot<R>>) -> Set<KeyView> {
    Set::new(|k: KeyView| exists|i: int| holds(slots, k, i))
}

/// The table that a list of slots stands for.
spec fn model_of<R>(slots: Seq<Slot<R>>) -> TableView<R> {
    Map::new(
        |k: KeyView| exists|i: int| holds(slots, k, i),
        |k: KeyView| slot_write(slots[choose|i: int| holds(slots, k, i)]).value,
    )
}

/// With distinct keys, each slot is what the model holds under its key.
proof fn lemma_model_at<R>(slots: Seq<Slot<R>>, i: int)
    requires
        distinct(slots),
        0 <= i < slots.len(),
    ensures
        model_of(slots).contains_key(slots[i].key@),
        model_of(slots)[slots[i].key@] == slot_write(slots[i]).value,
{
    let k = slots[i].key@;
    assert(holds(slots, k, i));
    let j = choose|j: int| holds(slots, k, j);
    assert(holds(slots, k, j));
    if i != j {
        assert(slots[i].key@ != slots[j].key@);
    }
}

/// With distinct keys, there are as many keys as slots.
proof fn lemma_key_count<R>(slots: Seq<Slot<R>>)
    requires
        distinct(slots),
    ensures
        key_set(slots).finite(),
        key_set(slots).len() == slots.len(),
        model_of(slots).dom() == key_set(slots),
    decreases slots.len(),
{
    assert(model_of(slots).dom() =~= key_set(slots));
    if slots.len() == 0 {
        assert(key_set(slots) =~= Set::<KeyView>::empty());
    } else {
        let front = slots.drop_last();
        let k = slots.last().key@;
        assert forall|i: int, j: int|
            0 <= i < front.len() && 0 <= j < front.len() && i != j implies (#[trigger] front[i]).key@
            != (#[trigger] front[j]).key@ by {
            assert(front[i] == slots[i] && front[j] == slots[j]);
        }
        lemma_key_count(front);
        assert(!key_set(front).contains(k)) by {
            if key_set(front).contains(k) {
                let i = choose|i: int| holds(front, k, i);
                assert(holds(front, k, i));
                assert(front[i] == slots[i]);
                assert(slots[i].key@ != slots[slots.len() - 1].key@);
            }
        }
        assert forall|x: KeyView| key_set(slots).contains(x) <==> key_set(front).insert(k).contains(
            x,
        ) by {
            if key_set(slots).contains(x) {
                let i = choose|i: int| holds(slots, x, i);
                assert(holds(slots, x, i));
                if i < front.len() {
                    assert(holds(front, x, i));
                }
            }
            if key_set(front).contains(x) {
                let i = choose|i: int| holds(front, x, i);
                assert(holds(front, x, i));
                assert(holds(slots, x, i));
            }
            if x == k {
                assert(holds(slots, x, slots.len() - 1));
            }
        }
        assert(key_set(slots) =~= key_set(front).insert(k));
    }
}

/// One table of the sink, under one write discipline.
pub struct Table<R> {
    rule: Rule,
    slots: Vec<Slot<R>>,
}

impl<R> View for Table<R> {
    type V = TableView<R>;

    closed spec fn view(&self) -> TableView<R> {
        model_of(self.slots@)
    }
}

impl<R> Table<R> {
    /// No key is stored twice.
    pub closed spec fn wf(&self) -> bool {
        distinct(self.slots@)
    }

    /// The discipline under which this table takes writes.
    pub closed spec fn rule(&self) -> Rule {
        self.rule
    }

    /// The stored rows in storage order, each as the write that put it there.
    pub closed spec fn entries(&self) -> Seq<Write<R>> {
        Seq::new(self.slots@.len(), |i: int| slot_write(self.slots@[i]))
    }

    /// How the stored rows relate to the model: every entry is what the model
    /// holds under its key, every key of the model is some entry's, no key
    /// occurs twice, and there are as many keys as entries.
    pub open spec fn indexed(&self) -> bool {
        &&& forall|i: int|
            0 <= i < self.entries().len() ==> self@.contains_key((#[trigger] self.entries()[i]).key)
                && self@[self.entries()[i].key] == self.entries()[i].value
        &&& forall|k: KeyView| #[trigger]
            self@.contains_key(k) ==> exists|i: int|
                0 <= i < self.entries().len() && (#[trigger] self.entries()[i]).key == k
        &&& forall|i: int, j: int|
            0 <= i < self.entries().len() && 0 <= j < self.entries().len() && i != j ==> (
            #[trigger] self.entries()[i]).key != (#[trigger] self.entries()[j]).key
        &&& self@.dom().finite()
        &&& self@.dom().len() == self.entries().len()
    }

    /// An empty table under the given discipline.
    pub fn new(rule: Rule) -> (table: Self)
        ensures
            table.wf(),
            table@ == TableView::<R>::empty(),
            table.rule() == rule,
    {
        let table = Table { rule, slots: Vec::new() };
        assert(table@ =~= TableView::<R>::empty());
        table
    }

    /// Position of the slot that holds `key`, if any.
    fn position(&self, key: &Key) -> (at: Option<usize>)
        ensures
            match at {
                Some(i) => holds(self.slots@, key@, i as int),
                None => forall|i: int| !holds(self.slots@, key@, i),
            },
    {
        let mut i: usize = 0;
        while i < self.slots.len()
            invariant
                i <= self.slots.len(),
                forall|j: int| 0 <= j < i ==> !holds(self.slots@, key@, j),
            decreases self.slots.len() - i,
        {
            if self.slots[i].key.same(key) {
                return Some(i);
            }
            i += 1;
        }
        None
    }

    /// Writes a row under the table's discipline.
    pub fn put(&mut self, key: Key, height: i64, row: R)
        requires
            old(self).wf(),
        ensures
            final(self).wf(),
            final(self)@ == put(
                old(self).rule(),
                old(self)@,
                Write { key: key@, value: Versioned { height: height as int, row } },
            ),
            final(self).rule() == old(self).rule(),
    {
        let ghost before = self.slots@;
        let ghost w = Write { key: key@, value: Versioned { height: height as int, row } };
        match self.position(&key) {
            None => {
                self.slots.push(Slot { key, height, row });
                proof {
                    let after = self.slots@;
                    assert forall|i: int, j: int|
                        0 <= i < after.len() && 0 <= j < after.len() && i != j implies (
                    #[trigger] after[i]).key@ != (#[trigger] after[j]).key@ by {
                        if i < before.len() {
                            assert(after[i] == before[i]);
                            assert(!holds(before, w.key, i));
                        }
                        if j < before.len() {
                            assert(after[j] == before[j]);
                            assert(!holds(before, w.key, j));
                        }
                    }
                    lemma_model_update(before, after, w, before.len() as int);
                }
            },
            Some(i) => {
                proof {
                    lemma_model_at(before, i as int);
                }
                let keep = match self.rule {
                    Rule::InsertIfAbsent => true,
                    Rule::HeightGated => height < self.slots[i].height,
                };
                if !keep {
                    self.slots.set(i, Slot { key, height, row });
                    proof {
                        let after = self.slots@;
                        assert forall|a: int, b: int|
                            0 <= a < after.len() && 0 <= b < after.len() && a != b implies (
                        #[trigger] after[a]).key@ != (#[trigger] after[b]).key@ by {
                            assert(after[a].key@ == before[a].key@);
                            assert(after[b].key@ == before[b].key@);
                        }
                        lemma_model_update(before, after, w, i as int);
                    }
                }
            },
        }
    }

    /// The row stored under `key`, if any.
    pub fn get(&self, key: &Key) -> (found: Option<&R>)
        requires
            self.wf(),
        ensures
            match found {
                Some(row) => self@.contains_key(key@) && self@[key@].row == *row,
                None => !self@.contains_key(key@),
            },
    {
        match self.position(key) {
            Some(i) => {
                proof {
                    lemma_model_at(self.slots@, i as int);
                }
                Some(&self.slots[i].row)
            },
            None => None,
        }
    }

    /// The height of the row stored under `key`, if any.
    pub fn height_of(&self, key: &Key) -> (found: Option<i64>)
        requires
            self.wf(),
        ensures
            match found {
                Some(h) => self@.contains_key(key@) && self@[key@].height == h,
                None => !self@.contains_key(key@),
            },
    {
        match self.position(key) {
            Some(i) => {
                proof {
                    lemma_model_at(self.slots@, i as int);
                }
                Some(self.slots[i].height)
            },
            None => None,
        }
    }

    /// Number of rows stored.
    pub fn len(&self) -> (n: usize)
        requires
            self.wf(),
        ensures
            n == self.entries().len(),
            n == self@.dom().len(),
            self.indexed(),
    {
        proof {
            let slots = self.slots@;
            lemma_key_count(slots);
            assert forall|i: int| 0 <= i < self.entries().len() implies self@.contains_key(
                (#[trigger] self.entries()[i]).key,
            ) && self@[self.entries()[i].key] == self.entries()[i].value by {
                lemma_model_at(slots, i);
            }
            assert forall|k: KeyView| #[trigger] self@.contains_key(k) implies exists|i: int|
                0 <= i < self.entries().len() && (#[trigger] self.entries()[i]).key == k by {
                let i = choose|i: int| holds(slots, k, i);
                assert(holds(slots, k, i));
                assert(self.entries()[i].key == k);
            }
        }
        self.slots.len()
    }

    /// Replaces the row stored at position `i` of the storage order, keeping
    /// its key and its height.
    pub fn amend_at(&mut self, i: usize, row: R)
        requires
            old(self).wf(),
            i < old(self).entries().len(),
        ensures
            final(self).wf(),
            final(self).rule() == old(self).rule(),
            final(self).entries() == old(self).entries().update(
                i as int,
                Write {
                    key: old(self).entries()[i as int].key,
                    value: Versioned { height: old(self).entries()[i as int].value.height, row },
                },
            ),
            final(self)@ == old(self)@.insert(
                old(self).entries()[i as int].key,
                Versioned { height: old(self).entries()[i as int].value.height, row },
            ),
    {
        let ghost before = self.slots@;
        let ghost w = Write {
            key: before[i as int].key@,
            value: Versioned { height: before[i as int].height as int, row },
        };
        let key = self.slots[i].key.duplicate();
        let height = self.slots[i].height;
        self.slots.set(i, Slot { key, height, row });
        proof {
            let after = self.slots@;
            assert forall|a: int, b: int|
                0 <= a < after.len() && 0 <= b < after.len() && a != b implies (
            #[trigger] after[a]).key@ != (#[trigger] after[b]).key@ by {
                assert(after[a].key@ == before[a].key@);
                assert(after[b].key@ == before[b].key@);
            }
            lemma_model_update(before, after, w, i as int);
            assert(self.entries() =~= old(self).entries().update(i as int, w));
        }
    }

    /// The row stored at position `i` of the storage order, with its height.
    pub fn row_at(&self, i: usize) -> (found: (i64, &R))
        requires
            i < self.entries().len(),
        ensures
            found.0 == self.entries()[i as int].value.height,
            *found.1 == self.entries()[i as int].value.row,
    {
        (self.slots[i].height, &self.slots[i].row)
    }
}

/// Storing a write at position `at`, as a new last slot or over the slot
/// that held its key, changes the model by that one entry.
proof fn lemma_model_update<R>(before: Seq<Slot<R>>, after: Seq<Slot<R>>, w: Write<R>, at: int)
    requires
        distinct(before),
        distinct(after),
        0 <= at < after.len(),
        slot_write(after[at]) == w,
        after.len() == before.len() || (after.len() == before.len() + 1 && at == before.len()),
        forall|i: int| 0 <= i < before.len() && i != at ==> after[i] == before[i],
        at < before.len() ==> before[at].key@ == w.key,
    ensures
        model_of(after) == model_of(before).insert(w.key, w.value),
{
    let target = model_of(before).insert(w.key, w.value);
    assert forall|k: KeyView| model_of(after).contains_key(k) <==> target.contains_key(k) by {
        if model_of(after).contains_key(k) {
            let i = choose|i: int| holds(after, k, i);
            assert(holds(after, k, i));
            if i != at {
                assert(holds(before, k, i));
            }
        }
        if model_of(before).contains_key(k) {
            let i = choose|i: int| holds(before, k, i);
            assert(holds(before, k, i));
            if i != at {
                assert(holds(after, k, i));
            } else {
                assert(holds(after, k, at));
            }
        }
        if k == w.key {
            assert(holds(after, k, at));
        }
    }
    assert forall|k: KeyView| model_of(after).contains_key(k) implies model_of(after)[k]
        == target[k] by {
        let i = choose|i: int| holds(after, k, i);
        assert(holds(after, k, i));
        lemma_model_at(after, i);
        if i != at {
            assert(after[i].key@ != after[at].key@);
            assert(holds(before, k, i));
            lemma_model_at(before, i);
        }
    }
    assert(model_of(after) =~= target);
}

/// The rows of a list of optional rows that are present, in order.
pub open spec fn present<T>(rows: Seq<Option<T>>) -> Seq<T>
    decreases rows.len(),
{
    if rows.len() == 0 {
        Seq::empty()
    } else if rows.last() is Some {
        present(rows.drop_last()).push(rows.last()->0)
    } else {
        present(rows.drop_last())
    }
}

/// Keeps the rows that are present, in order.
pub fn keep_present<T>(rows: Vec<Option<T>>) -> (kept: Vec<T>)
    ensures
        kept@ == present(rows@),
{
    let ghost all = rows@;
    let mut rest = rows;
    let mut kept: Vec<T> = Vec::new();
    let mut taken: Vec<T> = Vec::new();
    // Rows leave `rest` from its end, so `taken` holds the present ones in
    // reverse; a second pass restores the order.
    while rest.len() > 0
        invariant
            rest@.len() <= all.len(),
            rest@ == all.subrange(0, rest@.len() as int),
            present(all) == present(rest@) + taken@.reverse(),
        decreases rest.len(),
    {
        let ghost before = rest@;
        let ghost taken_before = taken@;
        let last = rest.pop();
        assert(before.drop_last() == rest@);
        match last {
            Some(Some(row)) => {
                taken.push(row);
                assert(taken@.reverse() =~= seq![row] + taken_before.reverse());
                assert(present(before) + taken_before.reverse() =~= present(rest@) + taken@.reverse());
            },
            _ => {},
        }
    }
    assert(present(rest@) =~= Seq::<T>::empty());
    assert(present(all) =~= taken@.reverse());
    while taken.len() > 0
        invariant
            present(all) == kept@ + taken@.reverse(),
        decreases taken.len(),
    {
        let ghost taken_before = taken@;
        let ghost kept_before = kept@;
        let row = taken.pop();
        match row {
            Some(row) => {
                kept.push(row);
                assert(taken_before.reverse() =~= seq![row] + taken@.reverse());
                assert(kept_before + taken_before.reverse() =~= kept@ + taken@.reverse());
            },
            None => {},
        }
    }
    assert(taken@.reverse() =~= Seq::<T>::empty());
    assert(kept@ + taken@.reverse() =~= kept@);
    kept
}

/// A row that knows the key it is stored under and the height it was
/// written at.
pub trait Record: Sized {
    /// The natural key of the row.
    spec fn key_view(&self) -> KeyView;

    /// The height that gates the row; zero where the row carries none.
    spec fn version(&self) -> int;

    /// The natural key of the row.
    fn key(&self) -> (k: Key)
        ensures
            k@ == self.key_view(),
    ;

    /// The height that gates the row.
    fn gate(&self) -> (h: i64)
        ensures
            h == self.version(),
    ;

    /// A copy of the row.
    fn duplicate(&self) -> (copy: Self)
        ensures
            copy == *self,
    ;
}

/// Whether every row of a table is stored under its own key and at its own
/// height.
pub open spec fn faithful<R: Record>(table: TableView<R>) -> bool {
    forall|k: KeyView| #[trigger]
        table.contains_key(k) ==> k == table[k].row.key_view() && table[k].height
            == table[k].row.version()
}

/// In a faithful table no two rows share a natural key: rows with the same
/// key are one row.
pub proof fn lemma_faithful_rows_are_unique<R: Record>(
    table: TableView<R>,
    a: KeyView,
    b: KeyView,
)
    requires
        faithful(table),
        table.contains_key(a),
        table.contains_key(b),
        table[a].row.key_view() == table[b].row.key_view(),
    ensures
        a == b,
        table[a] == table[b],
{
}

/// The write that saving a row amounts to.
pub open spec fn write_of<R: Record>(row: R) -> Write<R> {
    Write { key: row.key_view(), value: Versioned { height: row.version(), row } }
}

/// The writes that saving a list of rows amounts to, in order.
pub open spec fn writes_of<R: Record>(rows: Seq<R>) -> Seq<Write<R>> {
    Seq::new(rows.len(), |i: int| write_of(rows[i]))
}

impl<R: Record> Table<R> {
    /// Saves one row.
    pub fn save(&mut self, row: &R)
        requires
            old(self).wf(),
        ensures
            final(self).wf(),
            final(self).rule() == old(self).rule(),
            final(self)@ == put(old(self).rule(), old(self)@, write_of(*row)),
            faithful(old(self)@) ==> faithful(final(self)@),
    {
        let key = row.key();
        let height = row.gate();
        let copy = row.duplicate();
        self.put(key, height, copy);
        proof {
            if faithful(old(self)@) {
                assert forall|k: KeyView| #[trigger] self@.contains_key(k) implies k
                    == self@[k].row.key_view() && self@[k].height == self@[k].row.version() by {
                    if k != write_of(*row).key {
                        assert(old(self)@.contains_key(k));
                    }
                }
            }
        }
    }

    /// Saves the rows of a list that are present, first to last.
    pub fn save_present(&mut self, rows: &Vec<Option<R>>)
        requires
            old(self).wf(),
        ensures
            final(self).wf(),
            final(self).rule() == old(self).rule(),
            final(self)@ == replay(old(self).rule(), old(self)@, writes_of(present(rows@))),
            faithful(old(self)@) ==> faithful(final(self)@),
    {
        let mut i: usize = 0;
        while i < rows.len()
            invariant
                i <= rows.len(),
                self.wf(),
                faithful(old(self)@) ==> faithful(self@),
                self.rule() == old(self).rule(),
                self@ == replay(
                    old(self).rule(),
                    old(self)@,
                    writes_of(present(rows@.subrange(0, i as int))),
                ),
            decreases rows.len() - i,
        {
            let ghost seen = rows@.subrange(0, i as int);
            let ghost next = rows@.subrange(0, i + 1);
            proof {
                assert(next.drop_last() =~= seen);
                assert(next.last() == rows@[i as int]);
            }
            match &rows[i] {
                Some(row) => {
                    proof {
                        let writes = writes_of(present(next));
                        assert(present(next) == present(seen).push(*row));
                        assert(writes.drop_last() =~= writes_of(present(seen)));
                        assert(writes.last() == write_of(*row));
                    }
                    self.save(row);
                },
                None => {},
            }
            i += 1;
        }
        assert(rows@.subrange(0, i as int) =~= rows@);
    }

    /// Saves a list of rows, first to last. An empty list changes nothing.
    pub fn save_all(&mut self, rows: &Vec<R>)
        requires
            old(self).wf(),
        ensures
            final(self).wf(),
            final(self).rule() == old(self).rule(),
            final(self)@ == replay(old(self).rule(), old(self)@, writes_of(rows@)),
            rows@.len() == 0 ==> final(self)@ == old(self)@,
            faithful(old(self)@) ==> faithful(final(self)@),
    {
        let ghost writes = writes_of(rows@);
        let mut i: usize = 0;
        while i < rows.len()
            invariant
                i <= rows.len(),
                faithful(old(self)@) ==> faithful(self@),
                writes == writes_of(rows@),
                self.wf(),
                self.rule() == old(self).rule(),
                self@ == replay(old(self).rule(), old(self)@, writes.subrange(0, i as int)),
            decreases rows.len() - i,
        {
            proof {
                assert(writes.subrange(0, i + 1).drop_last() =~= writes.subrange(0, i as int));
                assert(writes.subrange(0, i + 1).last() == write_of(rows@[i as int]));
            }
            self.save(&rows[i]);
            i += 1;
        }
        assert(writes.subrange(0, i as int) =~= writes);
    }
}

} // verus!

//! The bounded measurement history of one sensor.
//!
//! Measurements are held as order keys: unsigned integers that order as the
//! measured quantities do, so that the larger of two keys stands for the
//! larger of two measurements.

use vstd::prelude::*;

use crate::processing::{Value, ValueType};

verus! {

/// The contents of a history.
#[verifier::ext_equal]
pub struct HistoryView {
    pub values: Seq<u32>,
    pub source: Seq<char>,
    pub unit: Seq<char>,
    pub value_type: ValueType,
    pub size: nat,
    pub update_ptr: nat,
}

/// The history of one sensor's measurements, kept as at most `size` bins over
/// all measurements. Once it holds `size` values, each new value is made room
/// for by merging the value at the update position with its successor into
/// their maximum; the update position then moves on by one. Merges take
/// place at the positions that have a successor, `0..size - 1`, in turn: the
/// update position is taken modulo `size - 1`.
#[derive(Debug)]
pub struct History {
    pub values: Vec<u32>,
    pub source: String,
    pub unit: String,
    pub value_type: ValueType,
    size: usize,
    update_ptr: usize,
}

/// The larger of two keys.
pub open spec fn max_key(a: u32, b: u32) -> u32 {
    if a >= b {
        a
    } else {
        b
    }
}

impl HistoryView {
    /// Whether the history is in the shape that its updates need and keep:
    /// room for at least two bins, no more values than `size`, and the update
    /// position inside `0..size`.
    pub open spec fn well_formed(self) -> bool {
        &&& self.size >= 2
        &&& self.values.len() <= self.size
        &&& self.update_ptr < self.size
    }

    /// The position at which a full history merges on its next update.
    pub open spec fn merge_pos(self) -> int {
        if self.size >= 2 {
            (self.update_ptr as int) % (self.size - 1)
        } else {
            0
        }
    }

    /// Whether [`History::update`] may be given this history: whether it is
    /// well formed.
    pub open spec fn accepts_update(self) -> bool {
        self.well_formed()
    }

    /// The history after the measurement key `v` was added.
    pub open spec fn updated(self, v: u32) -> HistoryView {
        if self.values.len() >= self.size {
            let p = self.merge_pos();
            let merged = max_key(self.values[p], self.values[p + 1]);
            HistoryView {
                values: self.values.take(p) + seq![merged] + self.values.skip(p + 2) + seq![v],
                update_ptr: if self.size >= 2 {
                    ((p + 1) % (self.size - 1)) as nat
                } else {
                    0
                },
                ..self
            }
        } else {
            HistoryView { values: self.values.push(v), ..self }
        }
    }
}

impl View for History {
    type V = HistoryView;

    closed spec fn view(&self) -> HistoryView {
        HistoryView {
            values: self.values@,
            source: self.source@,
            unit: self.unit@,
            value_type: self.value_type,
            size: self.size as nat,
            update_ptr: self.update_ptr as nat,
        }
    }
}

impl History {
    /// An empty history of capacity `size` for measurements of `source`, in
    /// `unit`, of kind `vt`.
    pub fn new(size: usize, source: &str, unit: &str, vt: ValueType) -> (r: History)
        ensures
            r@ == (HistoryView {
                values: Seq::empty(),
                source: source@,
                unit: unit@,
                value_type: vt,
                size: size as nat,
                update_ptr: 0,
            }),
    {
        let r = History {
            values: Vec::with_capacity(size),
            source: source.to_owned(),
            unit: unit.to_owned(),
            value_type: vt,
            size,
            update_ptr: 0,
        };
        assert(r.values@ =~= Seq::<u32>::empty());
        r
    }

    /// A history made of its parts, as they were stored: the measurement keys
    /// `values`, its source, unit and kind, its capacity `size` and its
    /// update position `update_ptr`.
    pub fn from_parts(
        values: Vec<u32>,
        source: String,
        unit: String,
        value_type: ValueType,
        size: usize,
        update_ptr: usize,
    ) -> (r: History)
        ensures
            r@ == (HistoryView {
                values: values@,
                source: source@,
                unit: unit@,
                value_type,
                size: size as nat,
                update_ptr: update_ptr as nat,
            }),
    {
        History { values, source, unit, value_type, size, update_ptr }
    }

    /// The capacity of this history.
    pub fn size(&self) -> (r: usize)
        ensures
            r == self@.size,
    {
        self.size
    }

    /// The update position of this history.
    pub fn update_ptr(&self) -> (r: usize)
        ensures
            r == self@.update_ptr,
    {
        self.update_ptr
    }

    /// Decides whether [`Self::update`] may be called.
    pub fn accepts_update(&self) -> (b: bool)
        ensures
            b == self@.accepts_update(),
    {
        self.size >= 2 && self.values.len() <= self.size && self.update_ptr < self.size
    }

    /// Adds the measurement `value` (see [`HistoryView::updated`]).
    pub fn update(&mut self, value: Value)
        requires
            old(self)@.accepts_update(),
        ensures
            final(self)@ == old(self)@.updated(value.key),
            old(self)@.values.len() < old(self)@.size ==> final(self)@.values == old(
                self,
            )@.values.push(value.key),
            final(self)@.values.last() == value.key,
    {
        proof {
            lemma_update_adds(self@, value.key);
        }
        let ghost h0 = self@;
        if self.values.len() >= self.size {
            let ghost before = self.values@;
            let p = self.update_ptr % (self.size - 1);
            let update_value = self.values.remove(p);
            let next = self.values[p];
            let max = if update_value >= next {
                update_value
            } else {
                next
            };
            self.values.set(p, max);
            self.update_ptr = (p + 1) % (self.size - 1);
            proof {
                let p = p as int;
                assert(self.values@ =~= before.take(p) + seq![max_key(before[p], before[p + 1])]
                    + before.skip(p + 2));
            }
        }
        self.values.push(value.key);
        proof {
            let h1 = h0.updated(value.key);
            assert(self.values@ =~= h1.values);
            assert(self@.update_ptr == h1.update_ptr);
        }
    }

    /// A copy of the measurement keys this history holds.
    pub fn values_copy(&self) -> (r: Vec<u32>)
        ensures
            r@ == self@.values,
    {
        let values = self.values.clone();
        assert(values@ =~= self.values@);
        values
    }

    /// A copy of this history.
    pub fn duplicate(&self) -> (r: History)
        ensures
            r@ == self@,
    {
        let values = self.values.clone();
        assert(values@ =~= self.values@);
        History {
            values,
            source: self.source.clone(),
            unit: self.unit.clone(),
            value_type: self.value_type,
            size: self.size,
            update_ptr: self.update_ptr,
        }
    }
}

/// Every update keeps a well-formed history well formed, so that it accepts
/// the next update too: the history never holds more than `size` values, its
/// update position stays inside `0..size`, and once full it stays full.
pub proof fn lemma_update_keeps_well_formed(h: HistoryView, v: u32)
    requires
        h.well_formed(),
    ensures
        h.updated(v).well_formed(),
        h.updated(v).accepts_update(),
        h.updated(v).values.len() == if h.values.len() == h.size {
            h.size as int
        } else {
            (h.values.len() + 1) as int
        },
{
}

/// The history after the measurement keys `vs` were added in order.
pub open spec fn updated_all(h: HistoryView, vs: Seq<u32>) -> HistoryView
    decreases vs.len(),
{
    if vs.len() == 0 {
        h
    } else {
        updated_all(h, vs.drop_last()).updated(vs.last())
    }
}

/// No measurement is skipped: a history with room for a measurement gains it
/// as its newest value, every older value kept in order; a full history
/// keeps its length and also takes the measurement as its newest value.
pub proof fn lemma_update_adds(h: HistoryView, v: u32)
    ensures
        h.values.len() < h.size ==> h.updated(v).values == h.values.push(v),
        h.well_formed() && h.values.len() == h.size ==> h.updated(v).values.len() == h.size,
        h.updated(v).values.last() == v,
        h.updated(v).size == h.size,
        h.updated(v).source == h.source,
        h.updated(v).unit == h.unit,
        h.updated(v).value_type == h.value_type,
{
}

/// A full history makes room for a measurement by merging the bin at its
/// update position, taken modulo `size - 1`, with the bin after it into the
/// larger of the two; the bins before stay, the bins after move up by one,
/// and the measurement is added last. The update position then moves on to
/// the next bin that has a successor, wrapping round after the last one.
pub proof fn lemma_full_update(h: HistoryView, v: u32)
    requires
        h.well_formed(),
        h.values.len() == h.size,
    ensures
        ({
            let p = (h.update_ptr as int) % (h.size - 1);
            let u = h.updated(v);
            &&& 0 <= p < h.size - 1
            &&& u.values.len() == h.size
            &&& forall|i: int| 0 <= i < p ==> u.values[i] == h.values[i]
            &&& u.values[p] == max_key(h.values[p], h.values[p + 1])
            &&& u.values[p] >= h.values[p] && u.values[p] >= h.values[p + 1]
            &&& (u.values[p] == h.values[p] || u.values[p] == h.values[p + 1])
            &&& forall|i: int| p < i < h.size - 1 ==> u.values[i] == h.values[i + 1]
            &&& u.values[h.size - 1] == v
            &&& u.update_ptr == (p + 1) % (h.size - 1)
            &&& u.merge_pos() == (h.merge_pos() + 1) % (h.size - 1)
        }),
{
    let m = h.size - 1;
    let p = (h.update_ptr as int) % m;
    let u = h.updated(v);
    vstd::arithmetic::div_mod::lemma_mod_bound(h.update_ptr as int, m);
    assert(h.merge_pos() == p);
    assert(u.update_ptr == (p + 1) % m);
    vstd::arithmetic::div_mod::lemma_mod_bound(p + 1, m);
    vstd::arithmetic::div_mod::lemma_small_mod(u.update_ptr as nat, m as nat);
    assert(u.values.len() == h.size);
    assert(u.values[p] == max_key(h.values[p], h.values[p + 1]));
    assert(u.values[h.size - 1] == v);
    assert forall|i: int| p < i < h.size - 1 implies u.values[i] == h.values[i + 1] by {
        assert(u.values[i] == h.values.skip(p + 2)[i - p - 1]);
    }
    assert(u.merge_pos() == u.update_ptr as int % (h.size - 1));
}

/// The merges of a full history walk its bins in turn: after `n` more
/// measurements, the history is still full and well formed, and its merge
/// position has moved on by `n`, cyclically over the `size - 1` bins that
/// have a successor, so that `size - 1` consecutive measurements merge each
/// of these bins once.
pub proof fn lemma_merges_cycle(h: HistoryView, vs: Seq<u32>)
    requires
        h.well_formed(),
        h.values.len() == h.size,
    ensures
        updated_all(h, vs).well_formed(),
        updated_all(h, vs).size == h.size,
        updated_all(h, vs).values.len() == h.size,
        updated_all(h, vs).merge_pos() == (h.merge_pos() + vs.len()) % (h.size - 1),
    decreases vs.len(),
{
    let m = h.size - 1;
    if vs.len() == 0 {
        assert(h.merge_pos() == (h.update_ptr as int) % m);
        vstd::arithmetic::div_mod::lemma_mod_twice(h.update_ptr as int, m);
    } else {
        let g = updated_all(h, vs.drop_last());
        lemma_merges_cycle(h, vs.drop_last());
        lemma_update_keeps_well_formed(g, vs.last());
        lemma_full_update(g, vs.last());
        let a = h.merge_pos() + vs.len() - 1;
        vstd::arithmetic::div_mod::lemma_add_mod_noop(a, 1, m);
        if m >= 2 {
            vstd::arithmetic::div_mod::lemma_small_mod(1, m as nat);
        } else {
            assert(m == 1);
            vstd::arithmetic::div_mod::lemma_mod_self_0(1);
        }
    }
}

} // verus!

//! Undo and redo over snapshots of the edited state.
//!
//! The history is a list of snapshots with a cursor on the snapshot of the
//! present state. Every edit pushes a snapshot behind the cursor. Undo and
//! redo move the cursor and hand out a copy of the snapshot it comes to
//! stand on; the state that the caller held until then takes the place of
//! the snapshot that the cursor leaves, so that the way back leads to it.

use crate::world::DataRaw;
use vstd::prelude::*;

verus! {

/// A snapshot of the edited data, and the tool that made the edit.
#[derive(Clone, Debug)]
pub struct Record {
    pub data: DataRaw,
    pub actor: String,
}

impl Record {
    pub fn new(data: DataRaw, actor: &str) -> (r: Self)
        ensures
            r.data == data,
            r.actor@ == actor@,
    {
        Record { data, actor: actor.to_owned() }
    }
}

/// What a history holds: its snapshots from the oldest to the newest, the
/// index of the snapshot of the present state, and the number of snapshots
/// it keeps at most.
pub struct HistoryView<T> {
    pub records: Seq<T>,
    pub cursor: Option<int>,
    pub capacity: int,
}

impl<T> HistoryView<T> {
    /// The cursor stands on a snapshot if there is one, and no more
    /// snapshots are kept than the history has room for.
    pub open spec fn wf(self) -> bool {
        &&& self.capacity >= 1
        &&& self.records.len() <= self.capacity
        &&& match self.cursor {
            Some(c) => 0 <= c < self.records.len(),
            None => self.records.len() == 0,
        }
    }

    /// The history without a snapshot.
    pub open spec fn empty(capacity: int) -> Self {
        HistoryView { records: Seq::empty(), cursor: None, capacity }
    }

    /// The snapshots up to the cursor: those that a push keeps.
    pub open spec fn past(self) -> Seq<T> {
        match self.cursor {
            Some(c) => self.records.subrange(0, c + 1),
            None => Seq::empty(),
        }
    }

    /// The history after a snapshot was pushed: the snapshots behind the
    /// cursor are gone, the new one stands at the end with the cursor on
    /// it, and the oldest is gone as well if there was no room left.
    pub open spec fn pushed(self, snapshot: T) -> Self {
        let appended = self.past().push(snapshot);
        let kept = if appended.len() > self.capacity {
            appended.subrange(appended.len() - self.capacity, appended.len() as int)
        } else {
            appended
        };
        HistoryView { records: kept, cursor: Some(kept.len() - 1), capacity: self.capacity }
    }

    /// There is a snapshot before the cursor.
    pub open spec fn can_undo(self) -> bool {
        self.cursor matches Some(c) && c > 0
    }

    /// There is a snapshot behind the cursor.
    pub open spec fn can_redo(self) -> bool {
        self.cursor matches Some(c) && c + 1 < self.records.len()
    }

    /// The snapshot that undo restores.
    pub open spec fn undo_source(self) -> T
        recommends
            self.can_undo(),
    {
        self.records[self.cursor.unwrap() - 1]
    }

    /// The snapshot that redo restores.
    pub open spec fn redo_source(self) -> T
        recommends
            self.can_redo(),
    {
        self.records[self.cursor.unwrap() + 1]
    }

    /// The history after undo, where there is something to undo: the state
    /// that the caller held stands where the cursor was, and the cursor
    /// stands one snapshot earlier.
    pub open spec fn undone(self, live: T) -> Self {
        if self.can_undo() {
            HistoryView {
                records: self.records.update(self.cursor.unwrap(), live),
                cursor: Some(self.cursor.unwrap() - 1),
                capacity: self.capacity,
            }
        } else {
            self
        }
    }

    /// The history after redo, where there is something to redo: the state
    /// that the caller held stands where the cursor was, and the cursor
    /// stands one snapshot later.
    pub open spec fn redone(self, live: T) -> Self {
        if self.can_redo() {
            HistoryView {
                records: self.records.update(self.cursor.unwrap(), live),
                cursor: Some(self.cursor.unwrap() + 1),
                capacity: self.capacity,
            }
        } else {
            self
        }
    }
}

/// A bounded history of snapshots of type `T`.
pub struct History<T> {
    records: Vec<T>,
    current_idx: Option<usize>,
    capacity: usize,
}

impl<T: Clone> History<T> {
    pub closed spec fn view(&self) -> HistoryView<T> {
        HistoryView {
            records: self.records@,
            cursor: match self.current_idx {
                Some(c) => Some(c as int),
                None => None,
            },
            capacity: self.capacity as int,
        }
    }

    pub open spec fn wf(&self) -> bool {
        self@.wf()
    }

    /// An empty history that keeps `capacity` snapshots at most.
    pub fn new(capacity: usize) -> (h: Self)
        requires
            capacity >= 1,
        ensures
            h.wf(),
            h@ == HistoryView::<T>::empty(capacity as int),
    {
        History { records: Vec::new(), current_idx: None, capacity }
    }

    /// The number of snapshots.
    pub fn len(&self) -> (n: usize)
        ensures
            n == self@.records.len(),
    {
        self.records.len()
    }

    pub fn is_empty(&self) -> (b: bool)
        ensures
            b == (self@.records.len() == 0),
    {
        self.records.len() == 0
    }

    /// Whether there is something to undo.
    pub fn can_undo(&self) -> (b: bool)
        ensures
            b == self@.can_undo(),
    {
        match self.current_idx {
            Some(c) => c > 0,
            None => false,
        }
    }

    /// Whether there is something to redo.
    pub fn can_redo(&self) -> (b: bool)
        requires
            self.wf(),
        ensures
            b == self@.can_redo(),
    {
        match self.current_idx {
            Some(c) => c < self.records.len() - 1,
            None => false,
        }
    }

    /// Records the present state: the snapshot goes behind the cursor,
    /// what stood there is gone, and the cursor stands on the snapshot.
    /// Where the history is full the oldest snapshot goes.
    pub fn push(&mut self, snapshot: T)
        requires
            old(self).wf(),
        ensures
            final(self).wf(),
            final(self)@ == old(self)@.pushed(snapshot),
    {
        let ghost before = self@;
        match self.current_idx {
            None => {
                self.records.clear();
            },
            Some(idx) => {
                self.records.truncate(idx + 1);
            },
        }
        assert(self.records@ =~= before.past());
        if self.records.len() == self.capacity {
            self.records.remove(0);
        }
        self.records.push(snapshot);
        self.current_idx = Some(self.records.len() - 1);
        assert(self.records@ =~= before.pushed(snapshot).records);
    }

    /// Goes back one snapshot. Where there is one before the cursor, the
    /// result is a copy of it, and `live`, the state that the caller held,
    /// is kept for redo. Where there is none, the result is `live` and
    /// nothing changes.
    pub fn undo(&mut self, live: T) -> (r: T)
        requires
            old(self).wf(),
        ensures
            final(self).wf(),
            final(self)@ == old(self)@.undone(live),
            old(self)@.can_undo() ==> cloned(old(self)@.undo_source(), r),
            !old(self)@.can_undo() ==> r == live,
    {
        match self.current_idx {
            Some(idx) => {
                if idx > 0 {
                    self.records.set(idx, live);
                    self.current_idx = Some(idx - 1);
                    self.records[idx - 1].clone()
                } else {
                    live
                }
            },
            None => live,
        }
    }

    /// Goes forward one snapshot. Where there is one behind the cursor,
    /// the result is a copy of it, and `live`, the state that the caller
    /// held, is kept for undo. Where there is none, the result is `live`
    /// and nothing changes.
    pub fn redo(&mut self, live: T) -> (r: T)
        requires
            old(self).wf(),
        ensures
            final(self).wf(),
            final(self)@ == old(self)@.redone(live),
            old(self)@.can_redo() ==> cloned(old(self)@.redo_source(), r),
            !old(self)@.can_redo() ==> r == live,
    {
        match self.current_idx {
            Some(idx) => {
                if idx < self.records.len() - 1 {
                    self.records.set(idx, live);
                    self.current_idx = Some(idx + 1);
                    self.records[idx + 1].clone()
                } else {
                    live
                }
            },
            None => live,
        }
    }
}

/// After two snapshots `a` and `b` were pushed to a history with room for
/// two, undo restores `a`, and redo then restores the state that the
/// caller held when it undid, which is `b` if nothing was edited since the
/// push. The redo ends on the snapshot that the second push ended on.
pub proof fn lemma_push_push_undo_redo<T>(h: HistoryView<T>, a: T, b: T, live: T, restored: T)
    requires
        h.wf(),
        h.capacity >= 2,
    ensures
        h.pushed(a).pushed(b).wf(),
        h.pushed(a).pushed(b).can_undo(),
        h.pushed(a).pushed(b).undo_source() == a,
        h.pushed(a).pushed(b).undone(live).can_redo(),
        h.pushed(a).pushed(b).undone(live).redo_source() == live,
        h.pushed(a).pushed(b).undone(b).redo_source() == b,
        h.pushed(a).pushed(b).undone(live).redone(restored).cursor == h.pushed(a).pushed(b).cursor,
        !h.pushed(a).pushed(b).undone(live).redone(restored).can_redo(),
{
}

/// Undo at the oldest snapshot and redo at the newest leave the history
/// as it is, and so does either on an empty history.
pub proof fn lemma_undo_redo_at_the_ends<T>(h: HistoryView<T>, live: T)
    requires
        h.wf(),
    ensures
        !h.can_undo() ==> h.undone(live) == h,
        !h.can_redo() ==> h.redone(live) == h,
        h.cursor is None ==> !h.can_undo() && !h.can_redo(),
        HistoryView::<T>::empty(h.capacity).pushed(live).undone(live) == HistoryView::<T>::empty(
            h.capacity,
        ).pushed(live),
{
}

/// A push leaves nothing to redo, keeps the snapshots before it as far as
/// there is room, and never leaves the history empty or over its bound.
pub proof fn lemma_push_discards_redo<T>(h: HistoryView<T>, snapshot: T)
    requires
        h.wf(),
    ensures
        h.pushed(snapshot).wf(),
        !h.pushed(snapshot).can_redo(),
        h.pushed(snapshot).records.last() == snapshot,
        h.past().len() < h.capacity ==> h.pushed(snapshot).records == h.past().push(snapshot),
{
}

/// Undo and redo undo each other: after an undo, a redo comes back to the
/// cursor that the undo left, and hands out the state that the undo took.
pub proof fn lemma_undo_then_redo<T>(h: HistoryView<T>, live: T, restored: T)
    requires
        h.wf(),
        h.can_undo(),
    ensures
        h.undone(live).wf(),
        h.undone(live).can_redo(),
        h.undone(live).redo_source() == live,
        h.undone(live).redone(restored).cursor == h.cursor,
        h.undone(live).redone(restored).records == h.records.update(
            h.cursor.unwrap() - 1,
            restored,
        ).update(h.cursor.unwrap(), live),
{
    let c = h.cursor.unwrap();
    assert(h.undone(live).redone(restored).records =~= h.records.update(c - 1, restored).update(
        c,
        live,
    ));
}

} // verus!

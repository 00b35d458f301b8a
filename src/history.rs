use vstd::prelude::*;
use crate::database::{Database, DatabaseView};

verus! {

/// A bounded, linear undo history as a mathematical value: the snapshots with
/// their descriptions, the current pointer and the capacity.
pub struct HistoryView {
    pub entries: Seq<(DatabaseView, Seq<char>)>,
    pub current: nat,
    pub capacity: nat,
}

/// The pointer stays inside the history, which stays within its capacity.
pub open spec fn history_wf(h: HistoryView) -> bool {
    &&& h.capacity >= 1
    &&& h.entries.len() <= h.capacity
    &&& h.entries.len() == 0 ==> h.current == 0
    &&& h.entries.len() > 0 ==> h.current < h.entries.len()
}

/// Recording snapshot `s` described by `d`: drop the redo branch after the
/// pointer, append, point at the new tail, and evict the oldest snapshot when
/// over capacity.
pub open spec fn record_spec(h: HistoryView, s: DatabaseView, d: Seq<char>) -> HistoryView {
    let kept = if h.entries.len() == 0 {
        Seq::empty()
    } else {
        h.entries.subrange(0, h.current as int + 1)
    };
    let pushed = kept.push((s, d));
    if pushed.len() > h.capacity {
        HistoryView { entries: pushed.drop_first(), current: (pushed.len() - 2) as nat, capacity: h.capacity }
    } else {
        HistoryView { entries: pushed, current: (pushed.len() - 1) as nat, capacity: h.capacity }
    }
}

/// Undoing: nothing at the start of the history; else the pointer steps back
/// and the result is the snapshot now pointed to, with the description of the
/// action that is undone.
pub open spec fn undo_spec(h: HistoryView) -> (HistoryView, Option<(DatabaseView, Seq<char>)>) {
    if h.current == 0 {
        (h, None)
    } else {
        (
            HistoryView { current: (h.current - 1) as nat, ..h },
            Some((h.entries[h.current - 1].0, h.entries[h.current as int].1)),
        )
    }
}

/// Redoing: nothing at the tail of the history; else the pointer steps
/// forward and the result is the snapshot now pointed to, with its description.
pub open spec fn redo_spec(h: HistoryView) -> (HistoryView, Option<(DatabaseView, Seq<char>)>) {
    if h.current + 1 >= h.entries.len() {
        (h, None)
    } else {
        (
            HistoryView { current: h.current + 1, ..h },
            Some((h.entries[h.current as int + 1].0, h.entries[h.current as int + 1].1)),
        )
    }
}

/// Undo/redo over whole-state snapshots, with bounded retention.
pub struct UndoManager {
    pub history: Vec<(Database, String)>,
    pub capacity: usize,
    pub current_index: usize,
}

/// The mathematical value of each snapshot of a list.
pub open spec fn entries_view(v: Seq<(Database, String)>) -> Seq<(DatabaseView, Seq<char>)> {
    v.map_values(|e: (Database, String)| (e.0@, e.1@))
}

impl View for UndoManager {
    type V = HistoryView;

    open spec fn view(&self) -> HistoryView {
        HistoryView {
            entries: entries_view(self.history@),
            current: self.current_index as nat,
            capacity: self.capacity as nat,
        }
    }
}

impl UndoManager {
    /// An empty history keeping at most `capacity` snapshots.
    pub fn new(capacity: usize) -> (r: Self)
        requires
            capacity >= 1,
        ensures
            history_wf(r@),
            r@ == (HistoryView { entries: Seq::empty(), current: 0, capacity: capacity as nat }),
    {
        let r = UndoManager { history: Vec::new(), capacity, current_index: 0 };
        assert(entries_view(r.history@) =~= Seq::<(DatabaseView, Seq<char>)>::empty());
        r
    }

    /// Starts over from `initial_db` alone, described as the initial state.
    pub fn initialize(&mut self, initial_db: Database)
        requires
            history_wf(old(self)@),
        ensures
            history_wf(final(self)@),
            final(self)@ == (HistoryView {
                entries: seq![(initial_db@, "Initial state"@)],
                current: 0,
                capacity: old(self)@.capacity,
            }),
    {
        let ghost s = initial_db@;
        self.history.clear();
        self.history.push((initial_db, "Initial state".to_string()));
        self.current_index = 0;
        proof {
            reveal_strlit("Initial state");
        }
        assert(entries_view(self.history@) =~= seq![(s, "Initial state"@)]);
    }

    /// Records `db_snapshot` as the state after the action `description`.
    pub fn record_action(&mut self, db_snapshot: Database, description: &str)
        requires
            history_wf(old(self)@),
        ensures
            history_wf(final(self)@),
            final(self)@ == record_spec(old(self)@, db_snapshot@, description@),
    {
        let ghost h = self@;
        let ghost s = db_snapshot@;
        if self.history.len() > 0 && self.current_index < self.history.len() - 1 {
            self.history.truncate(self.current_index + 1);
        }
        let ghost kept = if h.entries.len() == 0 {
            Seq::<(DatabaseView, Seq<char>)>::empty()
        } else {
            h.entries.subrange(0, h.current as int + 1)
        };
        assert(entries_view(self.history@) =~= kept);
        self.history.push((db_snapshot, description.to_string()));
        let ghost pushed = kept.push((s, description@));
        assert(entries_view(self.history@) =~= pushed);
        self.current_index = self.history.len() - 1;
        if self.history.len() > self.capacity {
            self.history.remove(0);
            assert(entries_view(self.history@) =~= pushed.drop_first());
            self.current_index = self.current_index - 1;
        }
    }

    /// An action can be undone: the pointer is past the first snapshot.
    pub fn can_undo(&self) -> (r: bool)
        ensures
            r == (self@.current > 0),
    {
        self.current_index > 0
    }

    /// An undone action can be redone: the pointer is before the last snapshot.
    pub fn can_redo(&self) -> (r: bool)
        requires
            history_wf(self@),
        ensures
            r == (self@.current + 1 < self@.entries.len()),
    {
        self.current_index + 1 < self.history.len()
    }

    /// Steps back one snapshot; returns a copy of the state now current and
    /// the description of the action undone, or `None` at the start.
    pub fn undo(&mut self) -> (r: Option<(Database, String)>)
        requires
            history_wf(old(self)@),
        ensures
            history_wf(final(self)@),
            final(self)@ == undo_spec(old(self)@).0,
            match r {
                Some(p) => undo_spec(old(self)@).1 == Some((p.0@, p.1@)),
                None => undo_spec(old(self)@).1 is None,
            },
    {
        if self.current_index == 0 {
            return None;
        }
        let action = self.history[self.current_index].1.clone();
        self.current_index = self.current_index - 1;
        let db = self.history[self.current_index].0.clone();
        Some((db, action))
    }

    /// Steps forward one snapshot; returns a copy of the state now current and
    /// its description, or `None` at the tail.
    pub fn redo(&mut self) -> (r: Option<(Database, String)>)
        requires
            history_wf(old(self)@),
        ensures
            history_wf(final(self)@),
            final(self)@ == redo_spec(old(self)@).0,
            match r {
                Some(p) => redo_spec(old(self)@).1 == Some((p.0@, p.1@)),
                None => redo_spec(old(self)@).1 is None,
            },
    {
        if self.current_index + 1 >= self.history.len() {
            return None;
        }
        self.current_index = self.current_index + 1;
        let action = self.history[self.current_index].1.clone();
        let db = self.history[self.current_index].0.clone();
        Some((db, action))
    }

    /// Description of the action that the next undo would reverse, if any.
    pub fn last_action_description(&self) -> (r: Option<String>)
        requires
            history_wf(self@),
        ensures
            match r {
                Some(d) => self@.entries.len() > 1 && self@.current > 0 && d@ == self@.entries[self@.current as int].1,
                None => !(self@.entries.len() > 1 && self@.current > 0),
            },
    {
        if self.history.len() > 1 && self.current_index > 0 {
            Some(self.history[self.current_index].1.clone())
        } else {
            None
        }
    }

    /// Forgets every snapshot.
    pub fn clear(&mut self)
        requires
            history_wf(old(self)@),
        ensures
            history_wf(final(self)@),
            final(self)@ == (HistoryView { entries: Seq::empty(), current: 0, capacity: old(self)@.capacity }),
    {
        self.history.clear();
        self.current_index = 0;
        assert(entries_view(self.history@) =~= Seq::<(DatabaseView, Seq<char>)>::empty());
    }
}

/// Recording an action and undoing it right away gives back a copy of the
/// state that was current before the recording, with the action's
/// description; if the pointer was at the first snapshot before (the action
/// was the only one recorded), nothing is left to undo afterwards.
pub proof fn lemma_record_then_undo(h: HistoryView, s: DatabaseView, d: Seq<char>)
    requires
        history_wf(h),
        h.entries.len() > 0,
        h.capacity >= 2,
    ensures
        ({
            let (after, result) = undo_spec(record_spec(h, s, d));
            &&& result == Some((h.entries[h.current as int].0, d))
            &&& after.entries[after.current as int] == h.entries[h.current as int]
            &&& history_wf(after)
            &&& (h.current == 0 ==> after.current == 0)
        }),
{
    let kept = h.entries.subrange(0, h.current as int + 1);
    let pushed = kept.push((s, d));
    if pushed.len() > h.capacity {
        assert(pushed.drop_first()[h.current as int - 1] == pushed[h.current as int]);
    }
}

/// After recording, the history is well formed and its pointer refers to the
/// snapshot just recorded.
pub proof fn lemma_record_points_at_new(h: HistoryView, s: DatabaseView, d: Seq<char>)
    requires
        history_wf(h),
    ensures
        history_wf(record_spec(h, s, d)),
        record_spec(h, s, d).entries[record_spec(h, s, d).current as int] == (s, d),
{
}

/// Recording into a full history whose pointer is at the tail evicts the
/// oldest snapshot, and the pointer still refers to the newest one.
pub proof fn lemma_record_evicts_oldest(h: HistoryView, s: DatabaseView, d: Seq<char>)
    requires
        history_wf(h),
        h.entries.len() == h.capacity,
        h.current == h.entries.len() - 1,
    ensures
        record_spec(h, s, d).entries == h.entries.drop_first().push((s, d)),
        record_spec(h, s, d).current == h.current,
        history_wf(record_spec(h, s, d)),
{
    let kept = h.entries.subrange(0, h.current as int + 1);
    assert(kept =~= h.entries);
    assert(kept.push((s, d)).drop_first() =~= h.entries.drop_first().push((s, d)));
}

/// Records each action of `actions` in turn.
pub open spec fn record_all(h: HistoryView, actions: Seq<(DatabaseView, Seq<char>)>) -> HistoryView
    decreases actions.len(),
{
    if actions.len() == 0 {
        h
    } else {
        let before = record_all(h, actions.drop_last());
        record_spec(before, actions.last().0, actions.last().1)
    }
}

/// Recording a series of actions from the tail keeps the most recent
/// `capacity` snapshots, oldest evicted first, and points at the newest.
pub proof fn lemma_record_all(h: HistoryView, actions: Seq<(DatabaseView, Seq<char>)>)
    requires
        history_wf(h),
        h.entries.len() > 0 ==> h.current == h.entries.len() - 1,
    ensures
        ({
            let all = h.entries + actions;
            let n = if all.len() <= h.capacity { all.len() } else { h.capacity };
            let r = record_all(h, actions);
            &&& history_wf(r)
            &&& r.capacity == h.capacity
            &&& r.entries == all.subrange(all.len() - n, all.len() as int)
            &&& (r.entries.len() > 0 ==> r.current == r.entries.len() - 1)
        }),
    decreases actions.len(),
{
    let all = h.entries + actions;
    if actions.len() == 0 {
        assert(all =~= h.entries);
        assert(all.subrange(0, all.len() as int) =~= all);
    } else {
        let prev = actions.drop_last();
        lemma_record_all(h, prev);
        let before = record_all(h, prev);
        let all_prev = h.entries + prev;
        let m = if all_prev.len() <= h.capacity { all_prev.len() } else { h.capacity };
        let n = if all.len() <= h.capacity { all.len() } else { h.capacity };
        let a = actions.last();
        let kept = if before.entries.len() == 0 {
            Seq::<(DatabaseView, Seq<char>)>::empty()
        } else {
            before.entries.subrange(0, before.current as int + 1)
        };
        assert(kept =~= before.entries);
        assert(all_prev.push(a) =~= all);
        let pushed = kept.push(a);
        assert(pushed =~= all.subrange(all.len() - m - 1, all.len() as int));
        if pushed.len() > h.capacity {
            assert(pushed.drop_first() =~= all.subrange(all.len() - n, all.len() as int));
        }
    }
}

/// Undoes `n` times in a row.
pub open spec fn undo_times(h: HistoryView, n: nat) -> HistoryView
    decreases n,
{
    if n == 0 {
        h
    } else {
        undo_times(undo_spec(h).0, (n - 1) as nat)
    }
}

/// Undoing repeatedly never moves the pointer below the first snapshot: it
/// stops there, and the snapshots themselves stay as they were.
pub proof fn lemma_undo_floor(h: HistoryView, n: nat)
    requires
        history_wf(h),
    ensures
        history_wf(undo_times(h, n)),
        undo_times(h, n).entries == h.entries,
        undo_times(h, n).current == if n <= h.current { (h.current - n) as nat } else { 0nat },
    decreases n,
{
    if n > 0 {
        lemma_undo_floor(undo_spec(h).0, (n - 1) as nat);
    }
}

/// From a history holding only its initial snapshot, recording `capacity + 1`
/// actions keeps the last `capacity` snapshots (the initial one and the first
/// action are evicted) and points at the newest. Undo then succeeds
/// `capacity - 1` times and, at the new floor, returns nothing and leaves the
/// history as it is: the pointer never goes below the first snapshot.
pub proof fn lemma_overflow_then_undo_to_floor(h: HistoryView, actions: Seq<(DatabaseView, Seq<char>)>)
    requires
        history_wf(h),
        h.entries.len() == 1,
        actions.len() == h.capacity + 1,
    ensures
        ({
            let r = record_all(h, actions);
            let floor = undo_times(r, (h.capacity - 1) as nat);
            &&& history_wf(r)
            &&& r.entries == actions.subrange(1, actions.len() as int)
            &&& r.current == h.capacity - 1
            &&& r.entries[r.current as int] == actions.last()
            &&& forall|k: nat| k < h.capacity - 1 ==> (#[trigger] undo_spec(undo_times(r, k)).1) is Some
            &&& floor.current == 0
            &&& floor.entries == r.entries
            &&& undo_spec(floor) == (floor, None::<(DatabaseView, Seq<char>)>)
        }),
{
    lemma_record_all(h, actions);
    let r = record_all(h, actions);
    let all = h.entries + actions;
    assert(all.subrange(all.len() - h.capacity, all.len() as int) =~= actions.subrange(1, actions.len() as int));
    assert forall|k: nat| k < h.capacity - 1 implies (#[trigger] undo_spec(undo_times(r, k)).1) is Some by {
        lemma_undo_floor(r, k);
    }
    lemma_undo_floor(r, (h.capacity - 1) as nat);
}

} // verus!

//! Command system — undo/redo via the Command pattern.
//!
//! Every user action that modifies the [`Timeline`] is encapsulated as a
//! [`Command`]. [`CommandHistory`] maintains a cursor into the command stack,
//! enabling arbitrarily deep undo and redo.

pub mod add_clip;
pub mod delete_clip;
pub mod move_clip;
pub mod trim_clip;
pub mod edit;

use vstd::prelude::*;

use crate::timeline::{Timeline, TimelineView};

verus! {

/// An invertible operation that mutates a [`Timeline`].
///
/// Implement this trait for every user action that should be undoable.
/// `executed` and `undone` say what [`execute`](Command::execute) and
/// [`undo`](Command::undo) make of a timeline; `recorded` is the command as
/// executing it on a timeline leaves it (a command may note there what its
/// undo needs); `restorable` says on which timelines undoing right after
/// executing gives the timeline back.
pub trait Command: Sized {
    /// The timeline that executing the command turns `tl` into.
    spec fn executed(&self, tl: TimelineView) -> TimelineView;

    /// The command after executing it on `tl`.
    spec fn recorded(&self, tl: TimelineView) -> Self;

    /// The timeline that undoing the command turns `tl` into.
    spec fn undone(&self, tl: TimelineView) -> TimelineView;

    /// The timelines on which undo, right after execute, restores the timeline.
    spec fn restorable(&self, tl: TimelineView) -> bool;

    /// The label of the command.
    spec fn label_view(&self) -> Seq<char>;

    /// Executing a command keeps its label.
    proof fn lemma_recorded_label(&self, tl: TimelineView)
        ensures
            self.recorded(tl).label_view() == self.label_view(),
    ;

    /// Undo right after execute gives back every restorable timeline.
    proof fn lemma_undo_restores(&self, tl: TimelineView)
        requires
            self.restorable(tl),
        ensures
            self.recorded(tl).undone(self.executed(tl)) == tl,
    ;

    /// Apply the command to `timeline`, noting what undo needs.
    fn execute(&mut self, timeline: &mut Timeline)
        ensures
            final(timeline)@ == old(self).executed(old(timeline)@),
            *final(self) == old(self).recorded(old(timeline)@),
    ;

    /// Reverse the effect of a previous [`execute`](Command::execute) call.
    fn undo(&mut self, timeline: &mut Timeline)
        ensures
            final(timeline)@ == old(self).undone(old(timeline)@),
            *final(self) == *old(self),
    ;

    /// Human-readable label shown in the Undo/Redo menu items.
    fn label(&self) -> (r: &str)
        ensures
            r@ == self.label_view(),
    ;
}

/// The mathematical value of a [`CommandHistory`]: the stack of commands
/// and the cursor just past the last executed one.
pub struct HistoryView<C> {
    pub commands: Seq<C>,
    pub cursor: nat,
}

/// The history after executing and recording `c`: the commands beyond the
/// cursor are dropped, `c` is appended and the cursor moves past it.
pub open spec fn history_pushed<C>(h: HistoryView<C>, c: C) -> HistoryView<C> {
    HistoryView { commands: h.commands.take(h.cursor as int).push(c), cursor: h.cursor + 1 }
}

/// The history and timeline after one undo on `h` and `tl`: nothing changes
/// when the cursor is at 0; otherwise the command before the cursor is
/// undone and the cursor moves back over it.
pub open spec fn history_undo<C: Command>(h: HistoryView<C>, tl: TimelineView) -> (
    HistoryView<C>,
    TimelineView,
) {
    if h.cursor == 0 {
        (h, tl)
    } else {
        (
            HistoryView { commands: h.commands, cursor: (h.cursor - 1) as nat },
            h.commands[h.cursor - 1].undone(tl),
        )
    }
}

/// The history and timeline after one redo on `h` and `tl`: nothing changes
/// when the cursor is at the end; otherwise the command at the cursor is
/// executed again (and kept as that leaves it) and the cursor moves past it.
pub open spec fn history_redo<C: Command>(h: HistoryView<C>, tl: TimelineView) -> (
    HistoryView<C>,
    TimelineView,
) {
    if h.cursor >= h.commands.len() {
        (h, tl)
    } else {
        (
            HistoryView {
                commands: h.commands.update(h.cursor as int, h.commands[h.cursor as int].recorded(tl)),
                cursor: h.cursor + 1,
            },
            h.commands[h.cursor as int].executed(tl),
        )
    }
}

/// The cursor of `h` lies within its stack.
pub open spec fn history_wf<C>(h: HistoryView<C>) -> bool {
    h.cursor <= h.commands.len()
}

/// Maintains a stack of executed commands with an undo cursor.
///
/// The cursor points to the index *after* the last executed command:
/// - `cursor == 0` means nothing can be undone.
/// - `cursor == history.len()` means nothing can be redone.
pub struct CommandHistory<C: Command> {
    history: Vec<C>,
    cursor: usize,
}

impl<C: Command> View for CommandHistory<C> {
    type V = HistoryView<C>;

    /// The stack and the cursor (which the type invariant keeps within the
    /// stack; the view says so of every history).
    closed spec fn view(&self) -> HistoryView<C> {
        HistoryView {
            commands: self.history@,
            cursor: if self.cursor <= self.history.len() {
                self.cursor as nat
            } else {
                self.history.len() as nat
            },
        }
    }
}

impl<C: Command> CommandHistory<C> {
    /// The cursor lies within the stack.
    #[verifier::type_invariant]
    spec fn cursor_in_stack(self) -> bool {
        self.cursor <= self.history.len()
    }

    /// The cursor of every history lies within its stack.
    pub proof fn lemma_wf(&self)
        ensures
            history_wf(self@),
    {
    }

    /// Hand out the command stack, leaving this history empty.
    fn take_stack(&mut self) -> (stack: Vec<C>)
        ensures
            stack@ == old(self)@.commands,
            final(self)@.commands == Seq::<C>::empty(),
            final(self).cursor == 0,
    {
        self.cursor = 0;
        let mut stack = Vec::new();
        std::mem::swap(&mut stack, &mut self.history);
        proof {
            assert(self@.commands =~= Seq::<C>::empty());
        }
        stack
    }

    /// Create an empty history.
    pub fn new() -> (h: Self)
        ensures
            h@.commands == Seq::<C>::empty(),
            h@.cursor == 0,
            history_wf(h@),
    {
        let h = Self { history: Vec::new(), cursor: 0 };
        assert(h@.commands =~= Seq::<C>::empty());
        h
    }

    /// Returns `true` if one more command can be recorded without the
    /// cursor overflowing.
    pub fn has_room(&self) -> (r: bool)
        ensures
            r == (self@.cursor < usize::MAX),
    {
        proof {
            use_type_invariant(self);
        }
        self.cursor < usize::MAX
    }

    /// Execute `command` against `timeline` and push it onto the history stack
    /// (as executing it left it).
    ///
    /// Any commands beyond the current cursor (the "redo stack") are discarded.
    pub fn push(&mut self, command: C, timeline: &mut Timeline)
        requires
            old(self)@.cursor < usize::MAX,
        ensures
            final(self)@ == history_pushed(old(self)@, command.recorded(old(timeline)@)),
            final(timeline)@ == command.executed(old(timeline)@),
            history_wf(final(self)@),
    {
        proof {
            use_type_invariant(&*self);
        }
        let mut command = command;
        let ghost original = command;
        let ghost tl0 = timeline@;
        let cursor = self.cursor;
        let mut stack = self.take_stack();
        stack.truncate(cursor);
        command.execute(timeline);
        stack.push(command);
        self.history = stack;
        self.cursor = cursor + 1;
        proof {
            assert(self@.commands =~= history_pushed(old(self)@, original.recorded(tl0)).commands);
        }
    }

    /// Undo the most recent command. Returns `false` if there is nothing to undo.
    pub fn undo(&mut self, timeline: &mut Timeline) -> (r: bool)
        ensures
            r == (old(self)@.cursor > 0),
            (final(self)@, final(timeline)@) == history_undo(old(self)@, old(timeline)@),
            history_wf(final(self)@),
    {
        proof {
            use_type_invariant(&*self);
        }
        if self.cursor == 0 {
            return false;
        }
        let i = self.cursor - 1;
        let mut stack = self.take_stack();
        stack[i].undo(timeline);
        self.history = stack;
        self.cursor = i;
        proof {
            assert(self@.commands =~= old(self)@.commands);
        }
        true
    }

    /// Redo the next command. Returns `false` if there is nothing to redo.
    pub fn redo(&mut self, timeline: &mut Timeline) -> (r: bool)
        ensures
            r == (old(self)@.cursor < old(self)@.commands.len()),
            (final(self)@, final(timeline)@) == history_redo(old(self)@, old(timeline)@),
            history_wf(final(self)@),
    {
        proof {
            use_type_invariant(&*self);
        }
        if self.cursor >= self.history.len() {
            return false;
        }
        let i = self.cursor;
        let mut stack = self.take_stack();
        stack[i].execute(timeline);
        self.history = stack;
        self.cursor = i + 1;
        proof {
            assert(self@.commands =~= old(self)@.commands.update(
                i as int,
                old(self)@.commands[i as int].recorded(old(timeline)@),
            ));
        }
        true
    }

    /// Returns `true` if there is at least one command to undo.
    pub fn can_undo(&self) -> (r: bool)
        ensures
            r == (self@.cursor > 0),
    {
        proof {
            use_type_invariant(self);
        }
        self.cursor > 0
    }

    /// Returns `true` if there is at least one command to redo.
    pub fn can_redo(&self) -> (r: bool)
        ensures
            r == (self@.cursor < self@.commands.len()),
    {
        proof {
            use_type_invariant(self);
        }
        self.cursor < self.history.len()
    }

    /// Label of the command that would be undone next, if any.
    pub fn undo_label(&self) -> (r: Option<&str>)
        ensures
            r is Some == (self@.cursor > 0),
            r matches Some(s) ==> s@ == self@.commands[self@.cursor - 1].label_view(),
    {
        proof {
            use_type_invariant(self);
        }
        if self.cursor == 0 {
            None
        } else {
            Some(self.history[self.cursor - 1].label())
        }
    }

    /// Label of the command that would be redone next, if any.
    pub fn redo_label(&self) -> (r: Option<&str>)
        ensures
            r is Some == (self@.cursor < self@.commands.len()),
            r matches Some(s) ==> s@ == self@.commands[self@.cursor as int].label_view(),
    {
        proof {
            use_type_invariant(self);
        }
        if self.cursor < self.history.len() {
            Some(self.history[self.cursor].label())
        } else {
            None
        }
    }
}

impl<C: Command> Default for CommandHistory<C> {
    fn default() -> (h: Self)
        ensures
            h@.commands == Seq::<C>::empty(),
            h@.cursor == 0,
            history_wf(h@),
    {
        Self::new()
    }
}

/// Law: undo right after recording a command (as executing it on `tl` left
/// it) undoes that command, leaves it available for redo, and gives back the
/// timeline whenever the command can restore it.
pub proof fn lemma_push_then_undo<C: Command>(h: HistoryView<C>, c: C, tl: TimelineView)
    requires
        history_wf(h),
    ensures
        history_undo(history_pushed(h, c.recorded(tl)), c.executed(tl)).1 == c.recorded(tl).undone(
            c.executed(tl),
        ),
        history_undo(history_pushed(h, c.recorded(tl)), c.executed(tl)).0.cursor == h.cursor,
        history_undo(history_pushed(h, c.recorded(tl)), c.executed(tl)).0.cursor < history_undo(
            history_pushed(h, c.recorded(tl)),
            c.executed(tl),
        ).0.commands.len(),
        c.restorable(tl) ==> history_undo(history_pushed(h, c.recorded(tl)), c.executed(tl)).1
            == tl,
{
    let p = history_pushed(h, c.recorded(tl));
    assert(p.commands[p.cursor - 1] == c.recorded(tl));
    if c.restorable(tl) {
        c.lemma_undo_restores(tl);
    }
}

/// Law: redo right after undo executes again the command that was undone
/// and puts the cursor back; when the timeline before the undo was what that
/// command produced from a timeline `before` that it can restore, and the
/// command is as executing on `before` leaves it, redo gives back both the
/// timeline and the history.
pub proof fn lemma_undo_then_redo<C: Command>(h: HistoryView<C>, tl: TimelineView, before: TimelineView)
    requires
        history_wf(h),
        h.cursor > 0,
    ensures
        history_redo(history_undo(h, tl).0, history_undo(h, tl).1).0.cursor == h.cursor,
        history_redo(history_undo(h, tl).0, history_undo(h, tl).1).0.commands.len()
            == h.commands.len(),
        history_redo(history_undo(h, tl).0, history_undo(h, tl).1).1
            == h.commands[h.cursor - 1].executed(h.commands[h.cursor - 1].undone(tl)),
        ({
            let c = h.commands[h.cursor - 1];
            (tl == c.executed(before) && c.restorable(before) && c.recorded(before) == c) ==> {
                &&& history_redo(history_undo(h, tl).0, history_undo(h, tl).1).1 == tl
                &&& history_redo(history_undo(h, tl).0, history_undo(h, tl).1).0 == h
            }
        }),
{
    let c = h.commands[h.cursor - 1];
    if tl == c.executed(before) && c.restorable(before) && c.recorded(before) == c {
        c.lemma_undo_restores(before);
        assert(history_redo(history_undo(h, tl).0, history_undo(h, tl).1).0.commands =~= h.commands);
    }
}

/// Law: recording a command leaves nothing to redo and keeps the cursor
/// within the stack.
pub proof fn lemma_push_clears_redo<C>(h: HistoryView<C>, c: C)
    requires
        history_wf(h),
    ensures
        history_pushed(h, c).cursor == history_pushed(h, c).commands.len(),
        history_wf(history_pushed(h, c)),
{
}

/// The history after recording each of `cs` in turn on `h`.
pub open spec fn pushed_all<C>(h: HistoryView<C>, cs: Seq<C>) -> HistoryView<C>
    decreases cs.len(),
{
    if cs.len() == 0 {
        h
    } else {
        history_pushed(pushed_all(h, cs.drop_last()), cs.last())
    }
}

/// The history and timeline after `k` undos in a row on `h` and `tl`.
pub open spec fn undone_times<C: Command>(h: HistoryView<C>, tl: TimelineView, k: nat) -> (
    HistoryView<C>,
    TimelineView,
)
    decreases k,
{
    if k == 0 {
        (h, tl)
    } else {
        let r = history_undo(h, tl);
        undone_times(r.0, r.1, (k - 1) as nat)
    }
}

/// The history and timeline after `k` redos in a row on `h` and `tl`.
pub open spec fn redone_times<C: Command>(h: HistoryView<C>, tl: TimelineView, k: nat) -> (
    HistoryView<C>,
    TimelineView,
)
    decreases k,
{
    if k == 0 {
        (h, tl)
    } else {
        let r = history_redo(h, tl);
        redone_times(r.0, r.1, (k - 1) as nat)
    }
}

/// Law: recording commands one after another drops the redo stack once and
/// appends them all; the cursor ends past the last of them.
pub proof fn lemma_pushed_all<C>(h: HistoryView<C>, cs: Seq<C>)
    requires
        history_wf(h),
    ensures
        pushed_all(h, cs).cursor == h.cursor + cs.len(),
        history_wf(pushed_all(h, cs)),
        cs.len() > 0 ==> pushed_all(h, cs).commands == h.commands.take(h.cursor as int) + cs,
    decreases cs.len(),
{
    if cs.len() > 0 {
        let front = cs.drop_last();
        lemma_pushed_all(h, front);
        let q = pushed_all(h, front);
        if front.len() > 0 {
            assert(q.commands.take(q.cursor as int) =~= q.commands);
            assert(h.commands.take(h.cursor as int) + cs =~= (h.commands.take(h.cursor as int)
                + front).push(cs.last()));
        } else {
            assert(h.commands.take(h.cursor as int) + cs =~= h.commands.take(h.cursor as int).push(
                cs.last(),
            ));
        }
    }
}

/// Law: from a history whose cursor is at least `k`, each of `k` undos in a
/// row finds a command to undo, and together they move the cursor back by
/// `k` and keep the stack.
pub proof fn lemma_undo_times<C: Command>(h: HistoryView<C>, tl: TimelineView, k: nat)
    requires
        history_wf(h),
        k <= h.cursor,
    ensures
        undone_times(h, tl, k).0.commands == h.commands,
        undone_times(h, tl, k).0.cursor == h.cursor - k,
        forall|j: nat| j < k ==> (#[trigger] undone_times(h, tl, j)).0.cursor > 0,
    decreases k,
{
    if k > 0 {
        let r = history_undo(h, tl);
        lemma_undo_times(r.0, r.1, (k - 1) as nat);
        assert forall|j: nat| j < k implies (#[trigger] undone_times(h, tl, j)).0.cursor > 0 by {
            if j > 0 {
                lemma_undo_times(r.0, r.1, (j - 1) as nat);
            }
        }
    }
}

/// Law: from a history with at least `k` commands beyond its cursor, each
/// of `k` redos in a row finds a command to redo, and together they move the
/// cursor forward by `k` and keep the length of the stack.
pub proof fn lemma_redo_times<C: Command>(h: HistoryView<C>, tl: TimelineView, k: nat)
    requires
        history_wf(h),
        h.cursor + k <= h.commands.len(),
    ensures
        redone_times(h, tl, k).0.commands.len() == h.commands.len(),
        redone_times(h, tl, k).0.cursor == h.cursor + k,
        forall|j: nat|
            j < k ==> (#[trigger] redone_times(h, tl, j)).0.cursor < redone_times(
                h,
                tl,
                j,
            ).0.commands.len(),
    decreases k,
{
    if k > 0 {
        let r = history_redo(h, tl);
        lemma_redo_times(r.0, r.1, (k - 1) as nat);
        assert forall|j: nat| j < k implies (#[trigger] redone_times(h, tl, j)).0.cursor
            < redone_times(h, tl, j).0.commands.len() by {
            if j > 0 {
                lemma_redo_times(r.0, r.1, (j - 1) as nat);
            }
        }
    }
}

/// Law: after `k` commands are recorded on an empty history, each of `k`
/// undos in a row succeeds and one more finds nothing to undo; after them,
/// each of `k` redos in a row succeeds and one more finds nothing to redo.
pub proof fn lemma_full_undo_redo<C: Command>(cs: Seq<C>, tl: TimelineView)
    ensures
        ({
            let p = pushed_all(HistoryView { commands: Seq::empty(), cursor: 0 }, cs);
            let u = undone_times(p, tl, cs.len());
            let r = redone_times(u.0, u.1, cs.len());
            &&& p.cursor == cs.len()
            &&& p.commands == cs
            &&& forall|j: nat| j < cs.len() ==> (#[trigger] undone_times(p, tl, j)).0.cursor > 0
            &&& u.0.cursor == 0
            &&& forall|j: nat|
                j < cs.len() ==> (#[trigger] redone_times(u.0, u.1, j)).0.cursor < redone_times(
                    u.0,
                    u.1,
                    j,
                ).0.commands.len()
            &&& r.0.cursor == cs.len()
            &&& r.0.commands.len() == cs.len()
        }),
{
    let e = HistoryView::<C> { commands: Seq::empty(), cursor: 0 };
    lemma_pushed_all(e, cs);
    let p = pushed_all(e, cs);
    if cs.len() > 0 {
        assert(e.commands.take(0) + cs =~= cs);
    } else {
        assert(p.commands =~= cs);
    }
    lemma_undo_times(p, tl, cs.len());
    let u = undone_times(p, tl, cs.len());
    lemma_redo_times(u.0, u.1, cs.len());
}

/// Law: recording a command makes its label the one to undo next, undoing
/// it then makes that label the one to redo next, and a redo keeps the
/// label of every command in the stack.
pub proof fn lemma_history_labels<C: Command>(h: HistoryView<C>, c: C, tl: TimelineView, tl2: TimelineView)
    requires
        history_wf(h),
    ensures
        ({
            let p = history_pushed(h, c.recorded(tl));
            let u = history_undo(p, tl2).0;
            &&& p.commands[p.cursor - 1].label_view() == c.label_view()
            &&& u.commands[u.cursor as int].label_view() == c.label_view()
        }),
        forall|j: int|
            0 <= j < h.commands.len() ==> (#[trigger] history_redo(h, tl2).0.commands[j]).label_view()
                == h.commands[j].label_view(),
{
    c.lemma_recorded_label(tl);
    let p = history_pushed(h, c.recorded(tl));
    assert(p.commands[p.cursor - 1] == c.recorded(tl));
    if h.cursor < h.commands.len() {
        h.commands[h.cursor as int].lemma_recorded_label(tl2);
    }
}
/// Law: one more undo after `k` undos in a row is `k + 1` undos in a row,
/// so a caller that undoes in a loop keeps `undone_times` as its invariant.
pub proof fn lemma_undone_times_step<C: Command>(h: HistoryView<C>, tl: TimelineView, k: nat)
    ensures
        undone_times(h, tl, k + 1) == history_undo(undone_times(h, tl, k).0, undone_times(h, tl, k).1),
    decreases k,
{
    let r = history_undo(h, tl);
    assert(undone_times(h, tl, k + 1) == undone_times(r.0, r.1, k));
    if k > 0 {
        let k1 = (k - 1) as nat;
        assert(undone_times(h, tl, k) == undone_times(r.0, r.1, k1));
        lemma_undone_times_step(r.0, r.1, k1);
        assert(k1 + 1 == k);
    } else {
        assert(undone_times(r.0, r.1, 0) == r);
    }
}

/// Law: one more redo after `k` redos in a row is `k + 1` redos in a row,
/// so a caller that redoes in a loop keeps `redone_times` as its invariant.
pub proof fn lemma_redone_times_step<C: Command>(h: HistoryView<C>, tl: TimelineView, k: nat)
    ensures
        redone_times(h, tl, k + 1) == history_redo(redone_times(h, tl, k).0, redone_times(h, tl, k).1),
    decreases k,
{
    let r = history_redo(h, tl);
    assert(redone_times(h, tl, k + 1) == redone_times(r.0, r.1, k));
    if k > 0 {
        let k1 = (k - 1) as nat;
        assert(redone_times(h, tl, k) == redone_times(r.0, r.1, k1));
        lemma_redone_times_step(r.0, r.1, k1);
        assert(k1 + 1 == k);
    } else {
        assert(redone_times(r.0, r.1, 0) == r);
    }
}

} // verus!

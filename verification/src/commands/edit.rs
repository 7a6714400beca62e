//! `EditCommand` — the editing commands of this crate as one type, so that a
//! single [`CommandHistory`](crate::commands::CommandHistory) can record
//! them all.

use vstd::prelude::*;

use crate::commands::add_clip::AddClipCommand;
use crate::commands::delete_clip::DeleteClipCommand;
use crate::commands::move_clip::MoveClipCommand;
use crate::commands::trim_clip::TrimClipCommand;
use crate::commands::Command;
use crate::timeline::{Timeline, TimelineView};

verus! {

/// One of the editing commands: add, delete, move or trim a clip.
pub enum EditCommand {
    Add(AddClipCommand),
    Delete(DeleteClipCommand),
    Move(MoveClipCommand),
    Trim(TrimClipCommand),
}

impl Command for EditCommand {
    open spec fn executed(&self, tl: TimelineView) -> TimelineView {
        match self {
            EditCommand::Add(c) => c.executed(tl),
            EditCommand::Delete(c) => c.executed(tl),
            EditCommand::Move(c) => c.executed(tl),
            EditCommand::Trim(c) => c.executed(tl),
        }
    }

    open spec fn recorded(&self, tl: TimelineView) -> Self {
        match self {
            EditCommand::Delete(c) => EditCommand::Delete(c.recorded(tl)),
            EditCommand::Trim(c) => EditCommand::Trim(c.recorded(tl)),
            _ => *self,
        }
    }

    open spec fn undone(&self, tl: TimelineView) -> TimelineView {
        match self {
            EditCommand::Add(c) => c.undone(tl),
            EditCommand::Delete(c) => c.undone(tl),
            EditCommand::Move(c) => c.undone(tl),
            EditCommand::Trim(c) => c.undone(tl),
        }
    }

    open spec fn restorable(&self, tl: TimelineView) -> bool {
        match self {
            EditCommand::Add(c) => c.restorable(tl),
            EditCommand::Delete(c) => c.restorable(tl),
            EditCommand::Move(c) => c.restorable(tl),
            EditCommand::Trim(c) => c.restorable(tl),
        }
    }

    open spec fn label_view(&self) -> Seq<char> {
        match self {
            EditCommand::Add(c) => c.label_view(),
            EditCommand::Delete(c) => c.label_view(),
            EditCommand::Move(c) => c.label_view(),
            EditCommand::Trim(c) => c.label_view(),
        }
    }

    proof fn lemma_recorded_label(&self, tl: TimelineView) {
        match self {
            EditCommand::Add(c) => c.lemma_recorded_label(tl),
            EditCommand::Delete(c) => c.lemma_recorded_label(tl),
            EditCommand::Move(c) => c.lemma_recorded_label(tl),
            EditCommand::Trim(c) => c.lemma_recorded_label(tl),
        }
    }

    proof fn lemma_undo_restores(&self, tl: TimelineView) {
        match self {
            EditCommand::Add(c) => c.lemma_undo_restores(tl),
            EditCommand::Delete(c) => c.lemma_undo_restores(tl),
            EditCommand::Move(c) => c.lemma_undo_restores(tl),
            EditCommand::Trim(c) => c.lemma_undo_restores(tl),
        }
    }

    fn execute(&mut self, timeline: &mut Timeline) {
        match self {
            EditCommand::Add(c) => c.execute(timeline),
            EditCommand::Delete(c) => c.execute(timeline),
            EditCommand::Move(c) => c.execute(timeline),
            EditCommand::Trim(c) => c.execute(timeline),
        }
    }

    fn undo(&mut self, timeline: &mut Timeline) {
        match self {
            EditCommand::Add(c) => c.undo(timeline),
            EditCommand::Delete(c) => c.undo(timeline),
            EditCommand::Move(c) => c.undo(timeline),
            EditCommand::Trim(c) => c.undo(timeline),
        }
    }

    fn label(&self) -> (r: &str) {
        match self {
            EditCommand::Add(c) => c.label(),
            EditCommand::Delete(c) => c.label(),
            EditCommand::Move(c) => c.label(),
            EditCommand::Trim(c) => c.label(),
        }
    }
}

} // verus!

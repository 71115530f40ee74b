//! The ordered plan for writing the image to its target file.
//!
//! Serialization touches the file system in a fixed order: if the target
//! already exists it is deleted first (a failed delete is tolerated, since
//! creating the file truncates it); the file is created; the header is
//! written; the pixel section is written. A failed header write aborts the
//! operation with a report and raises nothing further. A failed pixel write
//! additionally deletes the partially written file, so no corrupt output is
//! left behind. A failed create ends the run abnormally.

use vstd::prelude::*;

verus! {

/// Where the plan stands.
#[derive(Clone, Copy, Debug, PartialEq, Eq, Structural)]
pub enum SavePhase {
    /// Ask whether the target file already exists.
    CheckTarget,
    /// A pre-existing target: delete it before anything is written.
    RemoveOld,
    /// Create (and thereby truncate) the target file.
    CreateTarget,
    /// Write the header bytes.
    WriteHeader,
    /// Write the pixel bytes.
    WriteBody,
    /// The pixel write failed: delete the partially written file.
    RemovePartial,
    /// The image was written in full.
    Done,
    /// The header write failed; reported, nothing further raised.
    AbortedAtHeader,
    /// The pixel write failed; the partial file has been dealt with.
    AbortedAtBody,
    /// The create failed; the run ends abnormally.
    Crashed,
}

/// One file operation the plan asks of the caller.
#[derive(Clone, Copy, Debug, PartialEq, Eq, Structural)]
pub enum SaveAction {
    QueryExists,
    DeleteTarget,
    CreateTarget,
    WriteHeader,
    WriteBody,
}

/// Phases that ask for no further operation.
pub open spec fn save_terminal(p: SavePhase) -> bool {
    match p {
        SavePhase::Done => true,
        SavePhase::AbortedAtHeader => true,
        SavePhase::AbortedAtBody => true,
        SavePhase::Crashed => true,
        _ => false,
    }
}

/// The operation each live phase asks for.
pub open spec fn spec_save_action(p: SavePhase) -> SaveAction {
    match p {
        SavePhase::CheckTarget => SaveAction::QueryExists,
        SavePhase::RemoveOld => SaveAction::DeleteTarget,
        SavePhase::CreateTarget => SaveAction::CreateTarget,
        SavePhase::WriteHeader => SaveAction::WriteHeader,
        SavePhase::WriteBody => SaveAction::WriteBody,
        _ => SaveAction::DeleteTarget,  // RemovePartial, and nothing for terminal phases
    }
}

/// One transition on the operation's result. A delete result is tolerated
/// either way; every other operation branches on success.
pub open spec fn spec_save_step(p: SavePhase, ok: bool) -> SavePhase {
    match p {
        SavePhase::CheckTarget => if ok {
            SavePhase::RemoveOld
        } else {
            SavePhase::CreateTarget
        },
        SavePhase::RemoveOld => SavePhase::CreateTarget,
        SavePhase::CreateTarget => if ok {
            SavePhase::WriteHeader
        } else {
            SavePhase::Crashed
        },
        SavePhase::WriteHeader => if ok {
            SavePhase::WriteBody
        } else {
            SavePhase::AbortedAtHeader
        },
        SavePhase::WriteBody => if ok {
            SavePhase::Done
        } else {
            SavePhase::RemovePartial
        },
        SavePhase::RemovePartial => SavePhase::AbortedAtBody,
        _ => p,
    }
}

/// A whole run from `p`: the operations issued, one per consumed result, and
/// the phase reached.
pub open spec fn spec_save_run(p: SavePhase, events: Seq<bool>) -> (Seq<SaveAction>, SavePhase)
    decreases events.len(),
{
    if save_terminal(p) || events.len() == 0 {
        (Seq::<SaveAction>::empty(), p)
    } else {
        let rest = spec_save_run(spec_save_step(p, events[0]), events.subrange(1, events.len() as int));
        (seq![spec_save_action(p)] + rest.0, rest.1)
    }
}

/// Deletion is paired with writing exactly as the contract demands. For
/// every sequence of operation results: a pre-existing target is deleted
/// before any write is issued (the delete is the second operation, straight
/// after the existence query); and whenever the pixel write fails, the last
/// operation of the run deletes the partially written file. A failed header
/// write, by contrast, ends the run with no delete: nothing of the image had
/// been written.
pub proof fn lemma_save_plan_deletion(events: Seq<bool>)
    requires
        events.len() >= 6,
    ensures
        events[0] ==> spec_save_run(SavePhase::CheckTarget, events).0.len() >= 2
            && spec_save_run(SavePhase::CheckTarget, events).0[0] == SaveAction::QueryExists
            && spec_save_run(SavePhase::CheckTarget, events).0[1] == SaveAction::DeleteTarget,
        spec_save_run(SavePhase::CheckTarget, events).1 == SavePhase::AbortedAtBody ==> spec_save_run(
            SavePhase::CheckTarget,
            events,
        ).0.last() == SaveAction::DeleteTarget,
        spec_save_run(SavePhase::CheckTarget, events).1 == SavePhase::AbortedAtHeader
            ==> spec_save_run(SavePhase::CheckTarget, events).0.last() == SaveAction::WriteHeader,
{
    reveal_with_fuel(spec_save_run, 8);
    let e1 = events.subrange(1, events.len() as int);
    let e2 = e1.subrange(1, e1.len() as int);
    let e3 = e2.subrange(1, e2.len() as int);
    let e4 = e3.subrange(1, e3.len() as int);
    let e5 = e4.subrange(1, e4.len() as int);
    assert(e1[0] == events[1]);
    assert(e2[0] == events[2]);
    assert(e3[0] == events[3]);
    assert(e4[0] == events[4]);
    assert(e5[0] == events[5]);
}

/// Drives the file operations of one save in their fixed order.
pub struct SavePlan {
    pub phase: SavePhase,
}

impl SavePlan {
    /// A fresh plan: nothing touched yet.
    pub fn new() -> (r: Self)
        ensures
            r.phase == SavePhase::CheckTarget,
    {
        SavePlan { phase: SavePhase::CheckTarget }
    }

    /// The file operation to perform next; nothing once the run has ended.
    pub fn next_action(&self) -> (r: Option<SaveAction>)
        ensures
            r == if save_terminal(self.phase) {
                None::<SaveAction>
            } else {
                Some(spec_save_action(self.phase))
            },
    {
        match self.phase {
            SavePhase::CheckTarget => Some(SaveAction::QueryExists),
            SavePhase::RemoveOld => Some(SaveAction::DeleteTarget),
            SavePhase::CreateTarget => Some(SaveAction::CreateTarget),
            SavePhase::WriteHeader => Some(SaveAction::WriteHeader),
            SavePhase::WriteBody => Some(SaveAction::WriteBody),
            SavePhase::RemovePartial => Some(SaveAction::DeleteTarget),
            _ => None,
        }
    }

    /// Record the result of the operation just performed. For the existence
    /// query, success means "the target exists"; for a delete the result is
    /// tolerated either way.
    pub fn record_result(&mut self, ok: bool)
        requires
            !save_terminal(old(self).phase),
        ensures
            final(self).phase == spec_save_step(old(self).phase, ok),
    {
        self.phase = match self.phase {
            SavePhase::CheckTarget => if ok {
                SavePhase::RemoveOld
            } else {
                SavePhase::CreateTarget
            },
            SavePhase::RemoveOld => SavePhase::CreateTarget,
            SavePhase::CreateTarget => if ok {
                SavePhase::WriteHeader
            } else {
                SavePhase::Crashed
            },
            SavePhase::WriteHeader => if ok {
                SavePhase::WriteBody
            } else {
                SavePhase::AbortedAtHeader
            },
            SavePhase::WriteBody => if ok {
                SavePhase::Done
            } else {
                SavePhase::RemovePartial
            },
            SavePhase::RemovePartial => SavePhase::AbortedAtBody,
            other => other,
        };
    }
}

} // verus!

use crate::buffer::{buffer_text, is_line_safe, lemma_round_trip, lines, parse_names, render};
use crate::changes::{calc_changes, changes_of, lemma_identity_edit_is_noop};
use crate::error::Error;
use vstd::prelude::*;

verus! {

/// How a session that succeeded ended.
#[derive(Debug)]
pub enum Outcome {
    /// The edited buffer asked for no rename, so none was made.
    NoChanges,
    /// Every rename that the edited buffer asked for was made.
    Renamed,
}

/// What the caller is to do next for a session.
#[derive(Debug)]
pub enum Action {
    /// Rename the first path to the second, then report how that went
    /// through `Session::renamed`.
    Rename(String, String),
    /// The session is over, with this result.
    Finish(Result<Outcome, Error>),
}

/// Where a session stands.
pub enum Stage {
    /// The buffer is with the editor; its edited text is awaited.
    Editing,
    /// `changes[applied]` has been handed out as a rename and its result is
    /// awaited; the renames before it were made.
    Renaming { changes: Vec<(String, String)>, applied: usize },
    /// The session has ended.
    Finished,
}

/// One bulk rename: the names given, and how far the work on them has come.
/// The caller performs each action that the session hands out and reports
/// back what came of it.
pub struct Session {
    pub names: Vec<String>,
    pub stage: Stage,
}

impl Session {
    /// A rename in flight is one of the changes.
    pub open spec fn wf(&self) -> bool {
        self.stage matches Stage::Renaming { changes, applied } ==> applied < changes.len()
    }

    /// A session over `names` that waits for the edited buffer.
    pub fn new(names: Vec<String>) -> (s: Session)
        ensures
            s.names == names,
            s.stage is Editing,
            s.wf(),
    {
        Session { names, stage: Stage::Editing }
    }

    /// The text to put in the temporary buffer before the editor opens it.
    pub fn buffer_text(&self) -> (r: String)
        ensures
            r@ == render(self.names.deep_view()),
    {
        buffer_text(&self.names)
    }

    /// Takes what the buffer held when the editor was done with it, or the
    /// message of the failure that kept it from being written, edited or
    /// read. A failure ends the session. Otherwise the edited lines are
    /// compared with the names: a different number of lines ends the session
    /// with `WrongLength`, no change at all ends it with `NoChanges`, and else
    /// the first rename is handed out.
    pub fn edited(&mut self, result: Result<String, String>) -> (a: Action)
        requires
            old(self).stage is Editing,
        ensures
            final(self).names == old(self).names,
            final(self).wf(),
            ({
                let n = old(self).names.deep_view();
                match result {
                    Err(msg) => {
                        &&& a matches Action::Finish(Err(Error::IOError(m)))
                        &&& m@ == msg@
                        &&& final(self).stage is Finished
                    },
                    Ok(text) => {
                        let e = lines(text@);
                        let c = changes_of(n, e);
                        if e.len() != n.len() {
                            &&& a matches Action::Finish(Err(Error::WrongLength(shown)))
                            &&& shown.deep_view() == e
                            &&& final(self).stage is Finished
                        } else if c.len() == 0 {
                            &&& a matches Action::Finish(Ok(Outcome::NoChanges))
                            &&& final(self).stage is Finished
                        } else {
                            &&& final(self).stage matches Stage::Renaming { changes, applied }
                            &&& applied == 0
                            &&& changes.deep_view() == c
                            &&& a matches Action::Rename(from, to)
                            &&& from == changes[0].0
                            &&& to == changes[0].1
                        }
                    },
                }
            }),
    {
        match result {
            Err(msg) => {
                self.stage = Stage::Finished;
                Action::Finish(Err(Error::IOError(msg)))
            },
            Ok(text) => {
                let new_names = parse_names(text.as_str());
                match calc_changes(&self.names, &new_names) {
                    Err(e) => {
                        self.stage = Stage::Finished;
                        Action::Finish(Err(e))
                    },
                    Ok(changes) => {
                        if changes.len() == 0 {
                            self.stage = Stage::Finished;
                            Action::Finish(Ok(Outcome::NoChanges))
                        } else {
                            let from = changes[0].0.clone();
                            let to = changes[0].1.clone();
                            self.stage = Stage::Renaming { changes, applied: 0 };
                            Action::Rename(from, to)
                        }
                    },
                }
            },
        }
    }

    /// Takes the result of the rename handed out last: the message of its
    /// failure, if it failed. A failure ends the session with a
    /// `RenameError` for that rename; the renames before it stay made and
    /// those after it are never handed out. After a success the next rename
    /// is handed out, or, when that was the last one, the session ends with
    /// `Renamed`.
    pub fn renamed(&mut self, result: Result<(), String>) -> (a: Action)
        requires
            old(self).wf(),
            old(self).stage is Renaming,
        ensures
            final(self).names == old(self).names,
            final(self).wf(),
            ({
                let changes = old(self).stage->changes;
                let applied = old(self).stage->applied;
                match result {
                    Err(msg) => {
                        &&& a matches Action::Finish(Err(Error::RenameError(from, to, m)))
                        &&& from == changes[applied as int].0
                        &&& to == changes[applied as int].1
                        &&& m@ == msg@
                        &&& final(self).stage is Finished
                    },
                    Ok(_) => if applied + 1 == changes.len() {
                        &&& a matches Action::Finish(Ok(Outcome::Renamed))
                        &&& final(self).stage is Finished
                    } else {
                        &&& final(self).stage matches Stage::Renaming { changes: now, applied: next }
                        &&& now == changes
                        &&& next == applied + 1
                        &&& a matches Action::Rename(from, to)
                        &&& from == changes[next as int].0
                        &&& to == changes[next as int].1
                    },
                }
            }),
    {
        let mut stage = Stage::Finished;
        std::mem::swap(&mut stage, &mut self.stage);
        match stage {
            Stage::Renaming { changes, applied } => {
                match result {
                    Err(msg) => {
                        let from = changes[applied].0.clone();
                        let to = changes[applied].1.clone();
                        Action::Finish(Err(Error::RenameError(from, to, msg)))
                    },
                    Ok(_) => {
                        let next = applied + 1;
                        if next == changes.len() {
                            Action::Finish(Ok(Outcome::Renamed))
                        } else {
                            let from = changes[next].0.clone();
                            let to = changes[next].1.clone();
                            self.stage = Stage::Renaming { changes, applied: next };
                            Action::Rename(from, to)
                        }
                    },
                }
            },
            // ruled out by the precondition
            _ => Action::Finish(Ok(Outcome::Renamed)),
        }
    }
}

/// When the editor hands the buffer back unchanged, the edited lines are the
/// names themselves and the change set is empty, so the session ends with
/// `NoChanges` and renames nothing; this holds for names that hold no newline
/// and do not end with a carriage return.
pub proof fn lemma_unchanged_buffer_renames_nothing(names: Seq<Seq<char>>)
    requires
        forall|i: int| 0 <= i < names.len() ==> is_line_safe(#[trigger] names[i]),
    ensures
        lines(render(names)) == names,
        changes_of(names, lines(render(names))).len() == 0,
{
    lemma_round_trip(names);
    lemma_identity_edit_is_noop(names);
}

} // verus!

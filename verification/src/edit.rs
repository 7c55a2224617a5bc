//! Letting the user write a description in an editor.
//!
//! The editor is the caller's business: it needs a terminal, a program and
//! a file on disk. What is decided here is which program to start, and what
//! the state of the file afterwards means: a file that is gone, or holds
//! nothing but whitespace, means that the user gave up, and then the file
//! is put back as it was.

use vstd::prelude::*;
use crate::fs::Location;
use crate::fs::LocationView;
use crate::git::checked;
use crate::git::CommandView;
use crate::git::GitCommand;
use crate::git::Outcome;
use crate::git::OutcomeView;
use crate::text::blank;
use crate::text::is_blank;
use crate::git::EditFault;
use crate::git::EditFaultView;

verus! {

/// What the variable `EDITOR` says of the editor to use.
#[derive(Debug, PartialEq, Eq)]
pub enum EditorVar {
    /// The variable names this program.
    Named(String),
    /// The variable is not set.
    NotPresent,
    /// The variable holds what is no valid text.
    NotUnicode,
}

/// What happened in an editing session, as the caller reports it.
#[derive(Debug, PartialEq, Eq)]
pub enum EditEvent {
    /// Nothing yet: whether input and output are terminals, and what the
    /// variable `EDITOR` says of the editor.
    Begin { stdin_is_terminal: bool, stdout_is_terminal: bool, editor: EditorVar },
    /// The editor ended: whether it reported success, and what the file
    /// holds that it left, or `None` if it left none.
    Exited { success: bool, contents: Option<String> },
    /// The command that puts the file back has been run.
    Restored { outcome: Outcome },
}

/// What a step of an editing session answers.
#[derive(Debug, PartialEq, Eq)]
pub enum EditStep {
    /// Start this program on this file and wait for it.
    Launch { program: String, file: String },
    /// Run this command, which puts the file back as it was.
    Restore { command: GitCommand },
    /// The session is over, with this outcome.
    Finished { outcome: Outcome },
}

/// An editing step's answer as texts.
pub enum EditStepView {
    Launch { program: Seq<char>, file: Seq<char> },
    Restore { command: CommandView },
    Finished { outcome: OutcomeView },
}

impl View for EditStep {
    type V = EditStepView;

    open spec fn view(&self) -> EditStepView {
        match self {
            EditStep::Launch { program, file } => EditStepView::Launch {
                program: program@,
                file: file@,
            },
            EditStep::Restore { command } => EditStepView::Restore { command: command@ },
            EditStep::Finished { outcome } => EditStepView::Finished { outcome: outcome@ },
        }
    }
}

/// The command that discards the uncommitted changes to a file, run from
/// the directory that holds it.
pub open spec fn restore_command(file: LocationView) -> CommandView {
    CommandView { args: seq!["restore"@, file.path()], dir: Some(file.parent) }
}

/// Whether the file that an editor left says that the user gave up: it is
/// gone, or holds nothing but whitespace.
pub open spec fn gave_up(contents: Option<String>) -> bool {
    match contents {
        None => true,
        Some(text) => is_blank(text@),
    }
}

/// One step of the editing of `file`, which existed before the session or
/// did not.
///
/// - At the beginning: without a terminal on both input and output the
///   session ends with `NotTerminal`, and with an editor variable that is no
///   text it ends with `EnvVar`. Otherwise the editor that the variable
///   names is started, or `vi` if it names none.
/// - When the editor has ended: if it reported failure the session ends with
///   `Editor`. If the file is gone or holds nothing but whitespace the user
///   gave up: a file that existed before is put back, and one that did not
///   ends the session with `Empty`. Otherwise the session ends well.
/// - When the file has been put back: the session ends with `Empty`, or with
///   the failure of putting it back.
pub open spec fn edit_step(file: LocationView, existed: bool, event: EditEvent) -> EditStepView {
    match event {
        EditEvent::Begin { stdin_is_terminal, stdout_is_terminal, editor } => {
            if !stdin_is_terminal || !stdout_is_terminal {
                EditStepView::Finished {
                    outcome: OutcomeView::Abandoned(EditFaultView::NotTerminal),
                }
            } else {
                match editor {
                    EditorVar::Named(program) => EditStepView::Launch {
                        program: program@,
                        file: file.path(),
                    },
                    EditorVar::NotPresent => EditStepView::Launch {
                        program: "vi"@,
                        file: file.path(),
                    },
                    EditorVar::NotUnicode => EditStepView::Finished {
                        outcome: OutcomeView::Abandoned(EditFaultView::EnvVar),
                    },
                }
            }
        },
        EditEvent::Exited { success, contents } => {
            if !success {
                EditStepView::Finished { outcome: OutcomeView::Abandoned(EditFaultView::Editor) }
            } else if gave_up(contents) {
                if existed {
                    EditStepView::Restore { command: restore_command(file) }
                } else {
                    EditStepView::Finished { outcome: OutcomeView::Abandoned(EditFaultView::Empty) }
                }
            } else {
                EditStepView::Finished { outcome: OutcomeView::Done }
            }
        },
        EditEvent::Restored { outcome } => match checked(outcome) {
            Ok(_) => EditStepView::Finished { outcome: OutcomeView::Abandoned(EditFaultView::Empty) },
            Err(e) => EditStepView::Finished {
                outcome: OutcomeView::Abandoned(EditFaultView::Git(e@)),
            },
        },
    }
}

/// One step of the editing of `file`.
///
/// Call it first with `EditEvent::Begin`; start the program that
/// `EditStep::Launch` names on the file and call again with
/// `EditEvent::Exited`; run the command that `EditStep::Restore` holds and
/// call again with `EditEvent::Restored`. `EditStep::Finished` holds the
/// outcome of the whole session.
pub fn edit_description_file(file: &Location, existed: bool, event: EditEvent) -> (step: EditStep)
    ensures
        step@ == edit_step(file@, existed, event),
{
    match event {
        EditEvent::Begin { stdin_is_terminal, stdout_is_terminal, editor } => {
            if !stdin_is_terminal || !stdout_is_terminal {
                EditStep::Finished { outcome: Outcome::Abandoned(EditFault::NotTerminal) }
            } else {
                match editor {
                    EditorVar::Named(program) => EditStep::Launch { program, file: file.path() },
                    EditorVar::NotPresent => EditStep::Launch {
                        program: "vi".to_owned(),
                        file: file.path(),
                    },
                    EditorVar::NotUnicode => EditStep::Finished {
                        outcome: Outcome::Abandoned(EditFault::EnvVar),
                    },
                }
            }
        },
        EditEvent::Exited { success, contents } => {
            let empty = match &contents {
                None => true,
                Some(text) => blank(text.as_str()),
            };
            if !success {
                EditStep::Finished { outcome: Outcome::Abandoned(EditFault::Editor) }
            } else if empty {
                if existed {
                    EditStep::Restore { command: crate::git::restore_file(file) }
                } else {
                    EditStep::Finished { outcome: Outcome::Abandoned(EditFault::Empty) }
                }
            } else {
                EditStep::Finished { outcome: Outcome::Done }
            }
        },
        EditEvent::Restored { outcome } => match crate::git::check(outcome) {
            Ok(_) => EditStep::Finished { outcome: Outcome::Abandoned(EditFault::Empty) },
            Err(e) => EditStep::Finished { outcome: Outcome::Abandoned(EditFault::Git(e)) },
        },
    }
}

} // verus!

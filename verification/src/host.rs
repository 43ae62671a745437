//! The boundary with the machine: the operations that the library asks its
//! caller to perform and the outcomes that the caller reports back.

use vstd::prelude::*;
use crate::text::{decode_lossy, lossy_text};

verus! {

/// A process to start: the program and its arguments, in order.
#[derive(Debug, Clone, PartialEq, Eq)]
pub struct Command {
    pub program: String,
    pub args: Vec<String>,
}

/// What a command is, as mathematics.
pub struct CommandView {
    pub program: Seq<char>,
    pub args: Seq<Seq<char>>,
}

/// One thing for the caller to do on the machine.
#[derive(Debug, Clone, PartialEq, Eq)]
pub enum Operation {
    /// Start the command, wait for it to end and capture its output streams.
    Run(Command),
    /// Tell whether the path is an existing directory.
    IsDir(String),
    /// Create the directory and every missing parent.
    CreateDirAll(String),
    /// Copy the single file `from` to `to`.
    Copy { from: String, to: String },
    /// Open the existing file at `path` for appending, without ever creating
    /// it, and write `text` at its end.
    Append { path: String, text: String },
}

/// What an operation is, as mathematics.
pub enum OperationView {
    Run(CommandView),
    IsDir(Seq<char>),
    CreateDirAll(Seq<char>),
    Copy { from: Seq<char>, to: Seq<char> },
    Append { path: Seq<char>, text: Seq<char> },
}

/// What the machine answered to one operation.
#[derive(Debug, Clone, PartialEq, Eq)]
pub enum Outcome {
    /// The process ran to its end.
    Exited { success: bool, stdout: Vec<u8>, stderr: Vec<u8> },
    /// The answer to a question such as [`Operation::IsDir`].
    Answer(bool),
    /// The operation was carried out.
    Done,
    /// The process could not be started, or the operation failed; the text
    /// says why.
    Failed(String),
}

/// What an outcome is, as mathematics.
pub enum OutcomeView {
    Exited { success: bool, stdout: Seq<u8>, stderr: Seq<u8> },
    Answer(bool),
    Done,
    Failed(Seq<char>),
}

/// What the outcome of a [`Operation::Run`] says about the command.
#[derive(Debug, Clone, PartialEq, Eq)]
pub enum Verdict {
    /// The process ran and reported success.
    Passed,
    /// The process could not be started, for the reason given.
    NotStarted(String),
    /// The process ran and reported failure; the text is its error stream.
    Refused(String),
}

/// What a verdict is, as mathematics.
pub enum VerdictView {
    Passed,
    NotStarted(Seq<char>),
    Refused(Seq<char>),
}

impl View for Command {
    type V = CommandView;

    open spec fn view(&self) -> CommandView {
        CommandView { program: self.program@, args: self.args.deep_view() }
    }
}

impl View for Operation {
    type V = OperationView;

    open spec fn view(&self) -> OperationView {
        match *self {
            Operation::Run(command) => OperationView::Run(command@),
            Operation::IsDir(path) => OperationView::IsDir(path@),
            Operation::CreateDirAll(path) => OperationView::CreateDirAll(path@),
            Operation::Copy { from, to } => OperationView::Copy { from: from@, to: to@ },
            Operation::Append { path, text } => OperationView::Append { path: path@, text: text@ },
        }
    }
}

impl View for Outcome {
    type V = OutcomeView;

    open spec fn view(&self) -> OutcomeView {
        match *self {
            Outcome::Exited { success, stdout, stderr } => OutcomeView::Exited {
                success,
                stdout: stdout@,
                stderr: stderr@,
            },
            Outcome::Answer(yes) => OutcomeView::Answer(yes),
            Outcome::Done => OutcomeView::Done,
            Outcome::Failed(reason) => OutcomeView::Failed(reason@),
        }
    }
}

impl DeepView for Outcome {
    type V = OutcomeView;

    open spec fn deep_view(&self) -> OutcomeView {
        self@
    }
}

impl View for Verdict {
    type V = VerdictView;

    open spec fn view(&self) -> VerdictView {
        match *self {
            Verdict::Passed => VerdictView::Passed,
            Verdict::NotStarted(reason) => VerdictView::NotStarted(reason@),
            Verdict::Refused(reason) => VerdictView::Refused(reason@),
        }
    }
}

/// The verdict that an outcome gives on a command: `Failed` means that the
/// process never started, an unsuccessful exit that it ran and refused, with
/// its error stream read leniently as the reason. Any other outcome reports
/// no failure.
pub open spec fn verdict(outcome: OutcomeView) -> VerdictView {
    match outcome {
        OutcomeView::Failed(reason) => VerdictView::NotStarted(reason),
        OutcomeView::Exited { success, stdout, stderr } => if success {
            VerdictView::Passed
        } else {
            VerdictView::Refused(lossy_text(stderr))
        },
        _ => VerdictView::Passed,
    }
}

/// Why a filesystem operation failed, if its outcome says that it did.
pub open spec fn failure(outcome: OutcomeView) -> Option<Seq<char>> {
    match outcome {
        OutcomeView::Failed(reason) => Some(reason),
        _ => None,
    }
}

/// Whether the outcome answers yes.
pub open spec fn affirmed(outcome: OutcomeView) -> bool {
    outcome == OutcomeView::Answer(true)
}

impl Outcome {
    /// Judges a command by the outcome of running it.
    pub fn verdict(&self) -> (v: Verdict)
        ensures
            v@ == verdict(self@),
    {
        match self {
            Outcome::Failed(reason) => Verdict::NotStarted(reason.clone()),
            Outcome::Exited { success, stdout: _, stderr } => {
                if *success {
                    Verdict::Passed
                } else {
                    Verdict::Refused(decode_lossy(stderr))
                }
            },
            _ => Verdict::Passed,
        }
    }

    /// The reason of a failed filesystem operation.
    pub fn failure(&self) -> (reason: Option<String>)
        ensures
            reason.deep_view() == failure(self@),
    {
        match self {
            Outcome::Failed(reason) => Some(reason.clone()),
            _ => None,
        }
    }

    /// Whether the outcome answers yes.
    pub fn affirmed(&self) -> (yes: bool)
        ensures
            yes == affirmed(self@),
    {
        match self {
            Outcome::Answer(yes) => *yes,
            _ => false,
        }
    }
}

} // verus!

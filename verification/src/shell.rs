//! The interpreter as a state machine.
//!
//! The machine never touches a process, a pipe or the terminal. In every state
//! it names one action that waits to be performed ([`Shell::pending`]); whoever
//! drives it performs that action and hands back what came of it
//! ([`Shell::step`]). The stages of a line are dispatched strictly from left to
//! right, and a single slot remembers the process whose captured output feeds
//! the next stage.

use crate::error::ShellError;
use crate::mode::{resolve, resolved, ExecutingMode, StageView};
use crate::parser::{all_solid, lemma_pipeline_is_solid, parse_line, pipeline};
use crate::text::{is_blank, same_text};
use vstd::prelude::*;

verus! {

/// The prompt that is printed before a line is read.
pub const PROMPT: &'static str = "> ";

/// How the program ends.
#[derive(Clone, Copy, Debug, PartialEq, Eq, Structural)]
pub enum ExitStatus {
    Success,
    Failure,
}

/// Where a command reads its input from.
#[derive(Clone, Copy, Debug, PartialEq, Eq, Structural)]
pub enum Source {
    /// The input of the interpreter itself.
    Terminal,
    /// The captured output of the process in the slot.
    Previous,
}

/// Where a command writes its output to.
#[derive(Clone, Copy, Debug, PartialEq, Eq, Structural)]
pub enum Sink {
    /// The output of the interpreter itself.
    Terminal,
    /// A pipe, kept for the stage that follows.
    Captured,
}

/// What the machine does once a diagnostic has been printed.
#[derive(Clone, Copy, Debug, PartialEq, Eq, Structural)]
pub enum Resume {
    /// Give up the line and prompt again.
    Prompt,
    /// Go on with the stage after the one that failed.
    NextStage,
    /// End the program.
    Exit(ExitStatus),
}

/// What came of the action that was pending.
#[derive(Debug, PartialEq, Eq)]
pub enum Event {
    /// A line was read.
    Line(String),
    /// The action was carried out.
    Done,
    /// The action failed; the text describes why.
    Failed(String),
    /// The process was detached, and this is the branch that called.
    Parent,
    /// The process was detached, and this is the detached branch.
    Child,
}

/// What the driver is asked to do.
#[derive(Debug, PartialEq, Eq)]
pub enum Action {
    /// Print the prompt, [`PROMPT`], and read one line.
    ReadLine,
    /// Print the diagnostic of this failure on the error stream.
    Report(ShellError),
    /// Make `path` the working directory of the process.
    ChangeDirectory { path: String },
    /// Start the command as a child process and keep its handle.
    Spawn { command: String, args: Vec<String>, stdin: Source, stdout: Sink },
    /// Replace the current process by the command.
    Exec { command: String, args: Vec<String>, stdin: Source, stdout: Sink },
    /// Detach a process from the controlling terminal.
    Detach,
    /// In the detached branch: run the command to its end with its output
    /// captured, and print what was captured.
    RunDetached { command: String, args: Vec<String>, stdin: Source },
    /// Wait until the process in the slot has ended.
    Wait,
    /// End the program.
    Exit(ExitStatus),
}

/// An [`Action`] as plain sequences of characters.
pub enum ActionView {
    ReadLine,
    Report(ShellError),
    ChangeDirectory { path: Seq<char> },
    Spawn { command: Seq<char>, args: Seq<Seq<char>>, stdin: Source, stdout: Sink },
    Exec { command: Seq<char>, args: Seq<Seq<char>>, stdin: Source, stdout: Sink },
    Detach,
    RunDetached { command: Seq<char>, args: Seq<Seq<char>>, stdin: Source },
    Wait,
    Exit(ExitStatus),
}

impl View for Action {
    type V = ActionView;

    open spec fn view(&self) -> ActionView {
        match *self {
            Action::ReadLine => ActionView::ReadLine,
            Action::Report(error) => ActionView::Report(error),
            Action::ChangeDirectory { path } => ActionView::ChangeDirectory { path: path@ },
            Action::Spawn { command, args, stdin, stdout } => ActionView::Spawn {
                command: command@,
                args: args.deep_view(),
                stdin,
                stdout,
            },
            Action::Exec { command, args, stdin, stdout } => ActionView::Exec {
                command: command@,
                args: args.deep_view(),
                stdin,
                stdout,
            },
            Action::Detach => ActionView::Detach,
            Action::RunDetached { command, args, stdin } => ActionView::RunDetached {
                command: command@,
                args: args.deep_view(),
                stdin,
            },
            Action::Wait => ActionView::Wait,
            Action::Exit(status) => ActionView::Exit(status),
        }
    }
}

/// Where the machine stands.
#[derive(Debug, PartialEq, Eq)]
pub enum Phase {
    /// At the prompt, waiting for a line.
    Reading,
    /// A diagnostic waits to be printed.
    Reporting { error: ShellError, resume: Resume },
    /// The stage under the cursor waits to be run.
    Dispatching,
    /// In the detached branch of a stage in fork mode, the command waits to
    /// be run.
    Detached,
    /// All stages are dispatched, and the last process waits to be waited
    /// for.
    Waiting,
    /// The program is over.
    Terminated { status: ExitStatus },
}

/// The command that ends the program.
pub open spec fn quit_word() -> Seq<char> {
    "\\quit"@
}

/// The command that changes the working directory.
pub open spec fn cd_word() -> Seq<char> {
    "cd"@
}

/// Where `cd` goes when it is given no directory.
pub open spec fn root_path() -> Seq<char> {
    "/"@
}

/// The state of the interpreter as a mathematical value.
pub struct ShellView {
    pub phase: Phase,
    /// The token sequences of the stages of the line in work.
    pub stages: Seq<Seq<Seq<char>>>,
    /// The stage that is dispatched next.
    pub cursor: nat,
    /// The stage whose process holds the slot, if a process holds it.
    pub slot: Option<nat>,
}

impl ShellView {
    /// At the prompt, with no line in work.
    pub open spec fn idle() -> ShellView {
        ShellView { phase: Phase::Reading, stages: Seq::empty(), cursor: 0, slot: None }
    }

    /// Over, with the given status.
    pub open spec fn halted(status: ExitStatus) -> ShellView {
        ShellView {
            phase: Phase::Terminated { status },
            stages: Seq::empty(),
            cursor: 0,
            slot: None,
        }
    }

    /// About to report a failure that ends the work on the line.
    pub open spec fn failing(error: ShellError, resume: Resume) -> ShellView {
        ShellView {
            phase: Phase::Reporting { error, resume },
            stages: Seq::empty(),
            cursor: 0,
            slot: None,
        }
    }

    /// About to report the failure of the stage under the cursor. The slot is
    /// emptied, and the stages that follow are still dispatched.
    pub open spec fn stumbling(self, error: ShellError) -> ShellView {
        ShellView {
            phase: Phase::Reporting { error, resume: Resume::NextStage },
            stages: self.stages,
            cursor: self.cursor,
            slot: None,
        }
    }

    /// The stage under the cursor, resolved.
    pub open spec fn stage(self) -> StageView {
        resolved(self.stages[self.cursor as int])->Ok_0
    }

    /// Whether the stage under the cursor can be run: it resolves, and it is
    /// not the command that ends the program.
    pub open spec fn runnable(self) -> bool {
        &&& self.cursor < self.stages.len()
        &&& resolved(self.stages[self.cursor as int]) is Ok
        &&& self.stage().command != quit_word()
    }

    /// The states that the machine can be in.
    pub open spec fn well_formed(self) -> bool {
        &&& all_solid(self.stages)
        &&& match self.slot {
            Some(holder) => holder + 1 == self.cursor && self.cursor <= self.stages.len(),
            None => true,
        }
        &&& match self.phase {
            Phase::Reading => self == Self::idle(),
            Phase::Reporting { error, resume } => {
                &&& self.slot is None
                &&& error.is_recoverable() <==> resume != Resume::Exit(ExitStatus::Failure)
                &&& match resume {
                    Resume::NextStage => self.cursor < self.stages.len(),
                    _ => self == Self::failing(error, resume),
                }
            },
            Phase::Dispatching => self.runnable(),
            Phase::Detached => {
                &&& self.runnable()
                &&& self.stage().command != cd_word()
                &&& self.stage().mode == ExecutingMode::Fork
            },
            Phase::Waiting => self.cursor == self.stages.len() && self.slot is Some,
            Phase::Terminated { status } => self == Self::halted(status),
        }
    }

    /// The state in which the stage at `cursor` is to be dispatched, with
    /// `slot` as left by the stages before it.
    ///
    /// Behind the last stage the machine waits for the process in the slot,
    /// or prompts again if the slot is empty. A stage that does not resolve
    /// gives up the line. The command that ends the program ends it at once,
    /// whatever was started before.
    pub open spec fn entered(
        stages: Seq<Seq<Seq<char>>>,
        cursor: nat,
        slot: Option<nat>,
    ) -> ShellView {
        if cursor >= stages.len() {
            if slot is Some {
                ShellView { phase: Phase::Waiting, stages, cursor, slot }
            } else {
                Self::idle()
            }
        } else {
            match resolved(stages[cursor as int]) {
                Err(error) => Self::failing(error, Resume::Prompt),
                Ok(stage) => if stage.command == quit_word() {
                    Self::halted(ExitStatus::Success)
                } else {
                    ShellView { phase: Phase::Dispatching, stages, cursor, slot }
                },
            }
        }
    }

    /// Where the stage under the cursor reads from: the process in the slot
    /// if there is one, else the terminal.
    pub open spec fn stdin(self) -> Source {
        if self.slot is Some {
            Source::Previous
        } else {
            Source::Terminal
        }
    }

    /// Where the stage under the cursor writes to: the terminal if it is the
    /// last stage of the line, else a pipe.
    pub open spec fn stdout(self) -> Sink {
        if self.cursor + 1 == self.stages.len() {
            Sink::Terminal
        } else {
            Sink::Captured
        }
    }

    /// The action by which the stage under the cursor is run.
    pub open spec fn dispatch(self) -> ActionView {
        let stage = self.stage();
        if stage.command == cd_word() {
            ActionView::ChangeDirectory {
                path: if stage.args.len() > 0 {
                    stage.args[0]
                } else {
                    root_path()
                },
            }
        } else {
            match stage.mode {
                ExecutingMode::Default => ActionView::Spawn {
                    command: stage.command,
                    args: stage.args,
                    stdin: self.stdin(),
                    stdout: self.stdout(),
                },
                ExecutingMode::Exec => ActionView::Exec {
                    command: stage.command,
                    args: stage.args,
                    stdin: self.stdin(),
                    stdout: self.stdout(),
                },
                ExecutingMode::Fork => ActionView::Detach,
            }
        }
    }

    /// The action that waits to be performed in this state.
    pub open spec fn pending(self) -> ActionView {
        match self.phase {
            Phase::Reading => ActionView::ReadLine,
            Phase::Reporting { error, resume } => ActionView::Report(error),
            Phase::Dispatching => self.dispatch(),
            Phase::Detached => ActionView::RunDetached {
                command: self.stage().command,
                args: self.stage().args,
                stdin: self.stdin(),
            },
            Phase::Waiting => ActionView::Wait,
            Phase::Terminated { status } => ActionView::Exit(status),
        }
    }

    /// The state after the stage under the cursor has answered with `event`.
    pub open spec fn dispatched(self, event: Event) -> ShellView {
        let stage = self.stage();
        if stage.command == cd_word() {
            match event {
                Event::Done => Self::entered(self.stages, self.cursor + 1, None),
                Event::Failed(detail) => self.stumbling(ShellError::DirectoryChangeFailure(detail)),
                _ => self,
            }
        } else {
            match stage.mode {
                ExecutingMode::Default => match event {
                    Event::Done => Self::entered(
                        self.stages,
                        self.cursor + 1,
                        Some(self.cursor),
                    ),
                    Event::Failed(detail) => self.stumbling(ShellError::SpawnFailure(detail)),
                    _ => self,
                },
                ExecutingMode::Exec => match event {
                    Event::Failed(detail) => self.stumbling(ShellError::ExecFailure(detail)),
                    _ => self,
                },
                ExecutingMode::Fork => match event {
                    Event::Parent => Self::halted(ExitStatus::Success),
                    Event::Child => ShellView {
                        phase: Phase::Detached,
                        stages: self.stages,
                        cursor: self.cursor,
                        slot: self.slot,
                    },
                    Event::Failed(_) => self.stumbling(ShellError::ForkFailure),
                    _ => self,
                },
            }
        }
    }

    /// The state after `event`. An event that does not answer the pending
    /// action changes nothing.
    pub open spec fn next(self, event: Event) -> ShellView {
        match self.phase {
            Phase::Reading => match event {
                Event::Line(line) => if is_blank(line@) {
                    Self::failing(ShellError::EmptyInput, Resume::Prompt)
                } else {
                    Self::entered(pipeline(line@), 0, None)
                },
                Event::Failed(detail) => Self::failing(
                    ShellError::ReadFailure(detail),
                    Resume::Exit(ExitStatus::Failure),
                ),
                _ => self,
            },
            Phase::Reporting { error, resume } => match event {
                Event::Done | Event::Failed(_) => match resume {
                    Resume::Prompt => Self::idle(),
                    Resume::NextStage => Self::entered(self.stages, self.cursor + 1, None),
                    Resume::Exit(status) => Self::halted(status),
                },
                _ => self,
            },
            Phase::Dispatching => self.dispatched(event),
            Phase::Detached => match event {
                Event::Done => Self::halted(ExitStatus::Success),
                Event::Failed(detail) => Self::failing(
                    ShellError::SpawnFailure(detail),
                    Resume::Exit(ExitStatus::Success),
                ),
                _ => self,
            },
            Phase::Waiting => match event {
                Event::Done => Self::idle(),
                Event::Failed(detail) => Self::failing(
                    ShellError::WaitFailure(detail),
                    Resume::Exit(ExitStatus::Failure),
                ),
                _ => self,
            },
            Phase::Terminated { status } => self,
        }
    }
}

/// The interpreter: the line in work, the cursor over its stages, and the slot
/// of the previous process.
pub struct Shell {
    phase: Phase,
    stages: Vec<Vec<String>>,
    cursor: usize,
    slot: Option<usize>,
}

impl View for Shell {
    type V = ShellView;

    closed spec fn view(&self) -> ShellView {
        ShellView {
            phase: self.phase,
            stages: self.stages.deep_view(),
            cursor: self.cursor as nat,
            slot: match self.slot {
                Some(holder) => Some(holder as nat),
                None => None,
            },
        }
    }
}

impl Shell {
    #[verifier::type_invariant]
    spec fn inv(self) -> bool {
        self@.well_formed()
    }

    /// The interpreter at its first prompt.
    pub fn new() -> (shell: Shell)
        ensures
            shell@ == ShellView::idle(),
    {
        let stages: Vec<Vec<String>> = Vec::new();
        proof {
            assert(stages.deep_view() =~= Seq::<Seq<Seq<char>>>::empty());
        }
        Shell { phase: Phase::Reading, stages, cursor: 0, slot: None }
    }

    fn halted(status: ExitStatus) -> (shell: Shell)
        ensures
            shell@ == ShellView::halted(status),
    {
        let stages: Vec<Vec<String>> = Vec::new();
        proof {
            assert(stages.deep_view() =~= Seq::<Seq<Seq<char>>>::empty());
        }
        Shell { phase: Phase::Terminated { status }, stages, cursor: 0, slot: None }
    }

    fn failing(error: ShellError, resume: Resume) -> (shell: Shell)
        requires
            resume != Resume::NextStage,
            error.is_recoverable() <==> resume != Resume::Exit(ExitStatus::Failure),
        ensures
            shell@ == ShellView::failing(error, resume),
    {
        let stages: Vec<Vec<String>> = Vec::new();
        proof {
            assert(stages.deep_view() =~= Seq::<Seq<Seq<char>>>::empty());
        }
        Shell { phase: Phase::Reporting { error, resume }, stages, cursor: 0, slot: None }
    }

    fn entered(stages: Vec<Vec<String>>, cursor: usize, slot: Option<usize>) -> (shell: Shell)
        requires
            all_solid(stages.deep_view()),
            cursor <= stages.len(),
            match slot {
                Some(holder) => holder + 1 == cursor,
                None => true,
            },
        ensures
            shell@ == ShellView::entered(
                stages.deep_view(),
                cursor as nat,
                match slot {
                    Some(holder) => Some(holder as nat),
                    None => None,
                },
            ),
    {
        if cursor >= stages.len() {
            if slot.is_some() {
                Shell { phase: Phase::Waiting, stages, cursor, slot }
            } else {
                Shell::new()
            }
        } else {
            proof {
                assert(stages.deep_view()[cursor as int] == stages@[cursor as int].deep_view());
            }
            match resolve(&stages[cursor]) {
                Err(error) => Shell::failing(error, Resume::Prompt),
                Ok(stage) => {
                    if same_text(stage.command.as_str(), "\\quit") {
                        Shell::halted(ExitStatus::Success)
                    } else {
                        Shell { phase: Phase::Dispatching, stages, cursor, slot }
                    }
                },
            }
        }
    }

    /// Whether the program is over.
    pub fn is_terminated(&self) -> (over: bool)
        ensures
            over == (self@.phase is Terminated),
    {
        match &self.phase {
            Phase::Terminated { status: _ } => true,
            _ => false,
        }
    }

    /// The stage whose process holds the slot, if a process holds it.
    pub fn slot(&self) -> (holder: Option<usize>)
        ensures
            match holder {
                Some(stage) => self@.slot == Some(stage as nat),
                None => self@.slot is None,
            },
    {
        self.slot
    }

    /// The action that waits to be performed.
    pub fn pending(&self) -> (action: Action)
        ensures
            action@ == self@.pending(),
    {
        proof {
            use_type_invariant(self);
        }
        let stdin = if self.slot.is_some() {
            Source::Previous
        } else {
            Source::Terminal
        };
        match &self.phase {
            Phase::Reading => Action::ReadLine,
            Phase::Reporting { error, resume: _ } => Action::Report(error.duplicate()),
            Phase::Waiting => Action::Wait,
            Phase::Terminated { status } => Action::Exit(*status),
            Phase::Detached => {
                proof {
                    assert(self@.runnable());
                    assert(self.stages.deep_view().len() == self.stages.len());
                    assert(self.stages.deep_view()[self.cursor as int]
                        == self.stages@[self.cursor as int].deep_view());
                }
                match resolve(&self.stages[self.cursor]) {
                    Ok(stage) => Action::RunDetached {
                        command: stage.command,
                        args: stage.args,
                        stdin,
                    },
                    Err(_) => {
                        proof {
                            assert(false);
                        }
                        Action::Wait
                    },
                }
            },
            Phase::Dispatching => {
                proof {
                    assert(self@.runnable());
                    assert(self.stages.deep_view().len() == self.stages.len());
                    assert(self.stages.deep_view()[self.cursor as int]
                        == self.stages@[self.cursor as int].deep_view());
                }
                let stdout = if self.cursor + 1 == self.stages.len() {
                    Sink::Terminal
                } else {
                    Sink::Captured
                };
                match resolve(&self.stages[self.cursor]) {
                    Ok(stage) => {
                        if same_text(stage.command.as_str(), "cd") {
                            if stage.args.len() > 0 {
                                proof {
                                    assert(stage.args.deep_view()[0] == stage.args@[0]@);
                                }
                                Action::ChangeDirectory { path: stage.args[0].clone() }
                            } else {
                                Action::ChangeDirectory { path: "/".to_owned() }
                            }
                        } else {
                            match stage.mode {
                                ExecutingMode::Default => Action::Spawn {
                                    command: stage.command,
                                    args: stage.args,
                                    stdin,
                                    stdout,
                                },
                                ExecutingMode::Exec => Action::Exec {
                                    command: stage.command,
                                    args: stage.args,
                                    stdin,
                                    stdout,
                                },
                                ExecutingMode::Fork => Action::Detach,
                            }
                        }
                    },
                    Err(_) => {
                        proof {
                            assert(false);
                        }
                        Action::Wait
                    },
                }
            },
        }
    }

    /// Takes what came of the pending action and moves to the next state.
    pub fn step(self, event: Event) -> (after: Shell)
        ensures
            after@ == self@.next(event),
            after@.well_formed(),
    {
        proof {
            use_type_invariant(&self);
        }
        let ghost before = self@;
        let Shell { phase, stages, cursor, slot } = self;
        match phase {
            Phase::Reading => match event {
                Event::Line(line) => match parse_line(line.as_str()) {
                    Ok(parsed) => {
                        proof {
                            lemma_pipeline_is_solid(line@);
                        }
                        Shell::entered(parsed, 0, None)
                    },
                    Err(error) => Shell::failing(error, Resume::Prompt),
                },
                Event::Failed(detail) => Shell::failing(
                    ShellError::ReadFailure(detail),
                    Resume::Exit(ExitStatus::Failure),
                ),
                _ => Shell { phase: Phase::Reading, stages, cursor, slot },
            },
            Phase::Reporting { error, resume } => match event {
                Event::Done | Event::Failed(_) => match resume {
                    Resume::Prompt => Shell::new(),
                    Resume::NextStage => Shell::entered(stages, cursor + 1, None),
                    Resume::Exit(status) => Shell::halted(status),
                },
                _ => Shell { phase: Phase::Reporting { error, resume }, stages, cursor, slot },
            },
            Phase::Dispatching => {
                proof {
                    assert(before.runnable());
                    assert(stages.deep_view().len() == stages.len());
                    assert(stages.deep_view()[cursor as int] == stages@[cursor as int].deep_view());
                }
                match resolve(&stages[cursor]) {
                    Ok(stage) => {
                        if same_text(stage.command.as_str(), "cd") {
                            match event {
                                Event::Done => Shell::entered(stages, cursor + 1, None),
                                Event::Failed(detail) => Shell {
                                    phase: Phase::Reporting {
                                        error: ShellError::DirectoryChangeFailure(detail),
                                        resume: Resume::NextStage,
                                    },
                                    stages,
                                    cursor,
                                    slot: None,
                                },
                                _ => Shell { phase: Phase::Dispatching, stages, cursor, slot },
                            }
                        } else {
                            match stage.mode {
                                ExecutingMode::Default => match event {
                                    Event::Done => Shell::entered(stages, cursor + 1, Some(cursor)),
                                    Event::Failed(detail) => Shell {
                                        phase: Phase::Reporting {
                                            error: ShellError::SpawnFailure(detail),
                                            resume: Resume::NextStage,
                                        },
                                        stages,
                                        cursor,
                                        slot: None,
                                    },
                                    _ => Shell { phase: Phase::Dispatching, stages, cursor, slot },
                                },
                                ExecutingMode::Exec => match event {
                                    Event::Failed(detail) => Shell {
                                        phase: Phase::Reporting {
                                            error: ShellError::ExecFailure(detail),
                                            resume: Resume::NextStage,
                                        },
                                        stages,
                                        cursor,
                                        slot: None,
                                    },
                                    _ => Shell { phase: Phase::Dispatching, stages, cursor, slot },
                                },
                                ExecutingMode::Fork => match event {
                                    Event::Parent => Shell::halted(ExitStatus::Success),
                                    Event::Child => Shell {
                                        phase: Phase::Detached,
                                        stages,
                                        cursor,
                                        slot,
                                    },
                                    Event::Failed(_) => Shell {
                                        phase: Phase::Reporting {
                                            error: ShellError::ForkFailure,
                                            resume: Resume::NextStage,
                                        },
                                        stages,
                                        cursor,
                                        slot: None,
                                    },
                                    _ => Shell { phase: Phase::Dispatching, stages, cursor, slot },
                                },
                            }
                        }
                    },
                    Err(_) => {
                        proof {
                            assert(false);
                        }
                        Shell::new()
                    },
                }
            },
            Phase::Detached => match event {
                Event::Done => Shell::halted(ExitStatus::Success),
                Event::Failed(detail) => Shell::failing(
                    ShellError::SpawnFailure(detail),
                    Resume::Exit(ExitStatus::Success),
                ),
                _ => Shell { phase: Phase::Detached, stages, cursor, slot },
            },
            Phase::Waiting => match event {
                Event::Done => Shell::new(),
                Event::Failed(detail) => Shell::failing(
                    ShellError::WaitFailure(detail),
                    Resume::Exit(ExitStatus::Failure),
                ),
                _ => Shell { phase: Phase::Waiting, stages, cursor, slot },
            },
            Phase::Terminated { status } => Shell {
                phase: Phase::Terminated { status },
                stages,
                cursor,
                slot,
            },
        }
    }
}

} // verus!

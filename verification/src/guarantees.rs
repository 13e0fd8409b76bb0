//! What holds of the interpreter in every state, proved over its transition
//! function.

use crate::error::ShellError;
use crate::mode::{resolved, ExecutingMode};
use crate::parser::{all_solid, lemma_pipeline_is_solid, pipeline};
use crate::shell::{
    cd_word, quit_word, ActionView, Event, ExitStatus, Phase, Resume, ShellView, Sink, Source,
};
use crate::text::{is_blank, is_solid};
use vstd::prelude::*;

verus! {

/// The first prompt is a well-formed state.
pub proof fn lemma_idle_is_well_formed()
    ensures
        ShellView::idle().well_formed(),
        ShellView::idle().pending() == ActionView::ReadLine,
{
}

/// Entering a stage of a line leads to a well-formed state, as long as the
/// tokens are words and the slot is empty or holds the process of the stage
/// just before.
pub proof fn lemma_entered_is_well_formed(
    stages: Seq<Seq<Seq<char>>>,
    cursor: nat,
    slot: Option<nat>,
)
    requires
        all_solid(stages),
        cursor <= stages.len(),
        match slot {
            Some(holder) => holder + 1 == cursor,
            None => true,
        },
    ensures
        ShellView::entered(stages, cursor, slot).well_formed(),
{
    if cursor < stages.len() {
        match resolved(stages[cursor as int]) {
            Err(error) => {
                assert(error == ShellError::EmptyInput || error == ShellError::MissingModeArgument);
            },
            Ok(stage) => {},
        }
    }
}

/// No event leads out of the well-formed states.
pub proof fn lemma_next_is_well_formed(state: ShellView, event: Event)
    requires
        state.well_formed(),
    ensures
        state.next(event).well_formed(),
{
    match state.phase {
        Phase::Reading => {
            if let Event::Line(line) = event {
                lemma_pipeline_is_solid(line@);
                lemma_entered_is_well_formed(pipeline(line@), 0, None);
            }
        },
        Phase::Reporting { error, resume } => {
            if resume == Resume::NextStage {
                lemma_entered_is_well_formed(state.stages, state.cursor + 1, None);
            }
        },
        Phase::Dispatching => {
            lemma_entered_is_well_formed(state.stages, state.cursor + 1, None);
            lemma_entered_is_well_formed(state.stages, state.cursor + 1, Some(state.cursor));
        },
        _ => {},
    }
}

/// A blank line leads to one diagnostic, that of empty input, and from there
/// straight back to the prompt: nothing is started on the way.
pub proof fn lemma_blank_line_prompts_again(line: String, answer: Event)
    requires
        is_blank(line@),
        answer is Done || answer is Failed,
    ensures
        ({
            let refused = ShellView::idle().next(Event::Line(line));
            &&& refused.pending() == ActionView::Report(ShellError::EmptyInput)
            &&& refused.next(answer) == ShellView::idle()
            &&& refused.next(answer).pending() == ActionView::ReadLine
        }),
{
}

/// When the stage that is entered holds the command that ends the program, the
/// program ends with success at once, whatever stands in the slot and whatever
/// stages follow.
pub proof fn lemma_quit_ends_the_program(
    stages: Seq<Seq<Seq<char>>>,
    cursor: nat,
    slot: Option<nat>,
)
    requires
        cursor < stages.len(),
        resolved(stages[cursor as int]) is Ok,
        resolved(stages[cursor as int])->Ok_0.command == quit_word(),
    ensures
        ShellView::entered(stages, cursor, slot) == ShellView::halted(ExitStatus::Success),
        ShellView::entered(stages, cursor, slot).pending() == ActionView::Exit(
            ExitStatus::Success,
        ),
{
}

/// Once the program is over, it stays over: no event leads anywhere else.
pub proof fn lemma_terminated_is_final(state: ShellView, event: Event)
    requires
        state.phase is Terminated,
    ensures
        state.next(event) == state,
{
}

/// Of the stages of a line, only the last writes to the terminal; every stage
/// before it has its output captured.
pub proof fn lemma_only_last_stage_reaches_terminal(state: ShellView)
    requires
        state.well_formed(),
        state.phase is Dispatching,
    ensures
        match state.pending() {
            ActionView::Spawn { stdout, .. } => stdout == Sink::Terminal <==> state.cursor + 1
                == state.stages.len(),
            ActionView::Exec { stdout, .. } => stdout == Sink::Terminal <==> state.cursor + 1
                == state.stages.len(),
            _ => true,
        },
{
}

/// A stage reads from the process before it exactly when the slot holds one,
/// and the slot never holds another process than that of the stage just before.
pub proof fn lemma_input_follows_slot(state: ShellView)
    requires
        state.well_formed(),
        state.phase is Dispatching || state.phase is Detached,
    ensures
        match state.pending() {
            ActionView::Spawn { stdin, .. } => stdin == Source::Previous <==> state.slot is Some,
            ActionView::Exec { stdin, .. } => stdin == Source::Previous <==> state.slot is Some,
            ActionView::RunDetached { stdin, .. } => stdin == Source::Previous
                <==> state.slot is Some,
            _ => true,
        },
        state.slot is Some ==> state.slot == Some((state.cursor - 1) as nat),
{
}

/// Running the builtin that changes the directory empties the slot, whether the
/// change succeeds or fails.
pub proof fn lemma_builtin_empties_slot(state: ShellView, event: Event)
    requires
        state.well_formed(),
        state.phase is Dispatching,
        state.stage().command == cd_word(),
        event is Done || event is Failed,
    ensures
        state.next(event).slot is None,
{
    let after = ShellView::entered(state.stages, state.cursor + 1, None);
    assert(after.slot is None);
}

/// A stage that fails is reported, the slot is emptied, and the stages that
/// follow are still dispatched: the stage after it reads from the terminal.
pub proof fn lemma_failed_stage_is_skipped(state: ShellView, detail: String, answer: Event)
    requires
        state.well_formed(),
        state.phase is Dispatching,
        answer is Done || answer is Failed,
    ensures
        ({
            let failed = state.next(Event::Failed(detail));
            &&& failed.pending() is Report
            &&& failed.slot is None
            &&& failed.next(answer) == ShellView::entered(state.stages, state.cursor + 1, None)
            &&& failed.next(answer).phase is Dispatching ==> failed.next(answer).stdin()
                == Source::Terminal
        }),
{
}

/// The stages of a line are dispatched from left to right: as long as the line
/// is in work, the cursor never moves back.
pub proof fn lemma_cursor_never_moves_back(state: ShellView, event: Event)
    requires
        state.well_formed(),
        !(state.phase is Reading),
    ensures
        ({
            let after = state.next(event);
            ||| after.stages == state.stages && after.cursor >= state.cursor
            ||| after.stages.len() == 0
        }),
{
}

/// The program ends with a failure status only after the report that a line
/// could not be read or that the last stage could not be waited for. After
/// every other failure the machine goes on.
pub proof fn lemma_only_read_and_wait_failures_are_fatal(state: ShellView, event: Event)
    requires
        state.well_formed(),
        !(state.phase is Terminated),
        state.next(event).phase == (Phase::Terminated { status: ExitStatus::Failure }),
    ensures
        state.phase is Reporting,
        state.phase->error is ReadFailure || state.phase->error is WaitFailure,
{
    lemma_next_is_well_formed(state, event);
}

/// The command of a stage that is run is never empty and holds no white space,
/// and neither does any of its arguments.
pub proof fn lemma_command_is_a_word(state: ShellView)
    requires
        state.well_formed(),
        state.phase is Dispatching || state.phase is Detached,
    ensures
        is_solid(state.stage().command),
        forall|j: int| 0 <= j < state.stage().args.len() ==> is_solid(#[trigger] state.stage().args[j]),
{
    let tokens = state.stages[state.cursor as int];
    assert(is_solid(tokens[0]));
    if tokens.len() > 1 {
        assert(is_solid(tokens[1]));
    }
    assert forall|j: int| 0 <= j < state.stage().args.len() implies is_solid(
        #[trigger] state.stage().args[j],
    ) by {
        if ExecutingMode::selected(tokens[0]) == ExecutingMode::Default {
            assert(is_solid(tokens[j + 1]));
        } else {
            assert(is_solid(tokens[j + 2]));
        }
    }
}

/// A process is waited for only behind the last stage, and then the slot holds
/// the process of the last stage.
pub proof fn lemma_wait_follows_last_stage(state: ShellView)
    requires
        state.well_formed(),
        state.pending() is Wait,
    ensures
        state.cursor == state.stages.len(),
        state.slot == Some((state.stages.len() - 1) as nat),
{
}

} // verus!

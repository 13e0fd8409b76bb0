//! Execution modes, and how the tokens of one stage resolve to a mode, a command
//! and its arguments.

use crate::error::ShellError;
use crate::text::same_text;
use vstd::prelude::*;
use vstd::string::StringExecFns;

verus! {

/// How a stage of a pipeline is run.
#[derive(Clone, Copy, Debug, PartialEq, Eq, Structural)]
pub enum ExecutingMode {
    /// Start a child process and keep its handle.
    Default,
    /// Replace the current process by the command.
    Exec,
    /// Run the command in a process detached from the terminal.
    Fork,
}

impl ExecutingMode {
    /// The mode that a word names, if it names one.
    pub open spec fn named(word: Seq<char>) -> Option<ExecutingMode> {
        if word == "default"@ {
            Some(ExecutingMode::Default)
        } else if word == "exec"@ {
            Some(ExecutingMode::Exec)
        } else if word == "fork"@ {
            Some(ExecutingMode::Fork)
        } else {
            None
        }
    }

    /// The mode that rules a stage whose first token is `word`: the one the word
    /// names, and the default mode for every other word.
    pub open spec fn selected(word: Seq<char>) -> ExecutingMode {
        match Self::named(word) {
            Some(mode) => mode,
            None => ExecutingMode::Default,
        }
    }

    /// Reads the name of a mode. Any other word is refused, with a message that
    /// quotes it.
    pub fn from_str(s: &str) -> (parsed: Result<ExecutingMode, String>)
        ensures
            match parsed {
                Ok(mode) => Self::named(s@) == Some(mode),
                Err(text) => Self::named(s@) is None && text@ == "Unknown ExecutingMode: "@ + s@,
            },
    {
        if same_text(s, "default") {
            Ok(ExecutingMode::Default)
        } else if same_text(s, "exec") {
            Ok(ExecutingMode::Exec)
        } else if same_text(s, "fork") {
            Ok(ExecutingMode::Fork)
        } else {
            Err(String::from_str("Unknown ExecutingMode: ").concat(s))
        }
    }
}

/// One command of a pipeline, with the mode it runs in.
#[derive(Debug, PartialEq, Eq)]
pub struct Stage {
    pub mode: ExecutingMode,
    pub command: String,
    pub args: Vec<String>,
}

/// A [`Stage`] as plain sequences of characters.
pub struct StageView {
    pub mode: ExecutingMode,
    pub command: Seq<char>,
    pub args: Seq<Seq<char>>,
}

impl View for Stage {
    type V = StageView;

    open spec fn view(&self) -> StageView {
        StageView { mode: self.mode, command: self.command@, args: self.args.deep_view() }
    }
}

/// The stage that a sequence of tokens stands for. The first token selects the
/// mode. In the default mode it is the command itself; after `exec` or `fork`
/// the second token is the command, and must be there.
pub open spec fn resolved(tokens: Seq<Seq<char>>) -> Result<StageView, ShellError> {
    if tokens.len() == 0 {
        Err(ShellError::EmptyInput)
    } else if ExecutingMode::selected(tokens[0]) == ExecutingMode::Default {
        Ok(StageView { mode: ExecutingMode::Default, command: tokens[0], args: tokens.skip(1) })
    } else if tokens.len() == 1 {
        Err(ShellError::MissingModeArgument)
    } else {
        Ok(
            StageView {
                mode: ExecutingMode::selected(tokens[0]),
                command: tokens[1],
                args: tokens.skip(2),
            },
        )
    }
}

/// Copies of the tokens from position `from` on.
fn tokens_from(tokens: &Vec<String>, from: usize) -> (tail: Vec<String>)
    requires
        from <= tokens.len(),
    ensures
        tail.deep_view() == tokens.deep_view().skip(from as int),
{
    let mut tail: Vec<String> = Vec::new();
    let mut i: usize = from;
    while i < tokens.len()
        invariant
            from <= i <= tokens.len(),
            tail.deep_view() == tokens.deep_view().subrange(from as int, i as int),
        decreases tokens.len() - i,
    {
        let ghost before = tail.deep_view();
        tail.push(tokens[i].clone());
        proof {
            assert(tail.deep_view() =~= before.push(tokens@[i as int]@));
            assert(before.push(tokens@[i as int]@) =~= tokens.deep_view().subrange(
                from as int,
                i + 1,
            ));
        }
        i = i + 1;
    }
    proof {
        assert(tokens.deep_view().subrange(from as int, i as int) =~= tokens.deep_view().skip(
            from as int,
        ));
    }
    tail
}

/// Resolves the tokens of one stage to its mode, command and arguments.
///
/// A stage without tokens is refused as empty input, and a stage that ends
/// after `exec` or `fork` as lacking its command.
pub fn resolve(tokens: &Vec<String>) -> (stage: Result<Stage, ShellError>)
    ensures
        match stage {
            Ok(found) => resolved(tokens.deep_view()) == Ok::<StageView, ShellError>(found@),
            Err(error) => resolved(tokens.deep_view()) == Err::<StageView, ShellError>(error),
        },
{
    if tokens.len() == 0 {
        return Err(ShellError::EmptyInput);
    }
    let mode = match ExecutingMode::from_str(tokens[0].as_str()) {
        Ok(mode) => mode,
        Err(_) => ExecutingMode::Default,
    };
    proof {
        assert(tokens.deep_view()[0] == tokens@[0]@);
    }
    match mode {
        ExecutingMode::Default => Ok(
            Stage { mode, command: tokens[0].clone(), args: tokens_from(tokens, 1) },
        ),
        _ => {
            if tokens.len() == 1 {
                Err(ShellError::MissingModeArgument)
            } else {
                proof {
                    assert(tokens.deep_view()[1] == tokens@[1]@);
                }
                Ok(Stage { mode, command: tokens[1].clone(), args: tokens_from(tokens, 2) })
            }
        },
    }
}

/// A word that names the exec or the fork mode is never taken for a command:
/// standing first, it selects the mode, and the token after it is the command.
pub proof fn lemma_mode_word_is_consumed(tokens: Seq<Seq<char>>)
    requires
        tokens.len() >= 2,
        tokens[0] == "exec"@ || tokens[0] == "fork"@,
    ensures
        resolved(tokens) == Ok::<StageView, ShellError>(
            StageView {
                mode: if tokens[0] == "exec"@ {
                    ExecutingMode::Exec
                } else {
                    ExecutingMode::Fork
                },
                command: tokens[1],
                args: tokens.skip(2),
            },
        ),
{
    reveal_strlit("default");
    reveal_strlit("exec");
    reveal_strlit("fork");
    assert("exec"@ != "default"@) by {
        assert("exec"@.len() != "default"@.len());
    }
    assert("fork"@ != "default"@) by {
        assert("fork"@.len() != "default"@.len());
    }
    assert("fork"@ != "exec"@) by {
        assert("fork"@[0] != "exec"@[0]);
    }
}

/// Whatever the tokens, a stage that runs in the default mode has a command
/// other than `exec` and `fork`: a program of such a name cannot be reached.
pub proof fn lemma_default_command_is_no_mode_word(tokens: Seq<Seq<char>>)
    ensures
        match resolved(tokens) {
            Ok(stage) => stage.mode == ExecutingMode::Default ==> stage.command != "exec"@
                && stage.command != "fork"@,
            Err(_) => true,
        },
{
    reveal_strlit("default");
    reveal_strlit("exec");
    reveal_strlit("fork");
    assert("exec"@ != "default"@) by {
        assert("exec"@.len() != "default"@.len());
    }
    assert("fork"@ != "default"@) by {
        assert("fork"@.len() != "default"@.len());
    }
}

} // verus!

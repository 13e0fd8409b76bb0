//! The line relay as a state machine: what is read from the terminal is sent
//! to a server, and what the server answers is printed.
//!
//! The machine opens no socket and reads no byte. Each step names the text to
//! print, if any, and the action to perform next; whoever drives the machine
//! prints, performs, and hands back what came of it.

use crate::cli::Cli;
use vstd::prelude::*;
use vstd::string::{StringExecFns, StringSliceAdditionalSpecFns};
use vstd::utf8::{decode_utf8, encode_utf8_decode_utf8, valid_utf8};

verus! {

/// The most bytes that are read from the terminal or from the server at once.
pub const MESSAGE_SIZE: usize = 1024;

/// `core::str::from_utf8` of the standard library, which is documented to turn
/// a slice of bytes into a string slice, and to fail exactly when the bytes are
/// not valid UTF-8. The contract says that the text, where there is one, has
/// the given bytes as its encoding. Nothing of this is proved here.
#[verifier::external_body]
fn utf8_text(bytes: &[u8]) -> (text: Option<&str>)
    ensures
        text is Some <==> valid_utf8(bytes@),
        text is Some ==> text->Some_0.spec_bytes() == bytes@,
{
    core::str::from_utf8(bytes).ok()
}

/// The decimal digit for a number below ten.
pub open spec fn digit_char(d: nat) -> char {
    (48 + d) as char
}

/// The decimal notation of `n`, without leading zeros.
pub open spec fn decimal_digits(n: nat) -> Seq<char>
    decreases n,
{
    if n < 10 {
        seq![digit_char(n)]
    } else {
        decimal_digits(n / 10).push(digit_char(n % 10))
    }
}

/// The text that is printed for an answer of the server: the bytes as text
/// where they are valid UTF-8, and a fixed notice where they are not.
pub open spec fn reply_view(bytes: Seq<u8>) -> Seq<char> {
    if valid_utf8(bytes) {
        decode_utf8(bytes)
    } else {
        "[Invalid UTF-8]"@
    }
}

/// The address to connect to: host and port with a colon between them.
pub open spec fn address_view(cli: Cli) -> Seq<char> {
    cli.host@ + ":"@ + decimal_digits(cli.port as nat)
}

/// Appends the decimal notation of `n` to `text`.
fn push_decimal(text: &mut String, n: u64)
    ensures
        final(text)@ == old(text)@ + decimal_digits(n as nat),
    decreases n,
{
    if n >= 10 {
        push_decimal(text, n / 10);
    }
    let digit: u8 = (n % 10) as u8;
    let c: char = (48u8 + digit) as char;
    text.push(c);
    proof {
        assert(c == digit_char((n % 10) as nat));
        if n >= 10 {
            assert(old(text)@ + decimal_digits((n / 10) as nat).push(c) =~= (old(text)@
                + decimal_digits((n / 10) as nat)).push(c));
        } else {
            assert(old(text)@ + seq![c] =~= old(text)@.push(c));
        }
    }
}

/// The text that is printed for an answer of the server.
pub fn reply_text(bytes: &[u8]) -> (text: String)
    ensures
        text@ == reply_view(bytes@),
{
    match utf8_text(bytes) {
        Some(text) => {
            proof {
                encode_utf8_decode_utf8(text@);
            }
            text.to_owned()
        },
        None => "[Invalid UTF-8]".to_owned(),
    }
}

/// The address to connect to.
pub fn address(cli: &Cli) -> (text: String)
    ensures
        text@ == address_view(*cli),
{
    let mut text = cli.host.clone().concat(":");
    push_decimal(&mut text, cli.port as u64);
    text
}

/// Where the relay stands: the action that it waits for.
#[derive(Clone, Copy, Debug, PartialEq, Eq, Structural)]
pub enum RelayPhase {
    /// The address is being resolved.
    Resolving,
    /// The connection is being opened.
    Connecting,
    /// The time limits are being set on the connection.
    Configuring,
    /// Input is being read from the terminal.
    Reading,
    /// The input is being sent to the server.
    Sending,
    /// The answer of the server is being read.
    Receiving,
    /// The connection is being shut down.
    Closing,
    /// The relay is over.
    Stopped { failed: bool },
}

/// What came of the action that was pending.
#[derive(Debug, PartialEq, Eq)]
pub enum RelayEvent {
    /// The action was carried out.
    Done,
    /// These bytes were read; none at the end of the input or of the
    /// connection.
    Bytes(Vec<u8>),
    /// The action failed; the text describes why.
    Failed(String),
}

/// What the driver is asked to do.
#[derive(Debug, PartialEq, Eq)]
pub enum RelayAction {
    /// Resolve the address and keep the first result.
    Resolve { address: String },
    /// Connect to the resolved address within so many seconds.
    Connect { timeout: u64 },
    /// Limit every read and write on the connection to so many seconds.
    Configure { timeout: u64 },
    /// Read at most so many bytes from the terminal.
    ReadInput { limit: usize },
    /// Send these bytes to the server.
    Send { data: Vec<u8> },
    /// Read at most so many bytes from the server.
    Receive { limit: usize },
    /// Shut the connection down in both directions.
    Shutdown,
    /// End the relay.
    Stop { failed: bool },
}

/// A [`RelayAction`] as plain sequences.
pub enum RelayActionView {
    Resolve { address: Seq<char> },
    Connect { timeout: u64 },
    Configure { timeout: u64 },
    ReadInput { limit: usize },
    Send { data: Seq<u8> },
    Receive { limit: usize },
    Shutdown,
    Stop { failed: bool },
}

impl View for RelayAction {
    type V = RelayActionView;

    open spec fn view(&self) -> RelayActionView {
        match *self {
            RelayAction::Resolve { address } => RelayActionView::Resolve { address: address@ },
            RelayAction::Connect { timeout } => RelayActionView::Connect { timeout },
            RelayAction::Configure { timeout } => RelayActionView::Configure { timeout },
            RelayAction::ReadInput { limit } => RelayActionView::ReadInput { limit },
            RelayAction::Send { data } => RelayActionView::Send { data: data@ },
            RelayAction::Receive { limit } => RelayActionView::Receive { limit },
            RelayAction::Shutdown => RelayActionView::Shutdown,
            RelayAction::Stop { failed } => RelayActionView::Stop { failed },
        }
    }
}

/// One step of the relay: the phase it is in from now on, the text to print
/// first, and the action to perform then.
#[derive(Debug, PartialEq, Eq)]
pub struct RelayStep {
    pub phase: RelayPhase,
    pub say: Option<String>,
    pub action: RelayAction,
}

/// A [`RelayStep`] as plain sequences.
pub struct RelayStepView {
    pub phase: RelayPhase,
    pub say: Option<Seq<char>>,
    pub action: RelayActionView,
}

impl View for RelayStep {
    type V = RelayStepView;

    open spec fn view(&self) -> RelayStepView {
        RelayStepView {
            phase: self.phase,
            say: match self.say {
                Some(text) => Some(text@),
                None => None,
            },
            action: self.action@,
        }
    }
}

/// The step that ends the relay, with a last line to print or without one.
pub open spec fn stopping(failed: bool, say: Option<Seq<char>>) -> RelayStepView {
    RelayStepView {
        phase: RelayPhase::Stopped { failed },
        say,
        action: RelayActionView::Stop { failed },
    }
}

/// The step that goes on to `phase` with `action`, printing nothing.
pub open spec fn proceeding(phase: RelayPhase, action: RelayActionView) -> RelayStepView {
    RelayStepView { phase, say: None, action }
}

/// The first step of the relay: resolve the address that the options name.
pub open spec fn relay_first(cli: Cli) -> RelayStepView {
    proceeding(RelayPhase::Resolving, RelayActionView::Resolve { address: address_view(cli) })
}

/// The step that follows when the action of `phase` has answered with
/// `event`.
///
/// An address that does not resolve and time limits that cannot be set end
/// the relay without a word. Every other failure is printed. No input ends
/// the relay by shutting the connection down, and no answer ends it at once.
/// An answer that does not fit the action ends the relay as failed.
pub open spec fn relay_next(phase: RelayPhase, event: RelayEvent, cli: Cli) -> RelayStepView {
    match phase {
        RelayPhase::Resolving => match event {
            RelayEvent::Done => proceeding(
                RelayPhase::Connecting,
                RelayActionView::Connect { timeout: cli.timeout },
            ),
            _ => stopping(true, None),
        },
        RelayPhase::Connecting => match event {
            RelayEvent::Done => RelayStepView {
                phase: RelayPhase::Configuring,
                say: Some(
                    "Successfully connected to server on port "@ + decimal_digits(cli.port as nat)
                        + "\n"@,
                ),
                action: RelayActionView::Configure { timeout: cli.timeout },
            },
            RelayEvent::Failed(detail) => stopping(
                true,
                Some("Failed to connect to server: "@ + detail@ + "\n"@),
            ),
            _ => stopping(true, None),
        },
        RelayPhase::Configuring => match event {
            RelayEvent::Done => proceeding(
                RelayPhase::Reading,
                RelayActionView::ReadInput { limit: MESSAGE_SIZE },
            ),
            _ => stopping(true, None),
        },
        RelayPhase::Reading => match event {
            RelayEvent::Bytes(data) => if data@.len() == 0 {
                RelayStepView {
                    phase: RelayPhase::Closing,
                    say: Some("Closing connection (Ctrl+D)\n"@),
                    action: RelayActionView::Shutdown,
                }
            } else {
                proceeding(RelayPhase::Sending, RelayActionView::Send { data: data@ })
            },
            RelayEvent::Failed(detail) => stopping(
                true,
                Some("Error reading from stdin: "@ + detail@ + "\n"@),
            ),
            _ => stopping(true, None),
        },
        RelayPhase::Sending => match event {
            RelayEvent::Done => proceeding(
                RelayPhase::Receiving,
                RelayActionView::Receive { limit: MESSAGE_SIZE },
            ),
            RelayEvent::Failed(detail) => stopping(
                true,
                Some("Failed to send data to server: "@ + detail@ + "\n"@),
            ),
            _ => stopping(true, None),
        },
        RelayPhase::Receiving => match event {
            RelayEvent::Bytes(data) => if data@.len() == 0 {
                stopping(false, Some("Connection closed by server.\n"@))
            } else {
                RelayStepView {
                    phase: RelayPhase::Reading,
                    say: Some(reply_view(data@)),
                    action: RelayActionView::ReadInput { limit: MESSAGE_SIZE },
                }
            },
            RelayEvent::Failed(detail) => stopping(
                true,
                Some("Failed to read from server: "@ + detail@ + "\n"@),
            ),
            _ => stopping(true, None),
        },
        RelayPhase::Closing => match event {
            RelayEvent::Done => stopping(false, None),
            _ => stopping(true, None),
        },
        RelayPhase::Stopped { failed } => stopping(failed, None),
    }
}

/// A line that reports a failure: what failed, why, and a line end.
fn failure_line(what: &str, detail: &str) -> (line: String)
    ensures
        line@ == what@ + detail@ + "\n"@,
{
    String::from_str(what).concat(detail).concat("\n")
}

fn stop(failed: bool, say: Option<String>) -> (step: RelayStep)
    ensures
        step@ == stopping(
            failed,
            match say {
                Some(text) => Some(text@),
                None => None,
            },
        ),
{
    RelayStep { phase: RelayPhase::Stopped { failed }, say, action: RelayAction::Stop { failed } }
}

/// The first step of the relay.
pub fn relay_start(cli: &Cli) -> (step: RelayStep)
    ensures
        step@ == relay_first(*cli),
{
    RelayStep {
        phase: RelayPhase::Resolving,
        say: None,
        action: RelayAction::Resolve { address: address(cli) },
    }
}

/// Takes what came of the pending action and decides the next step.
pub fn relay_step(phase: RelayPhase, event: RelayEvent, cli: &Cli) -> (step: RelayStep)
    ensures
        step@ == relay_next(phase, event, *cli),
{
    match phase {
        RelayPhase::Resolving => match event {
            RelayEvent::Done => RelayStep {
                phase: RelayPhase::Connecting,
                say: None,
                action: RelayAction::Connect { timeout: cli.timeout },
            },
            _ => stop(true, None),
        },
        RelayPhase::Connecting => match event {
            RelayEvent::Done => {
                let mut line = String::from_str("Successfully connected to server on port ");
                push_decimal(&mut line, cli.port as u64);
                let line = line.concat("\n");
                RelayStep {
                    phase: RelayPhase::Configuring,
                    say: Some(line),
                    action: RelayAction::Configure { timeout: cli.timeout },
                }
            },
            RelayEvent::Failed(detail) => stop(
                true,
                Some(failure_line("Failed to connect to server: ", detail.as_str())),
            ),
            _ => stop(true, None),
        },
        RelayPhase::Configuring => match event {
            RelayEvent::Done => RelayStep {
                phase: RelayPhase::Reading,
                say: None,
                action: RelayAction::ReadInput { limit: MESSAGE_SIZE },
            },
            _ => stop(true, None),
        },
        RelayPhase::Reading => match event {
            RelayEvent::Bytes(data) => {
                if data.len() == 0 {
                    RelayStep {
                        phase: RelayPhase::Closing,
                        say: Some("Closing connection (Ctrl+D)\n".to_owned()),
                        action: RelayAction::Shutdown,
                    }
                } else {
                    RelayStep {
                        phase: RelayPhase::Sending,
                        say: None,
                        action: RelayAction::Send { data },
                    }
                }
            },
            RelayEvent::Failed(detail) => stop(
                true,
                Some(failure_line("Error reading from stdin: ", detail.as_str())),
            ),
            _ => stop(true, None),
        },
        RelayPhase::Sending => match event {
            RelayEvent::Done => RelayStep {
                phase: RelayPhase::Receiving,
                say: None,
                action: RelayAction::Receive { limit: MESSAGE_SIZE },
            },
            RelayEvent::Failed(detail) => stop(
                true,
                Some(failure_line("Failed to send data to server: ", detail.as_str())),
            ),
            _ => stop(true, None),
        },
        RelayPhase::Receiving => match event {
            RelayEvent::Bytes(data) => {
                if data.len() == 0 {
                    stop(false, Some("Connection closed by server.\n".to_owned()))
                } else {
                    RelayStep {
                        phase: RelayPhase::Reading,
                        say: Some(reply_text(data.as_slice())),
                        action: RelayAction::ReadInput { limit: MESSAGE_SIZE },
                    }
                }
            },
            RelayEvent::Failed(detail) => stop(
                true,
                Some(failure_line("Failed to read from server: ", detail.as_str())),
            ),
            _ => stop(true, None),
        },
        RelayPhase::Closing => match event {
            RelayEvent::Done => stop(false, None),
            _ => stop(true, None),
        },
        RelayPhase::Stopped { failed } => stop(failed, None),
    }
}

/// Once the relay has stopped, it stays stopped, as failed or not as it
/// stopped, and has nothing more to say.
pub proof fn lemma_stopped_is_final(failed: bool, event: RelayEvent, cli: Cli)
    ensures
        relay_next(RelayPhase::Stopped { failed }, event, cli) == stopping(failed, None),
{
}

/// A failure stops the relay as failed, in whatever phase it comes.
pub proof fn lemma_failure_stops(phase: RelayPhase, detail: String, cli: Cli)
    requires
        !(phase is Stopped),
    ensures
        relay_next(phase, RelayEvent::Failed(detail), cli).phase == (RelayPhase::Stopped {
            failed: true,
        }),
        relay_next(phase, RelayEvent::Failed(detail), cli).action == (RelayActionView::Stop {
            failed: true,
        }),
{
}

/// Nothing is sent but what was read from the terminal, and it is sent as it
/// was read.
pub proof fn lemma_sends_what_was_read(phase: RelayPhase, event: RelayEvent, cli: Cli)
    requires
        relay_next(phase, event, cli).action is Send,
    ensures
        phase == RelayPhase::Reading,
        event is Bytes,
        relay_next(phase, event, cli).action->Send_data == event->Bytes_0@,
{
}

} // verus!

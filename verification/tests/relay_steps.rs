use minishell::cli::Cli;
use minishell::relay::{
    address, relay_start, relay_step, reply_text, RelayAction, RelayEvent, RelayPhase, RelayStep,
    MESSAGE_SIZE,
};

fn options() -> Cli {
    Cli {
        timeout: 10,
        host: "localhost".to_string(),
        port: 8080,
        key: 1,
        numeric_sort: false,
        month_sort: false,
        human_numeric_sort: false,
    }
}

fn failed(text: &str) -> RelayEvent {
    RelayEvent::Failed(text.to_string())
}

fn stopped(failed: bool, say: Option<&str>) -> RelayStep {
    RelayStep {
        phase: RelayPhase::Stopped { failed },
        say: say.map(|s| s.to_string()),
        action: RelayAction::Stop { failed },
    }
}

#[test]
fn the_address_joins_host_and_port() {
    assert_eq!(address(&options()), "localhost:8080");
    let mut cli = options();
    cli.host = "10.0.0.1".to_string();
    cli.port = 0;
    assert_eq!(address(&cli), "10.0.0.1:0");
    cli.port = 65535;
    assert_eq!(address(&cli), "10.0.0.1:65535");
    cli.port = 7;
    assert_eq!(address(&cli), "10.0.0.1:7");
    cli.port = 100;
    assert_eq!(address(&cli), "10.0.0.1:100");
}

#[test]
fn an_answer_is_printed_as_text() {
    assert_eq!(reply_text(b"hello\n"), "hello\n");
    assert_eq!(reply_text("\u{e9}t\u{e9} \u{1f600}".as_bytes()), "\u{e9}t\u{e9} \u{1f600}");
    assert_eq!(reply_text(b""), "");
    assert_eq!(reply_text(&[0xff, 0x41]), "[Invalid UTF-8]");
    assert_eq!(reply_text(&[0xc3]), "[Invalid UTF-8]");
    assert_eq!(reply_text(&[0xed, 0xa0, 0x80]), "[Invalid UTF-8]");
    assert_eq!(reply_text(&[0xc0, 0x80]), "[Invalid UTF-8]");
}

#[test]
fn a_message_is_sent_and_its_answer_printed() {
    let cli = options();
    let step = relay_start(&cli);
    assert_eq!(
        step,
        RelayStep {
            phase: RelayPhase::Resolving,
            say: None,
            action: RelayAction::Resolve { address: "localhost:8080".to_string() },
        }
    );
    let step = relay_step(step.phase, RelayEvent::Done, &cli);
    assert_eq!(
        step,
        RelayStep {
            phase: RelayPhase::Connecting,
            say: None,
            action: RelayAction::Connect { timeout: 10 },
        }
    );
    let step = relay_step(step.phase, RelayEvent::Done, &cli);
    assert_eq!(
        step,
        RelayStep {
            phase: RelayPhase::Configuring,
            say: Some("Successfully connected to server on port 8080\n".to_string()),
            action: RelayAction::Configure { timeout: 10 },
        }
    );
    let step = relay_step(step.phase, RelayEvent::Done, &cli);
    assert_eq!(
        step,
        RelayStep {
            phase: RelayPhase::Reading,
            say: None,
            action: RelayAction::ReadInput { limit: 1024 },
        }
    );
    assert_eq!(MESSAGE_SIZE, 1024);
    let step = relay_step(step.phase, RelayEvent::Bytes(b"ping\n".to_vec()), &cli);
    assert_eq!(
        step,
        RelayStep {
            phase: RelayPhase::Sending,
            say: None,
            action: RelayAction::Send { data: b"ping\n".to_vec() },
        }
    );
    let step = relay_step(step.phase, RelayEvent::Done, &cli);
    assert_eq!(
        step,
        RelayStep {
            phase: RelayPhase::Receiving,
            say: None,
            action: RelayAction::Receive { limit: 1024 },
        }
    );
    let step = relay_step(step.phase, RelayEvent::Bytes(b"pong\n".to_vec()), &cli);
    assert_eq!(
        step,
        RelayStep {
            phase: RelayPhase::Reading,
            say: Some("pong\n".to_string()),
            action: RelayAction::ReadInput { limit: 1024 },
        }
    );
    let step = relay_step(step.phase, RelayEvent::Bytes(vec![]), &cli);
    assert_eq!(
        step,
        RelayStep {
            phase: RelayPhase::Closing,
            say: Some("Closing connection (Ctrl+D)\n".to_string()),
            action: RelayAction::Shutdown,
        }
    );
    let step = relay_step(step.phase, RelayEvent::Done, &cli);
    assert_eq!(step, stopped(false, None));
}

#[test]
fn a_closed_connection_ends_the_relay() {
    let step = relay_step(RelayPhase::Receiving, RelayEvent::Bytes(vec![]), &options());
    assert_eq!(step, stopped(false, Some("Connection closed by server.\n")));
}

#[test]
fn an_answer_that_is_no_text_is_announced() {
    let step = relay_step(RelayPhase::Receiving, RelayEvent::Bytes(vec![0x80]), &options());
    assert_eq!(step.say, Some("[Invalid UTF-8]".to_string()));
    assert_eq!(step.phase, RelayPhase::Reading);
}

#[test]
fn failures_end_the_relay_with_their_message() {
    let cli = options();
    assert_eq!(relay_step(RelayPhase::Resolving, failed("unknown host"), &cli), stopped(true, None));
    assert_eq!(
        relay_step(RelayPhase::Connecting, failed("refused"), &cli),
        stopped(true, Some("Failed to connect to server: refused\n"))
    );
    assert_eq!(relay_step(RelayPhase::Configuring, failed("bad"), &cli), stopped(true, None));
    assert_eq!(
        relay_step(RelayPhase::Reading, failed("closed"), &cli),
        stopped(true, Some("Error reading from stdin: closed\n"))
    );
    assert_eq!(
        relay_step(RelayPhase::Sending, failed("broken pipe"), &cli),
        stopped(true, Some("Failed to send data to server: broken pipe\n"))
    );
    assert_eq!(
        relay_step(RelayPhase::Receiving, failed("timed out"), &cli),
        stopped(true, Some("Failed to read from server: timed out\n"))
    );
    assert_eq!(relay_step(RelayPhase::Closing, failed("gone"), &cli), stopped(true, None));
}

#[test]
fn an_answer_that_fits_no_action_ends_the_relay() {
    let cli = options();
    assert_eq!(
        relay_step(RelayPhase::Resolving, RelayEvent::Bytes(vec![1]), &cli),
        stopped(true, None)
    );
    assert_eq!(relay_step(RelayPhase::Reading, RelayEvent::Done, &cli), stopped(true, None));
    assert_eq!(
        relay_step(RelayPhase::Sending, RelayEvent::Bytes(vec![]), &cli),
        stopped(true, None)
    );
    assert_eq!(relay_step(RelayPhase::Receiving, RelayEvent::Done, &cli), stopped(true, None));
}

#[test]
fn a_stopped_relay_stays_stopped() {
    let cli = options();
    assert_eq!(
        relay_step(RelayPhase::Stopped { failed: false }, RelayEvent::Done, &cli),
        stopped(false, None)
    );
    assert_eq!(
        relay_step(RelayPhase::Stopped { failed: true }, RelayEvent::Bytes(vec![1]), &cli),
        stopped(true, None)
    );
}

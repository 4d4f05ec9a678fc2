use agentic_terminal::terminal::{CommandOutput, Terminal, TerminalError};

#[test]
fn simple_command_completes() {
    let mut term = Terminal::new().expect("no shell");
    match term.run_command("echo hi", 5_000).expect("run failed") {
        CommandOutput::Complete(out) => assert_eq!(out.trim(), "hi"),
        CommandOutput::Partial(out) => panic!("unexpected timeout: {out}"),
    }
}

#[test]
fn timeout_yields_partial_and_session_recovers() {
    let mut term = Terminal::new().expect("no shell");
    // the command outlives its idle timeout: partial output, interrupt
    match term.run_command("sleep 5", 1_000).expect("run failed") {
        CommandOutput::Partial(_) => {},
        CommandOutput::Complete(out) => panic!("sleep 5 finished early: {out}"),
    }
    // the same driver instance still completes ordinary commands
    match term.run_command("echo hi", 5_000).expect("run failed") {
        CommandOutput::Complete(out) => assert_eq!(out.trim(), "hi"),
        CommandOutput::Partial(out) => panic!("unexpected timeout after recovery: {out}"),
    }
}

#[test]
fn multi_line_commands_run_in_sequence() {
    let mut term = Terminal::new().expect("no shell");
    match term.run_command("echo one\necho two", 5_000).expect("run failed") {
        CommandOutput::Complete(out) => {
            assert!(out.contains("one"), "missing first line: {out}");
            assert!(out.contains("two"), "missing second line: {out}");
        },
        CommandOutput::Partial(out) => panic!("unexpected timeout: {out}"),
    }
}

#[test]
fn empty_command_completes_empty() {
    let mut term = Terminal::new().expect("no shell");
    match term.run_command("   \n  ", 2_000).expect("run failed") {
        CommandOutput::Complete(out) => assert_eq!(out, ""),
        CommandOutput::Partial(out) => panic!("unexpected timeout: {out}"),
    }
}

#[test]
fn exit_line_is_refused() {
    let mut term = Terminal::new().expect("no shell");
    let r = term.run_line(" exit ", 2_000);
    assert!(matches!(r, Err(TerminalError::ExitRefused)));
    // and the session is still alive
    match term.run_command("echo ok", 5_000).expect("run failed") {
        CommandOutput::Complete(out) => assert_eq!(out.trim(), "ok"),
        CommandOutput::Partial(out) => panic!("unexpected timeout: {out}"),
    }
}

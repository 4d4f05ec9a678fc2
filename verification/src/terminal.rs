//! The terminal driver: one interactive shell in a pseudo-terminal, with
//! deterministic completion detection through a fixed prompt sentinel and
//! a sliding window exactly as long as the sentinel.
//!
//! Dropping the driver reclaims the child shell through the pty library's
//! own teardown.

use vstd::prelude::*;
use vstd::string::StringExecFns;
use crate::clock::{millis_since, monotonic_now};
use crate::text::{chars_is, chars_string, spec_trim, str_chars, trim_chars};

verus! {

/// The sentinel installed as the shell prompt, marking command
/// boundaries in the output stream.
pub const SENTINEL: &'static str = "CMD_END>";

/// What one command produced: everything up to the sentinel, or, after
/// an idle timeout and interrupt, the output gathered so far.
#[derive(Debug)]
pub enum CommandOutput {
    Complete(String),
    Partial(String),
}

/// The driver's failures: the shell could not be spawned and prepared,
/// the pty failed mid-session, or a line was refused.
#[derive(Debug, Clone, Copy, PartialEq, Eq, Structural)]
pub enum TerminalError {
    Spawn,
    Io,
    ExitRefused,
}

#[verifier::external_type_specification]
#[verifier::external_body]
pub struct ExPtySession(rexpect::session::PtySession);

#[verifier::external_type_specification]
#[verifier::external_body]
#[allow(dead_code)]
pub struct ExRexpectError(rexpect::error::Error);

/// Relies on `rexpect::session::spawn`: starts the program in a fresh
/// pseudo-terminal with echo off; `Err` when it cannot be started. The
/// program string must tokenize to at least one word (a whitespace-only
/// string would make the library panic), so only the one shell this
/// driver runs is admitted.
#[verifier::external_body]
fn spawn_pty(program: &str, timeout_ms: Option<u64>) -> Result<
    rexpect::session::PtySession,
    rexpect::error::Error,
>
    requires
        program@ == "/bin/bash"@,
{
    rexpect::session::spawn(program, timeout_ms)
}

/// Relies on `rexpect`'s `StreamSession::exp_regex`: blocks until output
/// matching the pattern has arrived, consuming through it.
#[verifier::external_body]
fn pty_exp_regex(s: &mut rexpect::session::PtySession, pattern: &str) -> Result<
    (),
    rexpect::error::Error,
> {
    match s.exp_regex(pattern) {
        Ok(_) => Ok(()),
        Err(e) => Err(e),
    }
}

/// Relies on `rexpect`'s `StreamSession::exp_string`: blocks until the
/// needle has appeared in the output, consuming through it.
#[verifier::external_body]
fn pty_exp_string(s: &mut rexpect::session::PtySession, needle: &str) -> Result<
    (),
    rexpect::error::Error,
> {
    match s.exp_string(needle) {
        Ok(_) => Ok(()),
        Err(e) => Err(e),
    }
}

/// Relies on `rexpect`'s `StreamSession::send_line`: writes the line and
/// a newline to the process input, flushed.
#[verifier::external_body]
fn pty_send_line(s: &mut rexpect::session::PtySession, line: &str) -> Result<
    (),
    rexpect::error::Error,
> {
    match s.send_line(line) {
        Ok(_) => Ok(()),
        Err(e) => Err(e),
    }
}

/// Relies on `rexpect`'s `StreamSession::send_control`: sends the
/// control code for the given letter (Ctrl-C for `'c'`).
#[verifier::external_body]
fn pty_send_control(s: &mut rexpect::session::PtySession, c: char) -> Result<
    (),
    rexpect::error::Error,
> {
    s.send_control(c)
}

/// Relies on `rexpect`'s `StreamSession::try_read`: one character of
/// process output when one is ready, without blocking.
#[verifier::external_body]
fn pty_try_read(s: &mut rexpect::session::PtySession) -> Option<char> {
    s.try_read()
}

/// Relies on `rexpect`'s `PtyProcess::set_kill_timeout`: when the driver
/// is dropped and the shell ignores the polite termination signal, the
/// reclaim escalates to a hard kill after this delay, so teardown never
/// blocks and no process leaks.
#[verifier::external_body]
fn pty_set_kill_timeout(s: &mut rexpect::session::PtySession, ms: u64) {
    s.process_mut().set_kill_timeout(Some(ms));
}

/// Whether `raw` ends in the sentinel.
pub open spec fn ends_with_sentinel(raw: Seq<char>) -> bool {
    raw.len() >= SENTINEL@.len() && raw.skip(raw.len() - SENTINEL@.len()) == SENTINEL@
}

/// A captured output, cleaned: trimmed of surrounding whitespace, and
/// with one trailing sentinel removed if the trimmed text ends in it.
pub open spec fn spec_clean(raw: Seq<char>) -> Seq<char> {
    let t = spec_trim(raw);
    if t.len() >= SENTINEL@.len() && t.skip(t.len() - SENTINEL@.len()) == SENTINEL@ {
        t.take(t.len() - SENTINEL@.len())
    } else {
        t
    }
}

fn clean_output(raw: &Vec<char>) -> (r: String)
    ensures
        r@ == spec_clean(raw@),
{
    proof {
        reveal_strlit("CMD_END>");
    }
    let t = trim_chars(raw);
    let n = t.len();
    if n >= 8 {
        let mut tail: Vec<char> = Vec::new();
        let mut k: usize = n - 8;
        while k < n
            invariant
                n == t@.len(),
                n >= 8,
                n - 8 <= k <= n,
                tail@ =~= t@.subrange(n - 8 as int, k as int),
            decreases n - k,
        {
            tail.push(t[k]);
            k = k + 1;
        }
        proof {
            assert(tail@ =~= t@.skip(n - 8 as int));
        }
        if chars_is(&tail, SENTINEL) {
            let mut head: Vec<char> = Vec::new();
            let mut j: usize = 0;
            while j < n - 8
                invariant
                    n == t@.len(),
                    n >= 8,
                    0 <= j <= n - 8,
                    head@ =~= t@.subrange(0, j as int),
                decreases n - 8 - j,
            {
                head.push(t[j]);
                j = j + 1;
            }
            proof {
                assert(head@ =~= t@.take(n - 8 as int));
            }
            return chars_string(&head);
        }
    }
    chars_string(&t)
}

/// The concatenated cleaned outputs of a list of per-line captures.
pub open spec fn cleans_concat(raws: Seq<Seq<char>>) -> Seq<char>
    decreases raws.len(),
{
    if raws.len() == 0 {
        Seq::empty()
    } else {
        cleans_concat(raws.drop_last()) + spec_clean(raws.last())
    }
}

/// A complete run of a command: one sentinel-terminated capture per
/// line of the trimmed command text.
pub open spec fn complete_run(raws: Seq<Seq<char>>, cmd: Seq<char>) -> bool {
    &&& raws.len() == spec_lines(cmd).len()
    &&& forall|k: int| 0 <= k < raws.len() ==> ends_with_sentinel(#[trigger] raws[k])
}

/// A run cut short by an idle timeout: sentinel-terminated captures for
/// a proper prefix of the lines, then the timed-out line's partial
/// capture; later lines are not run.
pub open spec fn partial_run(raws: Seq<Seq<char>>, cmd: Seq<char>) -> bool {
    &&& 0 < raws.len() <= spec_lines(cmd).len()
    &&& forall|k: int| 0 <= k < raws.len() - 1 ==> ends_with_sentinel(#[trigger] raws[k])
}

/// One interactive shell session with the sentinel prompt installed.
pub struct Terminal {
    session: rexpect::session::PtySession,
}

impl Terminal {
    /// Spawn the shell, wait for its startup prompt, and install the
    /// sentinel as the prompt, so command boundaries can be recognized.
    pub fn new() -> Result<Terminal, TerminalError> {
        let mut session = match spawn_pty("/bin/bash", None) {
            Ok(s) => s,
            Err(_) => {
                return Err(TerminalError::Spawn);
            },
        };
        if pty_exp_regex(&mut session, "[\\$\\#] $").is_err() {
            return Err(TerminalError::Spawn);
        }
        if pty_send_line(&mut session, "export PS1='CMD_END> '").is_err() {
            return Err(TerminalError::Spawn);
        }
        if pty_exp_string(&mut session, "CMD_END> ").is_err() {
            return Err(TerminalError::Spawn);
        }
        pty_set_kill_timeout(&mut session, 500);
        Ok(Terminal { session })
    }

    /// Run one line: send it, then gather output byte by byte until the
    /// sentinel reappears (`Complete`), or until no byte has arrived for
    /// `timeout_ms`, in which case the child is interrupted, the session
    /// recovered, and the output so far returned (`Partial`). The line
    /// `exit` is refused: it would kill the session out from under the
    /// driver.
    pub fn run_line(&mut self, line: &str, timeout_ms: u64) -> (r: Result<
        CommandOutput,
        TerminalError,
    >)
        ensures
            r == Err::<CommandOutput, TerminalError>(TerminalError::ExitRefused) <==> spec_trim(
                line@,
            ) == "exit"@,
            match r {
                Ok(CommandOutput::Complete(out)) => exists|raw: Seq<char>|
                    ends_with_sentinel(raw) && out@ == #[trigger] spec_clean(raw),
                Ok(CommandOutput::Partial(out)) => exists|raw: Seq<char>| out@
                    == #[trigger] spec_clean(raw),
                Err(_) => true,
            },
    {
        proof {
            reveal_strlit("CMD_END>");
        }
        let line_chars = str_chars(line);
        let trimmed_chars = trim_chars(&line_chars);
        if chars_is(&trimmed_chars, "exit") {
            return Err(TerminalError::ExitRefused);
        }
        let trimmed = chars_string(&trimmed_chars);
        if pty_send_line(&mut self.session, trimmed.as_str()).is_err() {
            return Err(TerminalError::Io);
        }
        let mut last_char_time = monotonic_now();
        let mut output: Vec<char> = Vec::new();
        let mut window: Vec<char> = Vec::new();
        let mut polls: u64 = u64::MAX;
        loop
            invariant
                spec_trim(line@) != "exit"@,
                window@.len() == if output@.len() < 8 {
                    output@.len()
                } else {
                    8
                },
                window@ =~= output@.skip(output@.len() - window@.len()),
            decreases polls,
        {
            if polls == 0 {
                // the poll budget is never reached in practice
                return Err(TerminalError::Io);
            }
            polls = polls - 1;
            if millis_since(&last_char_time) >= timeout_ms {
                // idle timeout: interrupt the child, wait for the
                // sentinel prompt, report what was gathered
                if pty_send_control(&mut self.session, 'c').is_err() {
                    return Err(TerminalError::Io);
                }
                if pty_exp_string(&mut self.session, SENTINEL).is_err() {
                    return Err(TerminalError::Io);
                }
                return Ok(CommandOutput::Partial(clean_output(&output)));
            }
            match pty_try_read(&mut self.session) {
                Some(c) => {
                    last_char_time = monotonic_now();
                    output.push(c);
                    window.push(c);
                    if window.len() > 8 {
                        window.remove(0);
                    }
                    proof {
                        assert(window@ =~= output@.skip(output@.len() - window@.len()));
                    }
                    if chars_is(&window, SENTINEL) {
                        proof {
                            reveal_strlit("CMD_END>");
                            assert(window@.len() == 8);
                            assert(ends_with_sentinel(output@));
                        }
                        return Ok(CommandOutput::Complete(clean_output(&output)));
                    }
                },
                None => {},
            }
        }
    }

    /// Run a command: its trimmed text is split into lines, each line is
    /// run in sequence, and the lines' outputs are concatenated. The
    /// first line to time out makes the whole result `Partial` with all
    /// prior output; the session stays usable.
    pub fn run_command(&mut self, command: &str, timeout_ms: u64) -> (r: Result<
        CommandOutput,
        TerminalError,
    >)
        ensures
            spec_trim(command@).len() == 0 ==> (r matches Ok(CommandOutput::Complete(out))
                && out@ == Seq::<char>::empty()),
            match r {
                Ok(CommandOutput::Complete(out)) => exists|raws: Seq<Seq<char>>|
                    #[trigger] complete_run(raws, command@) && out@ == cleans_concat(raws),
                Ok(CommandOutput::Partial(out)) => exists|raws: Seq<Seq<char>>|
                    #[trigger] partial_run(raws, command@) && out@ == cleans_concat(raws),
                Err(_) => true,
            },
            r == Err::<CommandOutput, TerminalError>(TerminalError::ExitRefused) ==> exists|k: int|
                0 <= k < spec_lines(command@).len() && spec_trim(
                    #[trigger] spec_lines(command@)[k],
                ) == "exit"@,
            (spec_lines(command@).len() > 0 && spec_trim(spec_lines(command@)[0]) == "exit"@)
                ==> r == Err::<CommandOutput, TerminalError>(TerminalError::ExitRefused),
    {
        let lines = split_lines(command);
        let mut output = String::new();
        let ghost mut raws: Seq<Seq<char>> = Seq::empty();
        let mut i: usize = 0;
        proof {
            if spec_trim(command@).len() == 0 {
                assert(lines_view(lines@).len() == 0);
            }
        }
        while i < lines.len()
            invariant
                0 <= i <= lines@.len(),
                lines_view(lines@) == spec_lines(command@),
                spec_trim(command@).len() == 0 ==> lines@.len() == 0,
                raws.len() == i,
                forall|k: int| 0 <= k < i ==> ends_with_sentinel(#[trigger] raws[k]),
                output@ == cleans_concat(raws),
                i > 0 ==> spec_trim(spec_lines(command@)[0]) != "exit"@,
            decreases lines@.len() - i,
        {
            proof {
                assert(spec_lines(command@)[i as int] == lines@[i as int]@);
            }
            match self.run_line(lines[i].as_str(), timeout_ms)? {
                CommandOutput::Complete(out) => {
                    proof {
                        let raws0 = raws;
                        let raw = choose|raw: Seq<char>|
                            ends_with_sentinel(raw) && out@ == #[trigger] spec_clean(raw);
                        raws = raws0.push(raw);
                        assert(raws.drop_last() =~= raws0);
                        assert(raws.last() == raw);
                        assert(cleans_concat(raws) == cleans_concat(raws0) + spec_clean(raw));
                        assert(forall|k: int| 0 <= k < raws0.len() ==> raws[k] == raws0[k]);
                    }
                    output.append(out.as_str());
                },
                CommandOutput::Partial(pout) => {
                    output.append(pout.as_str());
                    proof {
                        let raws0 = raws;
                        let raw = choose|raw: Seq<char>| pout@ == #[trigger] spec_clean(raw);
                        raws = raws0.push(raw);
                        assert(raws.drop_last() =~= raws0);
                        assert(raws.last() == raw);
                        assert(cleans_concat(raws) == cleans_concat(raws0) + spec_clean(raw));
                        assert(forall|k: int| 0 <= k < raws0.len() ==> raws[k] == raws0[k]);
                        assert(output@ == cleans_concat(raws));
                        assert(partial_run(raws, command@));
                    }
                    return Ok(CommandOutput::Partial(output));
                },
            }
            i = i + 1;
        }
        proof {
            assert(complete_run(raws, command@));
        }
        Ok(CommandOutput::Complete(output))
    }
}

impl Drop for Terminal {
    /// Relies on `rexpect`'s `StreamSession::send_line`: an `exit` line
    /// asks the shell to leave on its own before the pty teardown
    /// reclaims it.
    #[verifier::external_body]
    fn drop(&mut self)
        opens_invariants none
        no_unwind
    {
        let _ = self.session.send_line("exit");
    }
}

/// A line of `s[start..]` whose scan stands at `i`: the lines from the
/// one beginning at `start` on, each split at a newline and stripped of
/// one trailing carriage return.
pub open spec fn split_from(s: Seq<char>, start: int, i: int) -> Seq<Seq<char>>
    decreases s.len() - i,
{
    if !(0 <= start <= i <= s.len()) {
        Seq::empty()
    } else if i == s.len() {
        seq![strip_cr(s.subrange(start, i))]
    } else if s[i] == '\n' {
        seq![strip_cr(s.subrange(start, i))] + split_from(s, i + 1, i + 1)
    } else {
        split_from(s, start, i + 1)
    }
}

/// A line with one trailing carriage return removed.
pub open spec fn strip_cr(l: Seq<char>) -> Seq<char> {
    if l.len() > 0 && l.last() == '\r' {
        l.drop_last()
    } else {
        l
    }
}

/// The lines of the trimmed command text; an empty command has none.
pub open spec fn spec_lines(s: Seq<char>) -> Seq<Seq<char>> {
    let t = spec_trim(s);
    if t.len() == 0 {
        Seq::empty()
    } else {
        split_from(t, 0, 0)
    }
}

/// The views of a vector of lines.
pub open spec fn lines_view(ls: Seq<String>) -> Seq<Seq<char>> {
    ls.map_values(|l: String| l@)
}

/// Split a command into the lines the driver will run, after trimming:
/// one per newline, each without a trailing carriage return.
pub fn split_lines(command: &str) -> (r: Vec<String>)
    ensures
        lines_view(r@) =~= spec_lines(command@),
{
    let cs = str_chars(command);
    let t = trim_chars(&cs);
    let n = t.len();
    let mut out: Vec<String> = Vec::new();
    if n == 0 {
        proof {
            assert(lines_view(out@) =~= Seq::<Seq<char>>::empty());
        }
        return out;
    }
    let mut start: usize = 0;
    let mut i: usize = 0;
    loop
        invariant_except_break
            lines_view(out@) + split_from(t@, start as int, i as int) =~= split_from(t@, 0, 0),
        invariant
            0 <= start <= i <= n,
            n == t@.len(),
            n > 0,
        ensures
            lines_view(out@) =~= split_from(t@, 0, 0),
        decreases n - i,
    {
        let ghost out0 = lines_view(out@);
        if i == n {
            let line = line_of(&t, start, i);
            out.push(line);
            proof {
                assert(lines_view(out@) =~= out0.push(strip_cr(t@.subrange(start as int, n as int))));
                assert(split_from(t@, start as int, i as int) =~= seq![
                    strip_cr(t@.subrange(start as int, n as int)),
                ]);
                assert(out0.push(strip_cr(t@.subrange(start as int, n as int))) =~= out0 + seq![
                    strip_cr(t@.subrange(start as int, n as int)),
                ]);
            }
            break;
        }
        if t[i] == '\n' {
            let line = line_of(&t, start, i);
            out.push(line);
            proof {
                assert(lines_view(out@) =~= out0.push(strip_cr(t@.subrange(start as int, i as int))));
                assert(out0.push(strip_cr(t@.subrange(start as int, i as int))) + split_from(
                    t@,
                    i as int + 1,
                    i as int + 1,
                ) =~= out0 + (seq![strip_cr(t@.subrange(start as int, i as int))] + split_from(
                    t@,
                    i as int + 1,
                    i as int + 1,
                )));
            }
            start = i + 1;
            i = i + 1;
        } else {
            i = i + 1;
        }
    }
    out
}

/// The line `t[start..end]`, with one trailing carriage return removed.
fn line_of(t: &Vec<char>, start: usize, end: usize) -> (r: String)
    requires
        start <= end <= t@.len(),
    ensures
        r@ == strip_cr(t@.subrange(start as int, end as int)),
{
    let mut stop = end;
    if end > start && t[end - 1] == '\r' {
        stop = end - 1;
        proof {
            assert(t@.subrange(start as int, end as int).last() == t@[end - 1]);
            assert(t@.subrange(start as int, end as int).drop_last() =~= t@.subrange(
                start as int,
                stop as int,
            ));
        }
    } else {
        proof {
            if end > start {
                assert(t@.subrange(start as int, end as int).last() == t@[end - 1]);
            }
        }
    }
    let mut line: Vec<char> = Vec::new();
    let mut k: usize = start;
    while k < stop
        invariant
            start <= k <= stop <= t@.len(),
            line@ =~= t@.subrange(start as int, k as int),
        decreases stop - k,
    {
        line.push(t[k]);
        k = k + 1;
    }
    chars_string(&line)
}

} // verus!

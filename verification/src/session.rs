//! The session: one operator-visible conversation driven turn by turn.
//! Every decision is made here — what to feed back for a command's
//! output, a masking request, a control handover, a decode failure, and
//! when to warn about the token budget. The caller runs the outer loop
//! and performs what cannot be decided: console echo, operator input,
//! and reading image files.

use vstd::prelude::*;
use vstd::string::StringExecFns;
use crate::api::{LLMApi, LLMApiError, Usage};
use crate::content::{Content, ContentV, Image, ItemV, Message, MsgV, Role};
use crate::image::ImageLoadError;
use crate::llm::{masked_entry, seeded_entries, EntryV, LLM};
use crate::protocol::{decode_action, decode_outcome, ActionV, DecodeError, LLMResponse};
use crate::terminal::{
    cleans_concat, complete_run, partial_run, CommandOutput, Terminal,
};
use crate::text::{dec_str, trim_str, u64_string};

verus! {

/// What the caller must do next: keep looping, load an image file and
/// hand it back, end the session on the model's request, or end it
/// because the terminal failed.
#[derive(Debug)]
pub enum SessionStep {
    Continue,
    NeedImage(String),
    Exit,
    TerminalFailed,
}

/// The corrective turn fed back when model output fails to decode.
pub open spec fn decode_failure_text() -> Seq<char> {
    "Invalid output. Omit id, must be json parsable."@
}

/// The confirmation turn after masking an entry.
pub open spec fn masked_text(id: nat) -> Seq<char> {
    "message "@ + dec_str(id) + " is masked"@
}

/// The corrective turn after a masking request for an id not in use.
pub open spec fn missing_text(id: nat) -> Seq<char> {
    "message "@ + dec_str(id) + " does not exist"@
}

/// The turn confirming a handover to the operator.
pub open spec fn to_user_text() -> Seq<char> {
    "Switched to external control."@
}

/// The turn confirming a handover back to the agent.
pub open spec fn to_agent_text() -> Seq<char> {
    "Switched back to agent control."@
}

/// The warning turn injected when the token budget runs low.
pub open spec fn token_warning_text() -> Seq<char> {
    "Warning: over 90% of token context is used."@
}

/// The prefix marking a command's output as cut short by its timeout.
pub open spec fn partial_prefix() -> Seq<char> {
    "Partial output, command timed out: "@
}

/// The text fed back for a command's outcome: complete output stands as
/// it is, partial output is marked with the timeout prefix.
pub fn command_feedback(output: CommandOutput) -> (r: String)
    ensures
        match output {
            CommandOutput::Complete(out) => r@ == out@,
            CommandOutput::Partial(out) => r@ == partial_prefix() + out@,
        },
{
    match output {
        CommandOutput::Complete(out) => out,
        CommandOutput::Partial(out) => {
            let mut t = String::from_str("Partial output, command timed out: ");
            t.append(out.as_str());
            t
        },
    }
}

/// The console line for one entry: assistant turns echo as `LLM:`,
/// user turns as `Terminal:`, each followed by the entry's tagged
/// display text.
pub open spec fn console_line(e: EntryV) -> Seq<char> {
    (if e.msg.role == Role::Assistant {
        "LLM: "@
    } else {
        "Terminal: "@
    }) + crate::content::content_display(crate::llm::tag_message(e).content)
}

/// The views of a vector of console lines.
pub open spec fn strings_view(ls: Seq<String>) -> Seq<Seq<char>> {
    ls.map_values(|l: String| l@)
}

/// The console rendering of a range of entries, line by line.
pub open spec fn console_render(es: Seq<EntryV>) -> Seq<Seq<char>> {
    es.map_values(|e: EntryV| console_line(e))
}

/// A user-side entry holding the given text, under the given id.
pub open spec fn user_text_entry(id: nat, t: Seq<char>) -> EntryV {
    EntryV {
        id: id,
        masked: false,
        msg: MsgV { role: Role::User, content: ContentV::Single(ItemV::Text(t)) },
    }
}

/// An assistant-side entry holding the given text, under the given id.
pub open spec fn assistant_text_entry(id: nat, t: Seq<char>) -> EntryV {
    EntryV {
        id: id,
        masked: false,
        msg: MsgV { role: Role::Assistant, content: ContentV::Single(ItemV::Text(t)) },
    }
}

/// Whether `t` is the feedback text of one run of `cmd`: the
/// concatenated cleaned captures of a complete run, or, marked with the
/// timeout prefix, those of a run cut short by an idle timeout.
pub open spec fn run_feedback(t: Seq<char>, cmd: Seq<char>) -> bool {
    ||| exists|raws: Seq<Seq<char>>| #[trigger] complete_run(raws, cmd) && t == cleans_concat(
        raws,
    )
    ||| exists|raws: Seq<Seq<char>>| #[trigger] partial_run(raws, cmd) && t == partial_prefix()
        + cleans_concat(raws)
}

/// What dispatching one decode verdict does: how the conversation grows
/// (or is masked), how the operator-mode flag moves, and which step the
/// caller is handed, for every one of the seven cases.
pub open spec fn step_effect(
    pre: Seq<EntryV>,
    pre_mode: bool,
    dec: Result<ActionV, ()>,
    post: Seq<EntryV>,
    post_mode: bool,
    r: SessionStep,
) -> bool {
    &&& post_mode == (match dec {
        Ok(a) => if a == ActionV::UserControl {
            true
        } else if a == ActionV::AgentControl {
            false
        } else {
            pre_mode
        },
        Err(_) => pre_mode,
    })
    &&& match dec {
        Err(_) => r is Continue && post =~= pre.push(
            user_text_entry(pre.len(), decode_failure_text()),
        ),
        Ok(a) => match a {
            ActionV::Command(c) => {
                &&& (r is Continue || r is TerminalFailed)
                &&& (r is TerminalFailed ==> post =~= pre)
                &&& (r is Continue ==> {
                    &&& post.len() == pre.len() + 1
                    &&& post.take(pre.len() as int) =~= pre
                    &&& post.last().id == pre.len()
                    &&& !post.last().masked
                    &&& post.last().msg.role == Role::User
                    &&& post.last().msg.content is Single
                    &&& post.last().msg.content->Single_0 is Text
                    &&& run_feedback(post.last().msg.content->Single_0->Text_0, c)
                })
            },
            ActionV::LLMSee(p) => post =~= pre && (r matches SessionStep::NeedImage(q) && q@
                == p),
            ActionV::MaskContent(id) => r is Continue && (if id < pre.len() {
                post =~= pre.update(id as int, masked_entry(pre[id as int])).push(
                    user_text_entry(pre.len(), masked_text(id)),
                )
            } else {
                post =~= pre.push(user_text_entry(pre.len(), missing_text(id)))
            }),
            ActionV::UserControl => r is Continue && post =~= pre.push(
                user_text_entry(pre.len(), to_user_text()),
            ),
            ActionV::AgentControl => r is Continue && post =~= pre.push(
                user_text_entry(pre.len(), to_agent_text()),
            ),
            ActionV::Exit => r is Exit && post =~= pre,
        },
    }
}

/// Whether one call's usage crosses nine tenths of the context budget.
pub open spec fn spec_over_budget(usage: Usage, max: int) -> bool {
    usage.n_input_tokens + usage.n_output_tokens > max * 9 / 10
}

/// Whether the reported usage crosses nine tenths of the budget, exact
/// at every operand size.
pub fn over_budget(usage: &Usage, max: usize) -> (r: bool)
    ensures
        r == spec_over_budget(*usage, max as int),
{
    let total: u128 = usage.n_input_tokens as u128 + usage.n_output_tokens as u128;
    let limit: u128 = (max as u128) * 9 / 10;
    total > limit
}

/// A session: the conversation-owning agent, its terminal, and whether
/// the next turn comes from the operator instead of the model.
pub struct Session<Api: LLMApi> {
    llm: LLM<Api>,
    terminal: Terminal,
    user_control: bool,
    printed: usize,
}

impl<Api: LLMApi> Session<Api> {
    /// The conversation entries.
    pub closed spec fn entries(&self) -> Seq<EntryV> {
        self.llm.entries()
    }

    /// Ids are positions, as the store keeps them, and the echo cursor
    /// never points past the end.
    pub closed spec fn wf(&self) -> bool {
        self.llm.wf() && self.printed <= self.llm.entries().len()
    }

    /// How many leading entries have already been echoed.
    pub closed spec fn echoed(&self) -> nat {
        self.printed as nat
    }

    /// Whether the next turn is read from the operator.
    pub closed spec fn operator_mode(&self) -> bool {
        self.user_control
    }

    /// Open a session: the conversation starts with one empty user turn.
    pub fn new(llm: LLM<Api>, terminal: Terminal) -> (r: Session<Api>)
        requires
            llm.wf(),
        ensures
            r.wf(),
            r.entries() =~= llm.entries().push(user_text_entry(llm.entries().len(), Seq::empty())),
            !r.operator_mode(),
    {
        let mut llm = llm;
        llm.add_msg(Message { role: Role::User, content: Content::text(String::new()) });
        Session { llm, terminal, user_control: false, printed: 0 }
    }

    /// Whether the caller must read the next turn from the operator.
    pub fn needs_operator(&self) -> (r: bool)
        ensures
            r == self.operator_mode(),
    {
        self.user_control
    }

    /// How many entries the conversation holds.
    pub fn num_msgs(&self) -> (r: usize)
        ensures
            r == self.entries().len(),
    {
        self.llm.num_msgs()
    }

    /// A view of the conversation-owning agent, for inspection.
    pub fn conversation(&self) -> (r: &LLM<Api>)
        ensures
            r.entries() == self.entries(),
    {
        &self.llm
    }

    /// One model turn: prompt the backend (with retry and continuation),
    /// then dispatch the decoded action, then check the token budget.
    /// A backend error ends the turn with the conversation rolled back
    /// to its seeded pre-call state. On success, one assistant turn was
    /// recorded; dispatching its decode verdict accounts for everything
    /// that follows it, except an optional trailing budget warning.
    pub fn model_turn(&mut self, retry_timeout_ms: u64, command_timeout_ms: u64) -> (r: Result<
        SessionStep,
        LLMApiError,
    >)
        requires
            old(self).wf(),
        ensures
            final(self).wf(),
            final(self).echoed() == old(self).echoed(),
            match r {
                Result::Err(_) => final(self).entries() =~= seeded_entries(old(self).entries()),
                Result::Ok(step) => {
                    let es = seeded_entries(old(self).entries());
                    let n = es.len() as int;
                    &&& final(self).entries().len() > n
                    &&& final(self).entries()[n].msg.role == Role::Assistant
                    &&& final(self).entries()[n].msg.content is Single
                    &&& final(self).entries()[n].msg.content->Single_0 is Text
                    &&& ({
                        let t = final(self).entries()[n].msg.content->Single_0->Text_0;
                        exists|mid: Seq<EntryV>|
                            {
                                &&& #[trigger] step_effect(
                                    es.push(assistant_text_entry(n as nat, t)),
                                    old(self).operator_mode(),
                                    decode_outcome(t),
                                    mid,
                                    final(self).operator_mode(),
                                    step,
                                )
                                &&& (final(self).entries() =~= mid || final(self).entries() =~= mid.push(
                                    user_text_entry(mid.len(), token_warning_text()),
                                ))
                            }
                    })
                },
            },
    {
        let ghost es = seeded_entries(old(self).entries());
        let (dec, usage) = match self.llm.prompt(retry_timeout_ms) {
            Ok(p) => p,
            Err(e) => {
                return Err(e);
            },
        };
        let ghost mid0 = self.entries();
        let ghost t = mid0.last().msg.content->Single_0->Text_0;
        let ghost decv = match &dec {
            Result::<LLMResponse, DecodeError>::Ok(a) => Ok::<ActionV, ()>(a@),
            Result::<LLMResponse, DecodeError>::Err(_) => Err::<ActionV, ()>(()),
        };
        proof {
            assert(mid0 =~= es.push(assistant_text_entry(es.len(), t)));
            assert(decode_outcome(t) == decv);
        }
        let step = self.dispatch(dec, command_timeout_ms);
        let ghost mid1 = self.entries();
        proof {
            let n = es.len() as int;
            // the assistant turn's message survives the dispatch effect
            match decv {
                Ok(a) => match a {
                    ActionV::MaskContent(id) => {
                        if id < mid0.len() {
                            assert(mid1[n].msg == mid0[n].msg);
                        } else {
                            assert(mid1[n] == mid0[n]);
                        }
                    },
                    _ => {
                        assert(mid1[n].msg == mid0[n].msg);
                    },
                },
                Err(_) => {
                    assert(mid1[n] == mid0[n]);
                },
            }
        }
        self.token_warning(&usage);
        proof {
            let n = es.len() as int;
            assert(self.entries()[n].msg == mid1[n].msg);
            assert(self.entries()[n].msg == mid0[n].msg);
            assert(mid0[n] == mid0.last());
            let t_now = self.entries()[n].msg.content->Single_0->Text_0;
            assert(t_now == t);
            assert(step_effect(
                es.push(assistant_text_entry(es.len(), t_now)),
                old(self).operator_mode(),
                decode_outcome(t_now),
                mid1,
                self.operator_mode(),
                step,
            ));
            assert(self.entries() =~= mid1 || self.entries() =~= mid1.push(
                user_text_entry(mid1.len(), token_warning_text()),
            ));
        }
        Ok(step)
    }

    /// One operator turn: the typed line stands in for model output. It
    /// is recorded as an assistant turn (trimmed, already counted as
    /// echoed since the operator typed it), decoded by the same protocol
    /// grammar, and dispatched exactly as a model turn would be;
    /// malformed input loops back the same corrective text a model
    /// decode failure gets.
    pub fn operator_turn(&mut self, input: String, command_timeout_ms: u64) -> (r: SessionStep)
        requires
            old(self).wf(),
        ensures
            final(self).wf(),
            final(self).entries().len() > old(self).entries().len(),
            step_effect(
                old(self).entries().push(
                    assistant_text_entry(old(self).entries().len(), crate::text::spec_trim(input@)),
                ),
                old(self).operator_mode(),
                decode_outcome(input@),
                final(self).entries(),
                final(self).operator_mode(),
                r,
            ),
            final(self).echoed() == if old(self).echoed() == old(self).entries().len() {
                old(self).entries().len() + 1
            } else {
                old(self).echoed()
            },
    {
        let dec = decode_action(input.as_str());
        let trimmed = trim_str(input.as_str());
        let at_end = self.printed == self.llm.num_msgs();
        self.llm.add_msg(Message { role: Role::Assistant, content: Content::text(trimmed) });
        if at_end {
            // the operator saw their own line; count it as echoed
            self.printed = self.llm.num_msgs();
        }
        proof {
            assert(self.entries() =~= old(self).entries().push(
                assistant_text_entry(old(self).entries().len(), crate::text::spec_trim(input@)),
            ));
            assert(decode_outcome(input@) == match dec {
                Result::<LLMResponse, DecodeError>::Ok(a) => Ok::<ActionV, ()>(a@),
                Result::<LLMResponse, DecodeError>::Err(_) => Err::<ActionV, ()>(()),
            });
        }
        self.dispatch(dec, command_timeout_ms)
    }

    /// Dispatch one decoded turn. Decode failures, command outcomes and
    /// masking confirmations are all fed back into the conversation; the
    /// returned step tells the caller what remains to be done.
    pub fn dispatch(&mut self, dec: Result<LLMResponse, DecodeError>, command_timeout_ms: u64) -> (r:
        SessionStep)
        requires
            old(self).wf(),
        ensures
            final(self).wf(),
            final(self).echoed() == old(self).echoed(),
            step_effect(
                old(self).entries(),
                old(self).operator_mode(),
                match dec {
                    Result::Ok(a) => Ok::<ActionV, ()>(a@),
                    Result::Err(_) => Err::<ActionV, ()>(()),
                },
                final(self).entries(),
                final(self).operator_mode(),
                r,
            ),
    {
        let action = match dec {
            Ok(a) => a,
            Err(_) => {
                self.llm.add_msg(
                    Message {
                        role: Role::User,
                        content: Content::text(
                            String::from_str("Invalid output. Omit id, must be json parsable."),
                        ),
                    },
                );
                return SessionStep::Continue;
            },
        };
        match action {
            LLMResponse::Command(command) => {
                match self.terminal.run_command(command.as_str(), command_timeout_ms) {
                    Ok(output) => {
                        let text = command_feedback(output);
                        self.llm.add_msg(Message { role: Role::User, content: Content::text(text) });
                        SessionStep::Continue
                    },
                    Err(_) => SessionStep::TerminalFailed,
                }
            },
            LLMResponse::LLMSee(img_path) => SessionStep::NeedImage(img_path),
            LLMResponse::MaskContent(id) => {
                if id < self.llm.num_msgs() {
                    self.llm.mask_message(id);
                    let mut t = String::from_str("message ");
                    let num = u64_string(id as u64);
                    t.append(num.as_str());
                    t.append(" is masked");
                    self.llm.add_msg(Message { role: Role::User, content: Content::text(t) });
                } else {
                    let mut t = String::from_str("message ");
                    let num = u64_string(id as u64);
                    t.append(num.as_str());
                    t.append(" does not exist");
                    self.llm.add_msg(Message { role: Role::User, content: Content::text(t) });
                }
                SessionStep::Continue
            },
            LLMResponse::UserControl => {
                self.user_control = true;
                self.llm.add_msg(
                    Message {
                        role: Role::User,
                        content: Content::text(String::from_str("Switched to external control.")),
                    },
                );
                SessionStep::Continue
            },
            LLMResponse::AgentControl => {
                self.user_control = false;
                self.llm.add_msg(
                    Message {
                        role: Role::User,
                        content: Content::text(
                            String::from_str("Switched back to agent control."),
                        ),
                    },
                );
                SessionStep::Continue
            },
            LLMResponse::Exit => SessionStep::Exit,
        }
    }

    /// Feed the outcome of an image load back into the conversation: a
    /// user turn holding the image, or the error text.
    pub fn provide_image(&mut self, loaded: Result<Image, ImageLoadError>)
        requires
            old(self).wf(),
        ensures
            final(self).wf(),
            final(self).entries().len() == old(self).entries().len() + 1,
            final(self).entries().take(old(self).entries().len() as int) =~= old(self).entries(),
            final(self).entries().last().msg.role == Role::User,
            match loaded {
                Result::Ok(img) => final(self).entries().last().msg.content == ContentV::Single(
                    ItemV::Image(img@),
                ),
                Result::Err(e) => final(self).entries().last().msg.content == ContentV::Single(
                    ItemV::Text(crate::image::image_error_text(e@)),
                ),
            },
    {
        let content = match loaded {
            Ok(img) => Content::image(img),
            Err(e) => Content::text(e.describe()),
        };
        self.llm.add_msg(Message { role: Role::User, content });
    }

    /// Inject the budget warning when one call's usage crossed nine
    /// tenths of the backend's context budget.
    fn token_warning(&mut self, usage: &Usage)
        requires
            old(self).wf(),
        ensures
            final(self).wf(),
            final(self).entries() =~= old(self).entries() || final(self).entries() =~= old(
                self,
            ).entries().push(
                user_text_entry(old(self).entries().len(), token_warning_text()),
            ),
            final(self).operator_mode() == old(self).operator_mode(),
            final(self).echoed() == old(self).echoed(),
    {
        let max = self.llm.max_context_tokens();
        if over_budget(usage, max) {
            self.llm.add_msg(
                Message {
                    role: Role::User,
                    content: Content::text(
                        String::from_str("Warning: over 90% of token context is used."),
                    ),
                },
            );
        }
    }

    /// The console lines for every entry not yet echoed: `LLM:` for
    /// assistant turns and `Terminal:` for user turns, each with the
    /// entry's tagged display text. Afterwards everything counts as
    /// echoed.
    pub fn console_lines(&mut self) -> (r: Vec<String>)
        requires
            old(self).wf(),
        ensures
            final(self).wf(),
            final(self).entries() == old(self).entries(),
            final(self).operator_mode() == old(self).operator_mode(),
            final(self).echoed() == final(self).entries().len(),
            strings_view(r@) =~= console_render(
                old(self).entries().subrange(
                    old(self).echoed() as int,
                    old(self).entries().len() as int,
                ),
            ),
    {
        let ghost whole = self.entries().subrange(
            self.printed as int,
            self.entries().len() as int,
        );
        let mut out: Vec<String> = Vec::new();
        let n = self.llm.num_msgs();
        let start = self.printed;
        let mut i = start;
        while i < n
            invariant
                start <= i <= n,
                n == self.entries().len(),
                self.wf(),
                self.entries() == old(self).entries(),
                self.operator_mode() == old(self).operator_mode(),
                self.echoed() == start,
                whole == self.entries().subrange(start as int, n as int),
                strings_view(out@) =~= console_render(whole.take(i - start)),
            decreases n - i,
        {
            let mm = match self.llm.get_msg(i) {
                Some(m) => m.to_message_with_id_no_mask(),
                None => {
                    // unreachable: the index stays below the length
                    proof {
                        assert(false);
                    }
                    Message { role: Role::User, content: Content::text(String::new()) }
                },
            };
            let mut line = match mm.role {
                Role::Assistant => String::from_str("LLM: "),
                Role::User => String::from_str("Terminal: "),
            };
            let body = mm.content.to_string();
            line.append(body.as_str());
            out.push(line);
            proof {
                assert(whole[i - start] == self.entries()[i as int]);
                assert(line@ == console_line(self.entries()[i as int]));
                assert(strings_view(out@) =~= strings_view(out@.drop_last()).push(out@.last()@));
                assert(console_render(whole.take(i - start + 1)) =~= console_render(
                    whole.take(i - start),
                ).push(console_line(whole[i - start])));
            }
            i = i + 1;
        }
        self.printed = n;
        proof {
            assert(whole.take(n - start) =~= whole);
            assert(strings_view(out@) =~= console_render(whole));
        }
        out
    }
}

} // verus!

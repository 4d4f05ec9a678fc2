use agentic_terminal::api::{ApiResponse, LLMApi, LLMApiError, StopReason, Usage};
use agentic_terminal::content::Message;
use agentic_terminal::image::ImageLoadError;
use agentic_terminal::llm::LLM;
use agentic_terminal::session::{over_budget, Session, SessionStep};
use agentic_terminal::system_prompt::generate_system_prompt;
use agentic_terminal::terminal::Terminal;

/// A backend that replays fixed replies with fixed usage numbers.
struct Replies {
    texts: Vec<&'static str>,
    at: std::cell::Cell<usize>,
    usage: Usage,
}

impl Replies {
    fn new(texts: Vec<&'static str>) -> Replies {
        Replies {
            texts,
            at: std::cell::Cell::new(0),
            usage: Usage { n_input_tokens: 100, n_output_tokens: 20 },
        }
    }
}

impl LLMApi for Replies {
    fn prompt(&self, _system_msg: &str, _msgs: Vec<Message>) -> Result<
        ApiResponse,
        LLMApiError,
    > {
        let text = self.texts[self.at.get()];
        self.at.set(self.at.get() + 1);
        Ok(ApiResponse {
            resp: text.to_string(),
            stop_reason: StopReason::EndTurn,
            usage: self.usage,
        })
    }

    fn max_context_tokens(&self) -> usize {
        200_000
    }
}

#[test]
fn full_session_echo_then_exit() {
    // the model runs one command, reads its output, and exits
    let api = Replies::new(vec!["{\"Command\":\"echo hi\"}", "\"Exit\""]);
    let llm = LLM::new(api, generate_system_prompt("say hi"));
    let terminal = Terminal::new().expect("no shell");
    let mut session = Session::new(llm, terminal);

    let mut steps = 0;
    loop {
        let step = session.model_turn(10_000, 5_000).expect("backend failed");
        steps += 1;
        match step {
            SessionStep::Continue => {},
            SessionStep::Exit => break,
            other => panic!("unexpected step: {:?}", other),
        }
        assert!(steps < 10, "session did not end");
    }

    // initial user turn, assistant command, user output, assistant exit
    assert_eq!(session.num_msgs(), 4);
    let conv = session.conversation();
    let cmd = conv.get_msg(1).unwrap().get_message().content.to_string();
    assert_eq!(cmd, "{\"Command\":\"echo hi\"}");
    let out = conv.get_msg(2).unwrap().get_message().content.to_string();
    assert_eq!(out.trim(), "hi");
    let exit = conv.get_msg(3).unwrap().get_message().content.to_string();
    assert_eq!(exit, "\"Exit\"");
}

#[test]
fn decode_failure_feeds_corrective_turn() {
    let api = Replies::new(vec![": \"thinking out loud\"", "\"Exit\""]);
    let llm = LLM::new(api, "sys".to_string());
    let terminal = Terminal::new().expect("no shell");
    let mut session = Session::new(llm, terminal);

    assert!(matches!(session.model_turn(10_000, 5_000), Ok(SessionStep::Continue)));
    let conv = session.conversation();
    let corrective = conv.get_msg(2).unwrap().get_message().content.to_string();
    assert_eq!(corrective, "Invalid output. Omit id, must be json parsable.");
    assert!(matches!(session.model_turn(10_000, 5_000), Ok(SessionStep::Exit)));
}

#[test]
fn mask_request_masks_and_confirms() {
    let api = Replies::new(vec!["{\"MaskContent\":0}", "{\"MaskContent\":99}", "\"Exit\""]);
    let llm = LLM::new(api, "sys".to_string());
    let terminal = Terminal::new().expect("no shell");
    let mut session = Session::new(llm, terminal);

    assert!(matches!(session.model_turn(10_000, 5_000), Ok(SessionStep::Continue)));
    {
        let conv = session.conversation();
        assert!(conv.get_msg(0).unwrap().to_message_with_id().is_none());
        let note = conv.get_msg(2).unwrap().get_message().content.to_string();
        assert_eq!(note, "message 0 is masked");
    }
    // an id not in use is answered, not fatal
    assert!(matches!(session.model_turn(10_000, 5_000), Ok(SessionStep::Continue)));
    {
        let conv = session.conversation();
        let note = conv.get_msg(4).unwrap().get_message().content.to_string();
        assert_eq!(note, "message 99 does not exist");
    }
}

#[test]
fn control_handover_toggles_operator_mode() {
    let api = Replies::new(vec!["\"UserControl\""]);
    let llm = LLM::new(api, "sys".to_string());
    let terminal = Terminal::new().expect("no shell");
    let mut session = Session::new(llm, terminal);

    assert!(!session.needs_operator());
    assert!(matches!(session.model_turn(10_000, 5_000), Ok(SessionStep::Continue)));
    assert!(session.needs_operator());

    // the operator's line must satisfy the same grammar
    let step = session.operator_turn("gibberish\n".to_string(), 5_000);
    assert!(matches!(step, SessionStep::Continue));
    assert!(session.needs_operator());

    let step = session.operator_turn("\"AgentControl\"\n".to_string(), 5_000);
    assert!(matches!(step, SessionStep::Continue));
    assert!(!session.needs_operator());
}

#[test]
fn operator_line_is_not_echoed_again() {
    let api = Replies::new(vec!["\"UserControl\""]);
    let llm = LLM::new(api, "sys".to_string());
    let terminal = Terminal::new().expect("no shell");
    let mut session = Session::new(llm, terminal);

    assert_eq!(session.console_lines().len(), 1);
    assert!(matches!(session.model_turn(10_000, 5_000), Ok(SessionStep::Continue)));
    assert_eq!(session.console_lines().len(), 2);

    // the operator typed this line, so only the confirmation turn echoes
    let step = session.operator_turn("\"AgentControl\"\n".to_string(), 5_000);
    assert!(matches!(step, SessionStep::Continue));
    let lines = session.console_lines();
    assert_eq!(lines, vec!["Terminal: 4>>Switched back to agent control.".to_string()]);
}

#[test]
fn image_request_and_load_outcomes() {
    let api = Replies::new(vec!["{\"LLMSee\":\"cat.png\"}"]);
    let llm = LLM::new(api, "sys".to_string());
    let terminal = Terminal::new().expect("no shell");
    let mut session = Session::new(llm, terminal);

    let step = session.model_turn(10_000, 5_000).expect("backend failed");
    let path = match step {
        SessionStep::NeedImage(p) => p,
        other => panic!("unexpected step: {:?}", other),
    };
    assert_eq!(path, "cat.png");

    // a failed load is fed back as text, not an abort
    session.provide_image(Err(ImageLoadError::FileError("denied".to_string())));
    let conv = session.conversation();
    let note = conv.get_msg(2).unwrap().get_message().content.to_string();
    assert_eq!(note, "Failed to read file: denied");
}

#[test]
fn budget_warning_at_ninety_percent() {
    let u = |i: usize, o: usize| Usage { n_input_tokens: i, n_output_tokens: o };
    assert!(!over_budget(&u(90_000, 0), 100_000));
    assert!(over_budget(&u(90_001, 0), 100_000));
    assert!(over_budget(&u(50_000, 40_001), 100_000));
    assert!(!over_budget(&u(0, 0), 0));
    assert!(over_budget(&u(1, 0), 0));
    // the division rounds down: nine tenths of 11 is 9
    assert!(!over_budget(&u(9, 0), 11));
    assert!(over_budget(&u(10, 0), 11));
}

#[test]
fn budget_warning_is_injected_into_conversation() {
    let mut api = Replies::new(vec!["\"Exit\""]);
    api.usage = Usage { n_input_tokens: 190_000, n_output_tokens: 5_000 };
    let llm = LLM::new(api, "sys".to_string());
    let terminal = Terminal::new().expect("no shell");
    let mut session = Session::new(llm, terminal);

    assert!(matches!(session.model_turn(10_000, 5_000), Ok(SessionStep::Exit)));
    // seeded user turn, assistant exit, then the warning turn
    assert_eq!(session.num_msgs(), 3);
    let conv = session.conversation();
    let note = conv.get_msg(2).unwrap().get_message().content.to_string();
    assert_eq!(note, "Warning: over 90% of token context is used.");
}

#[test]
fn console_lines_prefix_by_role() {
    let api = Replies::new(vec!["\"Exit\""]);
    let llm = LLM::new(api, "sys".to_string());
    let terminal = Terminal::new().expect("no shell");
    let mut session = Session::new(llm, terminal);

    let lines = session.console_lines();
    assert_eq!(lines, vec!["Terminal: 0>>".to_string()]);
    assert!(matches!(session.model_turn(10_000, 5_000), Ok(SessionStep::Exit)));
    let lines = session.console_lines();
    assert_eq!(lines, vec!["LLM: 1>>\"Exit\"".to_string()]);
}

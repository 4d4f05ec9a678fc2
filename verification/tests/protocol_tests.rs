use agentic_terminal::protocol::{decode_action, encode_action, LLMResponse};
use agentic_terminal::system_prompt::{generate_system_prompt, output_examples};

fn decode(s: &str) -> Result<LLMResponse, agentic_terminal::protocol::DecodeError> {
    decode_action(s)
}

#[test]
fn decode_command() {
    match decode("{\"Command\":\"echo hi\"}") {
        Ok(LLMResponse::Command(c)) => assert_eq!(c, "echo hi"),
        other => panic!("wrong decode: {:?}", other),
    }
}

#[test]
fn decode_exit() {
    assert!(matches!(decode("\"Exit\""), Ok(LLMResponse::Exit)));
}

#[test]
fn decode_garbage_is_error_not_panic() {
    assert!(decode("not json at all").is_err());
}

#[test]
fn decode_with_whitespace() {
    match decode("  {\n\t\"Command\" : \"ls\" }\r\n") {
        Ok(LLMResponse::Command(c)) => assert_eq!(c, "ls"),
        other => panic!("wrong decode: {:?}", other),
    }
}

#[test]
fn decode_escapes() {
    match decode("{\"Command\":\"echo \\\"a\\\\nb\\\"\"}") {
        Ok(LLMResponse::Command(c)) => assert_eq!(c, "echo \"a\\nb\""),
        other => panic!("wrong decode: {:?}", other),
    }
    match decode("{\"Command\":\"tab\\there\"}") {
        Ok(LLMResponse::Command(c)) => assert_eq!(c, "tab\there"),
        other => panic!("wrong decode: {:?}", other),
    }
    match decode("{\"LLMSee\":\"\\u0069mg.png\"}") {
        Ok(LLMResponse::LLMSee(p)) => assert_eq!(p, "img.png"),
        other => panic!("wrong decode: {:?}", other),
    }
}

#[test]
fn decode_combines_surrogate_pairs() {
    match decode("{\"Command\":\"echo \\uD83D\\uDE00\"}") {
        Ok(LLMResponse::Command(c)) => assert_eq!(c, "echo \u{1F600}"),
        other => panic!("wrong decode: {:?}", other),
    }
}

#[test]
fn decode_rejects_lone_surrogate_escape() {
    assert!(decode("{\"Command\":\"\\uD800\"}").is_err());
    assert!(decode("{\"Command\":\"\\uDE00\"}").is_err());
    assert!(decode("{\"Command\":\"\\uD83D x\"}").is_err());
}

#[test]
fn decode_rejects_raw_control_char() {
    assert!(decode("{\"Command\":\"a\nb\"}").is_err());
}

#[test]
fn decode_mask_content() {
    match decode("{\"MaskContent\": 42}") {
        Ok(LLMResponse::MaskContent(n)) => assert_eq!(n, 42),
        other => panic!("wrong decode: {:?}", other),
    }
    assert!(matches!(decode("{\"MaskContent\":0}"), Ok(LLMResponse::MaskContent(0))));
}

#[test]
fn decode_mask_content_rejects_bad_numbers() {
    assert!(decode("{\"MaskContent\":042}").is_err());
    assert!(decode("{\"MaskContent\":-1}").is_err());
    assert!(decode("{\"MaskContent\":4.0}").is_err());
    assert!(decode("{\"MaskContent\":99999999999999999999999}").is_err());
}

#[test]
fn decode_controls() {
    assert!(matches!(decode("\"UserControl\""), Ok(LLMResponse::UserControl)));
    assert!(matches!(decode("\"AgentControl\""), Ok(LLMResponse::AgentControl)));
    assert!(decode("\"Quit\"").is_err());
}

#[test]
fn decode_rejects_trailing_content() {
    assert!(decode("\"Exit\" x").is_err());
    assert!(decode("{\"Command\":\"ls\"} {}").is_err());
    assert!(decode("{\"Command\":\"ls\",\"Extra\":1}").is_err());
}

#[test]
fn decode_rejects_unknown_key() {
    assert!(decode("{\"Run\":\"ls\"}").is_err());
}

#[test]
fn encode_command_escapes() {
    let e = encode_action(&LLMResponse::Command("echo \"hello\"".to_string()));
    assert_eq!(e, "{\"Command\":\"echo \\\"hello\\\"\"}");
    let e = encode_action(&LLMResponse::Command("a\\nb".to_string()));
    assert_eq!(e, "{\"Command\":\"a\\\\nb\"}");
    let e = encode_action(&LLMResponse::Command("x\ny".to_string()));
    assert_eq!(e, "{\"Command\":\"x\\ny\"}");
}

#[test]
fn encode_all_variants() {
    assert_eq!(encode_action(&LLMResponse::LLMSee("img.png".to_string())), "{\"LLMSee\":\"img.png\"}");
    assert_eq!(encode_action(&LLMResponse::MaskContent(42)), "{\"MaskContent\":42}");
    assert_eq!(encode_action(&LLMResponse::UserControl), "\"UserControl\"");
    assert_eq!(encode_action(&LLMResponse::AgentControl), "\"AgentControl\"");
    assert_eq!(encode_action(&LLMResponse::Exit), "\"Exit\"");
}

#[test]
fn encode_decode_round_trip() {
    let examples = output_examples();
    for a in &examples {
        let wire = encode_action(a);
        let back = decode_action(wire.as_str()).expect("round trip failed to decode");
        assert_eq!(format!("{:?}", back), format!("{:?}", a));
    }
}

#[test]
fn system_prompt_holds_task_and_examples() {
    let p = generate_system_prompt("count the files");
    assert!(p.starts_with(
        "You are in a bash session and will interact directly with a terminal to complete the task: count the files."
    ));
    assert!(p.contains(
        "[{\"Command\":\"echo \\\"hello\\\"\"},{\"LLMSee\":\"img.png\"},{\"MaskContent\":42},\"UserControl\",\"AgentControl\",\"Exit\"]"
    ));
    assert!(p.contains("maskcontent id, masks the content"));
    assert!(p.ends_with("perhaps a concise description."));
}

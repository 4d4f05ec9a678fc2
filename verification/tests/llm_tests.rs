use std::cell::Cell;
use std::time::Instant;

use agentic_terminal::api::{ApiResponse, LLMApi, LLMApiError, StopReason, Usage};
use agentic_terminal::content::{Content, ContentItem, Message, Role};
use agentic_terminal::llm::{trim_id_prefix, LLM};
use agentic_terminal::protocol::LLMResponse;
use agentic_terminal::content::{Image, ImageType};

/// A backend that replays a fixed script of outcomes.
struct Scripted {
    script: Vec<Result<(String, StopReason), LLMApiError>>,
    at: Cell<usize>,
}

impl Scripted {
    fn new(script: Vec<Result<(String, StopReason), LLMApiError>>) -> Scripted {
        Scripted { script, at: Cell::new(0) }
    }
}

impl LLMApi for Scripted {
    fn prompt(&self, _system_msg: &str, _msgs: Vec<Message>) -> Result<
        ApiResponse,
        LLMApiError,
    > {
        let entry = self.script[self.at.get()].clone();
        self.at.set(self.at.get() + 1);
        match entry {
            Ok((text, stop_reason)) => Ok(ApiResponse {
                resp: text,
                stop_reason,
                usage: Usage { n_input_tokens: 10, n_output_tokens: 5 },
            }),
            Err(e) => Err(e),
        }
    }

    fn max_context_tokens(&self) -> usize {
        200_000
    }
}

/// A backend that always fails the same way.
struct AlwaysErr(LLMApiError);

impl LLMApi for AlwaysErr {
    fn prompt(&self, _system_msg: &str, _msgs: Vec<Message>) -> Result<
        ApiResponse,
        LLMApiError,
    > {
        Err(self.0)
    }

    fn max_context_tokens(&self) -> usize {
        200_000
    }
}

fn user_text(s: &str) -> Message {
    Message { role: Role::User, content: Content::text(s.to_string()) }
}

fn msg_text(llm: &LLM<impl LLMApi>, id: usize) -> String {
    llm.get_msg(id)
        .expect("missing message")
        .get_message()
        .content
        .to_string()
}

#[test]
fn masking_hides_an_entry_and_keeps_the_rest() {
    let mut llm = LLM::new(AlwaysErr(LLMApiError::Other), "sys".to_string());
    llm.add_msg(user_text("zero"));
    llm.add_msg(user_text("one"));
    llm.add_msg(user_text("two"));
    llm.mask_message(1);

    // the rendering excludes id 1 and keeps the other tags unchanged
    let visible = llm.render_visible();
    assert_eq!(visible.len(), 2);
    assert_eq!(visible[0].content.to_string(), "0>>zero");
    assert_eq!(visible[1].content.to_string(), "2>>two");

    // the store still returns the original message under its id
    assert_eq!(msg_text(&llm, 1), "one");
    assert_eq!(llm.num_msgs(), 3);
    assert!(llm.get_msg(1).unwrap().to_message_with_id().is_none());
    assert_eq!(
        llm.get_msg(1).unwrap().to_message_with_id_no_mask().content.to_string(),
        "1>>one"
    );
}

#[test]
fn ids_are_never_reused_after_truncation_free_growth() {
    let mut llm = LLM::new(AlwaysErr(LLMApiError::Other), "sys".to_string());
    assert_eq!(llm.next_msg_id(), 0);
    assert!(llm.last_msg_id().is_none());
    llm.add_msg(user_text("a"));
    llm.add_msg(user_text("b"));
    assert_eq!(llm.next_msg_id(), 2);
    assert_eq!(llm.last_msg_id(), Some(1));
}

#[test]
fn trim_id_prefix_strips_valid_tags() {
    assert_eq!(trim_id_prefix("12>>hello"), "hello");
    assert_eq!(trim_id_prefix("0>>"), "");
    assert_eq!(trim_id_prefix("-3>>x"), "x");
    assert_eq!(trim_id_prefix("+7>>x"), "x");
    assert_eq!(trim_id_prefix("5>>a>>b"), "a>>b");
}

#[test]
fn trim_id_prefix_keeps_text_without_valid_tag() {
    assert_eq!(trim_id_prefix("hello"), "hello");
    assert_eq!(trim_id_prefix("abc>>x"), "abc>>x");
    assert_eq!(trim_id_prefix(">>x"), ">>x");
    assert_eq!(trim_id_prefix("1 2>>x"), "1 2>>x");
    assert_eq!(trim_id_prefix("99999999999999999999>>x"), "99999999999999999999>>x");
    assert_eq!(trim_id_prefix("9223372036854775807>>x"), "x");
    assert_eq!(trim_id_prefix("-9223372036854775808>>x"), "x");
    assert_eq!(trim_id_prefix("9223372036854775808>>x"), "9223372036854775808>>x");
}

#[test]
fn tagging_an_image_message_adds_a_leading_text_element() {
    let mut llm = LLM::new(AlwaysErr(LLMApiError::Other), "sys".to_string());
    let img = Image { image_type: ImageType::Gif, data: "QUJD".to_string() };
    llm.add_msg(Message { role: Role::User, content: Content::image(img) });
    let tagged = llm.get_msg(0).unwrap().to_message_with_id_no_mask();
    match tagged.content {
        Content::Multiple(items) => {
            assert_eq!(items.len(), 2);
            assert!(matches!(&items[0], ContentItem::Text(t) if t == "0>>"));
            assert!(matches!(&items[1], ContentItem::Image(i) if i.data == "QUJD"));
        },
        other => panic!("the tag must become a new leading element: {:?}", other),
    }
}

#[test]
fn content_extend_flattens_in_order() {
    let mut c = Content::text("ab".to_string());
    c.extend(Content::text("cd".to_string()));
    assert_eq!(c.to_string(), "abcd");
    match &c {
        Content::Multiple(items) => assert_eq!(items.len(), 2),
        _ => panic!("extend must yield a Multiple"),
    }
    c.extend(Content::Multiple(vec![ContentItem::Text("ef".to_string())]));
    assert_eq!(c.to_string(), "abcdef");
}

#[test]
fn content_try_into_text_fails_on_images() {
    let all_text = Content::Multiple(vec![
        ContentItem::Text("a".to_string()),
        ContentItem::Text("b".to_string()),
    ]);
    assert_eq!(all_text.try_into_text(), Some("ab".to_string()));
    let with_image = Content::Multiple(vec![
        ContentItem::Text("a".to_string()),
        ContentItem::Image(Image { image_type: ImageType::Png, data: String::new() }),
    ]);
    assert!(with_image.try_into_text().is_none());
    assert_eq!(with_image.to_string(), "a<png image>");
}

#[test]
fn continuation_merges_chunks_and_strips_one_tag() {
    // a MaxTokens chunk then an EndTurn chunk within the same call
    let api = Scripted::new(vec![
        Ok(("1>>ab".to_string(), StopReason::MaxTokens)),
        Ok(("cd".to_string(), StopReason::EndTurn)),
    ]);
    let mut llm = LLM::new(api, "sys".to_string());
    llm.add_msg(user_text(""));
    let (dec, usage) = llm.prompt(5_000).expect("prompt failed");
    assert!(dec.is_err(), "abcd is not a protocol action");
    assert_eq!(usage.n_input_tokens, 10);
    assert_eq!(llm.num_msgs(), 2);
    // one assistant message holding both chunks, the single id tag stripped
    assert_eq!(msg_text(&llm, 1), "abcd");
}

#[test]
fn continuation_without_tag_concatenates() {
    let api = Scripted::new(vec![
        Ok(("{\"Command\":\"ec".to_string(), StopReason::MaxTokens)),
        Ok(("ho hi\"}".to_string(), StopReason::EndTurn)),
    ]);
    let mut llm = LLM::new(api, "sys".to_string());
    let (dec, _usage) = llm.prompt(5_000).expect("prompt failed");
    match dec {
        Ok(LLMResponse::Command(c)) => assert_eq!(c, "echo hi"),
        other => panic!("wrong decode: {:?}", other),
    }
    // the empty opening user turn was seeded automatically
    assert_eq!(llm.num_msgs(), 2);
    assert_eq!(msg_text(&llm, 0), "");
}

#[test]
fn fatal_error_returns_at_once_with_rollback() {
    let mut llm = LLM::new(AlwaysErr(LLMApiError::AuthenticationError), "sys".to_string());
    llm.add_msg(user_text("hello"));
    let n_before = llm.num_msgs();
    let started = Instant::now();
    let r = llm.prompt(60_000);
    let elapsed = started.elapsed();
    assert!(matches!(r, Err(LLMApiError::AuthenticationError)));
    assert_eq!(llm.num_msgs(), n_before);
    assert_eq!(msg_text(&llm, 0), "hello");
    assert!(elapsed.as_millis() < 500, "fatal errors must not wait: {:?}", elapsed);
}

#[test]
fn rate_limit_retries_until_the_timeout_then_surfaces() {
    let mut llm = LLM::new(AlwaysErr(LLMApiError::RateLimitExceeded), "sys".to_string());
    llm.add_msg(user_text("hello"));
    let n_before = llm.num_msgs();
    let started = Instant::now();
    let r = llm.prompt(1_200);
    let elapsed = started.elapsed();
    assert!(matches!(r, Err(LLMApiError::RateLimitExceeded)));
    assert_eq!(llm.num_msgs(), n_before);
    // no earlier than the timeout, not substantially later than
    // timeout plus one backoff interval
    assert!(elapsed.as_millis() >= 1_200, "returned too early: {:?}", elapsed);
    assert!(elapsed.as_millis() < 3_500, "returned too late: {:?}", elapsed);
}

#[test]
fn overloaded_is_retried_and_can_recover() {
    let api = Scripted::new(vec![
        Err(LLMApiError::OverloadedError),
        Ok(("\"Exit\"".to_string(), StopReason::EndTurn)),
    ]);
    let mut llm = LLM::new(api, "sys".to_string());
    let (dec, _usage) = llm.prompt(10_000).expect("prompt failed");
    assert!(matches!(dec, Ok(LLMResponse::Exit)));
}

use humanize_text::errors::RewriteError;
use humanize_text::pipeline::{assemble_rewrite, plan_strong_rewrite};
use humanize_text::prompts::{build_system_prompt, RewriteStyle};
use humanize_text::repair::RepairPatterns;
use humanize_text::request::{
    build_openrouter_body, model_candidates, reasoning_setting, select_api_key, HttpReply,
    ReasoningEffort, ReasoningLevel, ReplyAction, ReplyState,
};
use humanize_text::response::{extract_rewritten_content, JsonValue};

fn s(x: &str) -> String {
    x.to_string()
}

fn obj(members: Vec<(&str, JsonValue)>) -> JsonValue {
    JsonValue::Object(members.into_iter().map(|(k, v)| (k.to_string(), v)).collect())
}

fn reply(status: u16, text: &str, body: &str, retry_after: Option<&str>) -> HttpReply {
    HttpReply { status, status_text: s(text), body: s(body), retry_after: retry_after.map(s) }
}

#[test]
fn reasoning_levels() {
    assert_eq!(reasoning_setting("any/model", ReasoningEffort::High, true), Some(ReasoningLevel::Low));
    assert_eq!(reasoning_setting("google/gemini", ReasoningEffort::Auto, false), None);
    assert_eq!(reasoning_setting("openai/gpt-oss-20b", ReasoningEffort::Auto, false), Some(ReasoningLevel::Low));
    assert_eq!(reasoning_setting("openai/gpt-oss-20b", ReasoningEffort::Off, false), Some(ReasoningLevel::Low));
    assert_eq!(reasoning_setting("google/gemini", ReasoningEffort::Off, false), Some(ReasoningLevel::Off));
    assert_eq!(reasoning_setting("m", ReasoningEffort::Medium, false), Some(ReasoningLevel::Medium));
    assert_eq!(ReasoningLevel::Off.name(), "none");
    assert_eq!(ReasoningLevel::High.name(), "high");
}

#[test]
fn request_body_fields() {
    let r = build_openrouter_body("PROMPT", RewriteStyle::Clean, "openai/gpt-oss-120b", 5200, ReasoningEffort::Auto, false);
    assert_eq!(r.model, "openai/gpt-oss-120b");
    assert_eq!(r.max_tokens, 5200);
    assert_eq!(r.system_prompt, build_system_prompt(RewriteStyle::Clean));
    assert_eq!(r.user_prompt, "PROMPT");
    assert_eq!(r.reasoning, Some(ReasoningLevel::Low));
}

#[test]
fn candidates_start_with_primary_and_skip_repeats() {
    let fallbacks = vec![s("b"), s("a"), s("c"), s("b")];
    assert_eq!(model_candidates(&s("a"), &fallbacks), vec![s("a"), s("b"), s("c")]);
    assert_eq!(model_candidates(&s("a"), &Vec::new()), vec![s("a")]);
}

#[test]
fn api_key_prefers_the_command_line() {
    assert_eq!(select_api_key(Some(s("cli")), Some(s("env"))).ok(), Some(s("cli")));
    assert_eq!(select_api_key(None, Some(s("env"))).ok(), Some(s("env")));
    assert!(matches!(select_api_key(None, None), Err(RewriteError::MissingApiKey)));
}

#[test]
fn success_is_accepted() {
    let mut st = ReplyState::new();
    assert!(matches!(st.on_reply(1, &reply(200, "200 OK", "{}", None)), ReplyAction::Accept));
    assert_eq!(st.attempts, 0);
}

#[test]
fn rate_limit_waits_then_gives_up() {
    let mut st = ReplyState::new();
    match st.on_reply(1, &reply(429, "429 Too Many Requests", "slow down", Some("120"))) {
        ReplyAction::Wait { seconds, announced_seconds, attempt } => {
            assert_eq!((seconds, announced_seconds, attempt), (60, 120, 1));
        }
        _ => panic!("expected a wait"),
    }
    match st.on_reply(1, &reply(429, "429 Too Many Requests", "slow down", Some("5"))) {
        ReplyAction::Fail(e) => assert_eq!(e.message(), "OpenRouter request failed with status 429 Too Many Requests. Response: slow down"),
        _ => panic!("expected a failure"),
    }
}

#[test]
fn rate_limit_without_a_number_waits_thirty_seconds() {
    let mut st = ReplyState::new();
    match st.on_reply(3, &reply(429, "429 Too Many Requests", "", Some("soon"))) {
        ReplyAction::Wait { seconds, .. } => assert_eq!(seconds, 30),
        _ => panic!("expected a wait"),
    }
    match st.on_reply(3, &reply(429, "429 Too Many Requests", "", None)) {
        ReplyAction::Wait { seconds, attempt, .. } => assert_eq!((seconds, attempt), (30, 2)),
        _ => panic!("expected a wait"),
    }
}

#[test]
fn reasoning_refusal_retries_once_with_low_effort() {
    let mut st = ReplyState::new();
    let r = reply(400, "400 Bad Request", "error: Reasoning is mandatory for this endpoint", None);
    assert!(matches!(st.on_reply(0, &r), ReplyAction::RetryWithLowReasoning));
    assert!(st.force_low_reasoning);
    assert!(matches!(st.on_reply(0, &r), ReplyAction::Fail(RewriteError::RequestFailed { .. })));
}

#[test]
fn payment_error_has_its_own_message() {
    let mut st = ReplyState::new();
    match st.on_reply(1, &reply(402, "402 Payment Required", "no credits", None)) {
        ReplyAction::Fail(e) => assert_eq!(
            e.message(),
            "OpenRouter payment/credit error 402. Add credits, check the correct account/org, or use another model. Response: no credits"
        ),
        _ => panic!("expected a failure"),
    }
}

#[test]
fn extracts_string_content() {
    let json = obj(vec![(
        "choices",
        JsonValue::Array(vec![obj(vec![
            ("finish_reason", JsonValue::Text(s("stop"))),
            ("message", obj(vec![("content", JsonValue::Text(s("Rewritten.")))])),
        ])]),
    )]);
    let r = extract_rewritten_content(&json).ok().unwrap();
    assert_eq!(r.text, "Rewritten.");
    assert!(!r.stopped_for_length);
}

#[test]
fn extracts_and_joins_content_parts() {
    let parts = JsonValue::Array(vec![
        obj(vec![("type", JsonValue::Text(s("text"))), ("text", JsonValue::Text(s("Part one")))]),
        JsonValue::Text(s("Part two")),
        JsonValue::Number(Some(3)),
        obj(vec![("text", JsonValue::Null)]),
    ]);
    let json = obj(vec![(
        "choices",
        JsonValue::Array(vec![obj(vec![
            ("finish_reason", JsonValue::Text(s("length"))),
            ("message", obj(vec![("content", parts)])),
        ])]),
    )]);
    let r = extract_rewritten_content(&json).ok().unwrap();
    assert_eq!(r.text, "Part one\nPart two");
    assert!(r.stopped_for_length);
}

#[test]
fn missing_choices_is_an_error() {
    let json = obj(vec![("choices", JsonValue::Array(vec![]))]);
    let e = extract_rewritten_content(&json).err().unwrap();
    assert_eq!(e.message(), "OpenRouter response had no choices");
    assert!(matches!(extract_rewritten_content(&JsonValue::Null), Err(RewriteError::NoChoices)));
}

#[test]
fn empty_content_reports_reasoning_tokens() {
    let json = obj(vec![
        (
            "choices",
            JsonValue::Array(vec![obj(vec![("message", obj(vec![("content", JsonValue::Text(s("   ")))]))])]),
        ),
        (
            "usage",
            obj(vec![("completion_tokens_details", obj(vec![("reasoning_tokens", JsonValue::Number(Some(812)))]))]),
        ),
    ]);
    let e = extract_rewritten_content(&json).err().unwrap();
    assert_eq!(
        e.message(),
        "OpenRouter returned no final rewritten text. finish_reason=unknown, reasoning_tokens=812. Increase --max-tokens, use a non-reasoning model, or use --reasoning-effort low/none as appropriate."
    );
}

#[test]
fn all_models_failed_message() {
    let e = RewriteError::AllModelsFailed { last_error: s("timeout") };
    assert_eq!(e.message(), "All OpenRouter models failed. Last error: timeout");
    assert_eq!(
        RewriteError::MissingApiKey.message(),
        "Missing OpenRouter API key. Set OPENROUTER_API_KEY, create a .env file, or pass --api-key."
    );
}

#[test]
fn strong_plan_numbers_the_chunks() {
    let plan = plan_strong_rewrite("One.\n\nTwo.", 5, RewriteStyle::ReferenceArticle);
    assert_eq!(plan.prompts.len(), 2);
    assert!(plan.warn_split_reference);
    assert!(plan.prompts[0].starts_with("This is chunk 1/2 of a longer article."));
    assert!(plan.prompts[1].starts_with("This is chunk 2/2 of a longer article."));
    assert!(plan.prompts[1].ends_with("SOURCE TEXT:\nTwo."));
    let single = plan_strong_rewrite("One.\n\nTwo.", 100, RewriteStyle::ReferenceArticle);
    assert_eq!(single.prompts.len(), 1);
    assert!(!single.warn_split_reference);
    assert!(single.prompts[0].starts_with("Restructure this draft"));
}

#[test]
fn assembled_answers_are_repaired_and_joined() {
    let p = RepairPatterns::new().unwrap();
    let answers = vec![s("Sure! First part ."), s("Here is the rewritten chunk:\nSecond   part is paramount.")];
    assert_eq!(assemble_rewrite(&p, &answers), "First part.\n\nSecond part is important.");
}

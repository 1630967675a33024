use rustychain::llm::builder::check_build;
use rustychain::llm::LLMProvider;
use rustychain::error::Error;
use rustychain::llm::{
    Image, InferenceContent, Reasoning, ReasoningEffort, ReasoningMode, Role, ThinkingEffort,
    ThinkingMode,
};

#[test]
fn thinking_budgets() {
    assert_eq!(ThinkingMode::Disabled.to_google(), 0);
    assert_eq!(ThinkingMode::Sized(1024).to_google(), 1024);
    assert_eq!(ThinkingMode::Dynamic.to_google(), -1);
    assert_eq!(ThinkingMode::Effort(ThinkingEffort::High).to_google(), -1);
    assert!(!ThinkingMode::Disabled.to_ollama());
    assert!(ThinkingMode::Dynamic.to_ollama());
    assert!(ThinkingMode::Sized(5).to_ollama());
}

#[test]
fn thinking_for_openai() {
    assert_eq!(
        ThinkingMode::Disabled.to_openai(),
        Some(Reasoning { mode: None, exclude: None, enabled: Some(false) })
    );
    assert_eq!(ThinkingMode::Dynamic.to_openai(), None);
    assert_eq!(
        ThinkingMode::Effort(ThinkingEffort::Medium).to_openai(),
        Some(Reasoning {
            mode: Some(ReasoningMode::Effort { effort: ReasoningEffort::Medium }),
            exclude: Some(false),
            enabled: Some(true),
        })
    );
    assert_eq!(
        ThinkingMode::Sized(2048).to_openai(),
        Some(Reasoning {
            mode: Some(ReasoningMode::MaxTokens { max_tokens: 2048 }),
            exclude: Some(false),
            enabled: Some(true),
        })
    );
}

#[test]
fn images() {
    let img = Image::new("u".to_string(), Some("t".to_string()));
    assert_eq!(img.url, "u");
    assert_eq!(img.text, Some("t".to_string()));
    let inline = Image::from_inline_data("image/png", "AAAA").unwrap();
    assert_eq!(inline.url, "data:image/png;base64,AAAA");
    assert_eq!(inline.inline_data(), "AAAA");
    match Image::from_inline_data("application/pdf", "AAAA") {
        Err(Error::Generic(m)) => assert_eq!(m, "Unsupported image MIME type"),
        other => panic!("unexpected {:?}", other),
    }
    assert_eq!(Image::new("data:nocomma".to_string(), None).inline_data(), "");
    assert_eq!(Image::new("QUJD".to_string(), None).inline_data(), "QUJD");
}

#[test]
fn inference_content() {
    let d = InferenceContent::default();
    assert_eq!(d.role, Role::Assistant);
    assert!(d.text.is_none());
    let u = InferenceContent::from_user_text("hello");
    assert_eq!(u.role, Role::User);
    assert_eq!(u.text, Some("hello".to_string()));
}

#[test]
fn test_google_thinking_budget_mapping() {
    assert_eq!(ThinkingMode::Sized(1024).to_google(), 1024);
    assert_eq!(ThinkingMode::Disabled.to_google(), 0);
}

#[test]
fn test_thinking_mode_openai_effort_logic() {
    let mode = ThinkingMode::Effort(ThinkingEffort::Low);
    let reasoning = mode.to_openai().unwrap();
    assert!(reasoning.enabled.unwrap());
    if let Some(ReasoningMode::Effort { effort }) = reasoning.mode {
        assert!(matches!(effort, ReasoningEffort::Low));
    } else {
        panic!("Reasoning mode effort mismatch");
    }
}

#[test]
fn model_configurations_are_checked() {
    let names = |v: &[&str]| v.iter().map(|s| s.to_string()).collect::<Vec<_>>();
    let model = Some("gemini".to_string());
    match check_build(&None, &Some(LLMProvider::Google), &vec![]) {
        Err(Error::Input(m)) => assert_eq!(m, "LLM name not set"),
        other => panic!("unexpected {:?}", other),
    }
    match check_build(&model, &None, &vec![]) {
        Err(Error::Input(m)) => assert_eq!(m, "LLM provider not set"),
        other => panic!("unexpected {:?}", other),
    }
    match check_build(&model, &Some(LLMProvider::OpenAI), &names(&["a", "b", "c", "b", "a"])) {
        Err(Error::Input(m)) => assert_eq!(m, "Duplicate tool name detected: b"),
        other => panic!("unexpected {:?}", other),
    }
    assert!(check_build(&model, &Some(LLMProvider::Ollama), &names(&["a", "b"])).is_ok());
}

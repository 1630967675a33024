use std::sync::Arc;

use rustychain::error::Error;
use rustychain::llm::messages::{
    GeminiCandidate, GeminiFinishReason, GeminiPart, GeminiResponse, GeminiRole, OllamaMessage,
    OllamaResponse, OpenAiChoice, OpenAiFinishReason, OpenAiImageUrl, OpenAiReply, OpenAiRole,
    OpenAiStreamChunk,
};
use rustychain::llm::requests::{
    openai_first_choice, EmbeddingRequest, GeminiCallingMode, OpenAiToolChoice,
};
use rustychain::llm::{
    FinishReason, FunctionCall, FunctionResult, GenerationConfig, Image, Inference,
    InferenceContent, InferenceTask, LLMProvider, ProviderRequest, ReceivedCall, Role,
    ThinkingEffort, ThinkingMode, ToolCallingMode, ToolInfo, LLM,
};
use rustychain::splitters::recursive_json_splitter::JsonValue;

fn s(t: &str) -> String {
    t.to_string()
}

fn obj(entries: Vec<(&str, JsonValue)>) -> JsonValue {
    JsonValue::Object(entries.into_iter().map(|(k, v)| (k.to_string(), v)).collect())
}

fn mock_function_call() -> FunctionCall {
    FunctionCall { name: s("get_weather"), arguments: obj(vec![("city", JsonValue::Str(s("London")))]) }
}

fn mock_function_result() -> FunctionResult {
    FunctionResult { name: s("get_weather"), results: obj(vec![("temp", JsonValue::Number(s("22")))]) }
}

fn calculator_schema() -> JsonValue {
    let number = || {
        obj(vec![("format", JsonValue::Str(s("double"))), ("type", JsonValue::Str(s("number")))])
    };
    obj(vec![
        ("$schema", JsonValue::Str(s("https://json-schema.org/draft/2020-12/schema"))),
        ("properties", obj(vec![
            ("a", number()),
            ("b", number()),
            ("operation", obj(vec![("type", JsonValue::Str(s("string")))])),
        ])),
        ("required", JsonValue::Array(vec![
            JsonValue::Str(s("a")),
            JsonValue::Str(s("b")),
            JsonValue::Str(s("operation")),
        ])),
        ("title", JsonValue::Str(s("CalculatorArgs"))),
        ("type", JsonValue::Str(s("object"))),
    ])
}

fn mock_tool(name: &str) -> ToolInfo {
    ToolInfo::new(s(name), s("mock description"), obj(vec![("type", JsonValue::Str(s("integer")))]))
}

fn create_test_llm(provider: LLMProvider) -> LLM {
    LLM {
        model: s("test-model"),
        system_prompt: s("You are a test assistant"),
        provider,
        authorization: Some(s("test-key")),
        endpoint: Some(s("http://localhost:8080")),
        tools: vec![],
    }
}

#[test]
fn test_inference_helpers() {
    let user = Inference::as_user("hello");
    assert_eq!(user.content.role, Role::User);
    assert_eq!(user.content.text.unwrap(), "hello");

    let assistant = Inference::as_assistant("hi");
    assert_eq!(assistant.content.role, Role::Assistant);

    let system = Inference::as_system("act as bot");
    assert_eq!(system.content.role, Role::System);
}

#[test]
fn test_inference_with_tools() {
    let inf = Inference::as_assistant("using tool").add_function_call(mock_function_call());

    assert!(inf.has_function_calls());
    assert_eq!(inf.function_calls[0].name, "get_weather");
}

#[test]
fn test_inference_with_results() {
    let results = vec![mock_function_result()];
    let inf = Inference::with_function_results(results);

    assert_eq!(inf.content.role, Role::Tool);
    assert!(inf.has_function_results());
    assert_eq!(inf.function_results[0].name, "get_weather");
}

#[test]
fn test_to_openai_message_with_tools() {
    let inf = Inference::as_assistant("calling tool").add_function_call(mock_function_call());

    let msg = inf.to_openai_message();

    assert!(msg.tool_calls.is_some());
    let tools = msg.tool_calls.unwrap();
    assert_eq!(tools[0].function.name.as_ref().unwrap(), "get_weather");
    assert_eq!(tools[0].id, "call_0");
}

#[test]
fn test_to_openai_tool_result_mapping() {
    let result = mock_function_result();
    let inf = Inference::with_function_results(vec![result]);

    let msg = inf.to_openai_message();

    assert!(matches!(msg.role, OpenAiRole::Tool));
    assert_eq!(msg.tool_call_id.unwrap(), "get_weather");
    assert!(msg.content.contains("22"));
}

#[test]
fn test_to_gemini_message_multimodal() {
    let audio_data = vec![1, 2, 3, 4];
    let inf = Inference::as_user("listen to this")
        .with_audio(audio_data)
        .with_thinking("processing audio".to_string());

    let msg = inf.to_gemini_message();

    let parts = msg.parts;
    assert!(parts.iter().any(|p| matches!(p, GeminiPart::InlineData { .. })));
    assert!(parts.iter().any(|p| matches!(p, GeminiPart::Text { .. })));

    if let GeminiPart::Text { thought, .. } = &parts[1] {
        assert_eq!(thought, &Some(true));
    }
}

#[test]
fn test_ollama_roundtrip_logic() {
    let mut inf = Inference::as_user("see this");
    inf = inf.add_image(Image::new("base64_data".into(), None));
    inf = inf.with_thinking("thinking...".into());

    let msg = inf.to_ollama_message();
    assert_eq!(msg.images.unwrap().len(), 1);
    assert_eq!(msg.thinking.unwrap(), "thinking...");
}

#[test]
fn test_from_gemini_response_parsing() {
    let response = GeminiResponse {
        candidates: vec![GeminiCandidate {
            parts: Some(vec![
                GeminiPart::Text { text: "Hello".to_string(), thought: None },
                GeminiPart::FunctionCall {
                    call: FunctionCall { name: "test_fn".into(), arguments: obj(vec![]) },
                },
            ]),
            finish_reason: Some(GeminiFinishReason::Stop),
        }],
        model_version: Some("gemini-1.5".into()),
        printed: String::new(),
    };

    let inf = Inference::from_gemini_response(response);
    assert_eq!(inf.content.text.unwrap(), "Hello");
    assert_eq!(inf.function_calls[0].name, "test_fn");
    assert_eq!(inf.model.unwrap(), "gemini-1.5");
}

#[test]
fn test_from_openai_stream_responses() {
    let chunk = OpenAiStreamChunk::Content("streaming text".into());
    let inf = Inference::from_openai_stream_response(chunk).unwrap();
    assert_eq!(inf.content.text.unwrap(), "streaming text");
    assert!(matches!(inf.finish_reason, Some(FinishReason::Stop)));

    let done = OpenAiStreamChunk::Done;
    let inf_done = Inference::from_openai_stream_response(done).unwrap();
    assert!(inf_done.content.text.is_none());
    assert!(matches!(inf_done.finish_reason, Some(FinishReason::Stop)));
}

#[test]
fn test_inference_from_string_conversions() {
    let inf: Inference = "simple message".into();
    assert_eq!(inf.content.role, Role::User);
    assert_eq!(inf.content.text.unwrap(), "simple message");

    let tuple_inf: Inference = (Role::System, "init").into();
    assert_eq!(tuple_inf.content.role, Role::System);
}

#[test]
fn test_tool_registry_management() {
    let mut llm = create_test_llm(LLMProvider::OpenAI);
    let tool_name = "weather_api";

    llm.add_tool(mock_tool(tool_name));

    assert!(llm.exists_tool(tool_name));
    assert!(llm.get_tool(tool_name).is_some());
    assert_eq!(llm.get_tool(tool_name).unwrap().name, tool_name);
    assert!(!llm.exists_tool("non_existent"));
}

#[test]
fn test_openai_request_composition() {
    let mut llm = create_test_llm(LLMProvider::OpenAI);
    llm.add_tool(mock_tool("test_tool"));

    let history: Vec<Inference> = vec![];
    let inference = Inference {
        content: InferenceContent::from((Role::User, "Hello, how are you?")),
        ..Default::default()
    };
    let config = GenerationConfig::default();

    let req = llm.new_openai_request(&history, &inference, config).unwrap();

    assert_eq!(req.model, "test-model");
    assert_eq!(req.messages.len(), 2);
    assert_eq!(req.tools.len(), 1);
}

#[test]
fn test_ollama_request_composition() {
    let llm = create_test_llm(LLMProvider::Ollama);
    let config =
        GenerationConfig::default().with_thinking(ThinkingMode::Effort(ThinkingEffort::High));

    let req = llm.new_ollama_request(&[], &Inference::default(), config).unwrap();

    assert!(req.think);
}

#[test]
fn test_missing_authorization_error() {
    let llm = LLM {
        model: "model".into(),
        system_prompt: "".into(),
        provider: LLMProvider::OpenAI,
        authorization: None,
        endpoint: None,
        tools: vec![],
    };

    assert!(matches!(llm.get_openai_client(), Err(Error::Unauthorized(_))));
    assert!(matches!(llm.get_gemini_client(), Err(Error::Unauthorized(_))));
}

#[test]
fn test_function_call_mapping_openai() {
    let call = FunctionCall {
        name: "get_weather".to_string(),
        arguments: obj(vec![("location", JsonValue::Str(s("London")))]),
    };

    let openai_call = call.to_openai();
    assert_eq!(openai_call.name.unwrap(), "get_weather");
    assert_eq!(openai_call.arguments.unwrap(), "{\"location\":\"London\"}");
}

#[test]
fn test_openai_tool_definition_generation() {
    let decl = ToolInfo::new(s("test_fn"), s("test_desc"), calculator_schema());

    let tool = decl.openai_tool_definition();
    assert_eq!(tool.name, "test_fn");
    assert_eq!(tool.description.unwrap(), "test_desc");
    assert!(tool.parameters.properties.is_some());
}

fn create_task_llm() -> Arc<LLM> {
    Arc::new(LLM {
        model: "test-model".into(),
        system_prompt: "test-prompt".into(),
        provider: LLMProvider::OpenAI,
        authorization: Some("test-key".into()),
        endpoint: None,
        tools: vec![],
    })
}

#[test]
fn test_inference_task_initialization() {
    let llm = create_task_llm();
    let inference = Inference::as_user("hello");
    let task = InferenceTask::new(inference, llm.clone());

    assert_eq!(task.inference.content.text, Some("hello".into()));
    assert!(task.history.is_empty());
    assert!(Arc::ptr_eq(&task.llm, &llm));
}

#[test]
fn test_inference_task_lifetime_bounds() {
    let llm = create_task_llm();
    let history_data = vec![Inference::as_user("context")];

    let task = InferenceTask::new(Inference::as_assistant("res"), llm).with_history(&history_data);

    assert_eq!(task.history.len(), 1);
    assert_eq!(task.history[0].content.text, Some("context".into()));
}

#[test]
fn test_inference_task_composition() {
    let llm = create_task_llm();
    let inference = Inference::as_user("composing task");
    let task = InferenceTask::new(inference, llm);

    assert!(matches!(task.inference.content.role, Role::User));
}

#[test]
fn message_builders_keep_the_rest() {
    let inf = Inference::as_tool("out")
        .add_image(Image::new(s("a"), None))
        .add_image(Image::new(s("b"), Some(s("cap"))))
        .add_function_result(mock_function_result())
        .with_thinking(s("hmm"));
    assert_eq!(inf.content.role, Role::Tool);
    assert_eq!(inf.content.text, Some(s("out")));
    let imgs = inf.content.images.as_ref().unwrap();
    assert_eq!(imgs.len(), 2);
    assert_eq!(imgs[1].url, "b");
    assert!(inf.is_thinking());
    assert!(!inf.has_function_calls());
    assert_eq!(inf.function_results.len(), 1);
    let d = Inference::default();
    assert_eq!(d.content.role, Role::Assistant);
    assert!(d.content.text.is_none() && d.model.is_none() && !d.is_thinking());
}

#[test]
fn openai_message_of_plain_text_and_system_prompt() {
    let msg = Inference::as_user("hi").to_openai_message();
    assert!(matches!(msg.role, OpenAiRole::User));
    assert_eq!(msg.content, "hi");
    assert!(msg.tool_calls.is_none() && msg.tool_call_id.is_none() && msg.name.is_none());
    let calls = Inference::as_assistant("")
        .add_function_call(mock_function_call())
        .add_function_call(mock_function_call())
        .to_openai_message()
        .tool_calls
        .unwrap();
    assert_eq!(calls[1].id, "call_1");
    assert_eq!(calls[1].kind, "function");
    assert_eq!(calls[1].function.arguments.as_deref(), Some("{\"city\":\"London\"}"));
    // A tool message without results keeps its text.
    let tool = Inference::as_tool("plain").to_openai_message();
    assert_eq!(tool.content, "plain");
    assert!(tool.tool_call_id.is_none());

    let llm = create_test_llm(LLMProvider::OpenAI);
    let history = vec![Inference::as_user("a"), Inference::as_assistant("b")];
    let req = llm
        .new_openai_request(&history, &Inference::as_user("c"), GenerationConfig::default())
        .unwrap();
    assert_eq!(req.messages.len(), 4);
    assert!(matches!(req.messages[0].role, OpenAiRole::System));
    assert_eq!(req.messages[0].content, "You are a test assistant");
    assert_eq!(req.messages[3].content, "c");
    assert_eq!(req.max_tokens, 2048);
    assert_eq!(req.n, 1);
    assert!(matches!(req.tool_choice, OpenAiToolChoice::Auto));
    assert!(req.reasoning.is_none());
    let mut quiet = create_test_llm(LLMProvider::OpenAI);
    quiet.system_prompt = String::new();
    let req = quiet.new_openai_request(&[], &Inference::as_user("c"), GenerationConfig::default()).unwrap();
    assert_eq!(req.messages.len(), 1);
}

#[test]
fn gemini_parts_come_in_order() {
    let inf = Inference::as_assistant("text")
        .add_function_call(mock_function_call())
        .add_function_result(mock_function_result());
    let msg = inf.to_gemini_message();
    assert_eq!(msg.role, GeminiRole::Model);
    assert_eq!(msg.parts.len(), 3);
    match &msg.parts[0] {
        GeminiPart::Text { text, thought } => {
            assert_eq!(text, "text");
            assert_eq!(thought, &Some(false));
        }
        other => panic!("unexpected {:?}", other),
    }
    assert!(matches!(&msg.parts[1], GeminiPart::FunctionCall { call } if call.name == "get_weather"));
    assert!(matches!(&msg.parts[2], GeminiPart::FunctionResponse { name, response: Some(_) } if name == "get_weather"));
    let audio = Inference::as_user("x").with_audio(vec![104, 105]).to_gemini_message();
    match &audio.parts[0] {
        GeminiPart::InlineData { mime_type, data } => {
            assert_eq!(mime_type, "audio/mp3");
            assert_eq!(data, "aGk=");
        }
        other => panic!("unexpected {:?}", other),
    }
}

#[test]
fn gemini_answers_are_read() {
    let response = GeminiResponse {
        candidates: vec![
            GeminiCandidate {
                parts: Some(vec![
                    GeminiPart::Text { text: s("plan"), thought: Some(true) },
                    GeminiPart::Text { text: s("one"), thought: None },
                    GeminiPart::InlineData { mime_type: s("audio/wav"), data: s("!!") },
                    GeminiPart::InlineData { mime_type: s("image/png"), data: s("aGk=") },
                    GeminiPart::InlineData { mime_type: s("audio/mp3"), data: s("aGk=") },
                    GeminiPart::Text { text: s("two"), thought: Some(false) },
                ]),
                finish_reason: Some(GeminiFinishReason::Language),
            },
            GeminiCandidate {
                parts: Some(vec![GeminiPart::Text { text: s("later"), thought: Some(true) }]),
                finish_reason: None,
            },
        ],
        model_version: None,
        printed: s("unused"),
    };
    let inf = Inference::from_gemini_response(response);
    assert_eq!(inf.content.role, Role::Assistant);
    assert_eq!(inf.content.text.as_deref(), Some("plan\none\ntwo"));
    assert_eq!(inf.content.audio, Some(vec![104, 105]));
    assert_eq!(inf.thinking.as_deref(), Some("plan\nlater"));
    match inf.finish_reason {
        Some(FinishReason::Other(m)) => assert_eq!(m, "Language"),
        other => panic!("unexpected {:?}", other),
    }
    let empty = Inference::from_gemini_response(GeminiResponse {
        candidates: vec![],
        model_version: Some(s("m")),
        printed: s("R"),
    });
    assert_eq!(empty.content.text.as_deref(), Some("No candidates in response: R"));
    assert_eq!(empty.model.as_deref(), Some("m"));
    assert!(empty.thinking.is_none());
    let no_parts = Inference::from_gemini_response(GeminiResponse {
        candidates: vec![GeminiCandidate { parts: None, finish_reason: None }],
        model_version: None,
        printed: s(""),
    });
    assert!(no_parts.content.text.is_none());
    assert_eq!(no_parts.thinking.as_deref(), Some(""));
}

#[test]
fn openai_choices_are_read() {
    let choice = OpenAiChoice {
        message: OpenAiReply {
            role: OpenAiRole::Function,
            content: Some(s("answer")),
            reasoning_content: Some(s("why")),
            name: Some(s("gpt")),
            tool_calls: Some(vec![
                ReceivedCall { name: Some(s("f")), arguments: Some(JsonValue::Bool(true)) },
                ReceivedCall { name: None, arguments: None },
            ]),
        },
        finish_reason: Some(OpenAiFinishReason::ToolCalls),
    };
    let inf = Inference::from_openai_choice(&choice);
    assert_eq!(inf.content.role, Role::Assistant);
    assert_eq!(inf.content.text.as_deref(), Some("answer"));
    assert_eq!(inf.thinking.as_deref(), Some("why"));
    assert_eq!(inf.model.as_deref(), Some("gpt"));
    assert_eq!(inf.function_calls.len(), 2);
    assert_eq!(inf.function_calls[1].name, "");
    assert!(matches!(inf.function_calls[1].arguments, JsonValue::Null));
    assert!(matches!(inf.finish_reason, Some(FinishReason::UnexpectedToolCall)));
    let first = openai_first_choice(&vec![choice]).unwrap();
    assert_eq!(first.content.text.as_deref(), Some("answer"));
    match openai_first_choice(&vec![]) {
        Err(Error::Generic(m)) => assert_eq!(m, "No choices returned from OpenAI"),
        other => panic!("unexpected {:?}", other),
    }
    let calls = Inference::from_openai_stream_response(OpenAiStreamChunk::ToolCall(vec![
        ReceivedCall { name: Some(s("g")), arguments: None },
    ]))
    .unwrap();
    assert!(matches!(calls.finish_reason, Some(FinishReason::ToolCall)));
    assert_eq!(calls.function_calls[0].name, "g");
    match FinishReason::from_openai(&OpenAiFinishReason::Null) {
        FinishReason::Other(m) => assert_eq!(m, "Null"),
        other => panic!("unexpected {:?}", other),
    }
    assert!(matches!(FinishReason::from_openai(&OpenAiFinishReason::Length), FinishReason::MaxTokens));
    assert!(matches!(FinishReason::from_google(&GeminiFinishReason::FinishReasonUnspecified), FinishReason::Unspecified));
}

#[test]
fn ollama_answers_are_read() {
    let resp = OllamaResponse {
        model: s("llama"),
        message: OllamaMessage {
            role: Role::Assistant,
            content: s("done"),
            tool_calls: vec![mock_function_call()],
            images: Some(vec![s("QUJD")]),
            thinking: None,
        },
    };
    let inf = Inference::from_ollama_response(resp);
    assert_eq!(inf.model.as_deref(), Some("llama"));
    assert_eq!(inf.content.text.as_deref(), Some("done"));
    assert_eq!(inf.content.images.as_ref().unwrap()[0].url, "QUJD");
    assert!(matches!(inf.finish_reason, Some(FinishReason::ToolCall)));
    let quiet = Inference::from_ollama_response(OllamaResponse {
        model: s("m"),
        message: OllamaMessage { role: Role::User, content: s(""), tool_calls: vec![], images: None, thinking: Some(s("t")) },
    });
    assert!(quiet.finish_reason.is_none());
    assert!(quiet.content.images.is_none());
    assert_eq!(quiet.thinking.as_deref(), Some("t"));
    let msg = Inference::as_user("x").to_ollama_message();
    assert!(msg.images.is_none());
    assert_eq!(msg.content, "x");
}

#[test]
fn images_between_providers() {
    let img = Image::new(s("data:image/png;base64,QUJD"), Some(s("cap")));
    match img.to_gemini() {
        GeminiPart::InlineData { mime_type, data } => {
            assert_eq!(mime_type, "image/png");
            assert_eq!(data, "QUJD");
        }
        other => panic!("unexpected {:?}", other),
    }
    let back = Image::from_gemini(GeminiPart::InlineData { mime_type: s("image/gif"), data: s("R0") }).unwrap();
    assert_eq!(back.url, "data:image/gif;base64,R0");
    match Image::from_gemini(GeminiPart::Other) {
        Err(Error::Generic(m)) => assert_eq!(m, "Provided part is not an InlineData part"),
        other => panic!("unexpected {:?}", other),
    }
    match Image::from_gemini(GeminiPart::InlineData { mime_type: s("audio/mp3"), data: s("x") }) {
        Err(Error::Generic(m)) => assert_eq!(m, "Unsupported image MIME type"),
        other => panic!("unexpected {:?}", other),
    }
    let url = img.to_openai();
    assert_eq!(url.image_url.as_deref(), Some("data:image/png;base64,QUJD"));
    assert_eq!(url.text.as_deref(), Some("cap"));
    let none = Image::from_openai(OpenAiImageUrl { image_url: None, text: None });
    assert_eq!(none.url, "");
    assert_eq!(img.to_ollama(), "data:image/png;base64,QUJD");
    assert_eq!(Image::from_ollama(s("QQ")).url, "QQ");
}

#[test]
fn tool_calling_modes() {
    assert_eq!(ToolCallingMode::Disabled.name(), "none");
    assert_eq!(ToolCallingMode::Forced(mock_tool("t")).name(), "t");
    assert!(matches!(ToolCallingMode::from_name("any"), Ok(ToolCallingMode::Any)));
    match ToolCallingMode::from_name("sometimes") {
        Err(Error::Input(m)) => assert_eq!(m, "Unknown tool calling mode: sometimes"),
        other => panic!("unexpected {:?}", other),
    }
    assert!(ToolCallingMode::Auto.is_named("auto"));
    assert!(!ToolCallingMode::Auto.is_named("any"));
    let config = GenerationConfig::default().with_tool_calling_mode(ToolCallingMode::Disabled);
    assert_eq!(config.to_google_tool_calling_mode(), GeminiCallingMode::Disabled);
    assert!(matches!(config.to_openai_tool_calling_mode(), OpenAiToolChoice::Disabled));
    let forced = GenerationConfig::default().with_tool_calling_mode(ToolCallingMode::Forced(mock_tool("w")));
    assert_eq!(forced.to_google_tool_calling_mode(), GeminiCallingMode::Auto);
    assert!(matches!(forced.to_openai_tool_calling_mode(), OpenAiToolChoice::ToolChoice(f) if f.name == "w"));
    let any = GenerationConfig::default().with_tool_calling_mode(ToolCallingMode::Any);
    assert!(matches!(any.to_openai_tool_calling_mode(), OpenAiToolChoice::Required));
}

#[test]
fn models_are_built_and_dispatched() {
    match LLM::builder().set_model("m").build() {
        Err(Error::Input(m)) => assert_eq!(m, "LLM provider not set"),
        other => panic!("unexpected {:?}", other),
    }
    match LLM::builder().set_provider(LLMProvider::Google).set_model("m").add_tools(vec![mock_tool("a"), mock_tool("a")]).build() {
        Err(Error::Input(m)) => assert_eq!(m, "Duplicate tool name detected: a"),
        other => panic!("unexpected {:?}", other),
    }
    let llm = LLM::builder()
        .set_model("gemini-pro")
        .set_provider(LLMProvider::Google)
        .set_authorization("key")
        .add_tool(mock_tool("a"))
        .build()
        .unwrap();
    assert_eq!(llm.system_prompt, "");
    assert_eq!(llm.tools.len(), 1);
    match llm.generation_request(&[], &Inference::as_user("q"), GenerationConfig::default().with_thinking(ThinkingMode::Sized(7))) {
        Ok(ProviderRequest::Google(r)) => {
            assert_eq!(r.client.model, "models/gemini-pro");
            assert_eq!(r.client.api_key, "key");
            assert_eq!(r.thinking_budget, 7);
            assert_eq!(r.messages.len(), 1);
            assert!(r.response_mime_type.is_none());
        }
        other => panic!("unexpected {:?}", other),
    }
    let with_schema = GenerationConfig::default().with_output_schema(calculator_schema());
    match llm.generation_request(&[], &Inference::as_user("q"), with_schema) {
        Ok(ProviderRequest::Google(r)) => {
            assert_eq!(r.response_mime_type.as_deref(), Some("application/json"));
            assert!(r.response_schema.is_some());
        }
        other => panic!("unexpected {:?}", other),
    }
    let mut bad = create_test_llm(LLMProvider::Google);
    bad.endpoint = Some(s("not a url"));
    match bad.get_gemini_client() {
        Err(Error::Url(u)) => assert_eq!(u, "not a url"),
        other => panic!("unexpected {:?}", other),
    }
    let anthropic = create_test_llm(LLMProvider::Anthropic);
    match anthropic.generation_request(&[], &Inference::default(), GenerationConfig::default()) {
        Err(Error::Unsupported(m)) => assert_eq!(m, "Provider not supported for generation"),
        other => panic!("unexpected {:?}", other),
    }
    match anthropic.stream_request(&[], &Inference::default(), GenerationConfig::default()) {
        Err(Error::Unsupported(m)) => assert_eq!(m, "Provider not supported for streaming"),
        other => panic!("unexpected {:?}", other),
    }
    match anthropic.embedding_request("x", 8) {
        Err(Error::Unsupported(m)) => assert_eq!(m, "Embedding not supported for this provider"),
        other => panic!("unexpected {:?}", other),
    }
    match create_test_llm(LLMProvider::OpenAI).embedding_request("x", 8) {
        Ok(EmbeddingRequest::OpenAi { model, input, dimensions, .. }) => {
            assert_eq!(model, "test-model");
            assert_eq!(input, vec![s("x")]);
            assert_eq!(dimensions, Some(8));
        }
        other => panic!("unexpected {:?}", other),
    }
    let ollama = create_test_llm(LLMProvider::Ollama);
    let req = ollama
        .new_ollama_request(&[Inference::as_user("a")], &Inference::as_user("b"), GenerationConfig::default().with_top_k(-1).with_thinking(ThinkingMode::Disabled).with_stop_sequences(vec![s("END")]))
        .unwrap();
    assert_eq!(req.top_k, u32::MAX);
    assert!(!req.think);
    assert_eq!(req.stop, vec![s("END")]);
    assert_eq!(req.messages.len(), 2);
    let task = ollama.inference(Inference::as_user("z"));
    assert!(task.history.is_empty());
    assert_eq!(task.llm.model, "test-model");
    match task.generation_request() {
        Ok(ProviderRequest::Ollama(r)) => assert_eq!(r.messages.len(), 1),
        other => panic!("unexpected {:?}", other),
    }
}

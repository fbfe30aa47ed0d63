use nql::sqlite_udf::{
    build_binary_prompt, build_unary_prompt, parse_error, plan_request, udf_value, LlmConfig,
    LlmRequest, LlmVars, ReplyStep, BINARY_UDFS, DEFAULT_MODEL, DEFAULT_OLLAMA_URL, UNARY_UDFS,
};

fn no_vars() -> LlmVars {
    LlmVars {
        backend: None,
        api_url: None,
        model: None,
        openai_api_key: None,
        anthropic_api_key: None,
        gemini_api_key: None,
    }
}

#[test]
fn test_default_config() {
    let config = LlmConfig::default();
    assert_eq!(config.backend, "ollama");
    assert_eq!(config.model, DEFAULT_MODEL);
}

#[test]
fn without_variables_the_configuration_is_the_default() {
    let config = LlmConfig::from_vars(no_vars());
    assert_eq!(config.backend, "ollama");
    assert_eq!(config.api_url, DEFAULT_OLLAMA_URL);
    assert_eq!(config.model, DEFAULT_MODEL);
    assert_eq!(config.api_key, None);
}

#[test]
fn variables_choose_the_model() {
    let config = LlmConfig::from_vars(LlmVars {
        backend: Some("openai".to_string()),
        anthropic_api_key: Some("b".to_string()),
        gemini_api_key: Some("c".to_string()),
        ..no_vars()
    });
    assert_eq!(config.api_url, "https://api.openai.com/v1/chat/completions");
    assert_eq!(config.model, "gpt-4o-mini");
    assert_eq!(config.api_key, Some("b".to_string()));
    let config = LlmConfig::from_vars(LlmVars {
        backend: Some("other".to_string()),
        api_url: Some("http://x".to_string()),
        model: Some("m".to_string()),
        openai_api_key: Some("a".to_string()),
        anthropic_api_key: Some("b".to_string()),
        ..no_vars()
    });
    assert_eq!(config.backend, "other");
    assert_eq!(config.api_url, "http://x");
    assert_eq!(config.model, "m");
    assert_eq!(config.api_key, Some("a".to_string()));
    let config = LlmConfig::from_vars(LlmVars { gemini_api_key: Some("c".to_string()), ..no_vars() });
    assert_eq!(config.api_key, Some("c".to_string()));
}

#[test]
fn requests() {
    let request = plan_request(&LlmConfig::default(), "hi").unwrap();
    match &request {
        LlmRequest::Ollama { api_url, model, prompt, stream } => {
            assert_eq!(api_url, DEFAULT_OLLAMA_URL);
            assert_eq!(model, DEFAULT_MODEL);
            assert_eq!(prompt, "hi");
            assert!(!stream);
        }
        other => panic!("{:?}", other),
    }
    assert_eq!(request.send_error("x"), "Ollama: x");
    assert_eq!(request.reply(Some(" a b\n")), Ok("a b".to_string()));
    assert_eq!(request.reply(None), Err("No response".to_string()));
    assert!(matches!(&request.content_path()[..], [ReplyStep::Field(key)] if key == "response"));

    let config = LlmConfig {
        backend: "openai".to_string(),
        api_key: Some("k".to_string()),
        ..LlmConfig::default()
    };
    let request = plan_request(&config, "hi").unwrap();
    match &request {
        LlmRequest::OpenAi { authorization, max_tokens, prompt, .. } => {
            assert_eq!(authorization, "Bearer k");
            assert_eq!(*max_tokens, 512);
            assert_eq!(prompt, "hi");
        }
        other => panic!("{:?}", other),
    }
    assert_eq!(request.send_error("x"), "OpenAI: x");
    assert_eq!(request.reply(None), Err("No content".to_string()));
    match &request.content_path()[..] {
        [ReplyStep::Field(a), ReplyStep::Item(0), ReplyStep::Field(b), ReplyStep::Field(c)] => {
            assert_eq!((a.as_str(), b.as_str(), c.as_str()), ("choices", "message", "content"));
        }
        other => panic!("{:?}", other),
    }

    let config = LlmConfig { api_key: None, ..config };
    assert_eq!(plan_request(&config, "hi").unwrap_err(), "API key not set");
}

#[test]
fn values() {
    assert_eq!(udf_value(Ok("a".to_string())), "a");
    assert_eq!(udf_value(Err(parse_error("x"))), "ERROR: Parse: x");
}

#[test]
fn every_udf_has_a_prompt_that_holds_its_input() {
    for name in UNARY_UDFS {
        let prompt = build_unary_prompt(name, "<input>").unwrap();
        assert!(prompt.contains("<input>"), "{}", prompt);
        assert!(nql::parser::NQL_FUNCTIONS.contains(&name));
        assert_eq!(build_binary_prompt(name, "a", "b"), None);
    }
    for name in BINARY_UDFS {
        let prompt = build_binary_prompt(name, "<one>", "<two>").unwrap();
        assert!(prompt.contains("<one>") && prompt.contains("<two>"), "{}", prompt);
        assert!(nql::parser::NQL_FUNCTIONS.contains(&name));
        assert_eq!(build_unary_prompt(name, "a"), None);
    }
}

#[test]
fn prompts() {
    assert_eq!(build_unary_prompt("generate_text", "x"), Some("x".to_string()));
    assert_eq!(
        build_unary_prompt("summarize", "x"),
        Some("Summarize the following text concisely:\n\nx".to_string())
    );
    assert_eq!(
        build_unary_prompt("get_facts", "x"),
        Some("Extract facts from this text. A fact is a specific statement that can be sourced from the text.\n\nText: \"x\"\n\nReturn as JSON array of objects with \"statement\", \"source_text\", and \"type\" (explicit or inferred) fields.".to_string())
    );
    assert_eq!(
        build_unary_prompt("breathe", "x"),
        Some("Read the following conversation and identify:\n1. The high level objective\n2. The most recent task\n3. The accomplishments thus far\n4. The failures thus far\n\nReturn as JSON with keys: high_level_objective, most_recent_task, accomplishments, failures.\n\nx".to_string())
    );
    assert_eq!(
        build_binary_prompt("translate", "x", "de"),
        Some("Translate the following text to de:\n\nx".to_string())
    );
    assert_eq!(
        build_binary_prompt("answer_question", "c", "q"),
        Some("Based on the following context, answer the question.\n\nContext: c\n\nQuestion: q".to_string())
    );
    assert_eq!(build_unary_prompt("unknown", "x"), None);
}

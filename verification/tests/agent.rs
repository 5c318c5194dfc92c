use local_code::agent::effort::{supports_effort, ReasoningEffort};
use local_code::agent::headless::{select_connection, HeadlessError};
use local_code::agent::provider::{
    catalog_api_error, catalog_key, ensure_not_plaintext_remote, models_url,
    normalize_openai_compatible_base_url, plan_model, ModelPlan, ProviderError,
};
use local_code::config::connection::{Connection, ProviderKind};

fn conn(name: &str) -> Connection {
    Connection {
        name: name.to_string(),
        provider: ProviderKind::OpenAiCompatible,
        base_url: "http://localhost:8000/v1".into(),
        default_model: "m".into(),
        models: vec![],
        effort: None,
    }
}

#[test]
fn parses_case_insensitively_with_med_shorthand() {
    assert_eq!("LOW".parse::<ReasoningEffort>(), Ok(ReasoningEffort::Low));
    assert_eq!(" med ".parse::<ReasoningEffort>(), Ok(ReasoningEffort::Medium));
    assert_eq!("Medium".parse::<ReasoningEffort>(), Ok(ReasoningEffort::Medium));
    assert_eq!("high".parse::<ReasoningEffort>(), Ok(ReasoningEffort::High));
    assert!("extreme".parse::<ReasoningEffort>().is_err());
}

#[test]
fn display_round_trips_through_from_str() {
    for level in ReasoningEffort::ALL {
        assert_eq!(level.to_string().parse::<ReasoningEffort>(), Ok(level));
    }
}

#[test]
fn only_openai_compatible_supports_effort() {
    assert!(supports_effort(ProviderKind::OpenAiCompatible));
    assert!(!supports_effort(ProviderKind::Ollama));
    assert!(!supports_effort(ProviderKind::OpenRouter));
}

#[test]
fn select_connection_picks_the_only_one_when_unambiguous() {
    let connections = vec![conn("only-one")];
    let result = select_connection(&connections, None).unwrap();
    assert_eq!(result.name, "only-one");
}

#[test]
fn select_connection_finds_by_explicit_name() {
    let connections = vec![conn("a"), conn("b")];
    let result = select_connection(&connections, Some("b")).unwrap();
    assert_eq!(result.name, "b");
}

#[test]
fn strips_v1_suffix_from_stored_base_urls() {
    assert_eq!(
        normalize_openai_compatible_base_url("http://localhost:8000/v1"),
        "http://localhost:8000"
    );
    assert_eq!(
        normalize_openai_compatible_base_url("http://localhost:8000/v1/"),
        "http://localhost:8000"
    );
}

#[test]
fn leaves_bare_base_urls_alone() {
    assert_eq!(
        normalize_openai_compatible_base_url("http://localhost:8000"),
        "http://localhost:8000"
    );
    assert_eq!(
        normalize_openai_compatible_base_url("http://localhost:8000/"),
        "http://localhost:8000"
    );
}

#[test]
fn preserves_non_v1_path_prefixes() {
    assert_eq!(
        normalize_openai_compatible_base_url("http://host:8080/serve/v1"),
        "http://host:8080/serve"
    );
    assert_eq!(
        normalize_openai_compatible_base_url("http://host:8080/serve"),
        "http://host:8080/serve"
    );
}

fn openai_connection() -> Connection {
    Connection {
        name: "local-vllm".into(),
        provider: ProviderKind::OpenAiCompatible,
        base_url: "http://localhost:8000/v1".into(),
        default_model: "qwen2.5-coder-32b".into(),
        models: vec![],
        effort: None,
    }
}

fn ollama_connection() -> Connection {
    Connection {
        name: "home-ollama".into(),
        provider: ProviderKind::Ollama,
        base_url: "http://localhost:11434".into(),
        default_model: "llama3.1".into(),
        models: vec![],
        effort: None,
    }
}

fn openrouter_connection() -> Connection {
    Connection {
        name: "openrouter".into(),
        provider: ProviderKind::OpenRouter,
        base_url: "https://openrouter.ai/api/v1".into(),
        default_model: "anthropic/some-model".into(),
        models: vec![],
        effort: None,
    }
}

#[test]
fn select_connection_errors_when_none_configured() {
    let result = select_connection(&[], None);
    assert!(matches!(result, Err(HeadlessError::NoConnections)));
}

#[test]
fn select_connection_errors_when_ambiguous_without_a_name() {
    let connections = vec![conn("a"), conn("b")];
    let result = select_connection(&connections, None);
    assert!(matches!(result, Err(HeadlessError::AmbiguousConnection(_))));
}

#[test]
fn select_connection_errors_when_named_connection_missing() {
    let connections = vec![conn("a")];
    let result = select_connection(&connections, Some("does-not-exist"));
    assert!(
        matches!(result, Err(HeadlessError::ConnectionNotFound(name)) if name == "does-not-exist")
    );
}

#[test]
fn headless_error_messages_name_the_problem() {
    assert_eq!(
        HeadlessError::NoConnections.message(),
        "no connections configured; run `local-code connections add` first"
    );
    assert_eq!(
        HeadlessError::ConnectionNotFound("x".into()).message(),
        "connection 'x' not found"
    );
    let connections = vec![conn("a"), conn("b")];
    let err = select_connection(&connections, None).unwrap_err();
    assert_eq!(
        err.message(),
        "multiple connections configured (a, b); pass --connection <name> to choose one"
    );
}

#[test]
fn builds_openai_compatible_model_without_key() {
    let result = plan_model(&openai_connection(), None);
    assert!(result.is_ok());
    match result.unwrap() {
        ModelPlan::OpenAiCompatible { base_url, model, effort, api_key } => {
            assert_eq!(base_url, "http://localhost:8000");
            assert_eq!(model, "qwen2.5-coder-32b");
            assert_eq!(effort, None);
            assert_eq!(api_key, None);
        }
        other => panic!("unexpected plan {other:?}"),
    }
}

#[test]
fn builds_openai_compatible_model_with_key() {
    let result = plan_model(&openai_connection(), Some("sk-test".into()));
    assert!(result.is_ok());
    assert!(matches!(
        result.unwrap(),
        ModelPlan::OpenAiCompatible { api_key: Some(k), .. } if k == "sk-test"
    ));
}

#[test]
fn builds_ollama_model() {
    let result = plan_model(&ollama_connection(), None);
    assert!(result.is_ok());
    assert!(matches!(
        result.unwrap(),
        ModelPlan::Ollama { model, base_url } if model == "llama3.1" && base_url == "http://localhost:11434"
    ));
}

#[test]
fn builds_openrouter_model_with_key() {
    let result = plan_model(&openrouter_connection(), Some("sk-or-test".into()));
    assert!(result.is_ok());
    assert!(matches!(
        result.unwrap(),
        ModelPlan::OpenRouter { api_key: Some(k), .. } if k == "sk-or-test"
    ));
}

#[test]
fn builds_openrouter_model_without_key_falls_back_to_env() {
    let result = plan_model(&openrouter_connection(), None);
    assert!(result.is_ok());
    assert!(matches!(result.unwrap(), ModelPlan::OpenRouter { api_key: None, .. }));
}

#[test]
fn an_empty_key_is_not_sent() {
    let result = plan_model(&openai_connection(), Some(String::new())).unwrap();
    assert!(matches!(result, ModelPlan::OpenAiCompatible { api_key: None, .. }));
}

#[test]
fn rejects_empty_base_url() {
    let mut conn = openai_connection();
    conn.base_url = "  ".into();
    let result = plan_model(&conn, None);
    assert!(matches!(result, Err(ProviderError::EmptyBaseUrl(name)) if name == "local-vllm"));
}

#[test]
fn plaintext_guard_allows_https_and_loopback_with_a_key() {
    assert!(ensure_not_plaintext_remote("https://openrouter.ai/api/v1/models", true).is_ok());
    assert!(ensure_not_plaintext_remote("http://localhost:8000/v1/models", true).is_ok());
    assert!(ensure_not_plaintext_remote("http://127.0.0.1:8000/v1/models", true).is_ok());
    assert!(ensure_not_plaintext_remote("http://example.com/v1/models", false).is_ok());
}

#[test]
fn plaintext_guard_refuses_keyed_plaintext_to_a_remote_host() {
    let err = ensure_not_plaintext_remote("http://openrouter.example.com/api/v1/models", true)
        .unwrap_err();
    assert!(
        matches!(err, ProviderError::Catalog(ref msg) if msg.contains("plaintext")),
        "expected a plaintext-refusal Catalog error, got {err:?}"
    );
}

#[test]
fn plaintext_refusal_names_the_host() {
    let err = ensure_not_plaintext_remote("http://models.example.net:8080/v1", true).unwrap_err();
    assert!(matches!(
        err,
        ProviderError::Catalog(ref msg) if msg == "refusing to send the API key over plaintext http:// to 'models.example.net'; use https:// or remove the key"
    ));
}

#[test]
fn catalog_requests_go_to_the_models_endpoint() {
    assert_eq!(models_url(" https://openrouter.ai/api/v1/ "), "https://openrouter.ai/api/v1/models");
    assert_eq!(models_url("http://localhost:8000"), "http://localhost:8000/models");
    assert_eq!(catalog_key(Some("")), None);
    assert_eq!(catalog_key(Some("k")), Some("k"));
    assert_eq!(catalog_key(None), None);
    assert!(matches!(
        catalog_api_error("401 Unauthorized", "Invalid API key"),
        ProviderError::Catalog(m) if m == "API error (401 Unauthorized): Invalid API key"
    ));
}

use knightingale_core::env::EnvVars;
use knightingale_core::error::KnightError;
use knightingale_core::stt::{
    build_transcriber, transcript, transcription_failure, AzureClient, OpenAiClient, Provider,
    TranscriberClient,
};

fn err_of<T>(r: Result<T, KnightError>) -> KnightError {
    match r {
        Err(e) => e,
        Ok(_) => panic!("expected an error"),
    }
}

const ALL: [Provider; 9] = [
    Provider::Groq,
    Provider::Openai,
    Provider::Deepinfra,
    Provider::Fireworks,
    Provider::Lemonfox,
    Provider::Sambanova,
    Provider::Azure,
    Provider::Custom,
    Provider::Local,
];

#[test]
fn url_templating() {
    let client = AzureClient::new(
        "https://example.openai.azure.com/",
        "k".to_string(),
        "whisper-deploy",
        "2024-06-01",
    );
    assert_eq!(
        client.url(),
        "https://example.openai.azure.com/openai/deployments/whisper-deploy/audio/transcriptions?api-version=2024-06-01"
    );
}

#[test]
fn groq_defaults() {
    assert_eq!(Provider::Groq.default_base_url().unwrap(), "https://api.groq.com/openai/v1");
    assert_eq!(Provider::Groq.default_model(), "whisper-large-v3-turbo");
    assert_eq!(Provider::Groq.env_prefix(), "GROQ");
}

#[test]
fn provider_round_trips_via_str() {
    for p in ALL {
        assert!(!p.as_str().is_empty());
        assert!(!p.env_prefix().is_empty());
    }
}

#[test]
fn provider_from_env_is_case_insensitive() {
    let mut env = EnvVars::new();
    assert_eq!(Provider::from_env(&env), Provider::Groq);
    for p in ALL {
        env.set("KNIGHTINGALE_PROVIDER".to_string(), p.as_str().to_uppercase());
        assert_eq!(Provider::from_env(&env), p);
    }
    env.set("KNIGHTINGALE_PROVIDER".to_string(), "whisperer".to_string());
    assert_eq!(Provider::from_env(&env), Provider::Groq);
}

#[test]
fn openai_client_endpoint() {
    let c = OpenAiClient::new("https://api.openai.com/v1//", "k".to_string(), "whisper-1");
    assert_eq!(c.base_url, "https://api.openai.com/v1");
    assert_eq!(c.endpoint(), "https://api.openai.com/v1/audio/transcriptions");
    assert_eq!(c.timeout.as_secs(), 60);
}

#[test]
fn build_client_from_env() {
    let mut env = EnvVars::new();
    assert_eq!(
        err_of(Provider::Groq.build_openai_client(&env)),
        KnightError::Auth("GROQ_API_KEY not set".to_string())
    );
    env.set("GROQ_API_KEY".to_string(), "gsk".to_string());
    let c = Provider::Groq.build_openai_client(&env).unwrap().unwrap();
    assert_eq!(c.base_url, "https://api.groq.com/openai/v1");
    assert_eq!(c.model, "whisper-large-v3-turbo");
    assert_eq!(c.api_key, "gsk");
    env.set("GROQ_MODEL".to_string(), "distil".to_string());
    assert_eq!(Provider::Groq.build_openai_client(&env).unwrap().unwrap().model, "distil");
    assert!(Provider::Local.build_openai_client(&env).unwrap().is_none());
    assert_eq!(
        err_of(Provider::Custom.build_openai_client(&env)),
        KnightError::Config("CUSTOM_BASE_URL is required for custom provider".to_string())
    );
    env.set("CUSTOM_BASE_URL".to_string(), "http://localhost:8000/v1/".to_string());
    assert_eq!(
        err_of(Provider::Custom.build_openai_client(&env)),
        KnightError::Config("CUSTOM_MODEL is required for custom provider".to_string())
    );
    env.set("CUSTOM_MODEL".to_string(), "m".to_string());
    let c = Provider::Custom.build_openai_client(&env).unwrap().unwrap();
    assert_eq!(c.base_url, "http://localhost:8000/v1");
    assert_eq!(c.api_key, "");
}

#[test]
fn build_transcriber_refuses_the_local_backend() {
    let env = EnvVars::new();
    assert_eq!(
        err_of(build_transcriber(Provider::Local, &env)),
        KnightError::ModelMissing(
            "local backend not yet wired; configure a cloud provider for now".to_string()
        )
    );
}

#[test]
fn build_transcriber_wires_azure_from_its_variables() {
    let mut env = EnvVars::new();
    assert_eq!(
        err_of(build_transcriber(Provider::Azure, &env)),
        KnightError::Config("AZURE_OPENAI_ENDPOINT not set".to_string())
    );
    env.set("AZURE_OPENAI_ENDPOINT".to_string(), "https://res.openai.azure.com//".to_string());
    env.set("AZURE_OPENAI_API_KEY".to_string(), "az-key".to_string());
    env.set("AZURE_OPENAI_DEPLOYMENT".to_string(), "whisper".to_string());
    env.set("AZURE_OPENAI_API_VERSION".to_string(), "2025-01-01".to_string());
    match build_transcriber(Provider::Azure, &env).unwrap() {
        TranscriberClient::Azure(c) => {
            assert_eq!(c.endpoint, "https://res.openai.azure.com");
            assert_eq!(c.api_key, "az-key");
            assert_eq!(
                c.url(),
                "https://res.openai.azure.com/openai/deployments/whisper/audio/transcriptions?api-version=2025-01-01"
            );
        }
        TranscriberClient::OpenAi(_) => panic!("expected the Azure client"),
    }
    env.set("GROQ_API_KEY".to_string(), "gsk".to_string());
    match build_transcriber(Provider::Groq, &env).unwrap() {
        TranscriberClient::OpenAi(c) => assert_eq!(c.base_url, "https://api.groq.com/openai/v1"),
        TranscriberClient::Azure(_) => panic!("expected an OpenAI-compatible client"),
    }
}

#[test]
fn azure_from_env() {
    let mut env = EnvVars::new();
    assert_eq!(
        err_of(AzureClient::from_env(&env)),
        KnightError::Config("AZURE_OPENAI_ENDPOINT not set".to_string())
    );
    env.set("AZURE_OPENAI_ENDPOINT".to_string(), "https://e/".to_string());
    assert_eq!(
        err_of(AzureClient::from_env(&env)),
        KnightError::Auth("AZURE_OPENAI_API_KEY not set".to_string())
    );
    env.set("AZURE_OPENAI_API_KEY".to_string(), "k".to_string());
    env.set("AZURE_OPENAI_DEPLOYMENT".to_string(), "d".to_string());
    let c = AzureClient::from_env(&env).unwrap();
    assert_eq!(c.api_version, "2024-06-01");
    assert_eq!(c.url(), "https://e/openai/deployments/d/audio/transcriptions?api-version=2024-06-01");
}

#[test]
fn failures_and_transcripts() {
    assert_eq!(
        transcription_failure(401, "401 Unauthorized", "bad key"),
        KnightError::Auth("401 Unauthorized: bad key".to_string())
    );
    assert_eq!(
        transcription_failure(500, "500 Internal Server Error", ""),
        KnightError::Network("500 Internal Server Error: ".to_string())
    );
    assert_eq!(transcript("  hello world \n"), "hello world");
}

fn pair(a: &str, b: &str) -> (String, String) {
    (a.to_string(), b.to_string())
}

#[test]
fn form_fields_of_both_clients() {
    let c = OpenAiClient::new("https://api.groq.com/openai/v1/", "k".to_string(), "whisper-1");
    assert_eq!(
        c.form_fields("de"),
        vec![
            pair("model", "whisper-1"),
            pair("language", "de"),
            pair("response_format", "json"),
        ]
    );
    let a = AzureClient::new("https://x.openai.azure.com", "k".to_string(), "dep", "2024-06-01");
    assert_eq!(
        a.form_fields("en"),
        vec![pair("language", "en"), pair("response_format", "json")]
    );
}

use knightingale_core::config::Config;
use knightingale_core::env::EnvVars;
use knightingale_core::error::KnightError;
use knightingale_core::platform::Platform;
use knightingale_core::report::{config_rows, doctor_rows};
use knightingale_core::stt::Provider;

fn row(a: &str, b: &str, c: &str) -> (String, String, String) {
    (a.to_string(), b.to_string(), c.to_string())
}

#[test]
fn config_rows_of_the_defaults() {
    let cfg = Config::default_for(Platform::Linux);
    let rows = config_rows(&cfg);
    let expected: Vec<(String, String)> = vec![
        ("hotkey.toggle", "super+k"),
        ("stt.backend", "OpenaiCompatible"),
        ("stt.language", "en"),
        ("stt.max_recording_secs", "300"),
        ("injection.method", "Auto"),
        ("audio.mic", "(default)"),
        ("audio.silence_threshold", "500"),
    ]
    .into_iter()
    .map(|(a, b)| (a.to_string(), b.to_string()))
    .collect();
    assert_eq!(rows, expected);
}

#[test]
fn config_rows_show_a_negative_threshold_and_a_mic() {
    let mut cfg = Config::default_for(Platform::Macos);
    cfg.audio.silence_threshold = -32768;
    cfg.audio.mic = Some("USB Mic".to_string());
    let rows = config_rows(&cfg);
    assert_eq!(rows[0].1, "cmd+shift+k");
    assert_eq!(rows[5].1, "USB Mic");
    assert_eq!(rows[6].1, "-32768");
}

#[test]
fn doctor_rows_for_a_cloud_provider_without_key() {
    let cfg = Config::default_for(Platform::Linux);
    let env = EnvVars::new();
    let devices: Result<Vec<String>, KnightError> =
        Ok(vec!["Built-in".to_string(), "USB Mic".to_string()]);
    let rows = doctor_rows("/c/config.toml", "/c/.env", &devices, Provider::Groq, &env, &cfg);
    assert_eq!(
        rows,
        vec![
            row("config", "ok", "/c/config.toml"),
            row("env file", "ok", "/c/.env"),
            row("mic devices", "ok", "Built-in, USB Mic"),
            row("provider", "info", "groq"),
            row("api key", "missing", "GROQ_API_KEY"),
            row("hotkey", "info", "super+k"),
            row("max recording", "info", "300s"),
        ]
    );
}

#[test]
fn doctor_rows_with_key_set_and_failed_mic_listing() {
    let cfg = Config::default_for(Platform::Linux);
    let mut env = EnvVars::new();
    env.set("OPENAI_API_KEY".to_string(), "sk-x".to_string());
    let devices: Result<Vec<String>, KnightError> =
        Err(KnightError::Audio("enumerate input devices: no host".to_string()));
    let rows = doctor_rows("a", "b", &devices, Provider::Openai, &env, &cfg);
    assert_eq!(
        rows[2],
        row(
            "mic devices",
            "fail",
            "audio capture failed: enumerate input devices: no host"
        )
    );
    assert_eq!(rows[4], row("api key", "ok", "OPENAI_API_KEY"));
}

#[test]
fn doctor_rows_for_local_have_no_key_row_and_no_devices() {
    let cfg = Config::default_for(Platform::Linux);
    let env = EnvVars::new();
    let devices: Result<Vec<String>, KnightError> = Ok(Vec::new());
    let rows = doctor_rows("a", "b", &devices, Provider::Local, &env, &cfg);
    assert_eq!(rows.len(), 6);
    assert_eq!(rows[2], row("mic devices", "ok", "(none)"));
    assert_eq!(rows[3], row("provider", "info", "local"));
    assert_eq!(rows[4], row("hotkey", "info", "super+k"));
}

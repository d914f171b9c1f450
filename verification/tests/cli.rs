use knightingale_core::cli::{api_key_var, parse_duration, provider_for_key, provider_from_pick, secret_line, tail_lines};
use knightingale_core::env::EnvVars;
use knightingale_core::error::KnightError;
use knightingale_core::injection::{injection_plan, Backend};
use knightingale_core::config::InjectionMethod;
use knightingale_core::platform::Platform;
use knightingale_core::stt::Provider;

#[test]
fn durations() {
    assert_eq!(parse_duration("90s").unwrap().as_secs(), 90);
    assert_eq!(parse_duration(" 30m ").unwrap().as_secs(), 1800);
    assert_eq!(parse_duration("1h").unwrap().as_secs(), 3600);
    assert!(parse_duration("1d").is_none());
    assert!(parse_duration("h").is_none());
    assert!(parse_duration("").is_none());
}

#[test]
fn provider_names() {
    assert_eq!(provider_for_key("azure").unwrap(), Provider::Azure);
    assert_eq!(
        provider_for_key("local"),
        Err(KnightError::Config("unknown provider local".to_string()))
    );
    assert_eq!(provider_from_pick("lemonfox"), Provider::Lemonfox);
    assert_eq!(provider_from_pick("?"), Provider::Groq);
    assert_eq!(api_key_var(Provider::Azure), "AZURE_OPENAI_API_KEY");
}

#[test]
fn secrets_are_redacted() {
    let mut env = EnvVars::new();
    assert_eq!(secret_line(Provider::Groq, &env), "  GROQ_API_KEY = (not set)");
    env.set("GROQ_API_KEY".into(), "gsk_1234567890abcdef42".into());
    assert_eq!(secret_line(Provider::Groq, &env), "  GROQ_API_KEY = gsk_••••••••42");
}

#[test]
fn log_tail() {
    assert_eq!(tail_lines("a\nb\nc\n", 2), vec!["b", "c"]);
    assert_eq!(tail_lines("a\nb", 5), vec!["a", "b"]);
}

#[test]
fn injection_plans() {
    assert_eq!(
        injection_plan(InjectionMethod::Auto, Platform::Linux).unwrap(),
        vec![Backend::Enigo, Backend::ClipboardPaste]
    );
    assert_eq!(injection_plan(InjectionMethod::Uinput, Platform::Linux).unwrap(), vec![Backend::Enigo]);
    assert_eq!(
        injection_plan(InjectionMethod::Uinput, Platform::Macos),
        Err(KnightError::Permission("uinput is Linux-only".to_string()))
    );
}

#[test]
fn error_messages() {
    let e = KnightError::Hotkey("x".into());
    assert_eq!(e.message(), "hotkey error: x");
    assert_eq!(e.code(), "knightingale::hotkey");
    assert!(e.help().unwrap().contains("config set hotkey"));
    let o = KnightError::Other("plain".into());
    assert_eq!(o.message(), "plain");
    assert!(o.help().is_none());
}

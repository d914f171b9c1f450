use knightingale_core::config::{
    cache_dir, config_dir, config_file, default_hotkey, env_file, runtime_socket, state_dir, Config,
    InjectionMethod, ProjectPaths, SttBackend,
};
use knightingale_core::env::EnvVars;
use knightingale_core::error::KnightError;
use knightingale_core::platform::Platform;

fn paths() -> ProjectPaths {
    ProjectPaths {
        config_dir: "/home/u/.config/knightingale".to_string(),
        cache_dir: "/home/u/.cache/knightingale".to_string(),
        state_dir: None,
        data_local_dir: "/home/u/.local/share/knightingale".to_string(),
    }
}

#[test]
fn defaults_hotkey_per_os() {
    let cfg = Config::default_for(Platform::Macos);
    assert_eq!(cfg.hotkey.toggle, "cmd+shift+k");
    let cfg = Config::default_for(Platform::Linux);
    assert_eq!(cfg.hotkey.toggle, "super+k");
}

#[test]
fn defaults_values() {
    let cfg = Config::default_for(Platform::Windows);
    assert_eq!(cfg.hotkey.toggle, "super+k");
    assert_eq!(cfg.stt.backend, SttBackend::OpenaiCompatible);
    assert_eq!(cfg.stt.language, "en");
    assert_eq!(cfg.stt.max_recording_secs, 300);
    assert_eq!(cfg.injection.method, InjectionMethod::Auto);
    assert_eq!(cfg.audio.mic, None);
    assert_eq!(cfg.audio.silence_threshold, 500);
    assert_eq!(default_hotkey(Platform::Macos), "cmd+shift+k");
}

#[test]
fn set_fields_by_name() {
    let mut cfg = Config::default_for(Platform::Linux);
    assert!(cfg.set("hotkey", "ctrl+alt+space").is_ok());
    assert_eq!(cfg.hotkey.toggle, "ctrl+alt+space");
    assert!(cfg.set("hotkey.toggle", "super+j").is_ok());
    assert_eq!(cfg.hotkey.toggle, "super+j");
    assert!(cfg.set("stt.language", "de").is_ok());
    assert_eq!(cfg.stt.language, "de");
    assert!(cfg.set("stt.max_recording_secs", "+120").is_ok());
    assert_eq!(cfg.stt.max_recording_secs, 120);
    assert!(cfg.set("audio.mic", "USB Mic").is_ok());
    assert_eq!(cfg.audio.mic.as_deref(), Some("USB Mic"));
    assert!(cfg.set("audio.silence_threshold", "-32768").is_ok());
    assert_eq!(cfg.audio.silence_threshold, -32768);
}

#[test]
fn set_rejects_bad_numbers_and_keys() {
    let mut cfg = Config::default_for(Platform::Linux);
    assert_eq!(
        cfg.set("stt.max_recording_secs", "abc"),
        Err(KnightError::Config("bad number: invalid digit found in string".to_string()))
    );
    assert_eq!(
        cfg.set("stt.max_recording_secs", ""),
        Err(KnightError::Config("bad number: cannot parse integer from empty string".to_string()))
    );
    assert_eq!(
        cfg.set("stt.max_recording_secs", "18446744073709551616"),
        Err(KnightError::Config("bad number: number too large to fit in target type".to_string()))
    );
    assert_eq!(
        cfg.set("audio.silence_threshold", "-32769"),
        Err(KnightError::Config("bad number: number too small to fit in target type".to_string()))
    );
    assert_eq!(
        cfg.set("audio.silence_threshold", "-"),
        Err(KnightError::Config("bad number: invalid digit found in string".to_string()))
    );
    assert_eq!(
        cfg.set("model", "x"),
        Err(KnightError::Config("unknown key: model".to_string()))
    );
    assert_eq!(cfg.stt.max_recording_secs, 300);
    assert_eq!(cfg.audio.silence_threshold, 500);
}

#[test]
fn directories() {
    let p = paths();
    assert_eq!(config_dir(Some(&p)).unwrap(), "/home/u/.config/knightingale");
    assert_eq!(cache_dir(Some(&p)).unwrap(), "/home/u/.cache/knightingale");
    assert_eq!(state_dir(Some(&p)).unwrap(), "/home/u/.local/share/knightingale");
    let mut q = paths();
    q.state_dir = Some("/home/u/.local/state/knightingale".to_string());
    assert_eq!(state_dir(Some(&q)).unwrap(), "/home/u/.local/state/knightingale");
    assert_eq!(config_file(Some(&p)).unwrap(), "/home/u/.config/knightingale/config.toml");
    assert_eq!(env_file(Some(&p)).unwrap(), "/home/u/.config/knightingale/.env");
    assert_eq!(
        config_dir(None),
        Err(KnightError::Config("could not resolve project directories".to_string()))
    );
}

#[test]
fn socket_locations() {
    let p = paths();
    let mut env = EnvVars::new();
    assert_eq!(
        runtime_socket(Platform::Linux, &env, Some(&p)).unwrap(),
        "/home/u/.cache/knightingale/knightingale.sock"
    );
    assert_eq!(runtime_socket(Platform::Linux, &env, None).unwrap(), "/tmp/knightingale.sock");
    env.set("XDG_RUNTIME_DIR".to_string(), "/run/user/1000".to_string());
    assert_eq!(
        runtime_socket(Platform::Linux, &env, Some(&p)).unwrap(),
        "/run/user/1000/knightingale.sock"
    );
    assert_eq!(
        runtime_socket(Platform::Macos, &env, Some(&p)).unwrap(),
        "/home/u/.cache/knightingale/knightingale.sock"
    );
    assert!(runtime_socket(Platform::Macos, &env, None).is_err());
    assert_eq!(runtime_socket(Platform::Windows, &env, None).unwrap(), r"\\.\pipe\knightingale");
}

use knightingale_core::error::KnightError;
use knightingale_core::hotkey::{
    default_binding, fallback_chain, parse, FallbackWalk, HotKey, KeyCode, Modifiers,
    RegistrationStep,
};
use knightingale_core::platform::Platform;

#[test]
fn parse_super_k() {
    let hk = parse("super+k").unwrap();
    assert!(hk.mods.super_key);
    assert_eq!(hk.key, KeyCode::Letter('K'));
}

#[test]
fn parse_ctrl_alt_space() {
    let hk = parse("ctrl+alt+space").unwrap();
    assert!(hk.mods.control);
    assert!(hk.mods.alt);
    assert_eq!(hk.key, KeyCode::Space);
}

#[test]
fn fallback_chain_nonempty() {
    for p in [Platform::Linux, Platform::Macos, Platform::Windows, Platform::Other] {
        assert!(!fallback_chain(p).is_empty());
        assert_eq!(default_binding(p), fallback_chain(p)[0]);
    }
}

#[test]
fn fallback_chain_bindings_all_parse() {
    for p in [Platform::Linux, Platform::Macos] {
        for b in fallback_chain(p) {
            assert!(parse(b).is_ok(), "{b}");
        }
    }
}

#[test]
fn parse_is_case_and_space_insensitive() {
    let hk = parse(" Cmd + Shift + ; ").unwrap();
    assert_eq!(
        hk,
        HotKey {
            mods: Modifiers { control: false, alt: false, shift: true, super_key: true },
            key: KeyCode::Semicolon,
        }
    );
    assert_eq!(parse("F12").unwrap().key, KeyCode::F12);
    assert_eq!(parse("option+7").unwrap().key, KeyCode::Digit('7'));
    assert_eq!(parse("a+b").unwrap().key, KeyCode::Letter('B'));
}

#[test]
fn parse_errors() {
    assert_eq!(parse(" + "), Err(KnightError::Hotkey("empty binding:  + ".to_string())));
    assert_eq!(
        parse("ctrl+shift"),
        Err(KnightError::Hotkey("no key in binding: ctrl+shift".to_string()))
    );
    assert_eq!(
        parse("ctrl+F13+k"),
        Err(KnightError::Hotkey("unknown key in binding: f13".to_string()))
    );
}

#[test]
fn fallback_walk_skips_unparseable_and_gives_up() {
    let mut walk = FallbackWalk::start("nonsense+", Platform::Macos);
    let mut tried = Vec::new();
    loop {
        match walk.next_step() {
            RegistrationStep::Try { binding, .. } => {
                walk.register_failed("taken");
                tried.push(binding);
            }
            RegistrationStep::GiveUp(e) => {
                assert_eq!(
                    e,
                    KnightError::Hotkey(
                        "all fallback bindings failed: cmd+option+space: taken".to_string()
                    )
                );
                break;
            }
        }
    }
    assert_eq!(
        tried,
        vec!["cmd+shift+k", "cmd+shift+semicolon", "cmd+shift+slash", "cmd+option+space"]
    );
}

#[test]
fn fallback_walk_tries_requested_first() {
    let mut walk = FallbackWalk::start("ctrl+alt+k", Platform::Linux);
    match walk.next_step() {
        RegistrationStep::Try { binding, hotkey } => {
            assert_eq!(binding, "ctrl+alt+k");
            assert_eq!(hotkey.key, KeyCode::Letter('K'));
        }
        RegistrationStep::GiveUp(_) => panic!("expected a candidate"),
    }
}

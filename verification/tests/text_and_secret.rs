use knightingale_core::error::KnightError;
use knightingale_core::platform::Platform;
use knightingale_core::secret::{check_permissions, env_file_with, redact};

#[test]
fn redact_short() {
    assert_eq!(redact("abc"), "••••");
    assert_eq!(redact("abcdef"), "••••••");
}

#[test]
fn redact_long() {
    assert_eq!(redact("gsk_1234567890abcdef42"), "gsk_••••••••42");
}

#[test]
fn redact_counts_bytes_not_chars() {
    // "ééé" is six bytes, "éééé" eight.
    assert_eq!(redact("ééé"), "••••••");
    assert_eq!(redact("éééé"), "éééé••••••••éé");
    assert_eq!(redact(""), "••••");
}

#[test]
fn env_update_replaces_existing() {
    let before = "A=1\r\nGROQ_API_KEY=old\nB=2";
    assert_eq!(
        env_file_with(before, "GROQ_API_KEY", "new"),
        "A=1\nGROQ_API_KEY=new\nB=2\n"
    );
}

#[test]
fn env_update_appends_when_missing() {
    assert_eq!(env_file_with("", "K", "v"), "K=v\n");
    assert_eq!(env_file_with("A=1\n", "K", "v"), "A=1\nK=v\n");
    assert_eq!(env_file_with("KEY=1\n", "K", "v"), "KEY=1\nK=v\n");
}

#[test]
fn env_update_is_idempotent() {
    let once = env_file_with("X=1\nK=a\nK=b\r\n", "K", "z");
    assert_eq!(once, "X=1\nK=z\nK=z\n");
    assert_eq!(env_file_with(&once, "K", "z"), once);
}

#[test]
fn env_mode_check() {
    assert!(check_permissions(Platform::Linux, 0o100600, "/x/.env").is_ok());
    assert_eq!(
        check_permissions(Platform::Linux, 0o100644, "/x/.env"),
        Err(KnightError::Permission(
            ".env file mode 644 is world/group-readable; chmod 600 /x/.env".to_string()
        ))
    );
    assert!(check_permissions(Platform::Windows, 0o777, "x").is_ok());
}

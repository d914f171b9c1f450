use knightingale_core::env::EnvVars;
use knightingale_core::platform::Platform;
use knightingale_core::setup::{
    detect_compositor, hotkey_command, uinput_writable, Compositor, MacosPane,
};

#[test]
fn compositor_detection() {
    let mut env = EnvVars::new();
    assert_eq!(detect_compositor(Platform::Macos, &env), Compositor::Unknown);
    assert_eq!(detect_compositor(Platform::Linux, &env), Compositor::X11);
    env.set("WAYLAND_DISPLAY".to_string(), "wayland-0".to_string());
    assert_eq!(detect_compositor(Platform::Linux, &env), Compositor::Unknown);
    env.set("XDG_CURRENT_DESKTOP".to_string(), "ubuntu:GNOME".to_string());
    assert_eq!(detect_compositor(Platform::Linux, &env), Compositor::Gnome);
    env.set("SWAYSOCK".to_string(), "/run/sway".to_string());
    assert_eq!(detect_compositor(Platform::Linux, &env), Compositor::Sway);
    env.set("HYPRLAND_INSTANCE_SIGNATURE".to_string(), "x".to_string());
    assert_eq!(detect_compositor(Platform::Linux, &env), Compositor::Hyprland);
    assert_eq!(Compositor::I3.as_str(), "i3");
}

#[test]
fn binding_commands() {
    assert_eq!(
        hotkey_command(Compositor::Hyprland, "SUPER, K", "knightingale toggle").unwrap(),
        "hyprctl keyword bind \"SUPER, K, exec, knightingale toggle\""
    );
    assert_eq!(
        hotkey_command(Compositor::I3, "$mod+k", "knightingale toggle").unwrap(),
        "# Append to ~/.config/i3/config:\nbindsym $mod+k exec knightingale toggle"
    );
    assert!(hotkey_command(Compositor::X11, "a", "b").is_none());
    let gnome = hotkey_command(Compositor::Gnome, "<Super>k", "kn toggle").unwrap();
    assert!(gnome.starts_with("# Add a custom keybinding to GNOME:\n"));
    assert!(gnome.ends_with(" binding '<Super>k'"));
    assert!(gnome.contains(" command 'kn toggle'\n"));
}

#[test]
fn uinput_permission() {
    assert!(uinput_writable(Platform::Macos, None, None));
    assert!(!uinput_writable(Platform::Linux, None, None));
    assert!(uinput_writable(Platform::Linux, Some(0o20666), None));
    assert!(uinput_writable(Platform::Linux, Some(0o20660), Some("user wheel input\n")));
    assert!(!uinput_writable(Platform::Linux, Some(0o20660), Some("user inputs")));
    assert!(!uinput_writable(Platform::Linux, Some(0o20600), Some("user input")));
    assert!(!uinput_writable(Platform::Linux, Some(0o20640), Some("input")));
    assert!(MacosPane::Microphone.url().ends_with("Privacy_Microphone"));
}

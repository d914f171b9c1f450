//! OS-aware setup decisions: which desktop session is running, the command
//! that binds the hotkey there, and whether `/dev/uinput` is usable.
use vstd::prelude::*;

use crate::env::EnvVars;
use crate::platform::Platform;
use crate::text::{
    append_str, chars_of, contains_chars, contains_seq, eq_str, lowercase, string_from_chars,
    to_lowercase, views, words, words_of,
};

verus! {

/// A desktop session kind.
#[derive(Debug, Clone, Copy, PartialEq, Eq, Structural)]
pub enum Compositor {
    Gnome,
    Kde,
    Hyprland,
    Sway,
    I3,
    X11,
    Unknown,
}

pub open spec fn compositor_name(c: Compositor) -> Seq<char> {
    match c {
        Compositor::Gnome => "gnome"@,
        Compositor::Kde => "kde"@,
        Compositor::Hyprland => "hyprland"@,
        Compositor::Sway => "sway"@,
        Compositor::I3 => "i3"@,
        Compositor::X11 => "x11"@,
        Compositor::Unknown => "unknown"@,
    }
}

impl Compositor {
    /// The lower-case name of the session kind.
    pub fn as_str(self) -> (r: &'static str)
        ensures
            r@ == compositor_name(self),
    {
        match self {
            Compositor::Gnome => "gnome",
            Compositor::Kde => "kde",
            Compositor::Hyprland => "hyprland",
            Compositor::Sway => "sway",
            Compositor::I3 => "i3",
            Compositor::X11 => "x11",
            Compositor::Unknown => "unknown",
        }
    }
}

/// The session kind named by a lower-cased `XDG_CURRENT_DESKTOP`, if any.
pub open spec fn desktop_kind(d: Seq<char>) -> Option<Compositor> {
    if contains_seq(d, "gnome"@) {
        Some(Compositor::Gnome)
    } else if contains_seq(d, "kde"@) {
        Some(Compositor::Kde)
    } else if contains_seq(d, "hyprland"@) {
        Some(Compositor::Hyprland)
    } else if contains_seq(d, "sway"@) {
        Some(Compositor::Sway)
    } else if contains_seq(d, "i3"@) {
        Some(Compositor::I3)
    } else {
        None
    }
}

/// The session detected from the environment: Hyprland and Sway by their
/// sockets, then by `XDG_CURRENT_DESKTOP`, then X11 when no Wayland display
/// is set. Only Linux has these sessions.
pub open spec fn detected(platform: Platform, env: Map<Seq<char>, Seq<char>>) -> Compositor {
    if platform != Platform::Linux {
        Compositor::Unknown
    } else if env.contains_key("HYPRLAND_INSTANCE_SIGNATURE"@) {
        Compositor::Hyprland
    } else if env.contains_key("SWAYSOCK"@) {
        Compositor::Sway
    } else if env.contains_key("XDG_CURRENT_DESKTOP"@) && desktop_kind(
        lowercase(env["XDG_CURRENT_DESKTOP"@]),
    ) is Some {
        desktop_kind(lowercase(env["XDG_CURRENT_DESKTOP"@]))->Some_0
    } else if !env.contains_key("WAYLAND_DISPLAY"@) {
        Compositor::X11
    } else {
        Compositor::Unknown
    }
}

fn contains_literal(hay: &[char], needle: &str) -> (r: bool)
    ensures
        r == contains_seq(hay@, needle@),
{
    let n = chars_of(needle);
    contains_chars(hay, n.as_slice())
}

/// Detects the current desktop session from the environment.
pub fn detect_compositor(platform: Platform, env: &EnvVars) -> (r: Compositor)
    requires
        env.wf(),
    ensures
        r == detected(platform, env@),
{
    if platform != Platform::Linux {
        return Compositor::Unknown;
    }
    if env.is_set("HYPRLAND_INSTANCE_SIGNATURE") {
        return Compositor::Hyprland;
    }
    if env.is_set("SWAYSOCK") {
        return Compositor::Sway;
    }
    if let Some(desk) = env.get("XDG_CURRENT_DESKTOP") {
        let low = to_lowercase(desk.as_str());
        let d = chars_of(low.as_str());
        if contains_literal(d.as_slice(), "gnome") {
            return Compositor::Gnome;
        }
        if contains_literal(d.as_slice(), "kde") {
            return Compositor::Kde;
        }
        if contains_literal(d.as_slice(), "hyprland") {
            return Compositor::Hyprland;
        }
        if contains_literal(d.as_slice(), "sway") {
            return Compositor::Sway;
        }
        if contains_literal(d.as_slice(), "i3") {
            return Compositor::I3;
        }
    }
    if !env.is_set("WAYLAND_DISPLAY") {
        return Compositor::X11;
    }
    Compositor::Unknown
}

/// The GNOME `gsettings` commands that add a custom keybinding.
pub open spec fn gnome_command(binding: Seq<char>, exec: Seq<char>) -> Seq<char> {
    "# Add a custom keybinding to GNOME:\ngsettings set org.gnome.settings-daemon.plugins.media-keys custom-keybindings \"['/org/gnome/settings-daemon/plugins/media-keys/custom-keybindings/knightingale/']\"\ngsettings set org.gnome.settings-daemon.plugins.media-keys.custom-keybinding:/org/gnome/settings-daemon/plugins/media-keys/custom-keybindings/knightingale/ name 'Knightingale'\ngsettings set org.gnome.settings-daemon.plugins.media-keys.custom-keybinding:/org/gnome/settings-daemon/plugins/media-keys/custom-keybindings/knightingale/ command '"@
        + exec
        + "'\ngsettings set org.gnome.settings-daemon.plugins.media-keys.custom-keybinding:/org/gnome/settings-daemon/plugins/media-keys/custom-keybindings/knightingale/ binding '"@
        + binding + "'"@
}

/// The command suggested for binding the hotkey on each session kind.
pub open spec fn hotkey_command_for(comp: Compositor, binding: Seq<char>, exec: Seq<char>) -> Option<
    Seq<char>,
> {
    match comp {
        Compositor::Hyprland => Some(
            "hyprctl keyword bind \""@ + binding + ", exec, "@ + exec + "\""@,
        ),
        Compositor::Gnome => Some(gnome_command(binding, exec)),
        Compositor::Kde => Some(
            "kwriteconfig5 --file kglobalshortcutsrc --group knightingale --key toggle \""@
                + binding + ",none,Knightingale toggle\""@,
        ),
        Compositor::Sway => Some(
            "# Append to ~/.config/"@ + "sway"@ + "/config:\nbindsym "@ + binding + " exec "@
                + exec,
        ),
        Compositor::I3 => Some(
            "# Append to ~/.config/"@ + "i3"@ + "/config:\nbindsym "@ + binding + " exec "@ + exec,
        ),
        Compositor::X11 | Compositor::Unknown => None,
    }
}

/// Suggested hotkey-binding command for the detected compositor, for the
/// user to paste into their configuration.
pub fn hotkey_command(comp: Compositor, binding: &str, exec: &str) -> (r: Option<String>)
    ensures
        r is Some <==> hotkey_command_for(comp, binding@, exec@) is Some,
        r is Some ==> r->Some_0@ == hotkey_command_for(comp, binding@, exec@)->Some_0,
{
    match comp {
        Compositor::Hyprland => {
            let mut m = chars_of("hyprctl keyword bind \"");
            append_str(&mut m, binding);
            append_str(&mut m, ", exec, ");
            append_str(&mut m, exec);
            append_str(&mut m, "\"");
            Some(string_from_chars(m))
        },
        Compositor::Gnome => {
            let mut m = chars_of(
                "# Add a custom keybinding to GNOME:\ngsettings set org.gnome.settings-daemon.plugins.media-keys custom-keybindings \"['/org/gnome/settings-daemon/plugins/media-keys/custom-keybindings/knightingale/']\"\ngsettings set org.gnome.settings-daemon.plugins.media-keys.custom-keybinding:/org/gnome/settings-daemon/plugins/media-keys/custom-keybindings/knightingale/ name 'Knightingale'\ngsettings set org.gnome.settings-daemon.plugins.media-keys.custom-keybinding:/org/gnome/settings-daemon/plugins/media-keys/custom-keybindings/knightingale/ command '",
            );
            append_str(&mut m, exec);
            append_str(
                &mut m,
                "'\ngsettings set org.gnome.settings-daemon.plugins.media-keys.custom-keybinding:/org/gnome/settings-daemon/plugins/media-keys/custom-keybindings/knightingale/ binding '",
            );
            append_str(&mut m, binding);
            append_str(&mut m, "'");
            Some(string_from_chars(m))
        },
        Compositor::Kde => {
            let mut m = chars_of(
                "kwriteconfig5 --file kglobalshortcutsrc --group knightingale --key toggle \"",
            );
            append_str(&mut m, binding);
            append_str(&mut m, ",none,Knightingale toggle\"");
            Some(string_from_chars(m))
        },
        Compositor::Sway | Compositor::I3 => {
            let mut m = chars_of("# Append to ~/.config/");
            let name = if comp == Compositor::Sway {
                "sway"
            } else {
                "i3"
            };
            append_str(&mut m, name);
            append_str(&mut m, "/config:\nbindsym ");
            append_str(&mut m, binding);
            append_str(&mut m, " exec ");
            append_str(&mut m, exec);
            Some(string_from_chars(m))
        },
        Compositor::X11 | Compositor::Unknown => None,
    }
}

/// Whether the user can write `/dev/uinput`: on Linux the device must exist
/// and be world-writable, or be group-writable with the user in the `input`
/// group (as listed by `id -nG`). Other systems do not need it.
pub open spec fn uinput_ok(platform: Platform, mode: Option<u32>, groups: Option<Seq<char>>) -> bool {
    if platform != Platform::Linux {
        true
    } else {
        match mode {
            None => false,
            Some(m) => if m & 0o002u32 != 0 {
                true
            } else if m & 0o020u32 == 0 {
                false
            } else {
                match groups {
                    None => false,
                    Some(g) => words(g).contains("input"@),
                }
            },
        }
    }
}

/// Decides whether `/dev/uinput` is writable from its mode (`None` when
/// the device is missing or unreadable) and the output of `id -nG` (`None`
/// when the command failed).
pub fn uinput_writable(platform: Platform, mode: Option<u32>, groups: Option<&str>) -> (r: bool)
    ensures
        r == uinput_ok(
            platform,
            mode,
            match groups {
                Some(g) => Some(g@),
                None => None,
            },
        ),
{
    if platform != Platform::Linux {
        return true;
    }
    match mode {
        None => false,
        Some(m) => {
            if m & 0o002u32 != 0 {
                return true;
            }
            if m & 0o020u32 == 0 {
                return false;
            }
            match groups {
                None => false,
                Some(g) => {
                    let gv = chars_of(g);
                    let ws = words_of(gv.as_slice());
                    let mut i: usize = 0;
                    while i < ws.len()
                        invariant
                            i <= ws.len(),
                            platform == Platform::Linux,
                            mode == Some(m),
                            groups == Some(g),
                            m & 0o002u32 == 0,
                            m & 0o020u32 != 0,
                            views(ws@) == words(g@),
                            forall|k: int| 0 <= k < i ==> views(ws@)[k] != "input"@,
                        decreases ws.len() - i,
                    {
                        assert(views(ws@)[i as int] == ws@[i as int]@);
                        if eq_str(ws[i].as_slice(), "input") {
                            assert(words(g@)[i as int] == "input"@);
                            return true;
                        }
                        i = i + 1;
                    }
                    false
                },
            }
        },
    }
}

/// A macOS privacy pane of System Settings.
#[derive(Debug, Clone, Copy, PartialEq, Eq, Structural)]
pub enum MacosPane {
    Accessibility,
    InputMonitoring,
    Microphone,
}

pub open spec fn pane_url(p: MacosPane) -> Seq<char> {
    match p {
        MacosPane::Accessibility => "x-apple.systempreferences:com.apple.preference.security?Privacy_Accessibility"@,
        MacosPane::InputMonitoring => "x-apple.systempreferences:com.apple.preference.security?Privacy_ListenEvent"@,
        MacosPane::Microphone => "x-apple.systempreferences:com.apple.preference.security?Privacy_Microphone"@,
    }
}

impl MacosPane {
    /// The URL that opens this pane.
    pub fn url(self) -> (r: &'static str)
        ensures
            r@ == pane_url(self),
    {
        match self {
            MacosPane::Accessibility => {
                "x-apple.systempreferences:com.apple.preference.security?Privacy_Accessibility"
            },
            MacosPane::InputMonitoring => {
                "x-apple.systempreferences:com.apple.preference.security?Privacy_ListenEvent"
            },
            MacosPane::Microphone => {
                "x-apple.systempreferences:com.apple.preference.security?Privacy_Microphone"
            },
        }
    }
}

} // verus!

verus! {

/// How the session is told, case-insensitively. Only Linux has these
/// sessions. A Hyprland socket means Hyprland, then a Sway socket means
/// Sway. Otherwise `XDG_CURRENT_DESKTOP` decides, by what its lower-case
/// form mentions: `gnome` is GNOME, else `kde` is KDE, else `hyprland`,
/// `sway`, `i3` in that order. With none of these, a session without
/// `WAYLAND_DISPLAY` is X11, and any other is unknown.
pub proof fn lemma_session_detection(platform: Platform, env: Map<Seq<char>, Seq<char>>)
    ensures
        platform != Platform::Linux ==> detected(platform, env) == Compositor::Unknown,
        ({
            let desk = lowercase(env["XDG_CURRENT_DESKTOP"@]);
            let named = env.contains_key("XDG_CURRENT_DESKTOP"@);
            let plain = platform == Platform::Linux && !env.contains_key(
                "HYPRLAND_INSTANCE_SIGNATURE"@,
            ) && !env.contains_key("SWAYSOCK"@);
            &&& platform == Platform::Linux && env.contains_key("HYPRLAND_INSTANCE_SIGNATURE"@)
                ==> detected(platform, env) == Compositor::Hyprland
            &&& platform == Platform::Linux && !env.contains_key("HYPRLAND_INSTANCE_SIGNATURE"@)
                && env.contains_key("SWAYSOCK"@) ==> detected(platform, env) == Compositor::Sway
            &&& plain && named && contains_seq(desk, "gnome"@) ==> detected(platform, env)
                == Compositor::Gnome
            &&& plain && named && !contains_seq(desk, "gnome"@) && contains_seq(desk, "kde"@)
                ==> detected(platform, env) == Compositor::Kde
            &&& plain && named && !contains_seq(desk, "gnome"@) && !contains_seq(desk, "kde"@)
                && contains_seq(desk, "hyprland"@) ==> detected(platform, env)
                == Compositor::Hyprland
            &&& plain && named && !contains_seq(desk, "gnome"@) && !contains_seq(desk, "kde"@)
                && !contains_seq(desk, "hyprland"@) && contains_seq(desk, "sway"@) ==> detected(
                platform,
                env,
            ) == Compositor::Sway
            &&& plain && named && !contains_seq(desk, "gnome"@) && !contains_seq(desk, "kde"@)
                && !contains_seq(desk, "hyprland"@) && !contains_seq(desk, "sway"@)
                && contains_seq(desk, "i3"@) ==> detected(platform, env) == Compositor::I3
            &&& plain && !(named && (contains_seq(desk, "gnome"@) || contains_seq(desk, "kde"@)
                || contains_seq(desk, "hyprland"@) || contains_seq(desk, "sway"@) || contains_seq(
                desk,
                "i3"@,
            ))) ==> detected(platform, env) == (if env.contains_key("WAYLAND_DISPLAY"@) {
                Compositor::Unknown
            } else {
                Compositor::X11
            })
        }),
{
}

} // verus!

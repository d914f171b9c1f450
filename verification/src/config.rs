//! User configuration: its defaults, the per-user paths derived from the
//! project directories, and setting one field by name.
use vstd::prelude::*;

use crate::env::EnvVars;
use crate::error::{error_view, ErrorKind, KnightError};
use crate::number::{int_error_text, parse_i16, parse_i16_spec, parse_u64, parse_u64_spec};
use crate::platform::Platform;
use crate::text::{append_str, chars_of, eq_str, owned, string_from_chars};

verus! {

pub const APP_QUALIFIER: &'static str = "dev";

pub const APP_ORGANIZATION: &'static str = "shatilkhan";

pub const APP_NAME: &'static str = "knightingale";

/// The whole configuration.
#[derive(Debug, Clone)]
pub struct Config {
    pub hotkey: HotkeyConfig,
    pub stt: SttConfig,
    pub injection: InjectionConfig,
    pub audio: AudioConfig,
}

#[derive(Debug, Clone)]
pub struct HotkeyConfig {
    pub toggle: String,
}

#[derive(Debug, Clone)]
pub struct SttConfig {
    pub backend: SttBackend,
    pub language: String,
    pub max_recording_secs: u64,
}

#[derive(Debug, Clone, Copy, PartialEq, Eq, Structural)]
pub enum SttBackend {
    OpenaiCompatible,
    Local,
}

#[derive(Debug, Clone)]
pub struct InjectionConfig {
    pub method: InjectionMethod,
}

#[derive(Debug, Clone, Copy, PartialEq, Eq, Structural)]
pub enum InjectionMethod {
    Auto,
    Enigo,
    Uinput,
    ClipboardPaste,
}

#[derive(Debug, Clone)]
pub struct AudioConfig {
    pub mic: Option<String>,
    pub silence_threshold: i16,
}

/// The default toggle binding of each platform.
pub open spec fn default_hotkey_of(platform: Platform) -> Seq<char> {
    if platform == Platform::Macos {
        "cmd+shift+k"@
    } else {
        "super+k"@
    }
}

/// The default toggle binding for `platform`.
pub fn default_hotkey(platform: Platform) -> (r: &'static str)
    ensures
        r@ == default_hotkey_of(platform),
{
    if platform == Platform::Macos {
        "cmd+shift+k"
    } else {
        "super+k"
    }
}

impl HotkeyConfig {
    /// The default hotkey settings for `platform`.
    pub fn default_for(platform: Platform) -> (r: HotkeyConfig)
        ensures
            r.toggle@ == default_hotkey_of(platform),
    {
        HotkeyConfig { toggle: owned(default_hotkey(platform)) }
    }
}

impl Default for SttConfig {
    fn default() -> (r: SttConfig)
        ensures
            r.backend == SttBackend::OpenaiCompatible,
            r.language@ == "en"@,
            r.max_recording_secs == 300,
    {
        SttConfig { backend: SttBackend::OpenaiCompatible, language: owned("en"), max_recording_secs: 300 }
    }
}

impl Default for InjectionConfig {
    fn default() -> (r: InjectionConfig)
        ensures
            r.method == InjectionMethod::Auto,
    {
        InjectionConfig { method: InjectionMethod::Auto }
    }
}

impl Default for AudioConfig {
    fn default() -> (r: AudioConfig)
        ensures
            r.mic is None,
            r.silence_threshold == 500,
    {
        AudioConfig { mic: None, silence_threshold: 500 }
    }
}

/// The values a configuration holds.
pub struct ConfigView {
    pub toggle: Seq<char>,
    pub backend: SttBackend,
    pub language: Seq<char>,
    pub max_recording_secs: u64,
    pub method: InjectionMethod,
    pub mic: Option<Seq<char>>,
    pub silence_threshold: i16,
}

impl View for Config {
    type V = ConfigView;

    open spec fn view(&self) -> ConfigView {
        ConfigView {
            toggle: self.hotkey.toggle@,
            backend: self.stt.backend,
            language: self.stt.language@,
            max_recording_secs: self.stt.max_recording_secs,
            method: self.injection.method,
            mic: match self.audio.mic {
                Some(m) => Some(m@),
                None => None,
            },
            silence_threshold: self.audio.silence_threshold,
        }
    }
}

/// The default configuration of `platform`.
pub open spec fn default_config(platform: Platform) -> ConfigView {
    ConfigView {
        toggle: default_hotkey_of(platform),
        backend: SttBackend::OpenaiCompatible,
        language: "en"@,
        max_recording_secs: 300,
        method: InjectionMethod::Auto,
        mic: None,
        silence_threshold: 500,
    }
}

impl Config {
    /// The default configuration for `platform`.
    pub fn default_for(platform: Platform) -> (r: Config)
        ensures
            r@ == default_config(platform),
    {
        Config {
            hotkey: HotkeyConfig::default_for(platform),
            stt: SttConfig::default(),
            injection: InjectionConfig::default(),
            audio: AudioConfig::default(),
        }
    }

    /// Sets the field named `key` from its text form, as `knightingale
    /// config set` does.
    pub fn set(&mut self, key: &str, value: &str) -> (r: Result<(), KnightError>)
        ensures
            set_outcome(old(self)@, key@, value@) matches Ok(c) ==> r is Ok && final(self)@ == c,
            set_outcome(old(self)@, key@, value@) matches Err(m) ==> r is Err && error_view(r->Err_0)
                == (ErrorKind::Config, m) && final(self)@ == old(self)@,
    {
        let k = chars_of(key);
        let v = chars_of(value);
        if eq_str(k.as_slice(), "hotkey") || eq_str(k.as_slice(), "hotkey.toggle") {
            self.hotkey.toggle = owned(value);
            Ok(())
        } else if eq_str(k.as_slice(), "stt.language") {
            self.stt.language = owned(value);
            Ok(())
        } else if eq_str(k.as_slice(), "stt.max_recording_secs") {
            match parse_u64(v.as_slice()) {
                Ok(n) => {
                    self.stt.max_recording_secs = n;
                    Ok(())
                },
                Err(e) => {
                    let mut m = chars_of("bad number: ");
                    append_str(&mut m, e.description());
                    Err(KnightError::Config(string_from_chars(m)))
                },
            }
        } else if eq_str(k.as_slice(), "audio.mic") {
            self.audio.mic = Some(owned(value));
            Ok(())
        } else if eq_str(k.as_slice(), "audio.silence_threshold") {
            match parse_i16(v.as_slice()) {
                Ok(n) => {
                    self.audio.silence_threshold = n;
                    Ok(())
                },
                Err(e) => {
                    let mut m = chars_of("bad number: ");
                    append_str(&mut m, e.description());
                    Err(KnightError::Config(string_from_chars(m)))
                },
            }
        } else {
            let mut m = chars_of("unknown key: ");
            append_str(&mut m, key);
            Err(KnightError::Config(string_from_chars(m)))
        }
    }
}

/// The configuration after setting `key` to `value`, or the message of the
/// error that leaves it unchanged.
pub open spec fn set_outcome(c: ConfigView, key: Seq<char>, value: Seq<char>) -> Result<
    ConfigView,
    Seq<char>,
> {
    if key == "hotkey"@ || key == "hotkey.toggle"@ {
        Ok(ConfigView { toggle: value, ..c })
    } else if key == "stt.language"@ {
        Ok(ConfigView { language: value, ..c })
    } else if key == "stt.max_recording_secs"@ {
        match parse_u64_spec(value) {
            Ok(n) => Ok(ConfigView { max_recording_secs: n as u64, ..c }),
            Err(e) => Err("bad number: "@ + int_error_text(e)),
        }
    } else if key == "audio.mic"@ {
        Ok(ConfigView { mic: Some(value), ..c })
    } else if key == "audio.silence_threshold"@ {
        match parse_i16_spec(value) {
            Ok(n) => Ok(ConfigView { silence_threshold: n as i16, ..c }),
            Err(e) => Err("bad number: "@ + int_error_text(e)),
        }
    } else {
        Err("unknown key: "@ + key)
    }
}

/// The per-user directories of the application, as resolved for the
/// current user. `state_dir` is only available on some systems.
#[derive(Debug, Clone)]
pub struct ProjectPaths {
    pub config_dir: String,
    pub cache_dir: String,
    pub state_dir: Option<String>,
    pub data_local_dir: String,
}

/// The path `name` inside directory `base` (what `Path::join` returns).
/// Named rather than stated: separators differ between systems.
pub uninterp spec fn joined(base: Seq<char>, name: Seq<char>) -> Seq<char>;

/// Joins a relative name onto a directory path.
///
/// Wraps `Path::join`; the contract claims only that the result is
/// determined by the two paths.
#[verifier::external_body]
pub(crate) fn join_path(base: &str, name: &str) -> (r: String)
    ensures
        r@ == joined(base@, name@),
{
    std::path::Path::new(base).join(name).to_string_lossy().into_owned()
}

/// The error when the project directories cannot be resolved.
pub open spec fn no_dirs_error() -> (ErrorKind, Seq<char>) {
    (ErrorKind::Config, "could not resolve project directories"@)
}

fn no_dirs() -> (r: KnightError)
    ensures
        error_view(r) == no_dirs_error(),
{
    KnightError::Config(owned("could not resolve project directories"))
}

/// The configuration directory.
pub fn config_dir(dirs: Option<&ProjectPaths>) -> (r: Result<String, KnightError>)
    ensures
        dirs is None ==> r is Err && error_view(r->Err_0) == no_dirs_error(),
        dirs is Some ==> r is Ok && r->Ok_0@ == dirs->Some_0.config_dir@,
{
    match dirs {
        Some(d) => Ok(d.config_dir.clone()),
        None => Err(no_dirs()),
    }
}

/// The cache directory.
pub fn cache_dir(dirs: Option<&ProjectPaths>) -> (r: Result<String, KnightError>)
    ensures
        dirs is None ==> r is Err && error_view(r->Err_0) == no_dirs_error(),
        dirs is Some ==> r is Ok && r->Ok_0@ == dirs->Some_0.cache_dir@,
{
    match dirs {
        Some(d) => Ok(d.cache_dir.clone()),
        None => Err(no_dirs()),
    }
}

/// The state directory, falling back to the local data directory where
/// the system has no state directory.
pub fn state_dir(dirs: Option<&ProjectPaths>) -> (r: Result<String, KnightError>)
    ensures
        dirs is None ==> r is Err && error_view(r->Err_0) == no_dirs_error(),
        dirs is Some ==> r is Ok && r->Ok_0@ == match dirs->Some_0.state_dir {
            Some(s) => s@,
            None => dirs->Some_0.data_local_dir@,
        },
{
    match dirs {
        Some(d) => match &d.state_dir {
            Some(s) => Ok(s.clone()),
            None => Ok(d.data_local_dir.clone()),
        },
        None => Err(no_dirs()),
    }
}

/// The configuration file, `config.toml` in the configuration directory.
pub fn config_file(dirs: Option<&ProjectPaths>) -> (r: Result<String, KnightError>)
    ensures
        dirs is None ==> r is Err && error_view(r->Err_0) == no_dirs_error(),
        dirs is Some ==> r is Ok && r->Ok_0@ == joined(dirs->Some_0.config_dir@, "config.toml"@),
{
    let dir = config_dir(dirs)?;
    Ok(join_path(dir.as_str(), "config.toml"))
}

/// The secrets file, `.env` in the configuration directory.
pub fn env_file(dirs: Option<&ProjectPaths>) -> (r: Result<String, KnightError>)
    ensures
        dirs is None ==> r is Err && error_view(r->Err_0) == no_dirs_error(),
        dirs is Some ==> r is Ok && r->Ok_0@ == joined(dirs->Some_0.config_dir@, ".env"@),
{
    let dir = config_dir(dirs)?;
    Ok(join_path(dir.as_str(), ".env"))
}

/// The cache directory of the project directories, if resolved.
pub open spec fn cache_of(dirs: Option<&ProjectPaths>) -> Option<Seq<char>> {
    match dirs {
        Some(d) => Some(d.cache_dir@),
        None => None,
    }
}

/// Where the daemon's socket lives: on Linux in `XDG_RUNTIME_DIR`, else in
/// the cache directory, else in `/tmp`; on macOS in the cache directory; on
/// Windows a named pipe.
pub open spec fn socket_path(
    platform: Platform,
    env: Map<Seq<char>, Seq<char>>,
    cache: Option<Seq<char>>,
) -> Result<Seq<char>, (ErrorKind, Seq<char>)> {
    if platform == Platform::Linux {
        let base = if env.contains_key("XDG_RUNTIME_DIR"@) {
            env["XDG_RUNTIME_DIR"@]
        } else if cache is Some {
            cache->Some_0
        } else {
            "/tmp"@
        };
        Ok(joined(base, "knightingale.sock"@))
    } else if platform == Platform::Macos {
        match cache {
            Some(d) => Ok(joined(d, "knightingale.sock"@)),
            None => Err(no_dirs_error()),
        }
    } else {
        Ok("\\\\.\\pipe\\knightingale"@)
    }
}

/// The path of the daemon's IPC socket.
pub fn runtime_socket(platform: Platform, env: &EnvVars, dirs: Option<&ProjectPaths>) -> (r: Result<
    String,
    KnightError,
>)
    requires
        env.wf(),
    ensures
        match r {
            Ok(p) => socket_path(platform, env@, cache_of(dirs)) == Ok::<Seq<char>, (ErrorKind, Seq<char>)>(p@),
            Err(e) => socket_path(platform, env@, cache_of(dirs)) == Err::<Seq<char>, (ErrorKind, Seq<char>)>(error_view(e)),
        },
{
    if platform == Platform::Linux {
        let base = match env.get("XDG_RUNTIME_DIR") {
            Some(v) => v,
            None => match cache_dir(dirs) {
                Ok(c) => c,
                Err(_) => owned("/tmp"),
            },
        };
        Ok(join_path(base.as_str(), "knightingale.sock"))
    } else if platform == Platform::Macos {
        let dir = cache_dir(dirs)?;
        Ok(join_path(dir.as_str(), "knightingale.sock"))
    } else {
        Ok(owned("\\\\.\\pipe\\knightingale"))
    }
}

} // verus!

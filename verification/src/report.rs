//! What `knightingale doctor` and `knightingale config show` report: the
//! rows of their tables, from what the client found on the machine.
use vstd::prelude::*;

use crate::cli::{api_key_var, key_var_of};
use crate::config::{Config, ConfigView, InjectionMethod, SttBackend};
use crate::env::EnvVars;
use crate::error::{rendered, KnightError};
use crate::hotkey::views_of_strings;
use crate::number::{decimal, decimal_digits};
use crate::stt::{name_of, Provider};
use crate::text::{append_chars, append_str, chars_of, join, join_chars, owned, string_from_chars, views};

verus! {

/// A row of three cells by the cells' text.
pub open spec fn row3_view(r: (String, String, String)) -> (Seq<char>, Seq<char>, Seq<char>) {
    (r.0@, r.1@, r.2@)
}

pub open spec fn rows3_view(rs: Seq<(String, String, String)>) -> Seq<(Seq<char>, Seq<char>, Seq<char>)> {
    rs.map_values(|r: (String, String, String)| row3_view(r))
}

/// A row of two cells by the cells' text.
pub open spec fn row2_view(r: (String, String)) -> (Seq<char>, Seq<char>) {
    (r.0@, r.1@)
}

pub open spec fn rows2_view(rs: Seq<(String, String)>) -> Seq<(Seq<char>, Seq<char>)> {
    rs.map_values(|r: (String, String)| row2_view(r))
}

/// The outcome of listing the input devices, by the devices' names.
pub open spec fn devices_view(d: Result<Vec<String>, KnightError>) -> Result<Seq<Seq<char>>, KnightError> {
    match d {
        Ok(v) => Ok(views_of_strings(v@)),
        Err(e) => Err(e),
    }
}

/// Status and detail of the microphone check.
pub open spec fn devices_cells(d: Result<Seq<Seq<char>>, KnightError>) -> (Seq<char>, Seq<char>) {
    match d {
        Ok(ds) => (
            "ok"@,
            if ds.len() == 0 {
                "(none)"@
            } else {
                join(ds, ", "@)
            },
        ),
        Err(e) => ("fail"@, rendered(e)),
    }
}

/// The `doctor` table: the config and `.env` paths, the microphones, the
/// provider, whether its key is set (cloud providers only), the hotkey and
/// the recording cap.
pub open spec fn doctor_table(
    config_file: Seq<char>,
    env_file: Seq<char>,
    devices: Result<Seq<Seq<char>>, KnightError>,
    provider: Provider,
    env: Map<Seq<char>, Seq<char>>,
    cfg: ConfigView,
) -> Seq<(Seq<char>, Seq<char>, Seq<char>)> {
    let mic = devices_cells(devices);
    seq![
        ("config"@, "ok"@, config_file),
        ("env file"@, "ok"@, env_file),
        ("mic devices"@, mic.0, mic.1),
        ("provider"@, "info"@, name_of(provider)),
    ] + (if provider == Provider::Local {
        Seq::empty()
    } else {
        seq![
            (
                "api key"@,
                if env.contains_key(key_var_of(provider)) {
                    "ok"@
                } else {
                    "missing"@
                },
                key_var_of(provider),
            ),
        ]
    }) + seq![
        ("hotkey"@, "info"@, cfg.toggle),
        ("max recording"@, "info"@, decimal(cfg.max_recording_secs as nat) + "s"@),
    ]
}

fn row3(a: &str, b: &str, c: String) -> (r: (String, String, String))
    ensures
        row3_view(r) == (a@, b@, c@),
{
    (owned(a), owned(b), c)
}

fn devices_text(devices: &Result<Vec<String>, KnightError>) -> (r: (String, String))
    ensures
        row2_view(r) == devices_cells(devices_view(*devices)),
{
    match devices {
        Ok(ds) => {
            if ds.len() == 0 {
                return (owned("ok"), owned("(none)"));
            }
            let mut items: Vec<Vec<char>> = Vec::new();
            let mut i: usize = 0;
            while i < ds.len()
                invariant
                    i <= ds.len(),
                    views(items@) == views_of_strings(ds@).take(i as int),
                decreases ds.len() - i,
            {
                let ghost before = items@;
                items.push(chars_of(ds[i].as_str()));
                assert(views(items@) =~= views(before).push(ds@[i as int]@));
                assert(views_of_strings(ds@).take(i + 1) =~= views_of_strings(ds@).take(
                    i as int,
                ).push(ds@[i as int]@));
                i = i + 1;
            }
            assert(views_of_strings(ds@).take(ds.len() as int) =~= views_of_strings(ds@));
            let sep = chars_of(", ");
            (owned("ok"), string_from_chars(join_chars(&items, sep.as_slice())))
        },
        Err(e) => (owned("fail"), e.message()),
    }
}

/// The rows of the `doctor` table. `devices` is what listing the input
/// devices gave.
pub fn doctor_rows(
    config_file: &str,
    env_file: &str,
    devices: &Result<Vec<String>, KnightError>,
    provider: Provider,
    env: &EnvVars,
    cfg: &Config,
) -> (r: Vec<(String, String, String)>)
    requires
        env.wf(),
    ensures
        rows3_view(r@) == doctor_table(
            config_file@,
            env_file@,
            devices_view(*devices),
            provider,
            env@,
            cfg@,
        ),
{
    let mut rows: Vec<(String, String, String)> = Vec::new();
    rows.push(row3("config", "ok", owned(config_file)));
    rows.push(row3("env file", "ok", owned(env_file)));
    let (status, detail) = devices_text(devices);
    rows.push(row3("mic devices", status.as_str(), detail));
    rows.push(row3("provider", "info", owned(provider.as_str())));
    let ghost head = rows@;
    if provider != Provider::Local {
        let key_var = api_key_var(provider);
        let present = env.is_set(key_var.as_str());
        let state: &str = if present {
            "ok"
        } else {
            "missing"
        };
        rows.push(row3("api key", state, key_var));
    }
    let ghost mid = rows@;
    rows.push(row3("hotkey", "info", cfg.hotkey.toggle.clone()));
    let mut secs = decimal_digits(cfg.stt.max_recording_secs);
    append_str(&mut secs, "s");
    rows.push(row3("max recording", "info", string_from_chars(secs)));
    proof {
        let t = doctor_table(config_file@, env_file@, devices_view(*devices), provider, env@, cfg@);
        assert(rows3_view(head).len() == 4);
        if provider == Provider::Local {
            assert(mid == head);
        }
        assert(rows3_view(rows@) =~= t);
    }
    rows
}

/// How `config show` names a backend (its `Debug` form).
pub open spec fn backend_label(b: SttBackend) -> Seq<char> {
    match b {
        SttBackend::OpenaiCompatible => "OpenaiCompatible"@,
        SttBackend::Local => "Local"@,
    }
}

/// How `config show` names an injection method (its `Debug` form).
pub open spec fn method_label(m: InjectionMethod) -> Seq<char> {
    match m {
        InjectionMethod::Auto => "Auto"@,
        InjectionMethod::Enigo => "Enigo"@,
        InjectionMethod::Uinput => "Uinput"@,
        InjectionMethod::ClipboardPaste => "ClipboardPaste"@,
    }
}

/// The decimal form of a signed number.
pub open spec fn signed_decimal(n: int) -> Seq<char> {
    if n < 0 {
        "-"@ + decimal((-n) as nat)
    } else {
        decimal(n as nat)
    }
}

/// The table of `config show`: each setting by its key.
pub open spec fn config_table(c: ConfigView) -> Seq<(Seq<char>, Seq<char>)> {
    seq![
        ("hotkey.toggle"@, c.toggle),
        ("stt.backend"@, backend_label(c.backend)),
        ("stt.language"@, c.language),
        ("stt.max_recording_secs"@, decimal(c.max_recording_secs as nat)),
        ("injection.method"@, method_label(c.method)),
        (
            "audio.mic"@,
            match c.mic {
                Some(m) => m,
                None => "(default)"@,
            },
        ),
        ("audio.silence_threshold"@, signed_decimal(c.silence_threshold as int)),
    ]
}

fn signed_text(n: i16) -> (r: Vec<char>)
    ensures
        r@ == signed_decimal(n as int),
{
    if n < 0 {
        let magnitude: u64 = (0i32 - (n as i32)) as u64;
        let mut v = chars_of("-");
        let d = decimal_digits(magnitude);
        append_chars(&mut v, d.as_slice());
        v
    } else {
        decimal_digits(n as u64)
    }
}

fn row2(a: &str, b: String) -> (r: (String, String))
    ensures
        row2_view(r) == (a@, b@),
{
    (owned(a), b)
}

/// The rows of the `config show` table.
pub fn config_rows(cfg: &Config) -> (r: Vec<(String, String)>)
    ensures
        rows2_view(r@) == config_table(cfg@),
{
    let backend: &str = match cfg.stt.backend {
        SttBackend::OpenaiCompatible => "OpenaiCompatible",
        SttBackend::Local => "Local",
    };
    let method: &str = match cfg.injection.method {
        InjectionMethod::Auto => "Auto",
        InjectionMethod::Enigo => "Enigo",
        InjectionMethod::Uinput => "Uinput",
        InjectionMethod::ClipboardPaste => "ClipboardPaste",
    };
    let mic = match &cfg.audio.mic {
        Some(m) => m.clone(),
        None => owned("(default)"),
    };
    let mut rows: Vec<(String, String)> = Vec::new();
    rows.push(row2("hotkey.toggle", cfg.hotkey.toggle.clone()));
    rows.push(row2("stt.backend", owned(backend)));
    rows.push(row2("stt.language", cfg.stt.language.clone()));
    rows.push(
        row2("stt.max_recording_secs", string_from_chars(decimal_digits(cfg.stt.max_recording_secs))),
    );
    rows.push(row2("injection.method", owned(method)));
    rows.push(row2("audio.mic", mic));
    rows.push(row2("audio.silence_threshold", string_from_chars(signed_text(cfg.audio.silence_threshold))));
    assert(rows2_view(rows@) =~= config_table(cfg@));
    rows
}

} // verus!

//! Decisions of the command-line client: reading `--since` durations,
//! naming providers, and what to show of the log and the secrets.
use vstd::prelude::*;

use core::time::Duration;

use crate::env::EnvVars;
use crate::error::{error_view, ErrorKind, KnightError};
use crate::number::{parse_u64, parse_u64_spec};
use crate::secret::{lines_of, redact, redacted, text_lines};
use crate::stt::{duration_from_secs, prefix_of, provider_by_name, provider_named, seconds, Provider};
use crate::text::{append_str, chars_of, owned, string_from_chars, trim, trim_chars, views};

verus! {

/// The number of seconds a `--since` value such as `30m` denotes: a
/// number followed by one unit letter `s`, `m` or `h`.
pub open spec fn duration_secs(s: Seq<char>) -> Option<int> {
    let t = trim(s);
    if t.len() == 0 {
        None
    } else {
        match parse_u64_spec(t.drop_last()) {
            Err(_) => None,
            Ok(n) => if t.last() == 's' {
                Some(n)
            } else if t.last() == 'm' {
                Some(n * 60)
            } else if t.last() == 'h' {
                Some(n * 3600)
            } else {
                None
            },
        }
    }
}

/// Inputs on which reading a duration does not fail: the value is split
/// before its last byte, which must therefore be a whole character, and
/// the seconds must fit in 64 bits.
pub open spec fn duration_readable(s: Seq<char>) -> bool {
    let t = trim(s);
    &&& (t.len() == 0 || (t.last() as u32) < 128)
    &&& (duration_secs(s) matches Some(n) ==> n <= u64::MAX)
}

/// Reads a `--since` value such as `90s`, `30m` or `1h`.
pub fn parse_duration(s: &str) -> (r: Option<Duration>)
    requires
        duration_readable(s@),
    ensures
        match duration_secs(s@) {
            Some(n) => r == Some(seconds(n as u64)),
            None => r is None,
        },
{
    let v = chars_of(s);
    let t = trim_chars(v.as_slice());
    if t.len() == 0 {
        return None;
    }
    let unit = t[t.len() - 1];
    let mut digits = t.clone();
    let _ = digits.pop();
    assert(digits@ == t@.drop_last());
    match parse_u64(digits.as_slice()) {
        Err(_) => None,
        Ok(n) => {
            if unit == 's' {
                Some(duration_from_secs(n))
            } else if unit == 'm' {
                Some(duration_from_secs(n * 60))
            } else if unit == 'h' {
                Some(duration_from_secs(n * 3600))
            } else {
                None
            }
        },
    }
}

/// The name of the variable that holds a provider's API key.
pub open spec fn key_var_of(p: Provider) -> Seq<char> {
    prefix_of(p) + "_API_KEY"@
}

/// The name of the variable that holds `provider`'s API key.
pub fn api_key_var(provider: Provider) -> (r: String)
    ensures
        r@ == key_var_of(provider),
{
    let mut m = chars_of(provider.env_prefix());
    append_str(&mut m, "_API_KEY");
    string_from_chars(m)
}

/// The provider whose key `knightingale config set-key` stores; the local
/// backend has no key.
pub open spec fn key_target(name: Seq<char>) -> Option<Provider> {
    match provider_named(name) {
        Some(Provider::Local) => None,
        other => other,
    }
}

/// The provider named on the `set-key` command line.
pub fn provider_for_key(name: &str) -> (r: Result<Provider, KnightError>)
    ensures
        match key_target(name@) {
            Some(p) => r == Ok::<Provider, KnightError>(p),
            None => r is Err && error_view(r->Err_0) == (ErrorKind::Config, "unknown provider "@ + name@),
        },
{
    let v = chars_of(name);
    match provider_by_name(v.as_slice()) {
        Some(Provider::Local) | None => {
            let mut m = chars_of("unknown provider ");
            append_str(&mut m, name);
            Err(KnightError::Config(string_from_chars(m)))
        },
        Some(p) => Ok(p),
    }
}

/// The provider picked in the setup menu, which lists the cloud providers;
/// anything else selects Groq.
pub fn provider_from_pick(pick: &str) -> (r: Provider)
    ensures
        r == match key_target(pick@) {
            Some(p) => p,
            None => Provider::Groq,
        },
{
    let v = chars_of(pick);
    match provider_by_name(v.as_slice()) {
        Some(Provider::Local) | None => Provider::Groq,
        Some(p) => p,
    }
}

/// The secrets line of `knightingale config show` for the active provider:
/// the key variable and its redacted value, or `(not set)`.
pub fn secret_line(provider: Provider, env: &EnvVars) -> (r: String)
    requires
        env.wf(),
    ensures
        env@.contains_key(key_var_of(provider)) ==> exists|s: &str|
            s@ == env@[key_var_of(provider)] && r@ == "  "@ + key_var_of(provider) + " = "@
                + redacted(s),
        !env@.contains_key(key_var_of(provider)) ==> r@ == "  "@ + key_var_of(provider)
            + " = "@ + "(not set)"@,
{
    let var = api_key_var(provider);
    let mut m = chars_of("  ");
    append_str(&mut m, var.as_str());
    append_str(&mut m, " = ");
    match env.get(var.as_str()) {
        Some(val) => {
            let shown = redact(val.as_str());
            append_str(&mut m, shown.as_str());
        },
        None => {
            append_str(&mut m, "(not set)");
        },
    }
    string_from_chars(m)
}

/// The last `limit` lines of the log (all of them when there are fewer).
pub fn tail_lines(body: &str, limit: usize) -> (r: Vec<String>)
    ensures
        ({
            let ls = text_lines(body@);
            let start = if ls.len() > limit {
                ls.len() - limit
            } else {
                0
            };
            r@.map_values(|s: String| s@) == ls.skip(start)
        }),
{
    let text = chars_of(body);
    let ls = lines_of(text.as_slice());
    let n = ls.len();
    let start = if n > limit {
        n - limit
    } else {
        0
    };
    let mut out: Vec<String> = Vec::new();
    let mut i: usize = start;
    while i < n
        invariant
            start <= i <= n,
            n == ls@.len(),
            out@.map_values(|s: String| s@) == views(ls@).subrange(start as int, i as int),
        decreases n - i,
    {
        let line = string_from_chars(ls[i].clone());
        let ghost before = out@;
        let ghost lv = line@;
        out.push(line);
        assert(out@.map_values(|s: String| s@) =~= before.map_values(|s: String| s@).push(lv));
        assert(views(ls@)[i as int] == ls@[i as int]@);
        assert(out@.map_values(|s: String| s@) =~= views(ls@).subrange(start as int, i + 1));
        i = i + 1;
    }
    assert(views(ls@).subrange(start as int, n as int) =~= views(ls@).skip(start as int));
    out
}

} // verus!

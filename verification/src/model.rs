//! The catalog of local Whisper models: lookup, install locations, and the
//! checksum check on a downloaded model.
use vstd::prelude::*;

use crate::config::{cache_dir, join_path, joined, no_dirs_error, ProjectPaths};
use crate::env::EnvVars;
use crate::error::{error_view, ErrorKind, KnightError};
use crate::text::{append_chars, append_str, chars_of, eq_chars, string_from_chars};

verus! {

/// A downloadable model of the catalog.
#[derive(Debug)]
pub struct Model {
    pub alias: String,
    pub filename: String,
    pub url: String,
    pub sha256: String,
    pub size_mb: u32,
    pub vram_mb: u32,
    pub language: String,
    pub recommended_for: String,
}

impl Clone for Model {
    fn clone(&self) -> (r: Model)
        ensures
            r == *self,
    {
        Model {
            alias: self.alias.clone(),
            filename: self.filename.clone(),
            url: self.url.clone(),
            sha256: self.sha256.clone(),
            size_mb: self.size_mb,
            vram_mb: self.vram_mb,
            language: self.language.clone(),
            recommended_for: self.recommended_for.clone(),
        }
    }
}

/// The index of the first model with `alias`, if any.
pub open spec fn first_with_alias(catalog: Seq<Model>, alias: Seq<char>) -> Option<int>
    decreases catalog.len(),
{
    if catalog.len() == 0 {
        None
    } else {
        match first_with_alias(catalog.drop_last(), alias) {
            Some(i) => Some(i),
            None => if catalog.last().alias@ == alias {
                Some(catalog.len() - 1)
            } else {
                None
            },
        }
    }
}

/// The first model of the catalog whose alias is `alias`.
pub fn find(catalog: &[Model], alias: &str) -> (r: Option<Model>)
    ensures
        match first_with_alias(catalog@, alias@) {
            Some(i) => r == Some(catalog@[i]),
            None => r is None,
        },
{
    let a = chars_of(alias);
    let mut i: usize = 0;
    while i < catalog.len()
        invariant
            i <= catalog.len(),
            a@ == alias@,
            first_with_alias(catalog@.take(i as int), alias@) is None,
        decreases catalog.len() - i,
    {
        let ghost t = catalog@.take(i + 1);
        assert(t.drop_last() =~= catalog@.take(i as int));
        let name = chars_of(catalog[i].alias.as_str());
        if eq_chars(name.as_slice(), a.as_slice()) {
            proof {
                lemma_first_with_alias_prefix(catalog@, alias@, i + 1);
            }
            return Some(catalog[i].clone());
        }
        i = i + 1;
    }
    assert(catalog@.take(catalog.len() as int) =~= catalog@);
    None
}

proof fn lemma_first_with_alias_prefix(c: Seq<Model>, alias: Seq<char>, k: int)
    requires
        0 <= k <= c.len(),
        first_with_alias(c.take(k), alias) is Some,
    ensures
        first_with_alias(c, alias) == first_with_alias(c.take(k), alias),
    decreases c.len() - k,
{
    if k < c.len() {
        assert(c.take(k + 1).drop_last() =~= c.take(k));
        lemma_first_with_alias_prefix(c, alias, k + 1);
    } else {
        assert(c.take(k) =~= c);
    }
}

/// Where models are stored: `KNIGHTINGALE_MODEL_DIR`, else `models` in the
/// cache directory.
pub open spec fn models_dir_of(env: Map<Seq<char>, Seq<char>>, cache: Option<Seq<char>>) -> Result<
    Seq<char>,
    (ErrorKind, Seq<char>),
> {
    if env.contains_key("KNIGHTINGALE_MODEL_DIR"@) {
        Ok(env["KNIGHTINGALE_MODEL_DIR"@])
    } else {
        match cache {
            Some(c) => Ok(joined(c, "models"@)),
            None => Err(no_dirs_error()),
        }
    }
}

/// The directory that holds downloaded models.
pub fn models_dir(env: &EnvVars, dirs: Option<&ProjectPaths>) -> (r: Result<String, KnightError>)
    requires
        env.wf(),
    ensures
        match r {
            Ok(p) => models_dir_of(env@, crate::config::cache_of(dirs)) == Ok::<Seq<char>, (ErrorKind, Seq<char>)>(p@),
            Err(e) => models_dir_of(env@, crate::config::cache_of(dirs)) == Err::<Seq<char>, (ErrorKind, Seq<char>)>(error_view(e)),
        },
{
    if let Some(p) = env.get("KNIGHTINGALE_MODEL_DIR") {
        return Ok(p);
    }
    let cache = cache_dir(dirs)?;
    Ok(join_path(cache.as_str(), "models"))
}

/// Where `model` is installed inside `models_dir`.
pub fn local_path(models_dir: &str, model: &Model) -> (r: String)
    ensures
        r@ == joined(models_dir@, model.filename@),
{
    join_path(models_dir, model.filename.as_str())
}

/// The SHA-256 digest of a byte sequence. Named rather than stated: the
/// hash is defined by FIPS 180-4.
pub uninterp spec fn sha256(data: Seq<u8>) -> Seq<u8>;

/// The SHA-256 digest of `data`.
///
/// Wraps `sha2::Sha256::digest`. The contract claims that the result is
/// the digest of exactly these bytes and is 32 bytes long.
#[verifier::external_body]
fn sha256_digest(data: &[u8]) -> (r: Vec<u8>)
    ensures
        r@ == sha256(data@),
        r@.len() == 32,
{
    <sha2::Sha256 as sha2::Digest>::digest(data).to_vec()
}

pub open spec fn hex_digit(n: int) -> char {
    if n < 10 {
        ((('0' as int) + n) as u32) as char
    } else {
        ((('a' as int) + n - 10) as u32) as char
    }
}

/// Lower-case hexadecimal, two digits per byte.
pub open spec fn hex_lower(bytes: Seq<u8>) -> Seq<char>
    decreases bytes.len(),
{
    if bytes.len() == 0 {
        Seq::empty()
    } else {
        hex_lower(bytes.drop_last()) + seq![
            hex_digit(bytes.last() as int / 16),
            hex_digit(bytes.last() as int % 16),
        ]
    }
}

fn hex_char(n: u8) -> (r: char)
    requires
        n < 16,
    ensures
        r == hex_digit(n as int),
{
    if n < 10 {
        (48u8 + n) as char
    } else {
        (87u8 + n) as char
    }
}

/// Formats bytes as lower-case hexadecimal.
pub fn to_hex_lower(bytes: &[u8]) -> (r: Vec<char>)
    ensures
        r@ == hex_lower(bytes@),
{
    let mut out: Vec<char> = Vec::new();
    let mut i: usize = 0;
    while i < bytes.len()
        invariant
            i <= bytes.len(),
            out@ == hex_lower(bytes@.take(i as int)),
        decreases bytes.len() - i,
    {
        let b = bytes[i];
        let ghost t = bytes@.take(i + 1);
        assert(t.drop_last() =~= bytes@.take(i as int));
        out.push(hex_char(b / 16));
        out.push(hex_char(b % 16));
        i = i + 1;
    }
    assert(bytes@.take(bytes.len() as int) =~= bytes@);
    out
}

/// Whether every character is `0` (true of the empty sequence).
pub open spec fn all_zeros(s: Seq<char>) -> bool {
    forall|i: int| 0 <= i < s.len() ==> s[i] == '0'
}

/// Whether a download whose digest is `got` must be rejected: the catalog
/// gives a checksum that differs from it and is not a placeholder of zeros.
pub open spec fn checksum_rejects(expected: Seq<char>, got: Seq<char>) -> bool {
    expected.len() > 0 && expected != got && !all_zeros(expected)
}

/// The error for a download whose checksum does not match.
pub open spec fn mismatch_message(alias: Seq<char>, expected: Seq<char>, got: Seq<char>) -> Seq<char> {
    "sha256 mismatch for "@ + alias + ": expected "@ + expected + ", got "@ + got
}

fn is_all_zeros(s: &[char]) -> (r: bool)
    ensures
        r == all_zeros(s@),
{
    let mut i: usize = 0;
    while i < s.len()
        invariant
            i <= s.len(),
            forall|k: int| 0 <= k < i ==> s@[k] == '0',
        decreases s.len() - i,
    {
        if s[i] != '0' {
            return false;
        }
        i = i + 1;
    }
    true
}

/// Checks a downloaded model against the catalog's SHA-256 checksum.
pub fn verify_download(model: &Model, data: &[u8]) -> (r: Result<(), KnightError>)
    ensures
        ({
            let got = hex_lower(sha256(data@));
            &&& r is Err <==> checksum_rejects(model.sha256@, got)
            &&& r is Err ==> error_view(r->Err_0) == (
                ErrorKind::Other,
                mismatch_message(model.alias@, model.sha256@, got),
            )
        }),
{
    let digest = sha256_digest(data);
    let got = to_hex_lower(digest.as_slice());
    let expected = chars_of(model.sha256.as_str());
    if expected.len() > 0 && !eq_chars(expected.as_slice(), got.as_slice()) && !is_all_zeros(
        expected.as_slice(),
    ) {
        let mut m = chars_of("sha256 mismatch for ");
        append_str(&mut m, model.alias.as_str());
        append_str(&mut m, ": expected ");
        append_chars(&mut m, expected.as_slice());
        append_str(&mut m, ", got ");
        append_chars(&mut m, got.as_slice());
        return Err(KnightError::Other(string_from_chars(m)));
    }
    Ok(())
}

/// The error for an alias the catalog does not know.
pub open spec fn unknown_alias_message(alias: Seq<char>) -> Seq<char> {
    "unknown model alias: "@ + alias
}

/// Looks up the model to download, failing for an unknown alias.
pub fn model_to_pull(catalog: &[Model], alias: &str) -> (r: Result<Model, KnightError>)
    ensures
        match first_with_alias(catalog@, alias@) {
            Some(i) => r == Ok::<Model, KnightError>(catalog@[i]),
            None => r is Err && error_view(r->Err_0) == (
                ErrorKind::ModelMissing,
                unknown_alias_message(alias@),
            ),
        },
{
    match find(catalog, alias) {
        Some(m) => Ok(m),
        None => {
            let mut msg = chars_of("unknown model alias: ");
            append_str(&mut msg, alias);
            Err(KnightError::ModelMissing(string_from_chars(msg)))
        },
    }
}


/// The error for a download that the server refused.
pub fn download_failure(alias: &str, status_line: &str) -> (r: KnightError)
    ensures
        error_view(r) == (ErrorKind::Network, "download "@ + alias@ + ": HTTP "@ + status_line@),
{
    let mut m = chars_of("download ");
    append_str(&mut m, alias);
    append_str(&mut m, ": HTTP ");
    append_str(&mut m, status_line);
    KnightError::Network(string_from_chars(m))
}

} // verus!

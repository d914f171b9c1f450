//! Speech-to-text providers: their defaults, how a client is configured
//! from the environment, and how a provider's reply is turned into a result.
use vstd::prelude::*;

use core::time::Duration;

use crate::env::EnvVars;
use crate::error::{error_view, ErrorKind, KnightError};
use crate::report::rows2_view;
use crate::text::{
    append_str, chars_of, eq_str, lowercase, owned, string_from_chars, to_lowercase, trim,
    trim_chars,
};

verus! {

/// Backend that turns a WAV blob into a text transcript.
pub trait Transcriber: Send {
    fn transcribe(&self, wav: &[u8], language: &str) -> Result<String, KnightError>;
}

/// Push-driven incremental transcription: open, push 16 kHz mono PCM
/// chunks, then finish to get the final transcript.
pub trait StreamingTranscriber: Send {
    /// Open the connection. Returns when the server has acknowledged.
    fn begin(&mut self) -> Result<(), KnightError>;

    /// Push a chunk of 16 kHz mono i16 PCM.
    fn push(&mut self, samples: &[i16]) -> Result<(), KnightError>;

    /// Close the connection and return the final transcript.
    fn finish(&mut self) -> Result<String, KnightError>;
}

/// A speech-to-text provider.
#[derive(Debug, Clone, Copy, PartialEq, Eq, Hash, Structural)]
pub enum Provider {
    Groq,
    Openai,
    Deepinfra,
    Fireworks,
    Lemonfox,
    Sambanova,
    Azure,
    Custom,
    Local,
}

pub open spec fn base_url_of(p: Provider) -> Option<Seq<char>> {
    match p {
        Provider::Groq => Some("https://api.groq.com/openai/v1"@),
        Provider::Openai => Some("https://api.openai.com/v1"@),
        Provider::Deepinfra => Some("https://api.deepinfra.com/v1/openai"@),
        Provider::Fireworks => Some("https://api.fireworks.ai/inference/v1"@),
        Provider::Lemonfox => Some("https://api.lemonfox.ai/v1"@),
        Provider::Sambanova => Some("https://api.sambanova.ai/v1"@),
        Provider::Azure | Provider::Custom | Provider::Local => None,
    }
}

pub open spec fn model_of(p: Provider) -> Seq<char> {
    match p {
        Provider::Groq => "whisper-large-v3-turbo"@,
        Provider::Openai => "whisper-1"@,
        Provider::Deepinfra => "openai/whisper-large-v3-turbo"@,
        Provider::Fireworks => "whisper-v3-turbo"@,
        Provider::Lemonfox => "whisper-1"@,
        Provider::Sambanova => "Whisper-Large-v3"@,
        Provider::Azure => ""@,
        Provider::Custom => ""@,
        Provider::Local => "distil-small.en"@,
    }
}

pub open spec fn prefix_of(p: Provider) -> Seq<char> {
    match p {
        Provider::Groq => "GROQ"@,
        Provider::Openai => "OPENAI"@,
        Provider::Deepinfra => "DEEPINFRA"@,
        Provider::Fireworks => "FIREWORKS"@,
        Provider::Lemonfox => "LEMONFOX"@,
        Provider::Sambanova => "SAMBANOVA"@,
        Provider::Azure => "AZURE_OPENAI"@,
        Provider::Custom => "CUSTOM"@,
        Provider::Local => "KNIGHTINGALE"@,
    }
}

pub open spec fn name_of(p: Provider) -> Seq<char> {
    match p {
        Provider::Groq => "groq"@,
        Provider::Openai => "openai"@,
        Provider::Deepinfra => "deepinfra"@,
        Provider::Fireworks => "fireworks"@,
        Provider::Lemonfox => "lemonfox"@,
        Provider::Sambanova => "sambanova"@,
        Provider::Azure => "azure"@,
        Provider::Custom => "custom"@,
        Provider::Local => "local"@,
    }
}

/// The provider a lower-cased name selects, if any.
pub open spec fn provider_named(name: Seq<char>) -> Option<Provider> {
    if name == "groq"@ {
        Some(Provider::Groq)
    } else if name == "openai"@ {
        Some(Provider::Openai)
    } else if name == "deepinfra"@ {
        Some(Provider::Deepinfra)
    } else if name == "fireworks"@ {
        Some(Provider::Fireworks)
    } else if name == "lemonfox"@ {
        Some(Provider::Lemonfox)
    } else if name == "sambanova"@ {
        Some(Provider::Sambanova)
    } else if name == "azure"@ {
        Some(Provider::Azure)
    } else if name == "custom"@ {
        Some(Provider::Custom)
    } else if name == "local"@ {
        Some(Provider::Local)
    } else {
        None
    }
}

/// The provider selected by `KNIGHTINGALE_PROVIDER` (case-insensitive),
/// Groq when it is unset or names no provider.
pub open spec fn provider_from_env(env: Map<Seq<char>, Seq<char>>) -> Provider {
    if env.contains_key("KNIGHTINGALE_PROVIDER"@) && provider_named(
        lowercase(env["KNIGHTINGALE_PROVIDER"@]),
    ) is Some {
        provider_named(lowercase(env["KNIGHTINGALE_PROVIDER"@]))->Some_0
    } else {
        Provider::Groq
    }
}

/// The provider a lower-cased name selects, if any.
pub fn provider_by_name(name: &[char]) -> (r: Option<Provider>)
    ensures
        r == provider_named(name@),
{
    if eq_str(name, "groq") {
        Some(Provider::Groq)
    } else if eq_str(name, "openai") {
        Some(Provider::Openai)
    } else if eq_str(name, "deepinfra") {
        Some(Provider::Deepinfra)
    } else if eq_str(name, "fireworks") {
        Some(Provider::Fireworks)
    } else if eq_str(name, "lemonfox") {
        Some(Provider::Lemonfox)
    } else if eq_str(name, "sambanova") {
        Some(Provider::Sambanova)
    } else if eq_str(name, "azure") {
        Some(Provider::Azure)
    } else if eq_str(name, "custom") {
        Some(Provider::Custom)
    } else if eq_str(name, "local") {
        Some(Provider::Local)
    } else {
        None
    }
}

/// `s` without its trailing `c` characters.
pub open spec fn strip_trailing(s: Seq<char>, c: char) -> Seq<char>
    decreases s.len(),
{
    if s.len() > 0 && s.last() == c {
        strip_trailing(s.drop_last(), c)
    } else {
        s
    }
}

/// `s` without its trailing slashes (what `trim_end_matches('/')` leaves).
pub fn trim_trailing_slashes(s: &str) -> (r: String)
    ensures
        r@ == strip_trailing(s@, '/'),
{
    let mut v = chars_of(s);
    while v.len() > 0 && v[v.len() - 1] == '/'
        invariant
            strip_trailing(v@, '/') == strip_trailing(s@, '/'),
        decreases v.len(),
    {
        let _ = v.pop();
    }
    string_from_chars(v)
}

impl Provider {
    /// The provider chosen in the environment; Groq by default.
    pub fn from_env(env: &EnvVars) -> (r: Provider)
        requires
            env.wf(),
        ensures
            r == provider_from_env(env@),
    {
        match env.get("KNIGHTINGALE_PROVIDER") {
            Some(v) => {
                let low = to_lowercase(v.as_str());
                let name = chars_of(low.as_str());
                match provider_by_name(name.as_slice()) {
                    Some(p) => p,
                    None => Provider::Groq,
                }
            },
            None => Provider::Groq,
        }
    }

    /// The provider's public OpenAI-compatible base URL, if it has one.
    pub fn default_base_url(self) -> (r: Option<&'static str>)
        ensures
            r is Some <==> base_url_of(self) is Some,
            r is Some ==> r->Some_0@ == base_url_of(self)->Some_0,
    {
        match self {
            Provider::Groq => Some("https://api.groq.com/openai/v1"),
            Provider::Openai => Some("https://api.openai.com/v1"),
            Provider::Deepinfra => Some("https://api.deepinfra.com/v1/openai"),
            Provider::Fireworks => Some("https://api.fireworks.ai/inference/v1"),
            Provider::Lemonfox => Some("https://api.lemonfox.ai/v1"),
            Provider::Sambanova => Some("https://api.sambanova.ai/v1"),
            Provider::Azure | Provider::Custom => None,
            Provider::Local => None,
        }
    }

    /// The model used when none is configured.
    pub fn default_model(self) -> (r: &'static str)
        ensures
            r@ == model_of(self),
    {
        match self {
            Provider::Groq => "whisper-large-v3-turbo",
            Provider::Openai => "whisper-1",
            Provider::Deepinfra => "openai/whisper-large-v3-turbo",
            Provider::Fireworks => "whisper-v3-turbo",
            Provider::Lemonfox => "whisper-1",
            Provider::Sambanova => "Whisper-Large-v3",
            Provider::Azure => "",
            Provider::Custom => "",
            Provider::Local => "distil-small.en",
        }
    }

    /// The prefix of the provider's environment variables.
    pub fn env_prefix(self) -> (r: &'static str)
        ensures
            r@ == prefix_of(self),
    {
        match self {
            Provider::Groq => "GROQ",
            Provider::Openai => "OPENAI",
            Provider::Deepinfra => "DEEPINFRA",
            Provider::Fireworks => "FIREWORKS",
            Provider::Lemonfox => "LEMONFOX",
            Provider::Sambanova => "SAMBANOVA",
            Provider::Azure => "AZURE_OPENAI",
            Provider::Custom => "CUSTOM",
            Provider::Local => "KNIGHTINGALE",
        }
    }

    /// The provider's lower-case name.
    pub fn as_str(self) -> (r: &'static str)
        ensures
            r@ == name_of(self),
    {
        match self {
            Provider::Groq => "groq",
            Provider::Openai => "openai",
            Provider::Deepinfra => "deepinfra",
            Provider::Fireworks => "fireworks",
            Provider::Lemonfox => "lemonfox",
            Provider::Sambanova => "sambanova",
            Provider::Azure => "azure",
            Provider::Custom => "custom",
            Provider::Local => "local",
        }
    }

    /// Builds an OpenAI-compatible client from the environment. Returns
    /// `None` for the local backend, which does not use the OpenAI shape.
    pub fn build_openai_client(self, env: &EnvVars) -> (r: Result<Option<OpenAiClient>, KnightError>)
        requires
            env.wf(),
        ensures
            client_result_view(r) == client_from_env(self, env@),
    {
        match self {
            Provider::Local => Ok(None),
            Provider::Azure => Err(
                KnightError::Config(owned("azure uses a separate adapter; not yet wired")),
            ),
            Provider::Custom => {
                let base_url = match env.get("CUSTOM_BASE_URL") {
                    Some(v) => v,
                    None => {
                        return Err(
                            KnightError::Config(
                                owned("CUSTOM_BASE_URL is required for custom provider"),
                            ),
                        );
                    },
                };
                let api_key = match env.get("CUSTOM_API_KEY") {
                    Some(v) => v,
                    None => String::new(),
                };
                let model = match env.get("CUSTOM_MODEL") {
                    Some(v) => v,
                    None => {
                        return Err(
                            KnightError::Config(owned("CUSTOM_MODEL is required for custom provider")),
                        );
                    },
                };
                Ok(Some(OpenAiClient::new(base_url.as_str(), api_key, model.as_str())))
            },
            _ => {
                let mut key_var = chars_of(self.env_prefix());
                append_str(&mut key_var, "_API_KEY");
                let key_name = string_from_chars(key_var);
                let api_key = match env.get(key_name.as_str()) {
                    Some(v) => v,
                    None => {
                        let mut m = chars_of(key_name.as_str());
                        append_str(&mut m, " not set");
                        return Err(KnightError::Auth(string_from_chars(m)));
                    },
                };
                let base_url = match self.default_base_url() {
                    Some(u) => u,
                    None => "",
                };
                proof {
                    if base_url_of(self) is None {
                        reveal_strlit("");
                    }
                }
                let mut model_var = chars_of(self.env_prefix());
                append_str(&mut model_var, "_MODEL");
                let model_name = string_from_chars(model_var);
                let model = match env.get(model_name.as_str()) {
                    Some(v) => v,
                    None => owned(self.default_model()),
                };
                Ok(Some(OpenAiClient::new(base_url, api_key, model.as_str())))
            },
        }
    }
}

/// The seconds-long duration `secs` (what `Duration::from_secs` returns).
pub uninterp spec fn seconds(secs: u64) -> Duration;

/// A duration of `secs` whole seconds.
///
/// Wraps `Duration::from_secs`; the contract claims only that the result
/// is determined by `secs`.
#[verifier::external_body]
pub(crate) fn duration_from_secs(secs: u64) -> (d: Duration)
    ensures
        d == seconds(secs),
{
    Duration::from_secs(secs)
}

/// An OpenAI-compatible transcription client's configuration.
pub struct OpenAiClient {
    pub base_url: String,
    pub api_key: String,
    pub model: String,
    pub timeout: Duration,
}

/// What an OpenAI-compatible client is configured with.
pub struct ClientView {
    pub base_url: Seq<char>,
    pub api_key: Seq<char>,
    pub model: Seq<char>,
    pub timeout: Duration,
}

impl View for OpenAiClient {
    type V = ClientView;

    open spec fn view(&self) -> ClientView {
        ClientView {
            base_url: self.base_url@,
            api_key: self.api_key@,
            model: self.model@,
            timeout: self.timeout,
        }
    }
}

/// The client made from a base URL (trailing slashes dropped), a key and a
/// model, with a sixty-second timeout.
pub open spec fn client_view(base: Seq<char>, key: Seq<char>, model: Seq<char>) -> ClientView {
    ClientView { base_url: strip_trailing(base, '/'), api_key: key, model, timeout: seconds(60) }
}

/// The client the environment configures for a provider, or the error.
pub open spec fn client_from_env(p: Provider, env: Map<Seq<char>, Seq<char>>) -> Result<
    Option<ClientView>,
    (ErrorKind, Seq<char>),
> {
    match p {
        Provider::Local => Ok(None),
        Provider::Azure => Err((ErrorKind::Config, "azure uses a separate adapter; not yet wired"@)),
        Provider::Custom => if !env.contains_key("CUSTOM_BASE_URL"@) {
            Err((ErrorKind::Config, "CUSTOM_BASE_URL is required for custom provider"@))
        } else if !env.contains_key("CUSTOM_MODEL"@) {
            Err((ErrorKind::Config, "CUSTOM_MODEL is required for custom provider"@))
        } else {
            Ok(
                Some(
                    client_view(
                        env["CUSTOM_BASE_URL"@],
                        if env.contains_key("CUSTOM_API_KEY"@) {
                            env["CUSTOM_API_KEY"@]
                        } else {
                            Seq::empty()
                        },
                        env["CUSTOM_MODEL"@],
                    ),
                ),
            )
        },
        _ => {
            let key_var = prefix_of(p) + "_API_KEY"@;
            let model_var = prefix_of(p) + "_MODEL"@;
            if !env.contains_key(key_var) {
                Err((ErrorKind::Auth, key_var + " not set"@))
            } else {
                Ok(
                    Some(
                        client_view(
                            match base_url_of(p) {
                                Some(u) => u,
                                None => Seq::empty(),
                            },
                            env[key_var],
                            if env.contains_key(model_var) {
                                env[model_var]
                            } else {
                                model_of(p)
                            },
                        ),
                    ),
                )
            }
        },
    }
}

pub open spec fn client_result_view(r: Result<Option<OpenAiClient>, KnightError>) -> Result<
    Option<ClientView>,
    (ErrorKind, Seq<char>),
> {
    match r {
        Ok(Some(c)) => Ok(Some(c@)),
        Ok(None) => Ok(None),
        Err(e) => Err(error_view(e)),
    }
}

impl OpenAiClient {
    /// A client for `base_url` (trailing slashes dropped) with a sixty-second
    /// timeout.
    pub fn new(base_url: &str, api_key: String, model: &str) -> (r: OpenAiClient)
        ensures
            r@ == client_view(base_url@, api_key@, model@),
    {
        OpenAiClient {
            base_url: trim_trailing_slashes(base_url),
            api_key,
            model: owned(model),
            timeout: duration_from_secs(60),
        }
    }

    /// The transcription endpoint.
    pub fn endpoint(&self) -> (r: String)
        ensures
            r@ == self.base_url@ + "/audio/transcriptions"@,
    {
        let mut m = chars_of(self.base_url.as_str());
        append_str(&mut m, "/audio/transcriptions");
        string_from_chars(m)
    }

    /// The text fields of the transcription form, in order; the WAV file
    /// goes alongside them.
    pub fn form_fields(&self, language: &str) -> (r: Vec<(String, String)>)
        ensures
            rows2_view(r@) == seq![
                ("model"@, self.model@),
                ("language"@, language@),
                ("response_format"@, "json"@),
            ],
    {
        let mut v: Vec<(String, String)> = Vec::new();
        v.push((owned("model"), self.model.clone()));
        v.push((owned("language"), owned(language)));
        v.push((owned("response_format"), owned("json")));
        assert(rows2_view(v@) =~= seq![
            ("model"@, self.model@),
            ("language"@, language@),
            ("response_format"@, "json"@),
        ]);
        v
    }
}

/// An Azure OpenAI client's configuration: a deployment-keyed endpoint.
pub struct AzureClient {
    pub endpoint: String,
    pub api_key: String,
    pub deployment: String,
    pub api_version: String,
    pub timeout: Duration,
}

/// What an Azure client is configured with.
pub struct AzureView {
    pub endpoint: Seq<char>,
    pub api_key: Seq<char>,
    pub deployment: Seq<char>,
    pub api_version: Seq<char>,
    pub timeout: Duration,
}

impl View for AzureClient {
    type V = AzureView;

    open spec fn view(&self) -> AzureView {
        AzureView {
            endpoint: self.endpoint@,
            api_key: self.api_key@,
            deployment: self.deployment@,
            api_version: self.api_version@,
            timeout: self.timeout,
        }
    }
}

/// The Azure client the `AZURE_OPENAI_*` variables configure, or the error
/// for the first required one that is missing. The API version defaults to
/// `2024-06-01`.
pub open spec fn azure_from_env(env: Map<Seq<char>, Seq<char>>) -> Result<
    AzureView,
    (ErrorKind, Seq<char>),
> {
    if !env.contains_key("AZURE_OPENAI_ENDPOINT"@) {
        Err((ErrorKind::Config, "AZURE_OPENAI_ENDPOINT not set"@))
    } else if !env.contains_key("AZURE_OPENAI_API_KEY"@) {
        Err((ErrorKind::Auth, "AZURE_OPENAI_API_KEY not set"@))
    } else if !env.contains_key("AZURE_OPENAI_DEPLOYMENT"@) {
        Err((ErrorKind::Config, "AZURE_OPENAI_DEPLOYMENT not set"@))
    } else {
        Ok(
            AzureView {
                endpoint: strip_trailing(env["AZURE_OPENAI_ENDPOINT"@], '/'),
                api_key: env["AZURE_OPENAI_API_KEY"@],
                deployment: env["AZURE_OPENAI_DEPLOYMENT"@],
                api_version: if env.contains_key("AZURE_OPENAI_API_VERSION"@) {
                    env["AZURE_OPENAI_API_VERSION"@]
                } else {
                    "2024-06-01"@
                },
                timeout: seconds(60),
            },
        )
    }
}

impl AzureClient {
    /// A client for `endpoint` (trailing slashes dropped) with a sixty-second
    /// timeout.
    pub fn new(endpoint: &str, api_key: String, deployment: &str, api_version: &str) -> (r:
        AzureClient)
        ensures
            r.endpoint@ == strip_trailing(endpoint@, '/'),
            r.api_key@ == api_key@,
            r.deployment@ == deployment@,
            r.api_version@ == api_version@,
            r.timeout == seconds(60),
    {
        AzureClient {
            endpoint: trim_trailing_slashes(endpoint),
            api_key,
            deployment: owned(deployment),
            api_version: owned(api_version),
            timeout: duration_from_secs(60),
        }
    }

    /// Reads the Azure settings from the environment; the API version
    /// defaults to `2024-06-01`.
    pub fn from_env(env: &EnvVars) -> (r: Result<AzureClient, KnightError>)
        requires
            env.wf(),
        ensures
            match r {
                Ok(c) => azure_from_env(env@) == Ok::<AzureView, (ErrorKind, Seq<char>)>(c@),
                Err(e) => azure_from_env(env@) == Err::<AzureView, (ErrorKind, Seq<char>)>(
                    error_view(e),
                ),
            },
    {
        let endpoint = match env.get("AZURE_OPENAI_ENDPOINT") {
            Some(v) => v,
            None => {
                return Err(KnightError::Config(owned("AZURE_OPENAI_ENDPOINT not set")));
            },
        };
        let api_key = match env.get("AZURE_OPENAI_API_KEY") {
            Some(v) => v,
            None => {
                return Err(KnightError::Auth(owned("AZURE_OPENAI_API_KEY not set")));
            },
        };
        let deployment = match env.get("AZURE_OPENAI_DEPLOYMENT") {
            Some(v) => v,
            None => {
                return Err(KnightError::Config(owned("AZURE_OPENAI_DEPLOYMENT not set")));
            },
        };
        let api_version = match env.get("AZURE_OPENAI_API_VERSION") {
            Some(v) => v,
            None => owned("2024-06-01"),
        };
        Ok(AzureClient::new(endpoint.as_str(), api_key, deployment.as_str(), api_version.as_str()))
    }

    /// The transcription URL:
    /// `{endpoint}/openai/deployments/{deployment}/audio/transcriptions?api-version={version}`.
    pub fn url(&self) -> (r: String)
        ensures
            r@ == self.endpoint@ + "/openai/deployments/"@ + self.deployment@
                + "/audio/transcriptions?api-version="@ + self.api_version@,
    {
        let mut m = chars_of(self.endpoint.as_str());
        append_str(&mut m, "/openai/deployments/");
        append_str(&mut m, self.deployment.as_str());
        append_str(&mut m, "/audio/transcriptions?api-version=");
        append_str(&mut m, self.api_version.as_str());
        string_from_chars(m)
    }

    /// The text fields of the transcription form, in order; the deployment
    /// names the model, and the WAV file goes alongside.
    pub fn form_fields(&self, language: &str) -> (r: Vec<(String, String)>)
        ensures
            rows2_view(r@) == seq![("language"@, language@), ("response_format"@, "json"@)],
    {
        let mut v: Vec<(String, String)> = Vec::new();
        v.push((owned("language"), owned(language)));
        v.push((owned("response_format"), owned("json")));
        assert(rows2_view(v@) =~= seq![("language"@, language@), ("response_format"@, "json"@)]);
        v
    }
}

/// The error for a transcription request that the provider answered with
/// a failure status: rejected credentials (401, 403) are an authentication
/// error, anything else a network error. The message is the status line and
/// the body.
pub open spec fn failure_view(status: u16, status_line: Seq<char>, body: Seq<char>) -> (
    ErrorKind,
    Seq<char>,
) {
    (
        if status == 401 || status == 403 {
            ErrorKind::Auth
        } else {
            ErrorKind::Network
        },
        status_line + ": "@ + body,
    )
}

/// Classifies a failed transcription reply.
pub fn transcription_failure(status: u16, status_line: &str, body: &str) -> (r: KnightError)
    ensures
        error_view(r) == failure_view(status, status_line@, body@),
{
    let mut m = chars_of(status_line);
    append_str(&mut m, ": ");
    append_str(&mut m, body);
    let text = string_from_chars(m);
    if status == 401 || status == 403 {
        KnightError::Auth(text)
    } else {
        KnightError::Network(text)
    }
}

/// The transcript of a local decode: the segments' texts joined, trimmed.
pub fn transcript_from_segments(segments: &[String]) -> (r: String)
    ensures
        r@ == trim(concat_all(segments@)),
{
    let mut all: Vec<char> = Vec::new();
    let mut i: usize = 0;
    while i < segments.len()
        invariant
            i <= segments.len(),
            all@ == concat_all(segments@.take(i as int)),
        decreases segments.len() - i,
    {
        append_str(&mut all, segments[i].as_str());
        assert(segments@.take(i + 1).drop_last() =~= segments@.take(i as int));
        i = i + 1;
    }
    assert(segments@.take(segments.len() as int) =~= segments@);
    string_from_chars(trim_chars(all.as_slice()))
}

/// The texts of `segs`, one after another.
pub open spec fn concat_all(segs: Seq<String>) -> Seq<char>
    decreases segs.len(),
{
    if segs.len() == 0 {
        Seq::empty()
    } else {
        concat_all(segs.drop_last()) + segs.last()@
    }
}

/// The transcript returned to the caller: the provider's text, trimmed.
pub fn transcript(text: &str) -> (r: String)
    ensures
        r@ == trim(text@),
{
    let v = chars_of(text);
    string_from_chars(trim_chars(v.as_slice()))
}

/// A transcription client: an OpenAI-compatible one, or an Azure
/// deployment.
pub enum TranscriberClient {
    OpenAi(OpenAiClient),
    Azure(AzureClient),
}

/// What a transcription client is configured with.
pub enum ClientChoice {
    OpenAi(ClientView),
    Azure(AzureView),
}

impl View for TranscriberClient {
    type V = ClientChoice;

    open spec fn view(&self) -> ClientChoice {
        match self {
            TranscriberClient::OpenAi(c) => ClientChoice::OpenAi(c@),
            TranscriberClient::Azure(c) => ClientChoice::Azure(c@),
        }
    }
}

/// What `build_transcriber` yields for a provider: the local backend is not
/// wired yet; Azure gets the client of its `AZURE_OPENAI_*` variables; the
/// others get an OpenAI-compatible client.
pub open spec fn transcriber_from_env(p: Provider, env: Map<Seq<char>, Seq<char>>) -> Result<
    ClientChoice,
    (ErrorKind, Seq<char>),
> {
    match p {
        Provider::Local => Err(
            (ErrorKind::ModelMissing, "local backend not yet wired; configure a cloud provider for now"@),
        ),
        Provider::Azure => match azure_from_env(env) {
            Ok(c) => Ok(ClientChoice::Azure(c)),
            Err(e) => Err(e),
        },
        _ => match client_from_env(p, env) {
            Err(e) => Err(e),
            Ok(Some(c)) => Ok(ClientChoice::OpenAi(c)),
            Ok(None) => Err((ErrorKind::Config, "no client for provider "@ + name_of(p))),
        },
    }
}

/// Builds the transcription client for `provider` from the environment.
pub fn build_transcriber(provider: Provider, env: &EnvVars) -> (r: Result<TranscriberClient, KnightError>)
    requires
        env.wf(),
    ensures
        match r {
            Ok(c) => transcriber_from_env(provider, env@) == Ok::<ClientChoice, (ErrorKind, Seq<char>)>(c@),
            Err(e) => transcriber_from_env(provider, env@) == Err::<ClientChoice, (ErrorKind, Seq<char>)>(error_view(e)),
        },
{
    match provider {
        Provider::Local => Err(
            KnightError::ModelMissing(
                owned("local backend not yet wired; configure a cloud provider for now"),
            ),
        ),
        Provider::Azure => match AzureClient::from_env(env) {
            Ok(c) => Ok(TranscriberClient::Azure(c)),
            Err(e) => Err(e),
        },
        other => match other.build_openai_client(env) {
            Err(e) => Err(e),
            Ok(Some(c)) => Ok(TranscriberClient::OpenAi(c)),
            Ok(None) => {
                let mut m = chars_of("no client for provider ");
                append_str(&mut m, other.as_str());
                Err(KnightError::Config(string_from_chars(m)))
            },
        },
    }
}


/// Every provider is selected again by its own name.
pub proof fn lemma_provider_name_round_trip(p: Provider)
    ensures
        provider_named(name_of(p)) == Some(p),
{
    reveal_strlit("groq");
    reveal_strlit("openai");
    reveal_strlit("deepinfra");
    reveal_strlit("fireworks");
    reveal_strlit("lemonfox");
    reveal_strlit("sambanova");
    reveal_strlit("azure");
    reveal_strlit("custom");
    reveal_strlit("local");
    match p {
        Provider::Groq => {
        },
        Provider::Openai => {
            assert("openai"@[0] != "groq"@[0]);
        },
        Provider::Deepinfra => {
            assert("deepinfra"@[0] != "groq"@[0]);
            assert("deepinfra"@[0] != "openai"@[0]);
        },
        Provider::Fireworks => {
            assert("fireworks"@[0] != "groq"@[0]);
            assert("fireworks"@[0] != "openai"@[0]);
            assert("fireworks"@[0] != "deepinfra"@[0]);
        },
        Provider::Lemonfox => {
            assert("lemonfox"@[0] != "groq"@[0]);
            assert("lemonfox"@[0] != "openai"@[0]);
            assert("lemonfox"@[0] != "deepinfra"@[0]);
            assert("lemonfox"@[0] != "fireworks"@[0]);
        },
        Provider::Sambanova => {
            assert("sambanova"@[0] != "groq"@[0]);
            assert("sambanova"@[0] != "openai"@[0]);
            assert("sambanova"@[0] != "deepinfra"@[0]);
            assert("sambanova"@[0] != "fireworks"@[0]);
            assert("sambanova"@[0] != "lemonfox"@[0]);
        },
        Provider::Azure => {
            assert("azure"@[0] != "groq"@[0]);
            assert("azure"@[0] != "openai"@[0]);
            assert("azure"@[0] != "deepinfra"@[0]);
            assert("azure"@[0] != "fireworks"@[0]);
            assert("azure"@[0] != "lemonfox"@[0]);
            assert("azure"@[0] != "sambanova"@[0]);
        },
        Provider::Custom => {
            assert("custom"@[0] != "groq"@[0]);
            assert("custom"@[0] != "openai"@[0]);
            assert("custom"@[0] != "deepinfra"@[0]);
            assert("custom"@[0] != "fireworks"@[0]);
            assert("custom"@[0] != "lemonfox"@[0]);
            assert("custom"@[0] != "sambanova"@[0]);
            assert("custom"@[0] != "azure"@[0]);
        },
        Provider::Local => {
            assert("local"@[0] != "groq"@[0]);
            assert("local"@[0] != "openai"@[0]);
            assert("local"@[0] != "deepinfra"@[0]);
            assert("local"@[0] != "fireworks"@[0]);
            assert("local"@[1] != "lemonfox"@[1]);
            assert("local"@[0] != "sambanova"@[0]);
            assert("local"@[0] != "azure"@[0]);
            assert("local"@[0] != "custom"@[0]);
        },
    }
}

/// Transcription requests only go where the configuration points: a
/// client built from the environment talks to the provider's documented
/// endpoint, or, for the custom provider, to `CUSTOM_BASE_URL`, or, for
/// Azure, to `AZURE_OPENAI_ENDPOINT`.
pub proof fn lemma_client_endpoint_is_configured(p: Provider, env: Map<Seq<char>, Seq<char>>)
    ensures
        transcriber_from_env(p, env) matches Ok(ClientChoice::OpenAi(c)) ==> c.base_url
            == strip_trailing(
            if p == Provider::Custom {
                env["CUSTOM_BASE_URL"@]
            } else {
                base_url_of(p)->Some_0
            },
            '/',
        ),
        transcriber_from_env(p, env) matches Ok(ClientChoice::OpenAi(c)) ==> p != Provider::Custom
            ==> base_url_of(p) is Some,
        transcriber_from_env(p, env) matches Ok(ClientChoice::Azure(c)) ==> p == Provider::Azure
            && c.endpoint == strip_trailing(env["AZURE_OPENAI_ENDPOINT"@], '/'),
{
}

} // verus!

verus! {

/// A client built from the environment carries the credentials that the
/// environment gives its provider. For the custom provider: the key is the
/// value of `CUSTOM_API_KEY` (empty only when that is unset), the model
/// `CUSTOM_MODEL`, and a client is built whenever `CUSTOM_BASE_URL` and
/// `CUSTOM_MODEL` are set. For the named cloud providers: the key is the
/// value of `<PREFIX>_API_KEY`, the model `<PREFIX>_MODEL` or the
/// provider's default, and a client is built whenever the key is set. The
/// same holds of the OpenAI-compatible client `build_transcriber` gives.
pub proof fn lemma_client_credentials(p: Provider, env: Map<Seq<char>, Seq<char>>)
    ensures
        client_from_env(p, env) matches Ok(Some(c)) ==> {
            &&& p == Provider::Custom ==> {
                &&& c.api_key == (if env.contains_key("CUSTOM_API_KEY"@) {
                    env["CUSTOM_API_KEY"@]
                } else {
                    Seq::<char>::empty()
                })
                &&& c.model == env["CUSTOM_MODEL"@]
            }
            &&& p != Provider::Custom ==> {
                &&& env.contains_key(prefix_of(p) + "_API_KEY"@)
                &&& c.api_key == env[prefix_of(p) + "_API_KEY"@]
                &&& c.model == (if env.contains_key(prefix_of(p) + "_MODEL"@) {
                    env[prefix_of(p) + "_MODEL"@]
                } else {
                    model_of(p)
                })
            }
        },
        p == Provider::Custom && env.contains_key("CUSTOM_BASE_URL"@) && env.contains_key(
            "CUSTOM_MODEL"@,
        ) ==> client_from_env(p, env) is Ok && client_from_env(p, env)->Ok_0 is Some,
        p != Provider::Custom && p != Provider::Local && p != Provider::Azure && env.contains_key(
            prefix_of(p) + "_API_KEY"@,
        ) ==> client_from_env(p, env) is Ok && client_from_env(p, env)->Ok_0 is Some,
        transcriber_from_env(p, env) matches Ok(ClientChoice::OpenAi(c)) ==> client_from_env(p, env)
            == Ok::<Option<ClientView>, (ErrorKind, Seq<char>)>(Some(c)),
{
}

} // verus!

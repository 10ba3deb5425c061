//! Gateway configuration: how it is derived from the environment's values and
//! the addresses built from it.

use vstd::prelude::*;
use vstd::string::*;
use crate::text::{decimal, lemma_decimal_parses_back, parse_unsigned, parse_unsigned_bounded, push_decimal};

verus! {

/// Settings of the gateway and of the `llama-server` it runs.
pub struct AppConfig {
    pub bind_host: String,
    pub bind_port: u16,
    pub models_dir: String,
    pub llama_server_bin: String,
    pub llama_host: String,
    pub llama_port: u16,
    pub default_ctx_size: u32,
    pub default_threads: u32,
    pub default_n_gpu_layers: String,
    pub upstream_timeout_secs: u64,
}

/// The raw values of the environment variables the configuration is read
/// from (`None` where a variable is unset or not valid Unicode).
pub struct EnvVars {
    /// `RUST_CORE_HOST`
    pub rust_core_host: Option<String>,
    /// `RUST_CORE_PORT`
    pub rust_core_port: Option<String>,
    /// `MODELS_DIR`
    pub models_dir: Option<String>,
    /// `LLAMA_SERVER_BIN`
    pub llama_server_bin: Option<String>,
    /// `LLAMA_HOST`
    pub llama_host: Option<String>,
    /// `LLAMA_PORT`
    pub llama_port: Option<String>,
    /// `LLAMA_CTX_SIZE`
    pub llama_ctx_size: Option<String>,
    /// `LLAMA_THREADS`
    pub llama_threads: Option<String>,
    /// `LLAMA_N_GPU_LAYERS`
    pub llama_n_gpu_layers: Option<String>,
    /// `UPSTREAM_TIMEOUT_SECS`
    pub upstream_timeout_secs: Option<String>,
}

/// A text setting: the variable's value, or `default` where it is unset.
pub open spec fn text_or(v: Option<String>, default: Seq<char>) -> Seq<char> {
    match v {
        Some(s) => s@,
        None => default,
    }
}

/// A numeric setting: the variable's value parsed as an unsigned integer no
/// larger than `max`, or `default` where it is unset or does not parse.
pub open spec fn number_or(v: Option<String>, max: int, default: int) -> int {
    match v {
        Some(s) => match parse_unsigned(s@, max) {
            Some(n) => n,
            None => default,
        },
        None => default,
    }
}

fn text_setting(v: Option<String>, default: &str) -> (r: String)
    ensures
        r@ == text_or(v, default@),
{
    match v {
        Some(s) => s,
        None => default.to_owned(),
    }
}

fn number_setting(v: &Option<String>, max: u64, default: u64) -> (r: u64)
    requires
        default <= max,
    ensures
        r == number_or(*v, max as int, default as int),
        r <= max,
{
    match v {
        Some(s) => match parse_unsigned_bounded(s.as_str(), max) {
            Some(n) => n,
            None => default,
        },
        None => default,
    }
}

impl AppConfig {
    /// The configuration given the environment's values: each setting is its
    /// variable's value, parsed for numbers, or the default where the variable
    /// is unset or (for a number) does not parse.
    pub fn from_env_vars(vars: EnvVars) -> (r: AppConfig)
        ensures
            r.bind_host@ == text_or(vars.rust_core_host, "0.0.0.0"@),
            r.bind_port == number_or(vars.rust_core_port, u16::MAX as int, 8081),
            r.models_dir@ == text_or(vars.models_dir, "/models"@),
            r.llama_server_bin@ == text_or(vars.llama_server_bin, "/usr/local/bin/llama-server"@),
            r.llama_host@ == text_or(vars.llama_host, "127.0.0.1"@),
            r.llama_port == number_or(vars.llama_port, u16::MAX as int, 8091),
            r.default_ctx_size == number_or(vars.llama_ctx_size, u32::MAX as int, 4096),
            r.default_threads == number_or(vars.llama_threads, u32::MAX as int, 8),
            r.default_n_gpu_layers@ == text_or(vars.llama_n_gpu_layers, "0"@),
            r.upstream_timeout_secs == number_or(vars.upstream_timeout_secs, u64::MAX as int, 180),
    {
        let bind_port = number_setting(&vars.rust_core_port, 65535, 8081) as u16;
        let llama_port = number_setting(&vars.llama_port, 65535, 8091) as u16;
        let ctx = number_setting(&vars.llama_ctx_size, 4294967295, 4096) as u32;
        let threads = number_setting(&vars.llama_threads, 4294967295, 8) as u32;
        let timeout = number_setting(&vars.upstream_timeout_secs, u64::MAX, 180);
        AppConfig {
            bind_host: text_setting(vars.rust_core_host, "0.0.0.0"),
            bind_port,
            models_dir: text_setting(vars.models_dir, "/models"),
            llama_server_bin: text_setting(vars.llama_server_bin, "/usr/local/bin/llama-server"),
            llama_host: text_setting(vars.llama_host, "127.0.0.1"),
            llama_port,
            default_ctx_size: ctx,
            default_threads: threads,
            default_n_gpu_layers: text_setting(vars.llama_n_gpu_layers, "0"),
            upstream_timeout_secs: timeout,
        }
    }

    /// `http://<llama_host>:<llama_port>`.
    pub open spec fn spec_llama_base_url(&self) -> Seq<char> {
        "http://"@ + self.llama_host@ + ":"@ + decimal(self.llama_port as nat)
    }

    /// `<bind_host>:<bind_port>`.
    pub open spec fn spec_bind_addr(&self) -> Seq<char> {
        self.bind_host@ + ":"@ + decimal(self.bind_port as nat)
    }

    /// The base URL of the `llama-server` this gateway runs.
    pub fn llama_base_url(&self) -> (r: String)
        ensures
            r@ == self.spec_llama_base_url(),
    {
        let mut s = "http://".to_owned();
        s.append(self.llama_host.as_str());
        s.append(":");
        push_decimal(&mut s, self.llama_port as u64);
        s
    }

    /// The address the gateway listens on.
    pub fn bind_addr(&self) -> (r: String)
        ensures
            r@ == self.spec_bind_addr(),
    {
        let mut s = self.bind_host.clone();
        s.append(":");
        push_decimal(&mut s, self.bind_port as u64);
        s
    }

    /// The health endpoint of `llama-server`: the base URL and `/health`.
    pub fn llama_health_url(&self) -> (r: String)
        ensures
            r@ == self.spec_llama_base_url() + "/health"@,
    {
        let mut s = self.llama_base_url();
        s.append("/health");
        s
    }

    /// The chat completion endpoint of `llama-server`: the base URL and
    /// `/v1/chat/completions`.
    pub fn chat_completions_url(&self) -> (r: String)
        ensures
            r@ == self.spec_llama_base_url() + "/v1/chat/completions"@,
    {
        let mut s = self.llama_base_url();
        s.append("/v1/chat/completions");
        s
    }
}

/// A numeric setting whose variable holds the decimal text of a value that
/// fits the setting's type is that value; an unset variable gives the
/// default.
pub proof fn lemma_number_setting_reads_decimal(s: String, n: nat, max: int, default: int)
    requires
        s@ == decimal(n),
        n <= max,
    ensures
        number_or(Some(s), max, default) == n,
        number_or(None, max, default) == default,
{
    lemma_decimal_parses_back(n, max);
}

/// A text setting is the variable's value when it is set, and the default
/// only when it is unset.
pub proof fn lemma_text_setting_meaning(s: String, default: Seq<char>)
    ensures
        text_or(Some(s), default) == s@,
        text_or(None, default) == default,
{
}

} // verus!

//! The values the gateway answers with and the requests it takes, as plain
//! data.

use vstd::prelude::*;

verus! {

/// Answer of the health endpoint.
pub struct HealthResponse {
    pub status: String,
    pub llama_server_running: bool,
    pub current_model: Option<String>,
    pub last_working_model: Option<String>,
}

/// One model file found in the models directory.
pub struct ModelInfo {
    pub name: String,
    pub path: String,
    pub loaded: bool,
}

/// Answer of the models endpoint.
pub struct ModelsResponse {
    pub models: Vec<ModelInfo>,
    pub current_model: Option<String>,
    pub last_working_model: Option<String>,
}

/// Request to load a model; absent settings fall back to the configuration.
pub struct LoadRequest {
    pub model: String,
    pub ctx_size: Option<u32>,
    pub threads: Option<u32>,
    pub n_gpu_layers: Option<String>,
}

/// Answer of a successful load.
pub struct LoadResponse {
    pub status: String,
    pub current_model: String,
    pub llama_url: String,
}

/// The part of a generate request that decides which model answers and what
/// it is sent (the sampling settings travel beside it).
pub struct GenerateParams {
    pub prompt: String,
    pub max_tokens: Option<u32>,
    pub model: Option<String>,
    pub system: Option<String>,
}

/// Answer of a successful generate.
pub struct GenerateResponse {
    pub model: String,
    pub output: String,
    pub finish_reason: Option<String>,
    pub fallback_used: bool,
}

/// Answer of the unload endpoint.
pub struct UnloadResponse {
    pub status: String,
}

/// Body of every error answer.
pub struct ErrorResponse {
    pub error: String,
    pub message: String,
}

/// One message of a chat completion request.
pub struct ChatMessage {
    pub role: String,
    pub content: String,
}

/// A chat completion request to `llama-server`, without its sampling
/// settings.
pub struct ChatRequest {
    pub model: String,
    pub messages: Vec<ChatMessage>,
    pub max_tokens: u32,
    pub stream: bool,
}

/// One choice of a chat completion answer.
pub struct ChatChoice {
    pub content: String,
    pub finish_reason: Option<String>,
}

} // verus!

//! The answers of the health and unload endpoints.

use vstd::prelude::*;
use crate::dto::{HealthResponse, UnloadResponse};

verus! {

/// The gateway is `UP` when no model is meant to run or its server answers;
/// it is `DEGRADED` when a model is meant to run and its server does not.
pub open spec fn health_status(has_current_model: bool, llama_server_running: bool) -> Seq<char> {
    if !has_current_model || llama_server_running {
        "UP"@
    } else {
        "DEGRADED"@
    }
}

/// The answer of the health endpoint, given the runtime's models and whether
/// `llama-server` answered its health check with success.
pub fn health_response(
    current_model: Option<String>,
    last_working_model: Option<String>,
    llama_server_running: bool,
) -> (r: HealthResponse)
    ensures
        r.status@ == health_status(current_model is Some, llama_server_running),
        r.llama_server_running == llama_server_running,
        r.current_model == current_model,
        r.last_working_model == last_working_model,
{
    let status = if current_model.is_none() || llama_server_running {
        "UP".to_owned()
    } else {
        "DEGRADED".to_owned()
    };
    HealthResponse { status, llama_server_running, current_model, last_working_model }
}

/// The answer of the unload endpoint.
pub fn unload_response() -> (r: UnloadResponse)
    ensures
        r.status@ == "unloaded"@,
{
    UnloadResponse { status: "unloaded".to_owned() }
}

/// The gateway reports `UP` exactly when no model is meant to run or its
/// server answers, and `DEGRADED` otherwise.
pub proof fn lemma_health_status_meaning(has_current_model: bool, llama_server_running: bool)
    ensures
        health_status(has_current_model, llama_server_running) == (if !has_current_model
            || llama_server_running {
            "UP"@
        } else {
            "DEGRADED"@
        }),
        !has_current_model ==> health_status(has_current_model, llama_server_running) == "UP"@,
        has_current_model ==> (health_status(has_current_model, llama_server_running) == "UP"@
            <==> llama_server_running),
{
    reveal_strlit("UP");
    reveal_strlit("DEGRADED");
    assert("UP"@.len() != "DEGRADED"@.len());
}

} // verus!

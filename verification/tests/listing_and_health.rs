use rust_core::error::AppError;
use rust_core::handlers::{health_response, unload_response};
use rust_core::models::{DirEntryInfo, list_models};

fn entry(name: &[u8], is_file: bool) -> DirEntryInfo {
    DirEntryInfo {
        file_name: name.to_vec(),
        path: format!("/models/{}", String::from_utf8_lossy(name)),
        is_file,
    }
}

#[test]
fn health_is_up_without_model() {
    let r = health_response(None, Some("a.gguf".to_string()), false);
    assert_eq!(r.status, "UP");
    assert!(!r.llama_server_running);
    assert_eq!(r.current_model, None);
    assert_eq!(r.last_working_model.as_deref(), Some("a.gguf"));
}

#[test]
fn health_is_up_with_running_model() {
    let r = health_response(Some("a.gguf".to_string()), None, true);
    assert_eq!(r.status, "UP");
    assert!(r.llama_server_running);
}

#[test]
fn health_is_degraded_when_model_server_down() {
    let r = health_response(Some("a.gguf".to_string()), Some("a.gguf".to_string()), false);
    assert_eq!(r.status, "DEGRADED");
}

#[test]
fn unload_answer() {
    assert_eq!(unload_response().status, "unloaded");
}

#[test]
fn listing_filters_sorts_and_marks_current() {
    let entries = vec![
        entry(b"zeta.gguf", true),
        entry(b"notes.txt", true),
        entry(b"alpha.gguf", true),
        entry(b"dir.gguf", false),
        entry(b".gguf", true),
        entry(b"Beta.gguf", true),
        entry(b"model.GGUF", true),
        entry(b"x.tar.gguf", true),
    ];
    let r = list_models(&entries, Some("alpha.gguf".to_string()), Some("zeta.gguf".to_string()));
    let names: Vec<&str> = r.models.iter().map(|m| m.name.as_str()).collect();
    assert_eq!(names, vec!["Beta.gguf", "alpha.gguf", "x.tar.gguf", "zeta.gguf"]);
    let loaded: Vec<bool> = r.models.iter().map(|m| m.loaded).collect();
    assert_eq!(loaded, vec![false, true, false, false]);
    assert_eq!(r.models[1].path, "/models/alpha.gguf");
    assert_eq!(r.current_model.as_deref(), Some("alpha.gguf"));
    assert_eq!(r.last_working_model.as_deref(), Some("zeta.gguf"));
}

#[test]
fn listing_of_empty_directory() {
    let r = list_models(&Vec::new(), None, None);
    assert!(r.models.is_empty());
    assert!(r.current_model.is_none());
}

#[test]
fn listing_names_non_utf8_file_empty() {
    let entries = vec![entry(b"b\xffad.gguf", true), entry(b"ok.gguf", true)];
    let r = list_models(&entries, None, None);
    let names: Vec<&str> = r.models.iter().map(|m| m.name.as_str()).collect();
    assert_eq!(names, vec!["", "ok.gguf"]);
}

#[test]
fn error_answers() {
    let cases = [
        (AppError::Internal("x".to_string()), 500, "internal_error"),
        (AppError::NotFound("x".to_string()), 404, "not_found"),
        (AppError::BadRequest("x".to_string()), 400, "bad_request"),
        (AppError::Upstream("x".to_string()), 502, "upstream_error"),
    ];
    for (e, code, kind) in cases {
        assert_eq!(e.status_code(), code);
        let body = e.to_error_response();
        assert_eq!(body.error, kind);
        assert_eq!(body.message, "x");
    }
}

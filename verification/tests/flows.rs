use rust_core::config::{AppConfig, EnvVars};
use rust_core::dto::{ChatChoice, GenerateParams, LoadRequest, LoadResponse};
use rust_core::error::AppError;
use rust_core::generate_flow::{GenerateAction, GenerateFlow, UpstreamReply, build_messages};
use rust_core::llama_process::{HealthPoll, PollAction, build_llama_command};
use rust_core::load_flow::{LoadAction, LoadFlow, model_path};
use rust_core::state::RuntimeState;

fn config() -> AppConfig {
    AppConfig::from_env_vars(EnvVars {
        rust_core_host: None,
        rust_core_port: None,
        models_dir: None,
        llama_server_bin: None,
        llama_host: None,
        llama_port: None,
        llama_ctx_size: None,
        llama_threads: None,
        llama_n_gpu_layers: None,
        upstream_timeout_secs: None,
    })
}

fn load_req(model: &str) -> LoadRequest {
    LoadRequest { model: model.to_string(), ctx_size: None, threads: None, n_gpu_layers: None }
}

fn params(prompt: &str, model: Option<&str>, system: Option<&str>) -> GenerateParams {
    GenerateParams {
        prompt: prompt.to_string(),
        max_tokens: None,
        model: model.map(|m| m.to_string()),
        system: system.map(|s| s.to_string()),
    }
}

#[test]
fn launch_arguments() {
    let c = config();
    let l = build_llama_command(&c, "/models/a.gguf", 2048, 4, "999");
    assert_eq!(l.program, "/usr/local/bin/llama-server");
    assert_eq!(
        l.args,
        vec!["-m", "/models/a.gguf", "--host", "127.0.0.1", "--port", "8091", "-c", "2048", "-t", "4", "--n-gpu-layers", "999"]
    );
}

#[test]
fn health_poll_succeeds_on_second_probe() {
    let (mut p, a) = HealthPoll::start("http://h:1", 3, 500);
    assert!(matches!(a, PollAction::Probe(ref u) if u == "http://h:1/health"));
    assert!(matches!(p.on_probe(false), PollAction::Sleep(500)));
    assert!(matches!(p.on_slept(), PollAction::Probe(_)));
    assert!(matches!(p.on_probe(true), PollAction::Finish(Ok(()))));
    assert_eq!(p.probes_done, 2);
}

#[test]
fn health_poll_gives_up_after_retries() {
    let (mut p, a) = HealthPoll::start("http://h:1", 2, 10);
    assert!(matches!(a, PollAction::Probe(_)));
    let mut probes = 1;
    let mut action = p.on_probe(false);
    loop {
        action = match action {
            PollAction::Sleep(_) => p.on_slept(),
            PollAction::Probe(_) => {
                probes += 1;
                p.on_probe(false)
            }
            PollAction::Finish(r) => {
                match r {
                    Err(AppError::Upstream(m)) => assert_eq!(m, "llama-server did not become healthy in time"),
                    _ => panic!("expected an upstream error"),
                }
                break;
            }
        };
    }
    assert_eq!(probes, 2);
}

#[test]
fn health_poll_with_no_retries_fails_at_once() {
    let (_p, a) = HealthPoll::start("http://h:1", 0, 10);
    assert!(matches!(a, PollAction::Finish(Err(AppError::Upstream(_)))));
}

#[test]
fn runtime_unload_keeps_last_working() {
    let mut rt: RuntimeState<u32> = RuntimeState::new();
    rt.record_started(7, "a.gguf".to_string());
    rt.record_healthy("a.gguf".to_string());
    assert_eq!(rt.take_for_unload(), Some(7));
    assert_eq!(rt.current_model, None);
    assert_eq!(rt.last_working_model.as_deref(), Some("a.gguf"));
    assert_eq!(rt.take_for_unload(), None);
    assert_eq!(rt.last_working_model.as_deref(), Some("a.gguf"));
}

#[test]
fn load_missing_model_is_not_found() {
    let c = config();
    let (mut f, a) = LoadFlow::start(&c, load_req("x.gguf"));
    assert!(matches!(a, LoadAction::CheckModelFile(ref p) if p == "/models/x.gguf"));
    match f.on_model_checked(false) {
        LoadAction::Finish(Err(AppError::NotFound(m))) => assert_eq!(m, "model 'x.gguf' not found in /models"),
        _ => panic!("expected not found"),
    }
}

#[test]
fn load_success_path() {
    let c = config();
    let mut rt: RuntimeState<u32> = RuntimeState::new();
    let req = LoadRequest { model: "a.gguf".to_string(), ctx_size: Some(1024), threads: None, n_gpu_layers: Some("5".to_string()) };
    let (mut f, a) = LoadFlow::start(&c, req);
    assert!(matches!(a, LoadAction::CheckModelFile(ref p) if p == "/models/a.gguf"));
    assert_eq!(f.launch.args[1], "/models/a.gguf");
    assert!(matches!(f.on_model_checked(true), LoadAction::Unload));
    assert_eq!(f.ctx_size, 1024);
    assert_eq!(f.threads, 8);
    assert_eq!(f.n_gpu_layers, "5");
    assert!(matches!(f.on_unloaded(), LoadAction::Spawn));
    assert_eq!(f.launch.args[7], "1024");
    match f.on_spawned(Ok(42), &mut rt) {
        LoadAction::WaitHealthy { base_url, retries, delay_ms } => {
            assert_eq!(base_url, "http://127.0.0.1:8091");
            assert_eq!(retries, 60);
            assert_eq!(delay_ms, 500);
        }
        _ => panic!("expected a health wait"),
    }
    assert_eq!(rt.child, Some(42));
    assert_eq!(rt.current_model.as_deref(), Some("a.gguf"));
    assert_eq!(rt.last_working_model, None);
    match f.on_health(Ok(()), &mut rt) {
        LoadAction::Finish(Ok(r)) => {
            assert_eq!(r.status, "loaded");
            assert_eq!(r.current_model, "a.gguf");
            assert_eq!(r.llama_url, "http://127.0.0.1:8091");
        }
        _ => panic!("expected success"),
    }
    assert_eq!(rt.last_working_model.as_deref(), Some("a.gguf"));
}

#[test]
fn load_spawn_failure_is_internal() {
    let c = config();
    let mut rt: RuntimeState<u32> = RuntimeState::new();
    let (mut f, _) = LoadFlow::start(&c, load_req("a.gguf"));
    f.on_model_checked(true);
    f.on_unloaded();
    match f.on_spawned(Err("no such file".to_string()), &mut rt) {
        LoadAction::Finish(Err(AppError::Internal(m))) => assert_eq!(m, "failed to start llama-server: no such file"),
        _ => panic!("expected internal error"),
    }
    assert_eq!(rt.current_model, None);
}

#[test]
fn load_unhealthy_unloads_then_fails() {
    let c = config();
    let mut rt: RuntimeState<u32> = RuntimeState::new();
    rt.record_healthy("old.gguf".to_string());
    let (mut f, _) = LoadFlow::start(&c, load_req("a.gguf"));
    f.on_model_checked(true);
    f.on_unloaded();
    f.on_spawned(Ok(1), &mut rt);
    let a = f.on_health(Err(AppError::Upstream("late".to_string())), &mut rt);
    assert!(matches!(a, LoadAction::Unload));
    assert_eq!(rt.take_for_unload(), Some(1));
    match f.on_unloaded() {
        LoadAction::Finish(Err(AppError::Upstream(m))) => assert_eq!(m, "late"),
        _ => panic!("expected the health failure"),
    }
    assert_eq!(rt.current_model, None);
    assert_eq!(rt.last_working_model.as_deref(), Some("old.gguf"));
}

#[test]
fn generate_blank_prompt_is_bad_request() {
    let (_f, a) = GenerateFlow::start(params(" \n\t", Some("a.gguf"), None));
    match a {
        GenerateAction::Finish(Err(AppError::BadRequest(m))) => assert_eq!(m, "prompt must not be empty"),
        _ => panic!("expected bad request"),
    }
}

#[test]
fn generate_with_current_model() {
    let (mut f, a) = GenerateFlow::start(params("Hello", None, Some("Be brief")));
    assert!(matches!(a, GenerateAction::ReadRuntime));
    match f.on_runtime(Some("a.gguf".to_string()), None) {
        GenerateAction::CallUpstream(req) => {
            assert_eq!(req.model, "local-model");
            assert_eq!(req.max_tokens, 256);
            assert!(!req.stream);
            assert_eq!(req.messages.len(), 2);
            assert_eq!(req.messages[0].role, "system");
            assert_eq!(req.messages[0].content, "Be brief");
            assert_eq!(req.messages[1].role, "user");
            assert_eq!(req.messages[1].content, "Hello");
        }
        _ => panic!("expected an upstream call"),
    }
    let choice = ChatChoice { content: "Hi".to_string(), finish_reason: Some("stop".to_string()) };
    match f.on_upstream(UpstreamReply::Parsed(vec![choice])) {
        GenerateAction::Finish(Ok(r)) => {
            assert_eq!(r.model, "a.gguf");
            assert_eq!(r.output, "Hi");
            assert_eq!(r.finish_reason.as_deref(), Some("stop"));
            assert!(!r.fallback_used);
        }
        _ => panic!("expected an answer"),
    }
}

#[test]
fn generate_falls_back_to_last_working_model() {
    let (mut f, _) = GenerateFlow::start(params("Hello", None, None));
    match f.on_runtime(None, Some("w.gguf".to_string())) {
        GenerateAction::LoadModel(lr) => {
            assert_eq!(lr.model, "w.gguf");
            assert!(lr.ctx_size.is_none() && lr.threads.is_none() && lr.n_gpu_layers.is_none());
        }
        _ => panic!("expected a fallback load"),
    }
    let loaded = LoadResponse { status: "loaded".to_string(), current_model: "w.gguf".to_string(), llama_url: "u".to_string() };
    assert!(matches!(f.on_loaded(Ok(loaded)), GenerateAction::CallUpstream(_)));
    let choice = ChatChoice { content: "out".to_string(), finish_reason: None };
    match f.on_upstream(UpstreamReply::Parsed(vec![choice])) {
        GenerateAction::Finish(Ok(r)) => {
            assert_eq!(r.model, "w.gguf");
            assert!(r.fallback_used);
        }
        _ => panic!("expected an answer"),
    }
}

#[test]
fn generate_without_any_model_is_bad_request() {
    let (mut f, _) = GenerateFlow::start(params("Hello", None, None));
    match f.on_runtime(None, None) {
        GenerateAction::Finish(Err(AppError::BadRequest(m))) => {
            assert_eq!(m, "no model loaded and no fallback model available")
        }
        _ => panic!("expected bad request"),
    }
}

#[test]
fn generate_loads_requested_model_when_not_current() {
    let (mut f, _) = GenerateFlow::start(params("Hello", Some("b.gguf"), None));
    match f.on_runtime(Some("a.gguf".to_string()), None) {
        GenerateAction::LoadModel(lr) => assert_eq!(lr.model, "b.gguf"),
        _ => panic!("expected a load"),
    }
    let loaded = LoadResponse { status: "loaded".to_string(), current_model: "b.gguf".to_string(), llama_url: "u".to_string() };
    assert!(matches!(f.on_loaded(Ok(loaded)), GenerateAction::ReadRuntime));
    assert!(matches!(f.on_runtime(Some("b.gguf".to_string()), Some("b.gguf".to_string())), GenerateAction::CallUpstream(_)));
}

#[test]
fn generate_requested_current_model_needs_no_load() {
    let (mut f, _) = GenerateFlow::start(params("Hello", Some("a.gguf"), None));
    assert!(matches!(f.on_runtime(Some("a.gguf".to_string()), None), GenerateAction::CallUpstream(_)));
}

#[test]
fn generate_load_failure_ends_request() {
    let (mut f, _) = GenerateFlow::start(params("Hello", Some("b.gguf"), None));
    f.on_runtime(None, None);
    match f.on_loaded(Err(AppError::NotFound("gone".to_string()))) {
        GenerateAction::Finish(Err(AppError::NotFound(m))) => assert_eq!(m, "gone"),
        _ => panic!("expected the load error"),
    }
}

#[test]
fn generate_upstream_failures() {
    let cases = vec![
        (UpstreamReply::SendFailed("refused".to_string()), "failed to call llama-server: refused"),
        (UpstreamReply::ErrorStatus("busy".to_string()), "llama-server returned non-success status: busy"),
        (UpstreamReply::Malformed("eof".to_string()), "invalid llama-server response: eof"),
        (UpstreamReply::Parsed(Vec::new()), "llama-server returned empty choices"),
    ];
    for (reply, expected) in cases {
        let (mut f, _) = GenerateFlow::start(params("Hello", None, None));
        f.on_runtime(Some("a.gguf".to_string()), None);
        match f.on_upstream(reply) {
            GenerateAction::Finish(Err(AppError::Upstream(m))) => assert_eq!(m, expected),
            _ => panic!("expected an upstream error"),
        }
    }
}

#[test]
fn blank_system_message_is_dropped() {
    let m = build_messages(&Some("   ".to_string()), &"Hi".to_string());
    assert_eq!(m.len(), 1);
    assert_eq!(m[0].role, "user");
    let m = build_messages(&None, &"Hi".to_string());
    assert_eq!(m.len(), 1);
}

#[test]
fn model_path_joins_like_std_path() {
    let cases = [
        ("/models", "a.gguf"),
        ("/models/", "a.gguf"),
        ("", "a.gguf"),
        ("/models", "/abs/b.gguf"),
        ("models", "sub/c.gguf"),
        ("/models", ""),
        ("/", "x"),
    ];
    for (dir, name) in cases {
        let expected = std::path::PathBuf::from(dir).join(name).to_string_lossy().into_owned();
        assert_eq!(model_path(dir, name), expected, "{:?} {:?}", dir, name);
    }
}

#[test]
fn listing_after_successful_load_marks_that_model() {
    use_listing_after_load();
}

fn use_listing_after_load() {
    let c = config();
    let mut rt: RuntimeState<u32> = RuntimeState::new();
    let (mut f, _) = LoadFlow::start(&c, load_req("b.gguf"));
    f.on_model_checked(true);
    f.on_unloaded();
    f.on_spawned(Ok(3), &mut rt);
    f.on_health(Ok(()), &mut rt);
    let (current, last) = rt.models_snapshot();
    let entries = vec![
        rust_core::models::DirEntryInfo { file_name: b"a.gguf".to_vec(), path: "/models/a.gguf".to_string(), is_file: true },
        rust_core::models::DirEntryInfo { file_name: b"b.gguf".to_vec(), path: "/models/b.gguf".to_string(), is_file: true },
    ];
    let r = rust_core::models::list_models(&entries, current, last);
    let loaded: Vec<(&str, bool)> = r.models.iter().map(|m| (m.name.as_str(), m.loaded)).collect();
    assert_eq!(loaded, vec![("a.gguf", false), ("b.gguf", true)]);
    assert_eq!(r.current_model.as_deref(), Some("b.gguf"));
    assert_eq!(r.last_working_model.as_deref(), Some("b.gguf"));
    assert_eq!(rt.child.is_some(), rt.current_model.is_some());
}

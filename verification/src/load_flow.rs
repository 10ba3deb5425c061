//! The steps of loading a model: check the file, unload what runs, start
//! `llama-server`, wait for it to be healthy, and clean up on failure.

use vstd::prelude::*;
use vstd::string::*;
use crate::config::AppConfig;
use crate::dto::{LoadRequest, LoadResponse};
use crate::error::AppError;
use crate::llama_process::{build_llama_command, launch_args, LaunchSpec};
use crate::state::{healthy, started, RuntimeState};

verus! {

/// How many health probes a load waits for.
pub const HEALTH_RETRIES: u32 = 60;

/// The pause after a failed health probe, in milliseconds.
pub const HEALTH_DELAY_MS: u64 = 500;

/// The message when the requested model file does not exist.
pub open spec fn not_found_message(model: Seq<char>, models_dir: Seq<char>) -> Seq<char> {
    "model '"@ + model + "' not found in "@ + models_dir
}

/// The message when `llama-server` could not be started.
pub open spec fn spawn_failed_message(detail: Seq<char>) -> Seq<char> {
    "failed to start llama-server: "@ + detail
}

/// The context size a load uses: the requested one, else the configured one.
pub open spec fn load_ctx_size(config: AppConfig, req: LoadRequest) -> u32 {
    match req.ctx_size {
        Some(c) => c,
        None => config.default_ctx_size,
    }
}

/// The thread count a load uses: the requested one, else the configured one.
pub open spec fn load_threads(config: AppConfig, req: LoadRequest) -> u32 {
    match req.threads {
        Some(t) => t,
        None => config.default_threads,
    }
}

/// The GPU layer setting a load uses: the requested one, else the configured
/// one.
pub open spec fn load_n_gpu_layers(config: AppConfig, req: LoadRequest) -> Seq<char> {
    match req.n_gpu_layers {
        Some(n) => n@,
        None => config.default_n_gpu_layers@,
    }
}

/// The path of `name` in the directory `dir`, as std's `Path::join` forms
/// it on Unix: an absolute `name` (starting with `/`) replaces `dir`;
/// otherwise `name` follows `dir`, with a `/` between them unless `dir` is
/// empty or already ends in `/`.
pub open spec fn joined_path(dir: Seq<char>, name: Seq<char>) -> Seq<char> {
    if name.len() > 0 && name[0] == '/' {
        name
    } else if dir.len() == 0 || dir.last() == '/' {
        dir + name
    } else {
        dir + "/"@ + name
    }
}

/// The path of the model file `model` in the models directory `models_dir`.
pub fn model_path(models_dir: &str, model: &str) -> (r: String)
    ensures
        r@ == joined_path(models_dir@, model@),
{
    let model_len = model.unicode_len();
    if model_len > 0 && model.get_char(0) == '/' {
        return model.to_owned();
    }
    let dir_len = models_dir.unicode_len();
    let mut r = models_dir.to_owned();
    if dir_len > 0 && models_dir.get_char(dir_len - 1) != '/' {
        r.append("/");
    }
    r.append(model);
    r
}

/// What the caller of a load does next.
pub enum LoadAction {
    /// Report whether a file exists at this path.
    CheckModelFile(String),
    /// Unload what runs (take the process out of the runtime state and stop
    /// it), then report.
    Unload,
    /// Start the flow's `launch` command, then report the process or the
    /// start error.
    Spawn,
    /// Wait for `llama-server` at this base URL to be healthy, then report.
    WaitHealthy { base_url: String, retries: u32, delay_ms: u64 },
    /// The load is over, with this outcome.
    Finish(Result<LoadResponse, AppError>),
}

/// Where a load stands.
pub enum LoadStage {
    AwaitCheck,
    AwaitUnload,
    AwaitSpawn,
    AwaitHealth,
    AwaitCleanup,
    Done,
}

/// A load in progress.
pub struct LoadFlow {
    pub model: String,
    pub models_dir: String,
    pub model_path: String,
    pub launch: LaunchSpec,
    pub ctx_size: u32,
    pub threads: u32,
    pub n_gpu_layers: String,
    pub base_url: String,
    pub stage: LoadStage,
    pub failure: Option<AppError>,
}

impl LoadFlow {
    /// A failure is kept exactly while the cleanup unload runs.
    pub open spec fn wf(&self) -> bool {
        self.stage is AwaitCleanup <==> self.failure is Some
    }

    /// Starts loading `req.model`: the model file is `req.model` joined to
    /// the models directory, the settings are fixed (request, else
    /// configuration), and the file is checked first.
    pub fn start(config: &AppConfig, req: LoadRequest) -> (r: (LoadFlow, LoadAction))
        ensures
            r.0.wf(),
            r.0.stage is AwaitCheck,
            r.0.model@ == req.model@,
            r.0.models_dir@ == config.models_dir@,
            r.0.model_path@ == joined_path(config.models_dir@, req.model@),
            r.1 matches LoadAction::CheckModelFile(p) && p@ == joined_path(
                config.models_dir@,
                req.model@,
            ),
            r.0.ctx_size == load_ctx_size(*config, req),
            r.0.threads == load_threads(*config, req),
            r.0.n_gpu_layers@ == load_n_gpu_layers(*config, req),
            r.0.base_url@ == config.spec_llama_base_url(),
            r.0.launch.program@ == config.llama_server_bin@,
            r.0.launch.args.deep_view() == launch_args(
                joined_path(config.models_dir@, req.model@),
                config.llama_host@,
                config.llama_port as nat,
                load_ctx_size(*config, req) as nat,
                load_threads(*config, req) as nat,
                load_n_gpu_layers(*config, req),
            ),
    {
        let ctx_size = match req.ctx_size {
            Some(c) => c,
            None => config.default_ctx_size,
        };
        let threads = match req.threads {
            Some(t) => t,
            None => config.default_threads,
        };
        let n_gpu_layers = match req.n_gpu_layers {
            Some(n) => n,
            None => config.default_n_gpu_layers.clone(),
        };
        let path = model_path(config.models_dir.as_str(), req.model.as_str());
        let launch = build_llama_command(
            config,
            path.as_str(),
            ctx_size,
            threads,
            n_gpu_layers.as_str(),
        );
        let check = path.clone();
        let flow = LoadFlow {
            model: req.model,
            models_dir: config.models_dir.clone(),
            model_path: path,
            launch,
            ctx_size,
            threads,
            n_gpu_layers,
            base_url: config.llama_base_url(),
            stage: LoadStage::AwaitCheck,
            failure: None,
        };
        (flow, LoadAction::CheckModelFile(check))
    }

    /// Takes whether the model file exists: a missing file ends the load with
    /// `NotFound`; otherwise what runs is unloaded first.
    pub fn on_model_checked(&mut self, exists: bool) -> (r: LoadAction)
        requires
            old(self).wf(),
            old(self).stage is AwaitCheck,
        ensures
            final(self).wf(),
            final(self).model == old(self).model,
            final(self).launch == old(self).launch,
            final(self).base_url == old(self).base_url,
            !exists ==> final(self).stage is Done && (r matches LoadAction::Finish(
                Err(AppError::NotFound(m)),
            ) && m@ == not_found_message(old(self).model@, old(self).models_dir@)),
            exists ==> final(self).stage is AwaitUnload && r is Unload,
    {
        if !exists {
            let mut msg = "model '".to_owned();
            msg.append(self.model.as_str());
            msg.append("' not found in ");
            msg.append(self.models_dir.as_str());
            self.stage = LoadStage::Done;
            return LoadAction::Finish(Err(AppError::NotFound(msg)));
        }
        self.stage = LoadStage::AwaitUnload;
        LoadAction::Unload
    }

    /// Takes the end of an unload: before the start, go on to start the
    /// server; after a failed health wait, end the load with that failure.
    pub fn on_unloaded(&mut self) -> (r: LoadAction)
        requires
            old(self).wf(),
            old(self).stage is AwaitUnload || old(self).stage is AwaitCleanup,
        ensures
            final(self).wf(),
            final(self).model == old(self).model,
            final(self).launch == old(self).launch,
            final(self).base_url == old(self).base_url,
            old(self).stage is AwaitUnload ==> final(self).stage is AwaitSpawn && r is Spawn,
            old(self).stage is AwaitCleanup ==> final(self).stage is Done && r == LoadAction::Finish(
                Err(old(self).failure.unwrap()),
            ),
    {
        match self.stage {
            LoadStage::AwaitUnload => {
                self.stage = LoadStage::AwaitSpawn;
                LoadAction::Spawn
            },
            _ => {
                let failure = self.failure.take().unwrap();
                self.stage = LoadStage::Done;
                LoadAction::Finish(Err(failure))
            },
        }
    }

    /// Takes the outcome of starting the server: on success the runtime
    /// records the process and the model as current, and the health wait
    /// begins; on failure the load ends with `Internal`.
    pub fn on_spawned<C>(&mut self, outcome: Result<C, String>, rt: &mut RuntimeState<C>) -> (r:
        LoadAction)
        requires
            old(self).wf(),
            old(self).stage is AwaitSpawn,
        ensures
            final(self).wf(),
            final(self).model == old(self).model,
            final(self).base_url == old(self).base_url,
            outcome matches Err(d) ==> {
                &&& final(self).stage is Done
                &&& *final(rt) == *old(rt)
                &&& r matches LoadAction::Finish(Err(AppError::Internal(m)))
                &&& m@ == spawn_failed_message(d@)
            },
            outcome matches Ok(child) ==> {
                &&& final(self).stage is AwaitHealth
                &&& final(rt)@ == started(old(rt)@, child, old(self).model@)
                &&& r matches LoadAction::WaitHealthy { base_url, retries, delay_ms }
                &&& base_url@ == old(self).base_url@
                &&& retries == HEALTH_RETRIES
                &&& delay_ms == HEALTH_DELAY_MS
            },
    {
        match outcome {
            Err(detail) => {
                let mut msg = "failed to start llama-server: ".to_owned();
                msg.append(detail.as_str());
                self.stage = LoadStage::Done;
                LoadAction::Finish(Err(AppError::Internal(msg)))
            },
            Ok(child) => {
                rt.record_started(child, self.model.clone());
                self.stage = LoadStage::AwaitHealth;
                LoadAction::WaitHealthy {
                    base_url: self.base_url.clone(),
                    retries: HEALTH_RETRIES,
                    delay_ms: HEALTH_DELAY_MS,
                }
            },
        }
    }

    /// Takes the outcome of the health wait: when healthy the runtime records
    /// the model as last working and the load succeeds; otherwise the failure
    /// is kept and what runs is unloaded.
    pub fn on_health<C>(&mut self, outcome: Result<(), AppError>, rt: &mut RuntimeState<C>) -> (r:
        LoadAction)
        requires
            old(self).wf(),
            old(self).stage is AwaitHealth,
        ensures
            final(self).wf(),
            final(self).model == old(self).model,
            final(self).base_url == old(self).base_url,
            outcome is Ok ==> {
                &&& final(self).stage is Done
                &&& final(rt)@ == healthy(old(rt)@, old(self).model@)
                &&& r matches LoadAction::Finish(Ok(resp))
                &&& resp.status@ == "loaded"@
                &&& resp.current_model@ == old(self).model@
                &&& resp.llama_url@ == old(self).base_url@
            },
            outcome matches Err(e) ==> {
                &&& final(self).stage is AwaitCleanup
                &&& final(self).failure == Some(e)
                &&& *final(rt) == *old(rt)
                &&& r is Unload
            },
    {
        match outcome {
            Ok(()) => {
                rt.record_healthy(self.model.clone());
                self.stage = LoadStage::Done;
                LoadAction::Finish(
                    Ok(
                        LoadResponse {
                            status: "loaded".to_owned(),
                            current_model: self.model.clone(),
                            llama_url: self.base_url.clone(),
                        },
                    ),
                )
            },
            Err(e) => {
                self.failure = Some(e);
                self.stage = LoadStage::AwaitCleanup;
                LoadAction::Unload
            },
        }
    }
}

/// A load uses each setting the request gives, whatever its value, and the
/// configured default only for a setting the request leaves out.
pub proof fn lemma_load_uses_requested_settings(config: AppConfig, req: LoadRequest)
    ensures
        req.ctx_size matches Some(c) ==> load_ctx_size(config, req) == c,
        req.ctx_size is None ==> load_ctx_size(config, req) == config.default_ctx_size,
        req.threads matches Some(t) ==> load_threads(config, req) == t,
        req.threads is None ==> load_threads(config, req) == config.default_threads,
        req.n_gpu_layers matches Some(n) ==> load_n_gpu_layers(config, req) == n@,
        req.n_gpu_layers is None ==> load_n_gpu_layers(config, req) == config.default_n_gpu_layers@,
{
}

} // verus!

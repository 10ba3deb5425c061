//! How `llama-server` is started and how its health is awaited.

use vstd::prelude::*;
use vstd::string::*;
use crate::config::AppConfig;
use crate::error::AppError;
use crate::text::{decimal, decimal_string, lemma_decimal_parses_back, parse_unsigned};

verus! {

/// A program to start and its arguments.
pub struct LaunchSpec {
    pub program: String,
    pub args: Vec<String>,
}

/// The arguments `llama-server` is started with.
pub open spec fn launch_args(
    model_path: Seq<char>,
    host: Seq<char>,
    port: nat,
    ctx_size: nat,
    threads: nat,
    n_gpu_layers: Seq<char>,
) -> Seq<Seq<char>> {
    seq![
        "-m"@, model_path,
        "--host"@, host,
        "--port"@, decimal(port),
        "-c"@, decimal(ctx_size),
        "-t"@, decimal(threads),
        "--n-gpu-layers"@, n_gpu_layers,
    ]
}

/// The command that starts `llama-server` on `model_path`, listening on the
/// configured host and port, with the given context size, thread count and
/// number of layers offloaded to the GPU.
pub fn build_llama_command(
    config: &AppConfig,
    model_path: &str,
    ctx_size: u32,
    threads: u32,
    n_gpu_layers: &str,
) -> (r: LaunchSpec)
    ensures
        r.program@ == config.llama_server_bin@,
        r.args.deep_view() == launch_args(
            model_path@,
            config.llama_host@,
            config.llama_port as nat,
            ctx_size as nat,
            threads as nat,
            n_gpu_layers@,
        ),
{
    let mut args: Vec<String> = Vec::new();
    args.push("-m".to_owned());
    args.push(model_path.to_owned());
    args.push("--host".to_owned());
    args.push(config.llama_host.clone());
    args.push("--port".to_owned());
    args.push(decimal_string(config.llama_port as u64));
    args.push("-c".to_owned());
    args.push(decimal_string(ctx_size as u64));
    args.push("-t".to_owned());
    args.push(decimal_string(threads as u64));
    args.push("--n-gpu-layers".to_owned());
    args.push(n_gpu_layers.to_owned());
    let r = LaunchSpec { program: config.llama_server_bin.clone(), args };
    assert(r.args.deep_view() =~= launch_args(
        model_path@,
        config.llama_host@,
        config.llama_port as nat,
        ctx_size as nat,
        threads as nat,
        n_gpu_layers@,
    ));
    r
}

/// The message of a health wait that ran out of attempts.
pub open spec fn not_healthy_message() -> Seq<char> {
    "llama-server did not become healthy in time"@
}

/// What the caller of a health wait does next.
pub enum PollAction {
    /// Send a GET to this URL and report whether it answered with success.
    Probe(String),
    /// Sleep this many milliseconds, then report.
    Sleep(u64),
    /// The wait is over, with this outcome.
    Finish(Result<(), AppError>),
}

/// Where a health wait stands.
pub enum PollStage {
    Probing,
    Sleeping,
    Done,
}

/// A wait for `llama-server` to answer its health endpoint: at most
/// `retries` probes, with a sleep of `delay_ms` after each failed one.
pub struct HealthPoll {
    pub url: String,
    pub retries: u32,
    pub delay_ms: u64,
    pub probes_done: u32,
    pub stage: PollStage,
}

impl HealthPoll {
    /// Never more probes than allowed; a probe is pending only while one is
    /// still allowed.
    pub open spec fn wf(&self) -> bool {
        &&& self.probes_done <= self.retries
        &&& self.stage is Probing ==> self.probes_done < self.retries
    }

    /// Starts a wait on `<base_url>/health`: probe at once, or give up at
    /// once when no probe is allowed.
    pub fn start(base_url: &str, retries: u32, delay_ms: u64) -> (r: (HealthPoll, PollAction))
        ensures
            r.0.wf(),
            r.0.url@ == base_url@ + "/health"@,
            r.0.retries == retries,
            r.0.delay_ms == delay_ms,
            r.0.probes_done == 0,
            retries > 0 ==> r.0.stage is Probing && (r.1 matches PollAction::Probe(u) && u@
                == r.0.url@),
            retries == 0 ==> r.0.stage is Done && (r.1 matches PollAction::Finish(
                Err(AppError::Upstream(m)),
            ) && m@ == not_healthy_message()),
    {
        let mut url = base_url.to_owned();
        url.append("/health");
        if retries == 0 {
            let poll = HealthPoll { url, retries, delay_ms, probes_done: 0, stage: PollStage::Done };
            let msg = "llama-server did not become healthy in time".to_owned();
            (poll, PollAction::Finish(Err(AppError::Upstream(msg))))
        } else {
            let probe = url.clone();
            let poll = HealthPoll {
                url,
                retries,
                delay_ms,
                probes_done: 0,
                stage: PollStage::Probing,
            };
            (poll, PollAction::Probe(probe))
        }
    }

    /// Takes the outcome of a probe: success ends the wait, failure sleeps.
    pub fn on_probe(&mut self, healthy: bool) -> (r: PollAction)
        requires
            old(self).wf(),
            old(self).stage is Probing,
        ensures
            final(self).wf(),
            final(self).probes_done == old(self).probes_done + 1,
            final(self).url == old(self).url,
            final(self).retries == old(self).retries,
            final(self).delay_ms == old(self).delay_ms,
            healthy ==> final(self).stage is Done && (r matches PollAction::Finish(Ok(()))),
            !healthy ==> final(self).stage is Sleeping && r == PollAction::Sleep(
                old(self).delay_ms,
            ),
    {
        self.probes_done = self.probes_done + 1;
        if healthy {
            self.stage = PollStage::Done;
            PollAction::Finish(Ok(()))
        } else {
            self.stage = PollStage::Sleeping;
            PollAction::Sleep(self.delay_ms)
        }
    }

    /// Takes the end of a sleep: probe again while probes are left, else
    /// give up.
    pub fn on_slept(&mut self) -> (r: PollAction)
        requires
            old(self).wf(),
            old(self).stage is Sleeping,
        ensures
            final(self).wf(),
            final(self).probes_done == old(self).probes_done,
            final(self).url == old(self).url,
            final(self).retries == old(self).retries,
            final(self).delay_ms == old(self).delay_ms,
            old(self).probes_done < old(self).retries ==> final(self).stage is Probing && (
            r matches PollAction::Probe(u) && u@ == old(self).url@),
            old(self).probes_done >= old(self).retries ==> final(self).stage is Done && (
            r matches PollAction::Finish(Err(AppError::Upstream(m))) && m@
                == not_healthy_message()),
    {
        if self.probes_done < self.retries {
            self.stage = PollStage::Probing;
            PollAction::Probe(self.url.clone())
        } else {
            self.stage = PollStage::Done;
            let msg = "llama-server did not become healthy in time".to_owned();
            PollAction::Finish(Err(AppError::Upstream(msg)))
        }
    }
}

/// The launch arguments carry the inputs unchanged: the model path after
/// `-m`, the host after `--host`, the GPU layer setting after
/// `--n-gpu-layers`, and after `--port`, `-c` and `-t` a text that parses back
/// to exactly the port, context size and thread count given.
pub proof fn lemma_launch_args_carry_inputs(
    model_path: Seq<char>,
    host: Seq<char>,
    port: u16,
    ctx_size: u32,
    threads: u32,
    n_gpu_layers: Seq<char>,
)
    ensures
        ({
            let a = launch_args(
                model_path,
                host,
                port as nat,
                ctx_size as nat,
                threads as nat,
                n_gpu_layers,
            );
            &&& a.len() == 12
            &&& a[0] == "-m"@ && a[1] == model_path
            &&& a[2] == "--host"@ && a[3] == host
            &&& a[4] == "--port"@ && parse_unsigned(a[5], u16::MAX as int) == Some(port as int)
            &&& a[6] == "-c"@ && parse_unsigned(a[7], u32::MAX as int) == Some(ctx_size as int)
            &&& a[8] == "-t"@ && parse_unsigned(a[9], u32::MAX as int) == Some(threads as int)
            &&& a[10] == "--n-gpu-layers"@ && a[11] == n_gpu_layers
        }),
{
    lemma_decimal_parses_back(port as nat, u16::MAX as int);
    lemma_decimal_parses_back(ctx_size as nat, u32::MAX as int);
    lemma_decimal_parses_back(threads as nat, u32::MAX as int);
}

} // verus!

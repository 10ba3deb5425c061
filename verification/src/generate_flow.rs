//! The steps of a generate request: check the prompt, load the requested
//! model, fall back to the last working model, call `llama-server`, and
//! shape its answer.

use vstd::prelude::*;
use vstd::string::*;
use crate::dto::{ChatChoice, ChatMessage, ChatRequest, GenerateParams, GenerateResponse, LoadRequest, LoadResponse};
use crate::error::AppError;
use crate::text::{is_blank, is_blank_str};

verus! {

/// The message when the prompt holds nothing but whitespace.
pub open spec fn empty_prompt_message() -> Seq<char> {
    "prompt must not be empty"@
}

/// The message when no model runs and none worked before.
pub open spec fn no_model_message() -> Seq<char> {
    "no model loaded and no fallback model available"@
}

/// The message when `llama-server` could not be reached.
pub open spec fn call_failed_message(detail: Seq<char>) -> Seq<char> {
    "failed to call llama-server: "@ + detail
}

/// The message when `llama-server` answered with a non-success status.
pub open spec fn error_status_message(body: Seq<char>) -> Seq<char> {
    "llama-server returned non-success status: "@ + body
}

/// The message when the answer of `llama-server` does not parse.
pub open spec fn invalid_response_message(detail: Seq<char>) -> Seq<char> {
    "invalid llama-server response: "@ + detail
}

/// The message when `llama-server` answered without any choice.
pub open spec fn empty_choices_message() -> Seq<char> {
    "llama-server returned empty choices"@
}

/// The messages sent for a prompt: the system message when one is given and
/// not blank, then the user's prompt; each as (role, content).
pub open spec fn chat_messages(system: Option<Seq<char>>, prompt: Seq<char>) -> Seq<
    (Seq<char>, Seq<char>),
> {
    match system {
        Some(s) => if is_blank(s) {
            seq![("user"@, prompt)]
        } else {
            seq![("system"@, s), ("user"@, prompt)]
        },
        None => seq![("user"@, prompt)],
    }
}

/// The (role, content) pairs of a list of chat messages.
pub open spec fn messages_view(s: Seq<ChatMessage>) -> Seq<(Seq<char>, Seq<char>)> {
    s.map_values(|m: ChatMessage| (m.role@, m.content@))
}

/// The chat messages for a prompt and an optional system message.
pub fn build_messages(system: &Option<String>, prompt: &String) -> (r: Vec<ChatMessage>)
    ensures
        messages_view(r@) == chat_messages(system.deep_view(), prompt@),
{
    let mut messages: Vec<ChatMessage> = Vec::new();
    match system {
        Some(s) => {
            if !is_blank_str(s.as_str()) {
                messages.push(ChatMessage { role: "system".to_owned(), content: s.clone() });
            }
        },
        None => {},
    }
    messages.push(ChatMessage { role: "user".to_owned(), content: prompt.clone() });
    assert(messages_view(messages@) =~= chat_messages(system.deep_view(), prompt@));
    messages
}

/// The token limit sent: the requested one, else 256.
pub open spec fn max_tokens_or_default(max_tokens: Option<u32>) -> u32 {
    match max_tokens {
        Some(m) => m,
        None => 256,
    }
}

/// The chat completion request for a generate request (`stream` off, model
/// name `local-model`).
pub fn build_chat_request(params: &GenerateParams) -> (r: ChatRequest)
    ensures
        r.model@ == "local-model"@,
        messages_view(r.messages@) == chat_messages(params.system.deep_view(), params.prompt@),
        r.max_tokens == max_tokens_or_default(params.max_tokens),
        !r.stream,
{
    let max_tokens = match params.max_tokens {
        Some(m) => m,
        None => 256,
    };
    ChatRequest {
        model: "local-model".to_owned(),
        messages: build_messages(&params.system, &params.prompt),
        max_tokens,
        stream: false,
    }
}

/// A load of `model` with every setting left to the configuration.
pub fn default_load_request(model: &String) -> (r: LoadRequest)
    ensures
        r.model@ == model@,
        r.ctx_size is None,
        r.threads is None,
        r.n_gpu_layers is None,
{
    LoadRequest { model: model.clone(), ctx_size: None, threads: None, n_gpu_layers: None }
}

/// How `llama-server` answered a chat completion request.
pub enum UpstreamReply {
    /// The request could not be sent or answered; the error's text.
    SendFailed(String),
    /// A non-success status; the body (empty when it could not be read).
    ErrorStatus(String),
    /// A success status whose body does not parse; the error's text.
    Malformed(String),
    /// The parsed choices, in order.
    Parsed(Vec<ChatChoice>),
}

/// What the caller of a generate request does next.
pub enum GenerateAction {
    /// Read the runtime's current and last working model, then report them.
    ReadRuntime,
    /// Run a load with this request, then report its outcome.
    LoadModel(LoadRequest),
    /// Send this request (with the sampling settings) to `llama-server`,
    /// then report the reply.
    CallUpstream(ChatRequest),
    /// The request is over, with this outcome.
    Finish(Result<GenerateResponse, AppError>),
}

/// Where a generate request stands.
pub enum GenerateStage {
    /// Awaiting the runtime, to compare it with the requested model.
    CheckRequested,
    /// Awaiting the load of the requested model.
    AwaitRequestedLoad,
    /// Awaiting the runtime, to pick the model that answers.
    ChooseActive,
    /// Awaiting the load of the last working model.
    AwaitFallbackLoad,
    /// Awaiting the reply of `llama-server`.
    AwaitUpstream,
    Done,
}

/// A generate request in progress.
pub struct GenerateFlow {
    pub params: GenerateParams,
    pub stage: GenerateStage,
    pub active_model: String,
    pub fallback_used: bool,
}

impl GenerateFlow {
    /// The requested model is compared or loaded only when one was requested.
    pub open spec fn wf(&self) -> bool {
        (self.stage is CheckRequested || self.stage is AwaitRequestedLoad) ==> self.params.model is Some
    }

    /// Starts a generate request: a blank prompt ends it with `BadRequest`;
    /// otherwise the runtime is read.
    pub fn start(params: GenerateParams) -> (r: (GenerateFlow, GenerateAction))
        ensures
            r.0.wf(),
            r.0.params == params,
            !r.0.fallback_used,
            is_blank(params.prompt@) ==> r.0.stage is Done && (r.1 matches GenerateAction::Finish(
                Err(AppError::BadRequest(m)),
            ) && m@ == empty_prompt_message()),
            !is_blank(params.prompt@) ==> r.1 is ReadRuntime && (if params.model is Some {
                r.0.stage is CheckRequested
            } else {
                r.0.stage is ChooseActive
            }),
    {
        if is_blank_str(params.prompt.as_str()) {
            let flow = GenerateFlow {
                params,
                stage: GenerateStage::Done,
                active_model: String::new(),
                fallback_used: false,
            };
            let msg = "prompt must not be empty".to_owned();
            return (flow, GenerateAction::Finish(Err(AppError::BadRequest(msg))));
        }
        let stage = if params.model.is_some() {
            GenerateStage::CheckRequested
        } else {
            GenerateStage::ChooseActive
        };
        (
            GenerateFlow { params, stage, active_model: String::new(), fallback_used: false },
            GenerateAction::ReadRuntime,
        )
    }

    /// Picks the model that answers: the current one; else the last working
    /// one, loaded first (a fallback); else none, which ends the request.
    fn choose_active(&mut self, current: Option<String>, last_working: Option<String>) -> (r:
        GenerateAction)
        requires
            old(self).stage is CheckRequested || old(self).stage is ChooseActive,
        ensures
            final(self).params == old(self).params,
            final(self).wf(),
            current matches Some(c) ==> {
                &&& final(self).stage is AwaitUpstream
                &&& final(self).active_model == c
                &&& final(self).fallback_used == old(self).fallback_used
                &&& r matches GenerateAction::CallUpstream(req)
                &&& req.model@ == "local-model"@
                &&& messages_view(req.messages@) == chat_messages(
                    old(self).params.system.deep_view(),
                    old(self).params.prompt@,
                )
                &&& req.max_tokens == max_tokens_or_default(old(self).params.max_tokens)
                &&& !req.stream
            },
            current is None && last_working is Some ==> {
                &&& final(self).stage is AwaitFallbackLoad
                &&& final(self).active_model == last_working.unwrap()
                &&& final(self).fallback_used
                &&& r matches GenerateAction::LoadModel(lr)
                &&& lr.model@ == last_working.unwrap()@
                &&& lr.ctx_size is None && lr.threads is None && lr.n_gpu_layers is None
            },
            current is None && last_working is None ==> {
                &&& final(self).stage is Done
                &&& r matches GenerateAction::Finish(Err(AppError::BadRequest(m)))
                &&& m@ == no_model_message()
            },
    {
        match current {
            Some(c) => {
                self.active_model = c;
                self.stage = GenerateStage::AwaitUpstream;
                GenerateAction::CallUpstream(build_chat_request(&self.params))
            },
            None => match last_working {
                Some(w) => {
                    let lr = default_load_request(&w);
                    self.active_model = w;
                    self.fallback_used = true;
                    self.stage = GenerateStage::AwaitFallbackLoad;
                    GenerateAction::LoadModel(lr)
                },
                None => {
                    self.stage = GenerateStage::Done;
                    let msg = "no model loaded and no fallback model available".to_owned();
                    GenerateAction::Finish(Err(AppError::BadRequest(msg)))
                },
            },
        }
    }

    /// Takes the runtime's current and last working model. When a model was
    /// requested and is not the current one, it is loaded first; otherwise
    /// the answering model is picked (see `choose_active`).
    pub fn on_runtime(&mut self, current: Option<String>, last_working: Option<String>) -> (r:
        GenerateAction)
        requires
            old(self).wf(),
            old(self).stage is CheckRequested || old(self).stage is ChooseActive,
        ensures
            final(self).params == old(self).params,
            final(self).wf(),
            ({
                let load_requested = old(self).stage is CheckRequested && current.deep_view()
                    != Some(old(self).params.model.unwrap()@);
                &&& load_requested ==> {
                    &&& final(self).stage is AwaitRequestedLoad
                    &&& final(self).fallback_used == old(self).fallback_used
                    &&& r matches GenerateAction::LoadModel(lr)
                    &&& lr.model@ == old(self).params.model.unwrap()@
                    &&& lr.ctx_size is None && lr.threads is None && lr.n_gpu_layers is None
                }
                &&& !load_requested ==> {
                    &&& (current matches Some(c) ==> {
                        &&& final(self).stage is AwaitUpstream
                        &&& final(self).active_model == c
                        &&& final(self).fallback_used == old(self).fallback_used
                        &&& r matches GenerateAction::CallUpstream(req)
                        &&& req.model@ == "local-model"@
                        &&& messages_view(req.messages@) == chat_messages(
                            old(self).params.system.deep_view(),
                            old(self).params.prompt@,
                        )
                        &&& req.max_tokens == max_tokens_or_default(old(self).params.max_tokens)
                        &&& !req.stream
                    })
                    &&& (current is None && last_working is Some ==> {
                        &&& final(self).stage is AwaitFallbackLoad
                        &&& final(self).active_model == last_working.unwrap()
                        &&& final(self).fallback_used
                        &&& r matches GenerateAction::LoadModel(lr)
                        &&& lr.model@ == last_working.unwrap()@
                        &&& lr.ctx_size is None && lr.threads is None && lr.n_gpu_layers is None
                    })
                    &&& (current is None && last_working is None ==> {
                        &&& final(self).stage is Done
                        &&& r matches GenerateAction::Finish(Err(AppError::BadRequest(m)))
                        &&& m@ == no_model_message()
                    })
                }
            }),
    {
        match self.stage {
            GenerateStage::CheckRequested => {
                let requested = self.params.model.as_ref().unwrap();
                let same = match &current {
                    Some(c) => *c == *requested,
                    None => false,
                };
                if !same {
                    let lr = default_load_request(requested);
                    self.stage = GenerateStage::AwaitRequestedLoad;
                    return GenerateAction::LoadModel(lr);
                }
                self.choose_active(current, last_working)
            },
            _ => self.choose_active(current, last_working),
        }
    }

    /// Takes the outcome of a load: a failure ends the request with it; after
    /// the requested model loaded the runtime is read again; after the
    /// fallback model loaded `llama-server` is called.
    pub fn on_loaded(&mut self, outcome: Result<LoadResponse, AppError>) -> (r: GenerateAction)
        requires
            old(self).wf(),
            old(self).stage is AwaitRequestedLoad || old(self).stage is AwaitFallbackLoad,
        ensures
            final(self).params == old(self).params,
            final(self).active_model == old(self).active_model,
            final(self).fallback_used == old(self).fallback_used,
            final(self).wf(),
            outcome matches Err(e) ==> final(self).stage is Done && r == GenerateAction::Finish(
                Err(e),
            ),
            outcome is Ok && old(self).stage is AwaitRequestedLoad ==> final(self).stage is ChooseActive
                && r is ReadRuntime,
            outcome is Ok && old(self).stage is AwaitFallbackLoad ==> {
                &&& final(self).stage is AwaitUpstream
                &&& r matches GenerateAction::CallUpstream(req)
                &&& req.model@ == "local-model"@
                &&& messages_view(req.messages@) == chat_messages(
                    old(self).params.system.deep_view(),
                    old(self).params.prompt@,
                )
                &&& req.max_tokens == max_tokens_or_default(old(self).params.max_tokens)
                &&& !req.stream
            },
    {
        match outcome {
            Err(e) => {
                self.stage = GenerateStage::Done;
                GenerateAction::Finish(Err(e))
            },
            Ok(_) => match self.stage {
                GenerateStage::AwaitRequestedLoad => {
                    self.stage = GenerateStage::ChooseActive;
                    GenerateAction::ReadRuntime
                },
                _ => {
                    self.stage = GenerateStage::AwaitUpstream;
                    GenerateAction::CallUpstream(build_chat_request(&self.params))
                },
            },
        }
    }

    /// Takes the reply of `llama-server` and ends the request: the first
    /// choice becomes the answer; every failure becomes `Upstream`.
    pub fn on_upstream(&mut self, reply: UpstreamReply) -> (r: GenerateAction)
        requires
            old(self).stage is AwaitUpstream,
        ensures
            final(self).stage is Done,
            final(self).params == old(self).params,
            reply matches UpstreamReply::SendFailed(d) ==> (r matches GenerateAction::Finish(
                Err(AppError::Upstream(m)),
            ) && m@ == call_failed_message(d@)),
            reply matches UpstreamReply::ErrorStatus(b) ==> (r matches GenerateAction::Finish(
                Err(AppError::Upstream(m)),
            ) && m@ == error_status_message(b@)),
            reply matches UpstreamReply::Malformed(d) ==> (r matches GenerateAction::Finish(
                Err(AppError::Upstream(m)),
            ) && m@ == invalid_response_message(d@)),
            reply matches UpstreamReply::Parsed(cs) ==> (cs@.len() == 0 ==> (
            r matches GenerateAction::Finish(Err(AppError::Upstream(m))) && m@
                == empty_choices_message())),
            reply matches UpstreamReply::Parsed(cs) ==> (cs@.len() > 0 ==> {
                &&& r matches GenerateAction::Finish(Ok(resp))
                &&& resp.model@ == old(self).active_model@
                &&& resp.output@ == cs@[0].content@
                &&& resp.finish_reason == cs@[0].finish_reason
                &&& resp.fallback_used == old(self).fallback_used
            }),
    {
        self.stage = GenerateStage::Done;
        match reply {
            UpstreamReply::SendFailed(d) => {
                let mut msg = "failed to call llama-server: ".to_owned();
                msg.append(d.as_str());
                GenerateAction::Finish(Err(AppError::Upstream(msg)))
            },
            UpstreamReply::ErrorStatus(b) => {
                let mut msg = "llama-server returned non-success status: ".to_owned();
                msg.append(b.as_str());
                GenerateAction::Finish(Err(AppError::Upstream(msg)))
            },
            UpstreamReply::Malformed(d) => {
                let mut msg = "invalid llama-server response: ".to_owned();
                msg.append(d.as_str());
                GenerateAction::Finish(Err(AppError::Upstream(msg)))
            },
            UpstreamReply::Parsed(choices) => {
                let mut choices = choices;
                if choices.len() == 0 {
                    let msg = "llama-server returned empty choices".to_owned();
                    GenerateAction::Finish(Err(AppError::Upstream(msg)))
                } else {
                    let first = choices.remove(0);
                    GenerateAction::Finish(
                        Ok(
                            GenerateResponse {
                                model: self.active_model.clone(),
                                output: first.content,
                                finish_reason: first.finish_reason,
                                fallback_used: self.fallback_used,
                            },
                        ),
                    )
                }
            },
        }
    }
}

/// The token limit sent to `llama-server` is the requested one whenever one
/// is given, whatever its value; only an absent limit becomes 256.
pub proof fn lemma_max_tokens_requested_is_sent(m: u32)
    ensures
        max_tokens_or_default(Some(m)) == m,
        max_tokens_or_default(None) == 256,
{
}

/// The prompt is always sent, as the last message and with role `user`; a
/// system message comes first exactly when one is given that is not blank,
/// and then it carries that text.
pub proof fn lemma_chat_messages_meaning(system: Option<Seq<char>>, prompt: Seq<char>)
    ensures
        ({
            let ms = chat_messages(system, prompt);
            let with_system = system matches Some(s) && !is_blank(s);
            &&& ms.len() == if with_system { 2int } else { 1int }
            &&& ms.last() == ("user"@, prompt)
            &&& with_system ==> ms[0] == ("system"@, system.unwrap())
        }),
{
}

} // verus!

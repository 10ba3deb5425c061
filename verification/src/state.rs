//! What the gateway remembers between requests: the running `llama-server`
//! process, the model it serves and the last model that came up healthy.

use vstd::prelude::*;

verus! {

/// The runtime state; `C` is the handle of the running server process.
pub struct RuntimeState<C> {
    pub child: Option<C>,
    pub current_model: Option<String>,
    pub last_working_model: Option<String>,
}

/// The runtime state with the models taken as text.
pub struct RuntimeView<C> {
    pub child: Option<C>,
    pub current_model: Option<Seq<char>>,
    pub last_working_model: Option<Seq<char>>,
}

impl<C> View for RuntimeState<C> {
    type V = RuntimeView<C>;

    open spec fn view(&self) -> RuntimeView<C> {
        RuntimeView {
            child: self.child,
            current_model: self.current_model.deep_view(),
            last_working_model: self.last_working_model.deep_view(),
        }
    }
}

/// The state after an unload: no process, no current model, the last
/// working model kept.
pub open spec fn unloaded<C>(s: RuntimeView<C>) -> RuntimeView<C> {
    RuntimeView { child: None, current_model: None, last_working_model: s.last_working_model }
}

/// The state after a server process for `model` was started.
pub open spec fn started<C>(s: RuntimeView<C>, child: C, model: Seq<char>) -> RuntimeView<C> {
    RuntimeView {
        child: Some(child),
        current_model: Some(model),
        last_working_model: s.last_working_model,
    }
}

/// The state after the server for `model` answered its health check.
pub open spec fn healthy<C>(s: RuntimeView<C>, model: Seq<char>) -> RuntimeView<C> {
    RuntimeView {
        child: s.child,
        current_model: s.current_model,
        last_working_model: Some(model),
    }
}

/// A copy of an optional string with the same characters.
pub fn copy_opt_string(o: &Option<String>) -> (r: Option<String>)
    ensures
        r.deep_view() == o.deep_view(),
{
    match o {
        Some(s) => Some(s.clone()),
        None => None,
    }
}

impl<C> RuntimeState<C> {
    /// The state of a freshly started gateway: nothing running, nothing known.
    pub fn new() -> (r: Self)
        ensures
            r.child is None,
            r.current_model is None,
            r.last_working_model is None,
            process_matches_model(r@),
    {
        RuntimeState { child: None, current_model: None, last_working_model: None }
    }

    /// Unloads: hands out the running process (for the caller to stop) and
    /// forgets the current model; the last working model stays.
    pub fn take_for_unload(&mut self) -> (r: Option<C>)
        ensures
            r == old(self).child,
            final(self)@ == unloaded(old(self)@),
    {
        let child = self.child.take();
        self.current_model = None;
        child
    }

    /// Records that a server process for `model` was started.
    pub fn record_started(&mut self, child: C, model: String)
        ensures
            final(self)@ == started(old(self)@, child, model@),
    {
        self.child = Some(child);
        self.current_model = Some(model);
    }

    /// Records that the server for `model` came up healthy.
    pub fn record_healthy(&mut self, model: String)
        ensures
            final(self)@ == healthy(old(self)@, model@),
    {
        self.last_working_model = Some(model);
    }

    /// Copies of the current and the last working model.
    pub fn models_snapshot(&self) -> (r: (Option<String>, Option<String>))
        ensures
            r.0.deep_view() == self@.current_model,
            r.1.deep_view() == self@.last_working_model,
    {
        (copy_opt_string(&self.current_model), copy_opt_string(&self.last_working_model))
    }
}

/// A process runs exactly when a current model is set.
pub open spec fn process_matches_model<C>(s: RuntimeView<C>) -> bool {
    s.child is Some <==> s.current_model is Some
}

/// Unloading, starting and recording health all keep a process running
/// exactly when a current model is set; a fresh state starts that way.
pub proof fn lemma_transitions_keep_process_matching_model<C>(
    s: RuntimeView<C>,
    child: C,
    model: Seq<char>,
)
    requires
        process_matches_model(s),
    ensures
        process_matches_model(unloaded(s)),
        process_matches_model(started(s, child, model)),
        process_matches_model(healthy(s, model)),
{
}

/// Unloading twice is unloading once.
pub proof fn lemma_unload_idempotent<C>(s: RuntimeView<C>)
    ensures
        unloaded(unloaded(s)) == unloaded(s),
{
}

/// An unload stops the process and forgets the current model, and never
/// changes the last working model.
pub proof fn lemma_unload_keeps_last_working<C>(s: RuntimeView<C>)
    ensures
        unloaded(s).last_working_model == s.last_working_model,
        unloaded(s).current_model is None,
        unloaded(s).child is None,
{
}

/// A load that comes up healthy leaves the loaded model both current and last
/// working, with its process running.
pub proof fn lemma_load_success_state<C>(s: RuntimeView<C>, child: C, model: Seq<char>)
    ensures
        healthy(started(unloaded(s), child, model), model) == (RuntimeView {
            child: Some(child),
            current_model: Some(model),
            last_working_model: Some(model),
        }),
{
}

/// A load whose server does not come up healthy ends as a plain unload: no
/// process, no current model, and the last working model of before.
pub proof fn lemma_load_failure_state<C>(s: RuntimeView<C>, child: C, model: Seq<char>)
    ensures
        unloaded(started(unloaded(s), child, model)) == unloaded(s),
{
}

/// Unloading after a successful load leaves nothing running and keeps the
/// loaded model as the last working one, the model a later generate request
/// falls back to.
pub proof fn lemma_unload_after_load<C>(s: RuntimeView<C>, child: C, model: Seq<char>)
    ensures
        unloaded(healthy(started(unloaded(s), child, model), model)) == (RuntimeView::<C> {
            child: None,
            current_model: None,
            last_working_model: Some(model),
        }),
{
}

/// The state of a freshly started gateway.
pub open spec fn initial<C>() -> RuntimeView<C> {
    RuntimeView { child: None, current_model: None, last_working_model: None }
}

/// What a completed request (or a load inside a generate request) did to the
/// runtime state, by the step contracts of the request flows.
pub enum RuntimeEvent<C> {
    /// Left it as it was: health, models, a generate that loaded nothing, and
    /// a load of a missing file (`on_model_checked` with no file).
    Unchanged,
    /// An unload request (`take_for_unload`).
    Unload,
    /// A load whose server could not be started: unloaded, then nothing
    /// recorded (`on_unloaded`, `on_spawned` with an error).
    LoadSpawnFailed,
    /// A load whose server started as `child` for `model` but never became
    /// healthy: unloaded, started, unloaded again (`on_spawned`, `on_health`
    /// with an error, `on_unloaded`).
    LoadUnhealthy(C, Seq<char>),
    /// A load that succeeded: unloaded, started, recorded healthy
    /// (`on_spawned`, `on_health` with success).
    LoadHealthy(C, Seq<char>),
}

/// The state after one event.
pub open spec fn apply_event<C>(s: RuntimeView<C>, e: RuntimeEvent<C>) -> RuntimeView<C> {
    match e {
        RuntimeEvent::Unchanged => s,
        RuntimeEvent::Unload => unloaded(s),
        RuntimeEvent::LoadSpawnFailed => unloaded(s),
        RuntimeEvent::LoadUnhealthy(c, m) => unloaded(started(unloaded(s), c, m)),
        RuntimeEvent::LoadHealthy(c, m) => healthy(started(unloaded(s), c, m), m),
    }
}

/// The state after a sequence of events, in order.
pub open spec fn run_events<C>(s: RuntimeView<C>, es: Seq<RuntimeEvent<C>>) -> RuntimeView<C>
    decreases es.len(),
{
    if es.len() == 0 {
        s
    } else {
        apply_event(run_events(s, es.drop_last()), es.last())
    }
}

/// The load succeeded for `m`.
pub open spec fn is_healthy_load_of<C>(e: RuntimeEvent<C>, m: Seq<char>) -> bool {
    e matches RuntimeEvent::LoadHealthy(_, mm) && mm == m
}

/// Events after `i` changed nothing.
pub open spec fn unchanged_after<C>(es: Seq<RuntimeEvent<C>>, i: int) -> bool {
    forall|j: int| i < j < es.len() ==> (#[trigger] es[j]) is Unchanged
}

proof fn lemma_unchanged_suffix<C>(s: RuntimeView<C>, es: Seq<RuntimeEvent<C>>, i: int)
    requires
        0 <= i < es.len(),
        unchanged_after(es, i),
    ensures
        run_events(s, es) == run_events(s, es.take(i + 1)),
    decreases es.len(),
{
    if es.len() > i + 1 {
        assert(es.last() is Unchanged);
        let d = es.drop_last();
        assert(unchanged_after(d, i)) by {
            assert forall|j: int| i < j < d.len() implies (#[trigger] d[j]) is Unchanged by {
                assert(d[j] == es[j]);
            }
        }
        lemma_unchanged_suffix(s, d, i);
        assert(d.take(i + 1) =~= es.take(i + 1));
    } else {
        assert(es.take(i + 1) =~= es);
    }
}

/// From a fresh start, after any sequence of completed requests: a process
/// runs exactly when a current model is set; the current model is `m`
/// exactly when some load of `m` succeeded and nothing changed the runtime
/// after it, and then the process is the one that load started.
pub proof fn lemma_current_model_after_requests<C>(es: Seq<RuntimeEvent<C>>, m: Seq<char>)
    ensures
        process_matches_model(run_events(initial::<C>(), es)),
        run_events(initial::<C>(), es).current_model == Some(m) <==> exists|i: int|
            0 <= i < es.len() && is_healthy_load_of(#[trigger] es[i], m) && unchanged_after(es, i),
        forall|i: int|
            0 <= i < es.len() && (#[trigger] es[i]) is LoadHealthy && unchanged_after(es, i)
                ==> run_events(initial::<C>(), es).child == Some(es[i]->LoadHealthy_0),
    decreases es.len(),
{
    let t = run_events(initial::<C>(), es);
    if es.len() == 0 {
    } else {
        let d = es.drop_last();
        lemma_current_model_after_requests(d, m);
        let last = es.last();
        let k = es.len() - 1;
        assert forall|i: int|
            0 <= i < es.len() && (#[trigger] es[i]) is LoadHealthy && unchanged_after(es, i)
                implies t.child == Some(es[i]->LoadHealthy_0) by {
            lemma_unchanged_suffix(initial::<C>(), es, i);
            let p = es.take(i + 1);
            assert(p.drop_last() =~= es.take(i));
            assert(p.last() == es[i]);
        }
        if t.current_model == Some(m) {
            if last is Unchanged {
                let i = choose|i: int|
                    0 <= i < d.len() && is_healthy_load_of(#[trigger] d[i], m) && unchanged_after(d, i);
                assert(es[i] == d[i]);
                assert(unchanged_after(es, i)) by {
                    assert forall|j: int| i < j < es.len() implies (#[trigger] es[j]) is Unchanged by {
                        if j < d.len() {
                            assert(es[j] == d[j]);
                        }
                    }
                }
            } else {
                assert(is_healthy_load_of(es[k], m));
                assert(unchanged_after(es, k));
            }
        }
        if exists|i: int|
            0 <= i < es.len() && is_healthy_load_of(#[trigger] es[i], m) && unchanged_after(es, i) {
            let i = choose|i: int|
                0 <= i < es.len() && is_healthy_load_of(#[trigger] es[i], m) && unchanged_after(es, i);
            lemma_unchanged_suffix(initial::<C>(), es, i);
            let p = es.take(i + 1);
            assert(p.drop_last() =~= es.take(i));
            assert(p.last() == es[i]);
        }
    }
}

/// One request changes the last working model only by a successful load,
/// which makes it that load's model.
pub proof fn lemma_last_working_step<C>(s: RuntimeView<C>, e: RuntimeEvent<C>)
    ensures
        apply_event(s, e).last_working_model == match e {
            RuntimeEvent::LoadHealthy(_, m) => Some(m),
            _ => s.last_working_model,
        },
{
}

/// Once a model has worked, there is always a last working model.
pub proof fn lemma_last_working_stays_set<C>(
    s: RuntimeView<C>,
    es: Seq<RuntimeEvent<C>>,
    more: Seq<RuntimeEvent<C>>,
)
    requires
        run_events(s, es).last_working_model is Some,
    ensures
        run_events(s, es + more).last_working_model is Some,
    decreases more.len(),
{
    if more.len() == 0 {
        assert(es + more =~= es);
    } else {
        lemma_last_working_stays_set(s, es, more.drop_last());
        assert((es + more).drop_last() =~= es + more.drop_last());
        assert((es + more).last() == more.last());
    }
}

/// From a fresh start, there is a last working model exactly when some load
/// has succeeded.
pub proof fn lemma_last_working_after_requests<C>(es: Seq<RuntimeEvent<C>>)
    ensures
        run_events(initial::<C>(), es).last_working_model is None <==> forall|i: int|
            0 <= i < es.len() ==> !((#[trigger] es[i]) is LoadHealthy),
    decreases es.len(),
{
    if es.len() > 0 {
        let d = es.drop_last();
        lemma_last_working_after_requests(d);
        assert forall|i: int| 0 <= i < d.len() implies d[i] == es[i] by {}
        if !(es.last() is LoadHealthy) && run_events(initial::<C>(), d).last_working_model is Some {
            let i = choose|i: int| 0 <= i < d.len() && (#[trigger] d[i]) is LoadHealthy;
            assert(es[i] == d[i]);
        }
    }
}

} // verus!

//! The invokable model handle: one catalog entry wrapped with its provider
//! identity and its own request limiter, and the per-request dispatch
//! decision combining the limiter with credential resolution.

use vstd::prelude::*;
use crate::catalog::{ResolvedModel, model_views};
use crate::engine::{Engine, spec_resolved_models};
use crate::gateway::{CompletionError, DISPATCH_CONCURRENCY, DispatchPlan, RequestLimiter,
    limiter_wf, paygo_billing, prepare_dispatch, protocol_of, spec_acquire, spec_release};
use crate::order::sort_key;
use crate::text::{concat2, concat3};

verus! {

/// A caller's choice of tool use for one request.
#[derive(Clone, Copy, Debug, PartialEq, Eq, Structural)]
pub enum ToolChoice {
    Auto,
    Any,
    NoTool,
}

/// The outcome of one dispatch attempt.
pub enum DispatchOutcome {
    /// A slot was taken and the request resolved; carries everything the
    /// wire call needs.
    Dispatched(DispatchPlan),
    /// Every slot is in flight; the caller queues until one frees.
    MustWait,
    /// The request is refused before any network call.
    Refused(CompletionError),
}

/// One catalog entry as an invokable model: the entry, the provider
/// identity it answers under, and the request limiter bounding its
/// concurrent dispatches.
pub struct ModelHandle {
    pub model: ResolvedModel,
    pub provider_id: String,
    pub provider_name: String,
    pub limiter: RequestLimiter,
}

/// A well-formed handle limits dispatches to the fixed bound.
pub open spec fn handle_wf(h: ModelHandle) -> bool {
    limiter_wf(h.limiter) && h.limiter.limit == DISPATCH_CONCURRENCY
}

impl ModelHandle {
    /// Wraps a catalog entry as an invokable model of one provider.
    pub fn new(model: ResolvedModel, provider_id: String, provider_name: String) -> (r:
        ModelHandle)
        ensures
            handle_wf(r),
            r.model@ == model@,
            r.provider_id@ == provider_id@,
            r.provider_name@ == provider_name@,
            r.limiter.in_flight == 0,
            r.limiter.waiting == 0,
    {
        ModelHandle {
            model,
            provider_id,
            provider_name,
            limiter: RequestLimiter::new(DISPATCH_CONCURRENCY),
        }
    }

    /// The handle's catalog identifier.
    pub fn id(&self) -> (r: &str)
        ensures
            r@ == self.model@.id,
    {
        self.model.id.as_str()
    }

    /// The human label: the display name, falling back to the upstream
    /// identifier.
    pub fn name(&self) -> (r: String)
        ensures
            r@ == sort_key(self.model@),
    {
        match &self.model.display_name {
            Some(d) => d.clone(),
            None => self.model.request_model.clone(),
        }
    }

    /// The telemetry identifier: the upstream identifier under an "openai/"
    /// prefix, with the route appended when one is set.
    pub fn telemetry_id(&self) -> (r: String)
        ensures
            r@ == match self.model@.provider_override {
                Some(p) => "openai/"@ + self.model@.request_model + "@"@ + p,
                None => "openai/"@ + self.model@.request_model,
            },
    {
        match &self.model.provider_override {
            Some(p) => {
                let head = concat2("openai/", self.model.request_model.as_str());
                concat3(head.as_str(), "@", p.as_str())
            },
            None => concat2("openai/", self.model.request_model.as_str()),
        }
    }

    /// Whether the model supports tool calls.
    pub fn supports_tools(&self) -> (r: bool)
        ensures
            r == self.model@.capabilities.tools,
    {
        self.model.capabilities.tools
    }

    /// Whether the model accepts images.
    pub fn supports_images(&self) -> (r: bool)
        ensures
            r == self.model@.capabilities.images,
    {
        self.model.capabilities.images
    }

    /// Whether the model honors a tool choice: forcing tools needs tool
    /// support; forbidding them is always honored.
    pub fn supports_tool_choice(&self, choice: ToolChoice) -> (r: bool)
        ensures
            r == match choice {
                ToolChoice::Auto => self.model@.capabilities.tools,
                ToolChoice::Any => self.model@.capabilities.tools,
                ToolChoice::NoTool => true,
            },
    {
        match choice {
            ToolChoice::Auto => self.model.capabilities.tools,
            ToolChoice::Any => self.model.capabilities.tools,
            ToolChoice::NoTool => true,
        }
    }

    /// The maximum input-token count of the model.
    pub fn max_token_count(&self) -> (r: u64)
        ensures
            r == self.model@.max_tokens,
    {
        self.model.max_tokens
    }

    /// The maximum output-token count, where the model declares one.
    pub fn max_output_tokens(&self) -> (r: Option<u64>)
        ensures
            r == self.model@.max_output_tokens,
    {
        match self.model.max_output_tokens {
            Some(t) => Some(t),
            None => None,
        }
    }

    /// The tokenizer family used to estimate token counts: models with a
    /// six-figure window use the larger vocabulary.
    pub fn tokenizer_model(&self) -> (r: &'static str)
        ensures
            self.model@.max_tokens >= 100000 ==> r@ == "gpt-4o"@,
            self.model@.max_tokens < 100000 ==> r@ == "gpt-4"@,
    {
        if self.model.max_tokens >= 100000 {
            "gpt-4o"
        } else {
            "gpt-4"
        }
    }

    /// Attempts one dispatch with the credentials read now: waits when all
    /// slots are in flight; refuses with `NoApiKey` — releasing the slot —
    /// when no key is present; otherwise holds the slot and resolves the
    /// full dispatch plan.
    pub fn try_dispatch(&mut self, api_key: Option<String>, api_url: &str) -> (r: DispatchOutcome)
        requires
            handle_wf(*old(self)),
            old(self).limiter.waiting < u64::MAX,
        ensures
            handle_wf(*final(self)),
            final(self).model@ == old(self).model@,
            final(self).provider_name@ == old(self).provider_name@,
            old(self).limiter.in_flight == old(self).limiter.limit ==> r is MustWait
                && final(self).limiter == spec_acquire(old(self).limiter).0,
            old(self).limiter.in_flight < old(self).limiter.limit && api_key is None ==> (
            r matches DispatchOutcome::Refused(e) && e matches CompletionError::NoApiKey {
                provider,
            } && provider@ == old(self).provider_name@ && final(self).limiter == old(
                self,
            ).limiter),
            (old(self).limiter.in_flight < old(self).limiter.limit && api_key is Some)
                ==> (r matches DispatchOutcome::Dispatched(p) && final(self).limiter
                == spec_acquire(old(self).limiter).0 && Some(p.api_key@) == crate::catalog::opt_view(
                api_key,
            ) && p.api_url@ == api_url@
                && p.request_model@ == old(self).model@.request_model && p.protocol == protocol_of(
                old(self).model@.capabilities,
            ) && (old(self).model@.provider_override is Some <==> (p.billing_mode matches Some(b)
                && b@ == paygo_billing()))),
    {
        if !self.limiter.try_acquire() {
            return DispatchOutcome::MustWait;
        }
        match prepare_dispatch(
            self.provider_name.as_str(),
            api_key,
            api_url,
            &self.model,
        ) {
            Ok(plan) => DispatchOutcome::Dispatched(plan),
            Err(e) => {
                self.limiter.release();
                DispatchOutcome::Refused(e)
            },
        }
    }

    /// Returns the slot of a finished or abandoned dispatch.
    pub fn finish_dispatch(&mut self)
        requires
            handle_wf(*old(self)),
            old(self).limiter.in_flight >= 1,
        ensures
            handle_wf(*final(self)),
            final(self).limiter == spec_release(old(self).limiter),
            final(self).model@ == old(self).model@,
    {
        self.limiter.release();
    }
}

/// The full current catalog, each entry wrapped as an invokable model
/// handle of this provider, with a fresh request limiter each.
pub fn provided_models(engine: &Engine) -> (r: Vec<ModelHandle>)
    ensures
        r@.len() == spec_resolved_models(engine@).len(),
        forall|i: int|
            0 <= i < r@.len() ==> handle_wf(#[trigger] r@[i]) && r@[i].model@
                == spec_resolved_models(engine@)[i] && r@[i].provider_id@ == engine@.provider_id
                && r@[i].provider_name@ == engine@.provider_id,
{
    let models = engine.resolved_models();
    let ghost mv = model_views(models@);
    let mut rest = models;
    let mut out: Vec<ModelHandle> = Vec::new();
    while rest.len() > 0
        invariant
            mv == spec_resolved_models(engine@),
            out@.len() + rest@.len() == mv.len(),
            model_views(rest@) =~= mv.skip(out@.len() as int),
            forall|i: int|
                0 <= i < out@.len() ==> handle_wf(#[trigger] out@[i]) && out@[i].model@ == mv[i]
                    && out@[i].provider_id@ == engine@.provider_id && out@[i].provider_name@
                    == engine@.provider_id,
        decreases rest@.len(),
    {
        let ghost rest0 = rest@;
        let ghost k = out@.len() as int;
        let m = rest.remove(0);
        proof {
            assert(model_views(rest0)[0] == m@);
            assert(model_views(rest0).len() == rest0.len());
            assert(mv.skip(k)[0] == mv[k]);
            assert(model_views(rest0.remove(0)) =~= model_views(rest0).remove(0));
            assert(model_views(rest@) =~= mv.skip(k + 1));
        }
        let handle = ModelHandle::new(
            m,
            engine.provider_id.clone(),
            engine.provider_id.clone(),
        );
        out.push(handle);
    }
    out
}

} // verus!

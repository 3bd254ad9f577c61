//! The streaming gateway's decision logic: per-request credential
//! resolution, routing-override request mutations and headers, protocol
//! selection, and the concurrency-bounding request limiter.

use vstd::prelude::*;
use crate::catalog::{ModelCapabilities, ResolvedModel, opt_view};

verus! {

/// How many completion dispatches may be in flight at once per model
/// handle.
pub const DISPATCH_CONCURRENCY: u64 = 4;

/// The billing mode forced onto a routed request.
pub open spec fn paygo_billing() -> Seq<char> {
    "paygo"@
}

/// The wire shape a completion request takes, selected once per model from
/// its protocol capability flag.
#[derive(Clone, Copy, Debug, PartialEq, Eq, Structural)]
pub enum Protocol {
    ChatCompletions,
    Responses,
}

/// The protocol a model's capabilities select.
pub open spec fn protocol_of(caps: ModelCapabilities) -> Protocol {
    if caps.chat_completions {
        Protocol::ChatCompletions
    } else {
        Protocol::Responses
    }
}

/// Selects the wire protocol for a model's capabilities.
pub fn select_protocol(caps: &ModelCapabilities) -> (r: Protocol)
    ensures
        r == protocol_of(*caps),
{
    if caps.chat_completions {
        Protocol::ChatCompletions
    } else {
        Protocol::Responses
    }
}

/// A typed completion error, surfaced to the caller of a request.
pub enum CompletionError {
    /// No usable key was present at dispatch time; names the provider the
    /// user must supply a key for. Terminal: no network call is made.
    NoApiKey { provider: String },
    /// The upstream call or stream failed after dispatch.
    Upstream { message: String },
}

/// Everything a dispatch sends: resolved at dispatch time from the current
/// credential state and the target entry.
pub struct DispatchPlan {
    pub api_url: String,
    pub api_key: String,
    pub request_model: String,
    pub billing_mode: Option<String>,
    pub extra_headers: Vec<(String, String)>,
    pub protocol: Protocol,
}

/// The extra headers a routed dispatch carries: the chosen route and the
/// billing mode; an unrouted dispatch carries none.
pub open spec fn expected_headers(route: Option<Seq<char>>) -> Seq<(Seq<char>, Seq<char>)> {
    match route {
        Some(p) => seq![("X-Provider"@, p), ("X-Billing-Mode"@, paygo_billing())],
        None => Seq::empty(),
    }
}

/// The values of a header list.
pub open spec fn header_views(s: Seq<(String, String)>) -> Seq<(Seq<char>, Seq<char>)> {
    s.map_values(|h: (String, String)| (h.0@, h.1@))
}

/// Resolves one dispatch against the credentials read now: with no usable
/// key it fails with `NoApiKey` naming the provider, and nothing is sent;
/// with a key it yields the full dispatch plan — the routing override, when
/// present, forces pay-as-you-go billing and the two routing headers.
pub fn prepare_dispatch(
    provider_name: &str,
    api_key: Option<String>,
    api_url: &str,
    model: &ResolvedModel,
) -> (r: Result<DispatchPlan, CompletionError>)
    ensures
        r is Err <==> api_key is None,
        r matches Err(e) ==> e matches CompletionError::NoApiKey { provider } && provider@
            == provider_name@,
        r matches Ok(p) ==> {
            &&& p.api_url@ == api_url@
            &&& Some(p.api_key@) == opt_view(api_key)
            &&& p.request_model@ == model@.request_model
            &&& opt_view(p.billing_mode) == (if model@.provider_override is Some {
                Some(paygo_billing())
            } else {
                None::<Seq<char>>
            })
            &&& header_views(p.extra_headers@) == expected_headers(model@.provider_override)
            &&& p.protocol == protocol_of(model@.capabilities)
        },
{
    let key = match api_key {
        Some(k) => k,
        None => {
            return Err(CompletionError::NoApiKey { provider: provider_name.to_owned() });
        },
    };
    let (billing_mode, extra_headers): (Option<String>, Vec<(String, String)>) = match &model
        .provider_override {
        Some(route) => {
            let mut headers: Vec<(String, String)> = Vec::new();
            headers.push((String::from_str("X-Provider"), route.clone()));
            headers.push((String::from_str("X-Billing-Mode"), String::from_str("paygo")));
            proof {
                assert(header_views(headers@) =~= expected_headers(model@.provider_override));
            }
            (Some(String::from_str("paygo")), headers)
        },
        None => {
            let headers: Vec<(String, String)> = Vec::new();
            proof {
                assert(header_views(headers@) =~= expected_headers(model@.provider_override));
            }
            (None, headers)
        },
    };
    Ok(
        DispatchPlan {
            api_url: api_url.to_owned(),
            api_key: key,
            request_model: model.request_model.clone(),
            billing_mode,
            extra_headers,
            protocol: select_protocol(&model.capabilities),
        },
    )
}

/// The request limiter of one model handle: a slot counter bounding how
/// many dispatches are in flight, with a count of callers waiting for a
/// slot.
pub struct RequestLimiter {
    pub limit: u64,
    pub in_flight: u64,
    pub waiting: u64,
}

/// A well-formed limiter never has more dispatches in flight than its
/// bound.
pub open spec fn limiter_wf(l: RequestLimiter) -> bool {
    l.in_flight <= l.limit
}

/// The limiter after an acquisition attempt, and whether it granted a
/// slot: a free slot is taken; a full limiter queues the caller instead.
pub open spec fn spec_acquire(l: RequestLimiter) -> (RequestLimiter, bool) {
    if l.in_flight < l.limit {
        (RequestLimiter { in_flight: (l.in_flight + 1) as u64, ..l }, true)
    } else {
        (RequestLimiter { waiting: (l.waiting + 1) as u64, ..l }, false)
    }
}

/// The limiter after a held slot is released.
pub open spec fn spec_release(l: RequestLimiter) -> RequestLimiter {
    RequestLimiter { in_flight: (l.in_flight - 1) as u64, ..l }
}

impl RequestLimiter {
    /// A fresh limiter with the given bound; nothing in flight.
    pub fn new(limit: u64) -> (r: RequestLimiter)
        ensures
            limiter_wf(r),
            r.limit == limit,
            r.in_flight == 0,
            r.waiting == 0,
    {
        RequestLimiter { limit, in_flight: 0, waiting: 0 }
    }

    /// Attempts to take a dispatch slot; a caller refused one queues and
    /// must retry after a release.
    pub fn try_acquire(&mut self) -> (granted: bool)
        requires
            limiter_wf(*old(self)),
            old(self).waiting < u64::MAX,
        ensures
            limiter_wf(*final(self)),
            (*final(self), granted) == spec_acquire(*old(self)),
            granted == (old(self).in_flight < old(self).limit),
    {
        if self.in_flight < self.limit {
            self.in_flight = self.in_flight + 1;
            true
        } else {
            self.waiting = self.waiting + 1;
            false
        }
    }

    /// Returns a held dispatch slot, also when the caller abandoned the
    /// stream without consuming it.
    pub fn release(&mut self)
        requires
            limiter_wf(*old(self)),
            old(self).in_flight >= 1,
        ensures
            limiter_wf(*final(self)),
            *final(self) == spec_release(*old(self)),
    {
        self.in_flight = self.in_flight - 1;
    }

    /// A caller that queued for a slot stops waiting and retries.
    pub fn leave_queue(&mut self)
        requires
            limiter_wf(*old(self)),
            old(self).waiting >= 1,
        ensures
            limiter_wf(*final(self)),
            final(self).waiting == old(self).waiting - 1,
            final(self).in_flight == old(self).in_flight,
            final(self).limit == old(self).limit,
    {
        self.waiting = self.waiting - 1;
    }
}

/// Dispatch concurrency is bounded: a well-formed limiter never exceeds its
/// bound; an acquisition against a full limiter grants nothing and leaves
/// the in-flight count unchanged — the caller observably waits; and once
/// one in-flight dispatch releases its slot, a retry is granted.
pub proof fn lemma_rate_limit_bound(l: RequestLimiter)
    requires
        limiter_wf(l),
        l.limit >= 1,
        l.waiting < u64::MAX,
    ensures
        l.in_flight <= l.limit,
        l.in_flight == l.limit ==> !spec_acquire(l).1 && spec_acquire(l).0.in_flight
            == l.in_flight,
        l.in_flight == l.limit ==> spec_acquire(spec_release(spec_acquire(l).0)).1,
{
}

} // verus!

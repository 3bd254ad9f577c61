//! The provider engine: owns credential and settings state, the dynamic
//! model snapshot and the discovery generation counter, and exposes the
//! state transitions of the two-stage discovery pipeline. A discovery cycle
//! carries the generation it was started under; a completion whose
//! generation is no longer current is discarded, so a superseded cycle can
//! never overwrite a fresher result.

use vstd::prelude::*;
use crate::catalog::{AvailableModel, AvailableModelView, ModelView, ResolvedModel,
    available_views, model_views, opt_view};
use crate::credentials::{CredentialState, CredentialStateView, cred_wf, normalized_key,
    spec_current_key, spec_handle_url_change, spec_is_authenticated, spec_mark_loaded,
    spec_set_key};
use crate::merge::{default_choice, merge_models, merged_models, opt_model_view,
    select_default_model};
use crate::routing::{expand_all, expand_models, pair_views};
use crate::text::{opt_str_eq, str_eq};

verus! {

/// The provider identifier whose catalog is discovered dynamically.
pub open spec fn dynamic_provider_id() -> Seq<char> {
    "nanogpt"@
}

/// The provider identifier with dynamic discovery, as a string.
pub fn dynamic_provider_id_str() -> (r: &'static str)
    ensures
        r@ == dynamic_provider_id(),
{
    "nanogpt"
}

/// Mathematical value of a provider's settings.
#[verifier::ext_equal]
pub ghost struct SettingsView {
    pub api_url: Seq<char>,
    pub models: Seq<AvailableModelView>,
}

/// Externally supplied provider settings: the base URL and the statically
/// declared models.
pub struct ProviderSettings {
    pub api_url: String,
    pub available_models: Vec<AvailableModel>,
}

impl View for ProviderSettings {
    type V = SettingsView;

    open spec fn view(&self) -> SettingsView {
        SettingsView { api_url: self.api_url@, models: available_views(self.available_models@) }
    }
}

/// Structural equality of two optional token limits.
fn opt_u64_eq(a: &Option<u64>, b: &Option<u64>) -> (r: bool)
    ensures
        r == (*a == *b),
{
    match (a, b) {
        (Some(x), Some(y)) => *x == *y,
        (None, None) => true,
        _ => false,
    }
}

/// Structural equality of two statically configured models.
fn available_model_eq(a: &AvailableModel, b: &AvailableModel) -> (r: bool)
    ensures
        r == (a@ == b@),
{
    if !str_eq(a.name.as_str(), b.name.as_str()) {
        return false;
    }
    if !opt_str_eq(&a.display_name, &b.display_name) {
        return false;
    }
    if a.max_tokens != b.max_tokens {
        return false;
    }
    if !opt_u64_eq(&a.max_output_tokens, &b.max_output_tokens) {
        return false;
    }
    if !opt_u64_eq(&a.max_completion_tokens, &b.max_completion_tokens) {
        return false;
    }
    if !(a.capabilities == b.capabilities) {
        return false;
    }
    proof {
        assert(a@ =~= b@);
    }
    true
}

/// Structural equality of two settings values: the settings really changed
/// only when this is false.
pub fn settings_eq(a: &ProviderSettings, b: &ProviderSettings) -> (r: bool)
    ensures
        r == (a@ == b@),
{
    if !str_eq(a.api_url.as_str(), b.api_url.as_str()) {
        assert(a@ != b@);
        return false;
    }
    if a.available_models.len() != b.available_models.len() {
        assert(a@.models.len() != b@.models.len());
        return false;
    }
    let ghost av = available_views(a.available_models@);
    let ghost bv = available_views(b.available_models@);
    let mut i: usize = 0;
    while i < a.available_models.len()
        invariant
            i <= a.available_models@.len(),
            a.available_models@.len() == b.available_models@.len(),
            av == available_views(a.available_models@),
            bv == available_views(b.available_models@),
            forall|j: int| 0 <= j < i ==> av[j] == bv[j],
        decreases a.available_models@.len() - i,
    {
        if !available_model_eq(&a.available_models[i], &b.available_models[i]) {
            assert(av[i as int] != bv[i as int]);
            assert(a@ != b@);
            return false;
        }
        i = i + 1;
    }
    proof {
        assert(av =~= bv);
        assert(a@ =~= b@);
    }
    true
}

/// Mathematical value of the engine state.
#[verifier::ext_equal]
pub ghost struct EngineView {
    pub provider_id: Seq<char>,
    pub creds: CredentialStateView,
    pub settings: SettingsView,
    pub dynamic_models: Seq<ModelView>,
    pub generation: u64,
    pub side_channel: Option<Seq<char>>,
}

/// The engine state of one provider instance: exclusively owns the
/// credential state, the settings snapshot, the dynamic model snapshot,
/// the discovery generation, and the mirrored side-channel key.
pub struct Engine {
    pub provider_id: String,
    pub creds: CredentialState,
    pub settings: ProviderSettings,
    pub dynamic_models: Vec<ResolvedModel>,
    pub generation: u64,
    pub side_channel: Option<String>,
}

impl View for Engine {
    type V = EngineView;

    open spec fn view(&self) -> EngineView {
        EngineView {
            provider_id: self.provider_id@,
            creds: self.creds@,
            settings: self.settings@,
            dynamic_models: model_views(self.dynamic_models@),
            generation: self.generation,
            side_channel: opt_view(self.side_channel),
        }
    }
}

/// A well-formed engine: the credential state is well formed and scoped to
/// the settings' URL.
pub open spec fn engine_wf(e: EngineView) -> bool {
    &&& cred_wf(e.creds)
    &&& e.creds.api_url == e.settings.api_url
}

/// Whether this provider's catalog is discovered dynamically.
pub open spec fn is_dynamic_provider(e: EngineView) -> bool {
    e.provider_id == dynamic_provider_id()
}

/// The side channel after a key change: the privileged provider mirrors its
/// current key into the side channel; any other provider leaves it alone.
pub open spec fn spec_sync_side_channel(e: EngineView) -> EngineView {
    if is_dynamic_provider(e) {
        EngineView { side_channel: spec_current_key(e.creds), ..e }
    } else {
        e
    }
}

/// Whether a discovery restart actually starts a fetch: only a dynamic
/// provider with a usable key fetches.
pub open spec fn spec_restart_starts(e: EngineView) -> bool {
    is_dynamic_provider(e) && spec_is_authenticated(e.creds)
}

/// The engine after a discovery restart: the generation advances, which
/// supersedes every cycle still in flight; when no fetch starts, the
/// dynamic snapshot is cleared.
pub open spec fn spec_restart(e: EngineView) -> EngineView {
    EngineView {
        generation: (e.generation + 1) as u64,
        dynamic_models: if spec_restart_starts(e) {
            e.dynamic_models
        } else {
            Seq::empty()
        },
        ..e
    }
}

/// The engine after storing (or clearing) a key: the credential store, the
/// side-channel mirror, then a discovery restart.
pub open spec fn spec_engine_set_key(e: EngineView, key: Option<Seq<char>>) -> EngineView {
    let e1 = EngineView { creds: spec_set_key(e.creds, key), ..e };
    spec_restart(spec_sync_side_channel(e1))
}

/// The engine after an authentication attempt settled with `loaded_key`:
/// an idempotent key load, the side-channel mirror, then a restart.
pub open spec fn spec_engine_authenticated(e: EngineView, loaded_key: Option<Seq<char>>)
    -> EngineView {
    let e1 = EngineView { creds: spec_mark_loaded(e.creds, loaded_key), ..e };
    spec_restart(spec_sync_side_channel(e1))
}

/// The engine after a settings change that really differs: the credential
/// scope follows the URL, the settings are replaced, the side channel is
/// re-synced, and discovery restarts.
pub open spec fn spec_engine_settings_changed(e: EngineView, s: SettingsView) -> EngineView {
    let e1 = EngineView {
        creds: spec_handle_url_change(e.creds, s.api_url),
        settings: s,
        ..e
    };
    spec_restart(spec_sync_side_channel(e1))
}

/// The engine after a stage-one completion: the snapshot is replaced only
/// when the completing cycle is still the current one.
pub open spec fn spec_apply_stage1(e: EngineView, g: u64, ms: Seq<ModelView>) -> EngineView {
    if g == e.generation {
        EngineView { dynamic_models: ms, ..e }
    } else {
        e
    }
}

/// The engine after a stage-two completion: the snapshot is replaced by the
/// expanded catalog only when the completing cycle is still current.
pub open spec fn spec_apply_stage2(e: EngineView, g: u64, expanded: Seq<ModelView>)
    -> EngineView {
    if g == e.generation {
        EngineView { dynamic_models: expanded, ..e }
    } else {
        e
    }
}

/// The dynamic entries the merge starts from: the snapshot, for a dynamic
/// provider whose snapshot is non-empty; nothing otherwise.
pub open spec fn spec_dynamic_part(e: EngineView) -> Seq<ModelView> {
    if is_dynamic_provider(e) && e.dynamic_models.len() > 0 {
        e.dynamic_models
    } else {
        Seq::empty()
    }
}

/// The catalog the engine currently resolves: the dynamic part, gaps filled
/// by the statically configured models.
pub open spec fn spec_resolved_models(e: EngineView) -> Seq<ModelView> {
    merged_models(spec_dynamic_part(e), e.settings.models)
}

/// What a started discovery fetch needs: the cycle's generation and the
/// credentials read at start time.
pub struct FetchPlan {
    pub generation: u64,
    pub api_url: String,
    pub api_key: Option<String>,
}

/// What the routing fan-out needs: the cycle's generation, the credentials,
/// and the base models to expand.
pub struct Stage2Plan {
    pub generation: u64,
    pub api_url: String,
    pub api_key: Option<String>,
    pub models: Vec<ResolvedModel>,
}

impl Engine {
    /// A fresh engine for one provider instance; nothing discovered yet.
    pub fn new(provider_id: String, settings: ProviderSettings, env_key: Option<String>) -> (r:
        Engine)
        ensures
            engine_wf(r@),
            r@.provider_id == provider_id@,
            r@.settings == settings@,
            r@.dynamic_models.len() == 0,
            r@.creds.stored_key is None,
            r@.creds.env_key == normalized_key(opt_view(env_key)),
            !r@.creds.loaded,
            r@.side_channel is None,
    {
        let url = settings.api_url.clone();
        Engine {
            provider_id,
            creds: CredentialState::new(url, env_key),
            settings,
            dynamic_models: Vec::new(),
            generation: 0,
            side_channel: None,
        }
    }

    /// Whether this provider's catalog is discovered dynamically.
    pub fn is_dynamic_provider(&self) -> (r: bool)
        ensures
            r == is_dynamic_provider(self@),
    {
        str_eq(self.provider_id.as_str(), dynamic_provider_id_str())
    }

    /// Whether a usable key is present.
    pub fn is_authenticated(&self) -> (r: bool)
        ensures
            r == spec_is_authenticated(self@.creds),
    {
        self.creds.is_authenticated()
    }

    /// Mirrors the current key into the side channel for the privileged
    /// provider.
    fn sync_side_channel(&mut self)
        ensures
            final(self)@ == spec_sync_side_channel(old(self)@),
    {
        if self.is_dynamic_provider() {
            self.side_channel = self.creds.current_key();
        }
        assert(self@ =~= spec_sync_side_channel(old(self)@));
    }

    /// Restarts discovery: advances the generation, superseding any cycle
    /// still in flight, and returns the fetch to start, if any. When no
    /// fetch starts the dynamic snapshot is cleared.
    fn restart_discovery(&mut self) -> (plan: Option<FetchPlan>)
        requires
            old(self)@.generation < u64::MAX,
        ensures
            final(self)@ == spec_restart(old(self)@),
            plan is Some <==> spec_restart_starts(old(self)@),
            plan matches Some(p) ==> p.generation == final(self)@.generation && p.api_url@
                == final(self)@.settings.api_url && opt_view(p.api_key) == spec_current_key(
                final(self)@.creds,
            ),
    {
        self.generation = self.generation + 1;
        if self.is_dynamic_provider() && self.creds.is_authenticated() {
            let plan = FetchPlan {
                generation: self.generation,
                api_url: self.settings.api_url.clone(),
                api_key: self.creds.current_key(),
            };
            assert(self@ =~= spec_restart(old(self)@));
            Some(plan)
        } else {
            self.dynamic_models = Vec::new();
            assert(model_views(self.dynamic_models@) =~= Seq::<ModelView>::empty());
            assert(self@ =~= spec_restart(old(self)@));
            None
        }
    }

    /// Stores or clears the key for the current URL, mirrors it, and
    /// restarts discovery; returns the fetch to start, if any.
    pub fn set_api_key(&mut self, key: Option<String>) -> (plan: Option<FetchPlan>)
        requires
            engine_wf(old(self)@),
            old(self)@.generation < u64::MAX,
        ensures
            engine_wf(final(self)@),
            final(self)@ == spec_engine_set_key(old(self)@, opt_view(key)),
            plan is Some <==> (is_dynamic_provider(final(self)@) && spec_is_authenticated(
                final(self)@.creds,
            )),
            plan matches Some(p) ==> p.generation == final(self)@.generation && p.api_url@
                == final(self)@.settings.api_url && opt_view(p.api_key) == spec_current_key(
                final(self)@.creds,
            ),
    {
        self.creds.set_key(key);
        self.sync_side_channel();
        self.restart_discovery()
    }

    /// Clears the stored key; equivalent to storing no key.
    pub fn reset_credentials(&mut self) -> (plan: Option<FetchPlan>)
        requires
            engine_wf(old(self)@),
            old(self)@.generation < u64::MAX,
        ensures
            engine_wf(final(self)@),
            final(self)@ == spec_engine_set_key(old(self)@, None),
            plan is Some <==> (is_dynamic_provider(final(self)@) && spec_is_authenticated(
                final(self)@.creds,
            )),
    {
        self.set_api_key(None)
    }

    /// Records the outcome of a key load (idempotent once loaded), mirrors
    /// the key, and restarts discovery; returns the fetch to start, if any.
    pub fn complete_authentication(&mut self, loaded_key: Option<String>) -> (plan: Option<
        FetchPlan,
    >)
        requires
            engine_wf(old(self)@),
            old(self)@.generation < u64::MAX,
        ensures
            engine_wf(final(self)@),
            final(self)@ == spec_engine_authenticated(old(self)@, opt_view(loaded_key)),
            plan is Some <==> (is_dynamic_provider(final(self)@) && spec_is_authenticated(
                final(self)@.creds,
            )),
            plan matches Some(p) ==> p.generation == final(self)@.generation && p.api_url@
                == final(self)@.settings.api_url && opt_view(p.api_key) == spec_current_key(
                final(self)@.creds,
            ),
    {
        self.creds.mark_loaded(loaded_key);
        self.sync_side_channel();
        self.restart_discovery()
    }

    /// Applies a settings-change notification: acts only when the settings
    /// value really differs from the current snapshot; then the credential
    /// scope follows the URL and discovery restarts.
    pub fn settings_changed(&mut self, new_settings: ProviderSettings) -> (r: (
        bool,
        Option<FetchPlan>,
    ))
        requires
            engine_wf(old(self)@),
            old(self)@.generation < u64::MAX,
        ensures
            engine_wf(final(self)@),
            !r.0 ==> final(self)@ == old(self)@ && new_settings@ == old(self)@.settings && r.1
                is None,
            r.0 ==> final(self)@ == spec_engine_settings_changed(old(self)@, new_settings@)
                && new_settings@ != old(self)@.settings,
            r.1 is Some <==> (r.0 && is_dynamic_provider(final(self)@) && spec_is_authenticated(
                final(self)@.creds,
            )),
            r.1 matches Some(p) ==> p.generation == final(self)@.generation && p.api_url@
                == final(self)@.settings.api_url && opt_view(p.api_key) == spec_current_key(
                final(self)@.creds,
            ),
    {
        if settings_eq(&self.settings, &new_settings) {
            return (false, None);
        }
        let url = new_settings.api_url.clone();
        self.creds.handle_url_change(url);
        self.settings = new_settings;
        self.sync_side_channel();
        let plan = self.restart_discovery();
        (true, plan)
    }

    /// Commits a stage-one completion: a stale cycle is discarded whole; a
    /// current one replaces the snapshot and, when it found any model,
    /// hands back the routing fan-out to start.
    pub fn apply_stage1(&mut self, generation: u64, models: Vec<ResolvedModel>) -> (plan: Option<
        Stage2Plan,
    >)
        requires
            engine_wf(old(self)@),
        ensures
            engine_wf(final(self)@),
            final(self)@ == spec_apply_stage1(old(self)@, generation, model_views(models@)),
            plan is Some <==> (generation == old(self)@.generation && models@.len() > 0),
            plan matches Some(p) ==> p.generation == generation && model_views(p.models@)
                == model_views(models@) && p.api_url@ == final(self)@.settings.api_url
                && opt_view(p.api_key) == spec_current_key(final(self)@.creds),
    {
        if generation != self.generation {
            assert(self@ =~= spec_apply_stage1(old(self)@, generation, model_views(models@)));
            return None;
        }
        let mut copies: Vec<ResolvedModel> = Vec::new();
        let mut i: usize = 0;
        while i < models.len()
            invariant
                i <= models@.len(),
                model_views(copies@) =~= model_views(models@).take(i as int),
            decreases models@.len() - i,
        {
            let ghost c0 = model_views(copies@);
            copies.push(models[i].duplicate());
            proof {
                assert(model_views(copies@) =~= c0.push(models@[i as int]@));
            }
            i = i + 1;
        }
        proof {
            assert(model_views(models@).take(models@.len() as int) =~= model_views(models@));
        }
        let has_models = models.len() > 0;
        self.dynamic_models = models;
        proof {
            assert(self@ =~= spec_apply_stage1(old(self)@, generation, model_views(
                self.dynamic_models@,
            )));
        }
        if has_models {
            Some(
                Stage2Plan {
                    generation,
                    api_url: self.settings.api_url.clone(),
                    api_key: self.creds.current_key(),
                    models: copies,
                },
            )
        } else {
            None
        }
    }

    /// Commits a stage-two completion: a stale cycle is discarded whole; a
    /// current one replaces the snapshot with the expanded catalog.
    pub fn apply_stage2(&mut self, generation: u64, pairs: Vec<(ResolvedModel, Vec<String>)>)
        requires
            engine_wf(old(self)@),
        ensures
            engine_wf(final(self)@),
            final(self)@ == spec_apply_stage2(
                old(self)@,
                generation,
                expand_all(pair_views(pairs@)),
            ),
    {
        let ghost expanded = expand_all(pair_views(pairs@));
        if generation == self.generation {
            let ex = expand_models(pairs);
            self.dynamic_models = ex;
        }
        assert(self@ =~= spec_apply_stage2(old(self)@, generation, expanded));
    }

    /// The catalog as currently resolved: a fresh merge of the dynamic
    /// snapshot and the statically configured models.
    pub fn resolved_models(&self) -> (r: Vec<ResolvedModel>)
        ensures
            model_views(r@) == spec_resolved_models(self@),
    {
        if self.is_dynamic_provider() && self.dynamic_models.len() > 0 {
            merge_models(&self.dynamic_models, &self.settings.available_models)
        } else {
            let empty: Vec<ResolvedModel> = Vec::new();
            let r = merge_models(&empty, &self.settings.available_models);
            proof {
                assert(model_views(empty@) =~= Seq::<ModelView>::empty());
            }
            r
        }
    }

    /// The default entry of the resolved catalog: for the dynamic provider,
    /// the first base entry for the default identifier when one exists,
    /// else the first entry.
    pub fn default_model(&self) -> (r: Option<ResolvedModel>)
        ensures
            is_dynamic_provider(self@) ==> opt_model_view(r) == default_choice(
                spec_resolved_models(self@),
            ),
            !is_dynamic_provider(self@) ==> opt_model_view(r) == (
            if spec_resolved_models(self@).len() > 0 {
                Some(spec_resolved_models(self@)[0])
            } else {
                None::<ModelView>
            }),
    {
        let models = self.resolved_models();
        select_default_model(&models, self.is_dynamic_provider())
    }
}

/// When the discovered entries carry distinct identifiers, every
/// identifier in the resolved catalog is unique: the merge adds a
/// statically configured model only under an identifier no earlier entry
/// carries.
pub proof fn lemma_resolved_models_unique(e: EngineView)
    requires
        crate::merge::unique_ids(spec_dynamic_part(e)),
    ensures
        crate::merge::unique_ids(spec_resolved_models(e)),
{
    crate::merge::lemma_merge_unique_ids(spec_dynamic_part(e), e.settings.models);
}

/// The resolved catalog never lets a statically configured model override
/// a discovered entry: the discovered entries open the catalog unchanged,
/// and everything after them carries an identifier no discovered entry
/// has.
pub proof fn lemma_resolved_models_preserve_discovered(e: EngineView)
    ensures
        spec_resolved_models(e).len() >= spec_dynamic_part(e).len(),
        forall|i: int|
            0 <= i < spec_dynamic_part(e).len() ==> spec_resolved_models(e)[i]
                == spec_dynamic_part(e)[i],
        forall|i: int|
            spec_dynamic_part(e).len() <= i < spec_resolved_models(e).len()
                ==> !crate::merge::contains_id(
                spec_dynamic_part(e),
                (#[trigger] spec_resolved_models(e)[i]).id,
            ),
{
    crate::merge::lemma_merge_preserves_dynamic(spec_dynamic_part(e), e.settings.models);
}

/// Setting a key and then resetting it before discovery settles leaves the
/// provider unauthenticated with an empty dynamic catalog, and every cycle
/// started before the reset — its generation is no longer current — is
/// discarded without touching the state.
pub proof fn lemma_set_then_reset_discards_stale(e: EngineView, k: Seq<char>)
    requires
        engine_wf(e),
        e.creds.env_key is None,
        e.generation + 2 <= u64::MAX,
    ensures
        ({
            let e2 = spec_engine_set_key(spec_engine_set_key(e, Some(k)), None);
            &&& !spec_is_authenticated(e2.creds)
            &&& e2.dynamic_models.len() == 0
            &&& spec_engine_set_key(e, Some(k)).generation != e2.generation
            &&& forall|g: u64, ms: Seq<ModelView>|
                g != e2.generation ==> spec_apply_stage1(e2, g, ms) == e2 && spec_apply_stage2(
                    e2,
                    g,
                    ms,
                ) == e2
        }),
{
    let e1 = spec_engine_set_key(e, Some(k));
    let e2 = spec_engine_set_key(e1, None);
    assert(e1.generation == e.generation + 1);
    assert(e2.generation == e.generation + 2);
    assert(e2.creds.stored_key is None);
    assert(e2.creds.env_key is None);
}

} // verus!

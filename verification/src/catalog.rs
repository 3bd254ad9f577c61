//! The catalog data model: resolved model entries, capability inference from
//! discovered capability tokens, and resolution of raw discovery records into
//! catalog entries.

use vstd::prelude::*;
use crate::text::ascii_eq_ci;
use crate::text::str_eq_ignore_ascii_case;

verus! {

/// Fallback for a missing or non-positive maximum-input-token limit.
pub const DEFAULT_MAX_INPUT_TOKENS: u64 = 200000;

/// Capability flags of one catalog model.
#[derive(Clone, Copy, Debug, PartialEq, Eq, Structural)]
pub struct ModelCapabilities {
    pub tools: bool,
    pub images: bool,
    pub parallel_tool_calls: bool,
    pub prompt_cache_key: bool,
    pub chat_completions: bool,
}

/// Mathematical value of one catalog entry.
#[verifier::ext_equal]
pub ghost struct ModelView {
    pub id: Seq<char>,
    pub request_model: Seq<char>,
    pub display_name: Option<Seq<char>>,
    pub max_tokens: u64,
    pub max_output_tokens: Option<u64>,
    pub max_completion_tokens: Option<u64>,
    pub capabilities: ModelCapabilities,
    pub provider_override: Option<Seq<char>>,
}

/// One entry of the resolved model catalog.
///
/// `id` is the unique catalog key; `request_model` is the identifier sent
/// upstream; a routing override marks an entry expanded from a base model.
pub struct ResolvedModel {
    pub id: String,
    pub request_model: String,
    pub display_name: Option<String>,
    pub max_tokens: u64,
    pub max_output_tokens: Option<u64>,
    pub max_completion_tokens: Option<u64>,
    pub capabilities: ModelCapabilities,
    pub provider_override: Option<String>,
}

/// The value of an optional string.
pub open spec fn opt_view(s: Option<String>) -> Option<Seq<char>> {
    match s {
        Some(v) => Some(v@),
        None => None,
    }
}

impl View for ResolvedModel {
    type V = ModelView;

    open spec fn view(&self) -> ModelView {
        ModelView {
            id: self.id@,
            request_model: self.request_model@,
            display_name: opt_view(self.display_name),
            max_tokens: self.max_tokens,
            max_output_tokens: self.max_output_tokens,
            max_completion_tokens: self.max_completion_tokens,
            capabilities: self.capabilities,
            provider_override: opt_view(self.provider_override),
        }
    }
}

/// The values of a sequence of catalog entries.
pub open spec fn model_views(s: Seq<ResolvedModel>) -> Seq<ModelView> {
    s.map_values(|m: ResolvedModel| m@)
}

impl ResolvedModel {
    /// An exact copy of this catalog entry.
    pub fn duplicate(&self) -> (r: ResolvedModel)
        ensures
            r@ == self@,
    {
        let r = ResolvedModel {
            id: self.id.clone(),
            request_model: self.request_model.clone(),
            display_name: clone_opt_string(&self.display_name),
            max_tokens: self.max_tokens,
            max_output_tokens: self.max_output_tokens,
            max_completion_tokens: self.max_completion_tokens,
            capabilities: self.capabilities,
            provider_override: clone_opt_string(&self.provider_override),
        };
        assert(r@ =~= self@);
        r
    }
}

/// A copy of an optional string with the same character content.
pub fn clone_opt_string(s: &Option<String>) -> (r: Option<String>)
    ensures
        opt_view(*s) == opt_view(r),
{
    match s {
        Some(v) => Some(v.clone()),
        None => None,
    }
}

/// Mathematical value of one statically configured model.
#[verifier::ext_equal]
pub ghost struct AvailableModelView {
    pub name: Seq<char>,
    pub display_name: Option<Seq<char>>,
    pub max_tokens: u64,
    pub max_output_tokens: Option<u64>,
    pub max_completion_tokens: Option<u64>,
    pub capabilities: ModelCapabilities,
}

/// One statically configured model, as provider settings declare it.
pub struct AvailableModel {
    pub name: String,
    pub display_name: Option<String>,
    pub max_tokens: u64,
    pub max_output_tokens: Option<u64>,
    pub max_completion_tokens: Option<u64>,
    pub capabilities: ModelCapabilities,
}

impl View for AvailableModel {
    type V = AvailableModelView;

    open spec fn view(&self) -> AvailableModelView {
        AvailableModelView {
            name: self.name@,
            display_name: opt_view(self.display_name),
            max_tokens: self.max_tokens,
            max_output_tokens: self.max_output_tokens,
            max_completion_tokens: self.max_completion_tokens,
            capabilities: self.capabilities,
        }
    }
}

/// The values of a sequence of statically configured models.
pub open spec fn available_views(s: Seq<AvailableModel>) -> Seq<AvailableModelView> {
    s.map_values(|m: AvailableModel| m@)
}

impl AvailableModel {
    /// An exact copy of this configured model.
    pub fn duplicate(&self) -> (r: AvailableModel)
        ensures
            r@ == self@,
    {
        let r = AvailableModel {
            name: self.name.clone(),
            display_name: clone_opt_string(&self.display_name),
            max_tokens: self.max_tokens,
            max_output_tokens: self.max_output_tokens,
            max_completion_tokens: self.max_completion_tokens,
            capabilities: self.capabilities,
        };
        assert(r@ =~= self@);
        r
    }
}

/// The catalog entry a statically configured model becomes: same identifier
/// upstream and in the catalog, no routing override.
pub open spec fn resolved_of_available(a: AvailableModelView) -> ModelView {
    ModelView {
        id: a.name,
        request_model: a.name,
        display_name: a.display_name,
        max_tokens: a.max_tokens,
        max_output_tokens: a.max_output_tokens,
        max_completion_tokens: a.max_completion_tokens,
        capabilities: a.capabilities,
        provider_override: None,
    }
}

impl ResolvedModel {
    /// Builds the catalog entry for a statically configured model.
    pub fn from_available_model(model: AvailableModel) -> (r: ResolvedModel)
        ensures
            r@ == resolved_of_available(model@),
    {
        let id = model.name.clone();
        let r = ResolvedModel {
            id,
            request_model: model.name,
            display_name: model.display_name,
            max_tokens: model.max_tokens,
            max_output_tokens: model.max_output_tokens,
            max_completion_tokens: model.max_completion_tokens,
            capabilities: model.capabilities,
            provider_override: None,
        };
        assert(r@ =~= resolved_of_available(model@));
        r
    }
}

/// The values of a sequence of strings.
pub open spec fn str_views(s: Seq<String>) -> Seq<Seq<char>> {
    s.map_values(|t: String| t@)
}

/// Some capability token equals `name` up to ASCII case.
pub open spec fn has_token_ci(tokens: Seq<Seq<char>>, name: Seq<char>) -> bool {
    exists|i: int| 0 <= i < tokens.len() && ascii_eq_ci(#[trigger] tokens[i], name)
}

/// The capability flags inferred from a discovered capability token list:
/// a "tool-calling" token (matched case-insensitively) implies tool support
/// and parallel tool calls, a "vision" token implies image support, the
/// chat-completions protocol is always used, and prompt cache keys never are.
pub open spec fn caps_of_tokens(tokens: Seq<Seq<char>>) -> ModelCapabilities {
    ModelCapabilities {
        tools: has_token_ci(tokens, "tool-calling"@),
        images: has_token_ci(tokens, "vision"@),
        parallel_tool_calls: has_token_ci(tokens, "tool-calling"@),
        prompt_cache_key: false,
        chat_completions: true,
    }
}

/// Whether some token in the list equals `name` up to ASCII case.
pub fn tokens_contain_ci(tokens: &Vec<String>, name: &str) -> (r: bool)
    ensures
        r == has_token_ci(str_views(tokens@), name@),
{
    let ghost toks = str_views(tokens@);
    let mut i: usize = 0;
    while i < tokens.len()
        invariant
            i <= tokens.len(),
            toks == str_views(tokens@),
            forall|j: int| 0 <= j < i ==> !ascii_eq_ci(#[trigger] toks[j], name@),
        decreases tokens.len() - i,
    {
        if str_eq_ignore_ascii_case(tokens[i].as_str(), name) {
            assert(ascii_eq_ci(toks[i as int], name@));
            return true;
        }
        i = i + 1;
    }
    false
}

/// Infers capability flags from a discovered capability token list.
pub fn capabilities_for_tokens(tokens: &Vec<String>) -> (r: ModelCapabilities)
    ensures
        r == caps_of_tokens(str_views(tokens@)),
{
    let tools = tokens_contain_ci(tokens, "tool-calling");
    let images = tokens_contain_ci(tokens, "vision");
    ModelCapabilities {
        tools,
        images,
        parallel_tool_calls: tools,
        prompt_cache_key: false,
        chat_completions: true,
    }
}

/// Mathematical value of one raw discovery record.
#[verifier::ext_equal]
pub ghost struct RecordView {
    pub key: Seq<char>,
    pub model: Option<Seq<char>>,
    pub name: Option<Seq<char>>,
    pub visible: Option<bool>,
    pub max_input_tokens: Option<u64>,
    pub max_output_tokens: Option<u64>,
    pub capabilities: Seq<Seq<char>>,
}

/// One model record of the models-listing response, keyed by its mapping key.
pub struct CatalogRecord {
    pub key: String,
    pub model: Option<String>,
    pub name: Option<String>,
    pub visible: Option<bool>,
    pub max_input_tokens: Option<u64>,
    pub max_output_tokens: Option<u64>,
    pub capabilities: Vec<String>,
}

impl View for CatalogRecord {
    type V = RecordView;

    open spec fn view(&self) -> RecordView {
        RecordView {
            key: self.key@,
            model: opt_view(self.model),
            name: opt_view(self.name),
            visible: self.visible,
            max_input_tokens: self.max_input_tokens,
            max_output_tokens: self.max_output_tokens,
            capabilities: str_views(self.capabilities@),
        }
    }
}

/// The values of a sequence of raw discovery records.
pub open spec fn record_views(s: Seq<CatalogRecord>) -> Seq<RecordView> {
    s.map_values(|r: CatalogRecord| r@)
}

/// The identifier a record is addressed by upstream: its explicit identifier
/// if present, else its mapping key.
pub open spec fn record_request_model(r: RecordView) -> Seq<char> {
    match r.model {
        Some(m) => m,
        None => r.key,
    }
}

/// A record enters the catalog unless it is explicitly marked not visible.
pub open spec fn record_kept(r: RecordView) -> bool {
    r.visible != Some(false)
}

/// The effective maximum-input-token limit: a missing or non-positive value
/// falls back to `DEFAULT_MAX_INPUT_TOKENS`.
pub open spec fn effective_max_tokens(t: Option<u64>) -> u64 {
    match t {
        Some(v) => if v > 0 {
            v
        } else {
            DEFAULT_MAX_INPUT_TOKENS
        },
        None => DEFAULT_MAX_INPUT_TOKENS,
    }
}

/// The effective maximum-output-token limit: a missing or non-positive value
/// is treated as absent.
pub open spec fn effective_max_output_tokens(t: Option<u64>) -> Option<u64> {
    match t {
        Some(v) => if v > 0 {
            Some(v)
        } else {
            None
        },
        None => None,
    }
}

/// The catalog entry a kept discovery record resolves to.
pub open spec fn resolved_of_record(r: RecordView) -> ModelView {
    ModelView {
        id: record_request_model(r),
        request_model: record_request_model(r),
        display_name: r.name,
        max_tokens: effective_max_tokens(r.max_input_tokens),
        max_output_tokens: effective_max_output_tokens(r.max_output_tokens),
        max_completion_tokens: effective_max_output_tokens(r.max_output_tokens),
        capabilities: caps_of_tokens(r.capabilities),
        provider_override: None,
    }
}

/// Resolves one raw discovery record: a record marked not visible yields no
/// entry; any other record yields exactly `resolved_of_record` of it.
pub fn resolve_record(rec: CatalogRecord) -> (r: Option<ResolvedModel>)
    ensures
        r is Some <==> record_kept(rec@),
        r matches Some(m) ==> m@ == resolved_of_record(rec@),
{
    if let Some(false) = rec.visible {
        return None;
    }
    let capabilities = capabilities_for_tokens(&rec.capabilities);
    let request_model = match rec.model {
        Some(m) => m,
        None => rec.key,
    };
    let id = request_model.clone();
    let max_tokens: u64 = match rec.max_input_tokens {
        Some(v) => if v > 0 {
            v
        } else {
            DEFAULT_MAX_INPUT_TOKENS
        },
        None => DEFAULT_MAX_INPUT_TOKENS,
    };
    let max_output_tokens: Option<u64> = match rec.max_output_tokens {
        Some(v) => if v > 0 {
            Some(v)
        } else {
            None
        },
        None => None,
    };
    let m = ResolvedModel {
        id,
        request_model,
        display_name: rec.name,
        max_tokens,
        max_output_tokens,
        max_completion_tokens: max_output_tokens,
        capabilities,
        provider_override: None,
    };
    assert(m@ =~= resolved_of_record(rec@));
    Some(m)
}

} // verus!

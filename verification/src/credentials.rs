//! Credential state for one provider: the base URL a key is scoped to, an
//! optional stored key, an optional environment-style fallback key, and the
//! load/store/rotate operations over them.

use vstd::prelude::*;
use crate::catalog::opt_view;
use crate::text::{concat2, str_eq};

verus! {

/// What `to_upper_snake` returns for a given input; the conversion depends
/// on the input characters alone.
pub uninterp spec fn upper_snake_of(s: Seq<char>) -> Seq<char>;

/// Relies on convert_case's `Casing::to_case` with `Case::UpperSnake`:
/// splits the input into words and joins them uppercased with underscores,
/// from the characters alone.
#[verifier::external_body]
fn to_upper_snake(s: &str) -> (r: String)
    ensures
        r@ == upper_snake_of(s@),
{
    convert_case::Casing::to_case(&s, convert_case::Case::UpperSnake)
}

/// The name of the environment variable a provider's key may fall back to:
/// the provider identifier joined with an API-key suffix, in upper snake
/// case.
pub fn api_key_env_var_name(provider_id: &str) -> (r: String)
    ensures
        r@ == upper_snake_of(provider_id@ + "_API_KEY"@),
{
    let joined = concat2(provider_id, "_API_KEY");
    to_upper_snake(joined.as_str())
}

/// Mathematical value of a provider's credential state.
#[verifier::ext_equal]
pub ghost struct CredentialStateView {
    pub api_url: Seq<char>,
    pub stored_key: Option<Seq<char>>,
    pub env_key: Option<Seq<char>>,
    pub loaded: bool,
}

/// A provider's credential state. The stored key is scoped to `api_url`;
/// the environment-style fallback key, when present, authenticates in the
/// stored key's absence. `loaded` records whether a load was performed for
/// the current URL.
pub struct CredentialState {
    pub api_url: String,
    pub stored_key: Option<String>,
    pub env_key: Option<String>,
    pub loaded: bool,
}

impl View for CredentialState {
    type V = CredentialStateView;

    open spec fn view(&self) -> CredentialStateView {
        CredentialStateView {
            api_url: self.api_url@,
            stored_key: opt_view(self.stored_key),
            env_key: opt_view(self.env_key),
            loaded: self.loaded,
        }
    }
}

/// Keys are held only when non-empty: an empty string entered or read from
/// the environment counts as no key.
pub open spec fn normalized_key(k: Option<Seq<char>>) -> Option<Seq<char>> {
    match k {
        Some(v) => if v.len() > 0 {
            Some(v)
        } else {
            None
        },
        None => None,
    }
}

/// A well-formed credential state holds no empty key.
pub open spec fn cred_wf(c: CredentialStateView) -> bool {
    &&& (c.stored_key matches Some(k) ==> k.len() > 0)
    &&& (c.env_key matches Some(k) ==> k.len() > 0)
}

/// A usable key is present, from the stored or the fallback source.
pub open spec fn spec_is_authenticated(c: CredentialStateView) -> bool {
    c.stored_key is Some || c.env_key is Some
}

/// The key a request dispatched now would carry: the stored key, else the
/// fallback.
pub open spec fn spec_current_key(c: CredentialStateView) -> Option<Seq<char>> {
    if c.stored_key is Some {
        c.stored_key
    } else {
        c.env_key
    }
}

/// The credential state after storing (or clearing) a key for the current
/// URL.
pub open spec fn spec_set_key(c: CredentialStateView, key: Option<Seq<char>>)
    -> CredentialStateView {
    CredentialStateView { stored_key: normalized_key(key), loaded: true, ..c }
}

/// The credential state after a load for the current URL completed with
/// `loaded_key`: a no-op when already loaded.
pub open spec fn spec_mark_loaded(c: CredentialStateView, loaded_key: Option<Seq<char>>)
    -> CredentialStateView {
    if c.loaded {
        c
    } else {
        CredentialStateView { stored_key: normalized_key(loaded_key), loaded: true, ..c }
    }
}

/// The credential state after the provider's URL changed: a key is scoped
/// to the URL it was entered for, so a different URL drops the stored key
/// and forces re-resolution.
pub open spec fn spec_handle_url_change(c: CredentialStateView, new_url: Seq<char>)
    -> CredentialStateView {
    if new_url == c.api_url {
        c
    } else {
        CredentialStateView { api_url: new_url, stored_key: None, loaded: false, ..c }
    }
}

/// Normalizes an entered or loaded key: an empty one counts as absent.
fn normalize_key(key: Option<String>) -> (r: Option<String>)
    ensures
        opt_view(r) == normalized_key(opt_view(key)),
        r matches Some(k) ==> k@.len() > 0,
{
    match key {
        Some(v) => if v.as_str().is_empty() {
            None
        } else {
            Some(v)
        },
        None => None,
    }
}

impl CredentialState {
    /// A fresh credential state for one URL, with an optional
    /// environment-style fallback key; nothing is loaded yet.
    pub fn new(api_url: String, env_key: Option<String>) -> (r: CredentialState)
        ensures
            cred_wf(r@),
            r@.api_url == api_url@,
            r@.stored_key is None,
            r@.env_key == normalized_key(opt_view(env_key)),
            !r@.loaded,
    {
        CredentialState {
            api_url,
            stored_key: None,
            env_key: normalize_key(env_key),
            loaded: false,
        }
    }

    /// Whether a usable key is present.
    pub fn is_authenticated(&self) -> (r: bool)
        ensures
            r == spec_is_authenticated(self@),
    {
        self.stored_key.is_some() || self.env_key.is_some()
    }

    /// The key a request dispatched now would carry.
    pub fn current_key(&self) -> (r: Option<String>)
        ensures
            opt_view(r) == spec_current_key(self@),
    {
        match &self.stored_key {
            Some(k) => Some(k.clone()),
            None => match &self.env_key {
                Some(k) => Some(k.clone()),
                None => None,
            },
        }
    }

    /// Stores or clears the key for the current URL.
    pub fn set_key(&mut self, key: Option<String>)
        requires
            cred_wf(old(self)@),
        ensures
            cred_wf(final(self)@),
            final(self)@ == spec_set_key(old(self)@, opt_view(key)),
    {
        self.stored_key = normalize_key(key);
        self.loaded = true;
        assert(self@ =~= spec_set_key(old(self)@, opt_view(key)));
    }

    /// Records the outcome of a key load for the current URL; idempotent
    /// once loaded.
    pub fn mark_loaded(&mut self, loaded_key: Option<String>)
        requires
            cred_wf(old(self)@),
        ensures
            cred_wf(final(self)@),
            final(self)@ == spec_mark_loaded(old(self)@, opt_view(loaded_key)),
    {
        if !self.loaded {
            self.stored_key = normalize_key(loaded_key);
            self.loaded = true;
        }
        assert(self@ =~= spec_mark_loaded(old(self)@, opt_view(loaded_key)));
    }

    /// Rebinds the state to a possibly different URL, invalidating the
    /// stored key and load state when the URL really changed.
    pub fn handle_url_change(&mut self, new_url: String)
        requires
            cred_wf(old(self)@),
        ensures
            cred_wf(final(self)@),
            final(self)@ == spec_handle_url_change(old(self)@, new_url@),
    {
        if !str_eq(new_url.as_str(), self.api_url.as_str()) {
            self.api_url = new_url;
            self.stored_key = None;
            self.loaded = false;
        }
        assert(self@ =~= spec_handle_url_change(old(self)@, new_url@));
    }
}

} // verus!

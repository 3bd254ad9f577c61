//! The catalog merge: discovered entries first, then every statically
//! configured model whose identifier is not already taken; and the
//! default-model selection over the merged catalog.

use vstd::prelude::*;
use crate::catalog::{AvailableModel, AvailableModelView, ModelView, ResolvedModel, available_views,
    model_views, resolved_of_available};
use crate::order::default_model_id;
use crate::text::str_eq;

verus! {

/// Some entry of the catalog carries the identifier `id`.
pub open spec fn contains_id(s: Seq<ModelView>, id: Seq<char>) -> bool {
    exists|i: int| 0 <= i < s.len() && (#[trigger] s[i]).id == id
}

/// Every entry of the catalog carries a distinct identifier.
pub open spec fn unique_ids(s: Seq<ModelView>) -> bool {
    forall|i: int, j: int| 0 <= i < j < s.len() ==> (#[trigger] s[i]).id != (#[trigger] s[j]).id
}

/// The merged catalog: the discovered entries unchanged and in order,
/// followed by each statically configured model, in order, whose identifier
/// no earlier entry already carries.
pub open spec fn merged_models(dynamic: Seq<ModelView>, statics: Seq<AvailableModelView>) -> Seq<
    ModelView,
>
    decreases statics.len(),
{
    if statics.len() == 0 {
        dynamic
    } else {
        let prev = merged_models(dynamic, statics.drop_last());
        let cand = resolved_of_available(statics.last());
        if contains_id(prev, cand.id) {
            prev
        } else {
            prev.push(cand)
        }
    }
}

/// Whether some catalog entry carries the identifier `id`.
pub fn contains_model_id(v: &Vec<ResolvedModel>, id: &str) -> (r: bool)
    ensures
        r == contains_id(model_views(v@), id@),
{
    let ghost mv = model_views(v@);
    let mut i: usize = 0;
    while i < v.len()
        invariant
            i <= v@.len(),
            mv == model_views(v@),
            forall|j: int| 0 <= j < i ==> (#[trigger] mv[j]).id != id@,
        decreases v@.len() - i,
    {
        if str_eq(v[i].id.as_str(), id) {
            assert(mv[i as int].id == id@);
            return true;
        }
        i = i + 1;
    }
    false
}

/// Builds the merged catalog from the discovered entries and the statically
/// configured models.
pub fn merge_models(dynamic: &Vec<ResolvedModel>, statics: &Vec<AvailableModel>) -> (out: Vec<
    ResolvedModel,
>)
    ensures
        model_views(out@) == merged_models(model_views(dynamic@), available_views(statics@)),
{
    let ghost dv = model_views(dynamic@);
    let ghost sv = available_views(statics@);
    let mut out: Vec<ResolvedModel> = Vec::new();
    let mut i: usize = 0;
    while i < dynamic.len()
        invariant
            i <= dynamic@.len(),
            dv == model_views(dynamic@),
            model_views(out@) =~= dv.take(i as int),
        decreases dynamic@.len() - i,
    {
        let ghost out0 = model_views(out@);
        let m = dynamic[i].duplicate();
        out.push(m);
        proof {
            assert(model_views(out@) =~= out0.push(dynamic@[i as int]@));
            assert(model_views(out@) =~= dv.take(i + 1));
        }
        i = i + 1;
    }
    proof {
        assert(dv.take(dynamic@.len() as int) =~= dv);
        assert(sv.take(0) =~= Seq::<AvailableModelView>::empty());
        assert(merged_models(dv, sv.take(0)) == dv);
    }
    let mut k: usize = 0;
    while k < statics.len()
        invariant
            k <= statics@.len(),
            dv == model_views(dynamic@),
            sv == available_views(statics@),
            model_views(out@) == merged_models(dv, sv.take(k as int)),
        decreases statics@.len() - k,
    {
        proof {
            assert(sv.take(k + 1).drop_last() =~= sv.take(k as int));
            assert(sv.take(k + 1).last() == sv[k as int]);
        }
        let cand = ResolvedModel::from_available_model(statics[k].duplicate());
        let ghost out0 = model_views(out@);
        if !contains_model_id(&out, cand.id.as_str()) {
            proof {
                assert(cand@.id == resolved_of_available(sv[k as int]).id);
            }
            out.push(cand);
            proof {
                assert(model_views(out@) =~= out0.push(resolved_of_available(sv[k as int])));
            }
        }
        k = k + 1;
    }
    proof {
        assert(sv.take(statics@.len() as int) =~= sv);
    }
    out
}

/// Merging preserves every discovered entry in place: the merged catalog
/// begins with the discovered entries unchanged, and every entry appended
/// after them carries an identifier no discovered entry has. A statically
/// configured model can only fill a gap, never override a discovered one.
pub proof fn lemma_merge_preserves_dynamic(
    dynamic: Seq<ModelView>,
    statics: Seq<AvailableModelView>,
)
    ensures
        merged_models(dynamic, statics).len() >= dynamic.len(),
        forall|i: int|
            0 <= i < dynamic.len() ==> merged_models(dynamic, statics)[i] == dynamic[i],
        forall|i: int|
            dynamic.len() <= i < merged_models(dynamic, statics).len() ==> !contains_id(
                dynamic,
                (#[trigger] merged_models(dynamic, statics)[i]).id,
            ),
    decreases statics.len(),
{
    if statics.len() > 0 {
        lemma_merge_preserves_dynamic(dynamic, statics.drop_last());
        let prev = merged_models(dynamic, statics.drop_last());
        let cand = resolved_of_available(statics.last());
        if !contains_id(prev, cand.id) {
            assert forall|i: int|
                dynamic.len() <= i < prev.push(cand).len() implies !contains_id(
                dynamic,
                (#[trigger] prev.push(cand)[i]).id,
            ) by {
                if i < prev.len() {
                    assert(prev.push(cand)[i] == prev[i]);
                } else {
                    assert(prev.push(cand)[i] == cand);
                    if contains_id(dynamic, cand.id) {
                        let w = choose|w: int|
                            0 <= w < dynamic.len() && (#[trigger] dynamic[w]).id == cand.id;
                        assert(prev[w] == dynamic[w]);
                        assert(contains_id(prev, cand.id));
                    }
                }
            }
        }
    }
}

/// When the discovered entries carry distinct identifiers, so does the
/// whole merged catalog.
pub proof fn lemma_merge_unique_ids(dynamic: Seq<ModelView>, statics: Seq<AvailableModelView>)
    requires
        unique_ids(dynamic),
    ensures
        unique_ids(merged_models(dynamic, statics)),
    decreases statics.len(),
{
    if statics.len() > 0 {
        lemma_merge_unique_ids(dynamic, statics.drop_last());
        let prev = merged_models(dynamic, statics.drop_last());
        let cand = resolved_of_available(statics.last());
        if !contains_id(prev, cand.id) {
            assert forall|i: int, j: int|
                0 <= i < j < prev.push(cand).len() implies (#[trigger] prev.push(cand)[i]).id != (
            #[trigger] prev.push(cand)[j]).id by {
                if j < prev.len() {
                    assert(prev.push(cand)[i] == prev[i]);
                    assert(prev.push(cand)[j] == prev[j]);
                } else {
                    assert(prev.push(cand)[j] == cand);
                    assert(prev.push(cand)[i] == prev[i]);
                    if prev[i].id == cand.id {
                        assert(contains_id(prev, cand.id));
                    }
                }
            }
        }
    }
}

/// A base (non-routed) entry for the designated default identifier.
pub open spec fn is_default_base(m: ModelView) -> bool {
    m.request_model == default_model_id() && m.provider_override is None
}

/// The first base entry for the default identifier, if the catalog has one.
pub open spec fn find_default_base(s: Seq<ModelView>) -> Option<ModelView>
    decreases s.len(),
{
    if s.len() == 0 {
        None
    } else if is_default_base(s[0]) {
        Some(s[0])
    } else {
        find_default_base(s.drop_first())
    }
}

/// The catalog entry a dynamic-discovery provider treats as its default:
/// the first base entry for the default identifier when one exists, else
/// the first entry, else none.
pub open spec fn default_choice(s: Seq<ModelView>) -> Option<ModelView> {
    match find_default_base(s) {
        Some(m) => Some(m),
        None => if s.len() > 0 {
            Some(s[0])
        } else {
            None
        },
    }
}

/// The value of an optional catalog entry.
pub open spec fn opt_model_view(r: Option<ResolvedModel>) -> Option<ModelView> {
    match r {
        Some(m) => Some(m@),
        None => None,
    }
}

proof fn lemma_find_default_base_skip(s: Seq<ModelView>, i: int)
    requires
        0 <= i <= s.len(),
        forall|j: int| 0 <= j < i ==> !is_default_base(#[trigger] s[j]),
    ensures
        find_default_base(s) == find_default_base(s.skip(i)),
    decreases i,
{
    if i > 0 {
        assert(!is_default_base(s[0]));
        assert(s.len() > 0);
        lemma_find_default_base_skip(s.drop_first(), i - 1);
        assert(s.drop_first().skip(i - 1) =~= s.skip(i));
    } else {
        assert(s.skip(0) =~= s);
    }
}

/// Selects the default entry of a catalog: for a provider with dynamic
/// discovery, the first base entry for the default identifier when one
/// exists; otherwise, and for any other provider, the first entry.
pub fn select_default_model(models: &Vec<ResolvedModel>, dynamic_discovery: bool) -> (r: Option<
    ResolvedModel,
>)
    ensures
        dynamic_discovery ==> opt_model_view(r) == default_choice(model_views(models@)),
        !dynamic_discovery ==> opt_model_view(r) == (if models@.len() > 0 {
            Some(models@[0]@)
        } else {
            None::<ModelView>
        }),
{
    let ghost mv = model_views(models@);
    if dynamic_discovery {
        let default_id = crate::order::default_model_id_str();
        let mut i: usize = 0;
        while i < models.len()
            invariant
                i <= models@.len(),
                mv == model_views(models@),
                dynamic_discovery,
                default_id@ == default_model_id(),
                forall|j: int| 0 <= j < i ==> !is_default_base(#[trigger] mv[j]),
            decreases models@.len() - i,
        {
            let m = &models[i];
            if m.provider_override.is_none() && str_eq(m.request_model.as_str(), default_id) {
                proof {
                    assert(mv[i as int] == models@[i as int]@);
                    assert(m.request_model@ == default_id@);
                    assert(default_id@ == default_model_id());
                    assert(mv[i as int].request_model == m.request_model@);
                    assert(is_default_base(mv[i as int]));
                    lemma_find_default_base_skip(mv, i as int);
                    assert(mv.skip(i as int)[0] == mv[i as int]);
                }
                return Some(m.duplicate());
            }
            i = i + 1;
        }
        proof {
            lemma_find_default_base_skip(mv, mv.len() as int);
            assert(mv.skip(mv.len() as int) =~= Seq::<ModelView>::empty());
        }
        if models.len() > 0 {
            Some(models[0].duplicate())
        } else {
            None
        }
    } else {
        if models.len() > 0 {
            Some(models[0].duplicate())
        } else {
            None
        }
    }
}

/// Whenever the catalog holds a base entry for the default identifier, the
/// default choice is such an entry — the first one — and only a catalog
/// with no such entry falls back to its first entry.
pub proof fn lemma_default_choice_spec(s: Seq<ModelView>)
    ensures
        (exists|i: int| 0 <= i < s.len() && is_default_base(#[trigger] s[i])) ==> (
        default_choice(s) matches Some(m) && is_default_base(m)),
        !(exists|i: int| 0 <= i < s.len() && is_default_base(#[trigger] s[i])) && s.len() > 0
            ==> default_choice(s) == Some(s[0]),
        s.len() == 0 ==> default_choice(s) is None,
{
    lemma_find_default_base_props(s);
    match find_default_base(s) {
        Some(m) => {
            let w = choose|w: int| 0 <= w < s.len() && s[w] == m;
            assert(is_default_base(s[w]));
        },
        None => {},
    }
}

proof fn lemma_find_default_base_props(s: Seq<ModelView>)
    ensures
        find_default_base(s) matches Some(m) ==> is_default_base(m) && exists|i: int|
            0 <= i < s.len() && s[i] == m,
        find_default_base(s) is None ==> forall|i: int|
            0 <= i < s.len() ==> !is_default_base(#[trigger] s[i]),
    decreases s.len(),
{
    if s.len() > 0 && !is_default_base(s[0]) {
        lemma_find_default_base_props(s.drop_first());
        match find_default_base(s) {
            Some(m) => {
                let w = choose|w: int|
                    0 <= w < s.drop_first().len() && s.drop_first()[w] == m;
                assert(s[w + 1] == m);
            },
            None => {
                assert forall|i: int| 0 <= i < s.len() implies !is_default_base(
                    #[trigger] s[i],
                ) by {
                    if i > 0 {
                        assert(s.drop_first()[i - 1] == s[i]);
                    }
                }
            },
        }
    }
}

} // verus!

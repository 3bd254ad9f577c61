//! Stage two of the discovery pipeline: validation of a routing-options
//! response and expansion of base models into routing variants.

use vstd::prelude::*;
use crate::catalog::{ModelView, ResolvedModel, model_views, str_views};
use crate::order::sort_key;
use crate::text::{Rank, cmp_seq, concat3, lemma_cmp_eq_iff, lemma_cmp_flip, lemma_lt_trans, seq_lt,
    str_compare};

verus! {

/// Mathematical value of one entry of a routing-options response.
#[verifier::ext_equal]
pub ghost struct ProviderEntryView {
    pub provider: Seq<char>,
    pub available: bool,
}

/// One entry of a routing-options response: a route name and whether the
/// route is currently available.
pub struct ProviderEntry {
    pub provider: String,
    pub available: bool,
}

impl View for ProviderEntry {
    type V = ProviderEntryView;

    open spec fn view(&self) -> ProviderEntryView {
        ProviderEntryView { provider: self.provider@, available: self.available }
    }
}

/// The values of a sequence of routing-option entries.
pub open spec fn entry_views(s: Seq<ProviderEntry>) -> Seq<ProviderEntryView> {
    s.map_values(|e: ProviderEntry| e@)
}

/// An entry contributes a routing option when its route is available and
/// its name is non-empty.
pub open spec fn valid_provider(e: ProviderEntryView) -> bool {
    e.available && e.provider.len() > 0
}

/// Some entry contributes the routing option `p`.
pub open spec fn has_valid_provider(es: Seq<ProviderEntryView>, p: Seq<char>) -> bool {
    exists|i: int| 0 <= i < es.len() && valid_provider(#[trigger] es[i]) && es[i].provider == p
}

/// A sequence of names in strictly ascending lexicographic order; such a
/// sequence has no duplicates.
pub open spec fn strictly_sorted(s: Seq<Seq<char>>) -> bool {
    forall|i: int, j: int| 0 <= i < j < s.len() ==> seq_lt(#[trigger] s[i], #[trigger] s[j])
}

/// Inserts a name into a strictly sorted list, keeping it strictly sorted;
/// a name already present is not inserted again.
fn insert_sorted_unique(v: &mut Vec<String>, s: String)
    requires
        strictly_sorted(str_views(old(v)@)),
    ensures
        strictly_sorted(str_views(final(v)@)),
        forall|p: Seq<char>|
            str_views(final(v)@).contains(p) <==> (str_views(old(v)@).contains(p) || p == s@),
{
    let ghost vs = str_views(old(v)@);
    let mut i: usize = 0;
    while i < v.len()
        invariant
            i <= v@.len(),
            v@ == old(v)@,
            vs == str_views(old(v)@),
            forall|j: int| 0 <= j < i ==> seq_lt(#[trigger] vs[j], s@),
        ensures
            i <= v@.len(),
            v@ == old(v)@,
            forall|j: int| 0 <= j < i ==> seq_lt(#[trigger] vs[j], s@),
            i < v@.len() ==> cmp_seq_at(vs, i as int, s@) != Rank::Less,
        decreases v@.len() - i,
    {
        let c = str_compare(v[i].as_str(), s.as_str());
        if !(c == Rank::Less) {
            break;
        }
        i = i + 1;
    }
    if i < v.len() {
        let c = str_compare(v[i].as_str(), s.as_str());
        if c == Rank::Equal {
            proof {
                lemma_cmp_eq_iff(vs[i as int], s@);
                assert(vs.contains(s@));
                assert forall|p: Seq<char>|
                    str_views(v@).contains(p) <==> (vs.contains(p) || p == s@) by {}
            }
            return;
        }
    }
    let ghost before = v@;
    let ghost sv = s@;
    v.insert(i, s);
    proof {
        let nvs = str_views(v@);
        assert(v@ == before.insert(i as int, v@[i as int]));
        assert(nvs =~= vs.insert(i as int, sv));
        assert forall|x: int, y: int| 0 <= x < y < nvs.len() implies seq_lt(
            #[trigger] nvs[x],
            #[trigger] nvs[y],
        ) by {
            if y < i {
                assert(nvs[x] == vs[x] && nvs[y] == vs[y]);
            } else if y == i {
                assert(nvs[x] == vs[x]);
                assert(seq_lt(vs[x], sv));
            } else {
                assert(nvs[y] == vs[y - 1]);
                assert(cmp_seq(vs[i as int], sv) == Rank::Greater);
                lemma_cmp_flip(sv, vs[i as int]);
                if x < i {
                    assert(nvs[x] == vs[x]);
                    if y - 1 == i {
                        assert(seq_lt(vs[x], sv));
                        lemma_lt_trans(vs[x], sv, vs[i as int]);
                    }
                } else if x == i {
                    if y - 1 == i {
                        assert(seq_lt(sv, vs[i as int]));
                    } else {
                        assert(seq_lt(sv, vs[i as int]));
                        lemma_lt_trans(sv, vs[i as int], vs[y - 1]);
                    }
                } else {
                    assert(nvs[x] == vs[x - 1]);
                }
            }
        }
        assert forall|p: Seq<char>| nvs.contains(p) implies (vs.contains(p) || p == sv) by {
            let idx = choose|idx: int| 0 <= idx < nvs.len() && nvs[idx] == p;
            if idx < i {
                assert(vs[idx] == p);
            } else if idx > i {
                assert(vs[idx - 1] == p);
            }
        }
        assert forall|p: Seq<char>| (vs.contains(p) || p == sv) implies nvs.contains(p) by {
            if vs.contains(p) {
                let idx = choose|idx: int| 0 <= idx < vs.len() && vs[idx] == p;
                if idx < i {
                    assert(nvs[idx] == p);
                } else {
                    assert(nvs[idx + 1] == p);
                }
            } else {
                assert(nvs[i as int] == p);
            }
        }
    }
}

/// The comparison of `s[i]` against `t`, named so a loop postcondition can
/// speak of the comparison made at the stopping index.
pub open spec fn cmp_seq_at(s: Seq<Seq<char>>, i: int, t: Seq<char>) -> Rank {
    cmp_seq(s[i], t)
}

/// The routing options one response contributes: none unless the response
/// declares provider selection supported; otherwise the names of the
/// available, non-empty entries, de-duplicated and ascending-sorted.
pub fn routing_options_from_response(supports: bool, entries: Vec<ProviderEntry>) -> (r: Vec<
    String,
>)
    ensures
        strictly_sorted(str_views(r@)),
        !supports ==> r@.len() == 0,
        forall|p: Seq<char>|
            str_views(r@).contains(p) <==> (supports && has_valid_provider(
                entry_views(entries@),
                p,
            )),
{
    let mut out: Vec<String> = Vec::new();
    if !supports {
        return out;
    }
    let ghost ev = entry_views(entries@);
    let mut rest = entries;
    let ghost k: int = 0;
    while rest.len() > 0
        invariant
            0 <= k <= ev.len(),
            entry_views(rest@) =~= ev.skip(k),
            strictly_sorted(str_views(out@)),
            forall|p: Seq<char>|
                str_views(out@).contains(p) <==> has_valid_provider(ev.take(k), p),
        decreases rest@.len(),
    {
        let ghost rest0 = rest@;
        let ghost outv0 = str_views(out@);
        let e = rest.remove(0);
        proof {
            assert(e@ == entry_views(rest0)[0]);
            assert(entry_views(rest0).len() == rest0.len());
            assert(k < ev.len());
            assert(ev.skip(k)[0] == ev[k]);
            assert(e@ == ev[k]);
            assert(entry_views(rest0.remove(0)) =~= entry_views(rest0).remove(0));
            assert(entry_views(rest@) =~= ev.skip(k + 1));
        }
        if e.available && !e.provider.as_str().is_empty() {
            insert_sorted_unique(&mut out, e.provider);
        }
        proof {
            assert forall|p: Seq<char>|
                str_views(out@).contains(p) <==> has_valid_provider(ev.take(k + 1), p) by {
                assert(ev.take(k + 1)[k] == ev[k]);
                if str_views(out@).contains(p) {
                    if outv0.contains(p) {
                        let idx = choose|idx: int|
                            0 <= idx < ev.take(k).len() && valid_provider(#[trigger] ev.take(k)[idx])
                                && ev.take(k)[idx].provider == p;
                        assert(ev.take(k + 1)[idx] == ev[idx]);
                        assert(valid_provider(ev.take(k + 1)[idx]));
                    } else {
                        assert(valid_provider(ev.take(k + 1)[k]));
                    }
                }
                if has_valid_provider(ev.take(k + 1), p) {
                    let idx = choose|idx: int|
                        0 <= idx < ev.take(k + 1).len() && valid_provider(
                            #[trigger] ev.take(k + 1)[idx],
                        ) && ev.take(k + 1)[idx].provider == p;
                    if idx < k {
                        assert(ev.take(k)[idx] == ev[idx]);
                        assert(has_valid_provider(ev.take(k), p));
                    } else {
                        assert(ev.take(k + 1)[idx] == ev[k]);
                    }
                }
            }
            k = k + 1;
        }
    }
    proof {
        assert(ev.take(k) =~= ev);
    }
    out
}

/// The routing variant of a base entry for one route: the identifier is
/// rewritten to `"{request_model}@{route}"`, the display name to
/// `"{display or id} via {route}"`, the override recorded, and every token
/// and capability field copied unchanged.
pub open spec fn routed_variant(m: ModelView, p: Seq<char>) -> ModelView {
    ModelView {
        id: m.request_model + "@"@ + p,
        request_model: m.request_model,
        display_name: Some(sort_key(m) + " via "@ + p),
        max_tokens: m.max_tokens,
        max_output_tokens: m.max_output_tokens,
        max_completion_tokens: m.max_completion_tokens,
        capabilities: m.capabilities,
        provider_override: Some(p),
    }
}

/// The variants one base entry gains from its routing options, in option
/// order; empty option names contribute nothing.
pub open spec fn expanded_variants(m: ModelView, ps: Seq<Seq<char>>) -> Seq<ModelView>
    decreases ps.len(),
{
    if ps.len() == 0 {
        Seq::empty()
    } else {
        expanded_variants(m, ps.drop_last()) + if ps.last().len() > 0 {
            seq![routed_variant(m, ps.last())]
        } else {
            Seq::empty()
        }
    }
}

/// What one base entry contributes to the expanded catalog: itself, then
/// its routing variants.
pub open spec fn expand_one(m: ModelView, ps: Seq<Seq<char>>) -> Seq<ModelView> {
    seq![m] + expanded_variants(m, ps)
}

/// The fully expanded catalog of a routing fan-out: each base entry in
/// order, followed by its variants.
pub open spec fn expand_all(pairs: Seq<(ModelView, Seq<Seq<char>>)>) -> Seq<ModelView>
    decreases pairs.len(),
{
    if pairs.len() == 0 {
        Seq::empty()
    } else {
        expand_all(pairs.drop_last()) + expand_one(pairs.last().0, pairs.last().1)
    }
}

/// The values of a sequence of (base model, routing options) pairs.
pub open spec fn pair_views(s: Seq<(ResolvedModel, Vec<String>)>) -> Seq<
    (ModelView, Seq<Seq<char>>),
> {
    s.map_values(|p: (ResolvedModel, Vec<String>)| (p.0@, str_views(p.1@)))
}

/// Builds the routing variant of a base entry for one route.
fn routed_variant_exec(m: &ResolvedModel, p: &str) -> (r: ResolvedModel)
    ensures
        r@ == routed_variant(m@, p@),
{
    let id = concat3(m.request_model.as_str(), "@", p);
    let label = match &m.display_name {
        Some(d) => d.as_str(),
        None => m.request_model.as_str(),
    };
    let display = concat3(label, " via ", p);
    let r = ResolvedModel {
        id,
        request_model: m.request_model.clone(),
        display_name: Some(display),
        max_tokens: m.max_tokens,
        max_output_tokens: m.max_output_tokens,
        max_completion_tokens: m.max_completion_tokens,
        capabilities: m.capabilities,
        provider_override: Some(p.to_owned()),
    };
    assert(r@ =~= routed_variant(m@, p@));
    r
}

/// Expands base models and their fetched routing options into the full
/// catalog: every base entry, followed by one variant per non-empty option,
/// in option order, per base entry in input order.
pub fn expand_models(pairs: Vec<(ResolvedModel, Vec<String>)>) -> (out: Vec<ResolvedModel>)
    ensures
        model_views(out@) == expand_all(pair_views(pairs@)),
{
    let ghost pv = pair_views(pairs@);
    let mut rest = pairs;
    let mut out: Vec<ResolvedModel> = Vec::new();
    let ghost k: int = 0;
    while rest.len() > 0
        invariant
            0 <= k <= pv.len(),
            pair_views(rest@) =~= pv.skip(k),
            model_views(out@) == expand_all(pv.take(k)),
        decreases rest@.len(),
    {
        let ghost rest0 = rest@;
        let (model, options) = rest.remove(0);
        proof {
            assert(pair_views(rest0)[0] == (model@, str_views(options@)));
            assert(pair_views(rest0).len() == rest0.len());
            assert(k < pv.len());
            assert(pv.skip(k)[0] == pv[k]);
            assert(pv[k] == (model@, str_views(options@)));
            assert(pair_views(rest0.remove(0)) =~= pair_views(rest0).remove(0));
            assert(pair_views(rest@) =~= pv.skip(k + 1));
            assert(pv.take(k + 1).drop_last() =~= pv.take(k));
            assert(pv.take(k + 1).last() == pv[k]);
        }
        let ghost out0 = model_views(out@);
        let base = model.duplicate();
        out.push(base);
        proof {
            assert(model_views(out@) =~= out0.push(model@));
        }
        let ghost ov = str_views(options@);
        let mut i: usize = 0;
        while i < options.len()
            invariant
                i <= options@.len(),
                ov == str_views(options@),
                model@ == pv[k].0,
                model_views(out@) == out0.push(model@) + expanded_variants(model@, ov.take(i as int)),
            decreases options@.len() - i,
        {
            proof {
                assert(ov.take(i + 1).drop_last() =~= ov.take(i as int));
                assert(ov.take(i + 1).last() == ov[i as int]);
            }
            let ghost mid = model_views(out@);
            if !options[i].as_str().is_empty() {
                let variant = routed_variant_exec(&model, options[i].as_str());
                out.push(variant);
                proof {
                    assert(model_views(out@) =~= mid.push(routed_variant(model@, ov[i as int])));
                    assert(model_views(out@) =~= out0.push(model@) + expanded_variants(
                        model@,
                        ov.take(i + 1),
                    ));
                }
            } else {
                proof {
                    assert(ov[i as int].len() == 0);
                    assert(model_views(out@) =~= out0.push(model@) + expanded_variants(
                        model@,
                        ov.take(i + 1),
                    ));
                }
            }
            i = i + 1;
        }
        proof {
            assert(ov.take(options@.len() as int) =~= ov);
            assert(seq![model@] + expanded_variants(model@, ov) =~= Seq::empty().push(model@)
                + expanded_variants(model@, ov));
            assert(model_views(out@) =~= expand_all(pv.take(k)) + expand_one(model@, ov));
            assert(model_views(out@) == expand_all(pv.take(k + 1)));
            k = k + 1;
        }
    }
    proof {
        assert(pv.take(k) =~= pv);
    }
    out
}

/// Pairs each base model with the routing options fetched for it, by
/// position; a model whose fetch failed is paired with no options.
pub fn zip_routing(models: Vec<ResolvedModel>, options: Vec<Vec<String>>) -> (pairs: Vec<
    (ResolvedModel, Vec<String>),
>)
    requires
        models@.len() == options@.len(),
    ensures
        pair_views(pairs@).len() == models@.len(),
        forall|i: int|
            0 <= i < models@.len() ==> #[trigger] pair_views(pairs@)[i] == (
                models@[i]@,
                str_views(options@[i]@),
            ),
{
    let ghost mv = models@;
    let ghost ov = options@;
    let mut ms = models;
    let mut os = options;
    let mut pairs: Vec<(ResolvedModel, Vec<String>)> = Vec::new();
    let ghost k: int = 0;
    while ms.len() > 0
        invariant
            0 <= k <= mv.len(),
            mv.len() == ov.len(),
            ms@ =~= mv.skip(k),
            os@ =~= ov.skip(k),
            pair_views(pairs@).len() == k,
            forall|i: int|
                0 <= i < k ==> #[trigger] pair_views(pairs@)[i] == (mv[i]@, str_views(ov[i]@)),
        decreases ms@.len(),
    {
        let ghost p0 = pair_views(pairs@);
        let m = ms.remove(0);
        let o = os.remove(0);
        proof {
            assert(mv.skip(k)[0] == mv[k]);
            assert(ov.skip(k)[0] == ov[k]);
            assert(mv.skip(k).remove(0) =~= mv.skip(k + 1));
            assert(ov.skip(k).remove(0) =~= ov.skip(k + 1));
        }
        pairs.push((m, o));
        proof {
            assert(pair_views(pairs@) =~= p0.push((mv[k]@, str_views(ov[k]@))));
            k = k + 1;
        }
    }
    pairs
}

/// Appending fan-out inputs expands to the concatenation of their
/// expansions: each (base model, options) pair contributes its own block of
/// the catalog, independent of every other pair. In particular, one model's
/// routing fetch degrading to no options leaves every other model's
/// variants unchanged.
pub proof fn lemma_expand_all_concat(
    a: Seq<(ModelView, Seq<Seq<char>>)>,
    b: Seq<(ModelView, Seq<Seq<char>>)>,
)
    ensures
        expand_all(a + b) == expand_all(a) + expand_all(b),
    decreases b.len(),
{
    if b.len() == 0 {
        assert(a + b =~= a);
        assert(expand_all(a) + expand_all(b) =~= expand_all(a));
    } else {
        lemma_expand_all_concat(a, b.drop_last());
        assert((a + b).drop_last() =~= a + b.drop_last());
        assert((a + b).last() == b.last());
        assert(expand_all(a) + expand_all(b.drop_last()) + expand_one(b.last().0, b.last().1)
            =~= expand_all(a) + expand_all(b));
    }
}

} // verus!

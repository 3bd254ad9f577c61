//! Catalog ordering: the entry for the designated default identifier sorts
//! first; all other entries sort by display name (falling back to the
//! upstream identifier), ascending and case-sensitively.

use vstd::prelude::*;
use crate::catalog::{ModelView, ResolvedModel, model_views};
use crate::text::{Rank, cmp_seq, lemma_cmp_eq_iff, lemma_cmp_flip, lemma_le_total, lemma_le_trans,
    seq_le, str_compare, str_eq};
use vstd::relations::sorted_by;
use vstd::seq_lib::group_to_multiset_ensures;

verus! {

/// The designated default upstream identifier: its base entry sorts first
/// and is preferred as the default model.
pub open spec fn default_model_id() -> Seq<char> {
    "minimax/minimax-m2.5"@
}

/// The designated default upstream identifier, as a string.
pub fn default_model_id_str() -> (r: &'static str)
    ensures
        r@ == default_model_id(),
{
    "minimax/minimax-m2.5"
}

/// The key an entry sorts by: its display name, falling back to its
/// upstream identifier.
pub open spec fn sort_key(m: ModelView) -> Seq<char> {
    match m.display_name {
        Some(d) => d,
        None => m.request_model,
    }
}

/// Whether an entry's upstream identifier is the designated default.
pub open spec fn is_default_request(m: ModelView) -> bool {
    m.request_model == default_model_id()
}

/// The catalog order: default-identifier entries first, then ascending by
/// sort key.
pub open spec fn model_le(a: ModelView, b: ModelView) -> bool {
    if is_default_request(a) {
        true
    } else if is_default_request(b) {
        false
    } else {
        seq_le(sort_key(a), sort_key(b))
    }
}

/// The catalog order, as a relation value for `sorted_by`.
pub open spec fn catalog_order() -> spec_fn(ModelView, ModelView) -> bool {
    |a: ModelView, b: ModelView| model_le(a, b)
}

/// The catalog order is total.
pub proof fn lemma_model_le_total(a: ModelView, b: ModelView)
    ensures
        model_le(a, b) || model_le(b, a),
{
    lemma_le_total(sort_key(a), sort_key(b));
}

/// The catalog order is transitive.
pub proof fn lemma_model_le_trans(a: ModelView, b: ModelView, c: ModelView)
    requires
        model_le(a, b),
        model_le(b, c),
    ensures
        model_le(a, c),
{
    if !is_default_request(a) && !is_default_request(b) && !is_default_request(c) {
        lemma_le_trans(sort_key(a), sort_key(b), sort_key(c));
    }
}

/// Executable catalog-order comparison of two entries.
pub fn model_le_exec(a: &ResolvedModel, b: &ResolvedModel) -> (r: bool)
    ensures
        r == model_le(a@, b@),
{
    if str_eq(a.request_model.as_str(), default_model_id_str()) {
        return true;
    }
    if str_eq(b.request_model.as_str(), default_model_id_str()) {
        return false;
    }
    let ka = match &a.display_name {
        Some(d) => d.as_str(),
        None => a.request_model.as_str(),
    };
    let kb = match &b.display_name {
        Some(d) => d.as_str(),
        None => b.request_model.as_str(),
    };
    let c = str_compare(ka, kb);
    !(c == Rank::Greater)
}

/// Sorts the catalog in place by the catalog order, keeping exactly the
/// same entries.
pub fn sort_models(v: &mut Vec<ResolvedModel>)
    ensures
        sorted_by(model_views(final(v)@), catalog_order()),
        model_views(final(v)@).to_multiset() == model_views(old(v)@).to_multiset(),
{
    broadcast use group_to_multiset_ensures;

    let ghost orig = model_views(old(v)@);
    let mut i: usize = 1;
    while i < v.len()
        invariant
            1 <= i,
            v@.len() == old(v)@.len(),
            model_views(v@).to_multiset() == orig.to_multiset(),
            orig == model_views(old(v)@),
            forall|x: int, y: int| 0 <= x < y < i ==> model_le(#[trigger] v@[x]@, #[trigger] v@[y]@),
        decreases v@.len() - i,
    {
        let mut j: usize = i;
        while j > 0
            invariant
                0 <= j <= i < v@.len(),
                v@.len() == old(v)@.len(),
                model_views(v@).to_multiset() == orig.to_multiset(),
                orig == model_views(old(v)@),
                forall|x: int, y: int|
                    0 <= x < y <= i && y != j ==> model_le(#[trigger] v@[x]@, #[trigger] v@[y]@),
            ensures
                0 <= j <= i < v@.len(),
                v@.len() == old(v)@.len(),
                model_views(v@).to_multiset() == orig.to_multiset(),
                forall|x: int, y: int|
                    0 <= x < y <= i && y != j ==> model_le(#[trigger] v@[x]@, #[trigger] v@[y]@),
                j > 0 ==> model_le(v@[j - 1]@, v@[j as int]@),
            decreases j,
        {
            if model_le_exec(&v[j - 1], &v[j]) {
                break;
            }
            let ghost before = v@;
            let moved = v.remove(j);
            v.insert(j - 1, moved);
            proof {
                broadcast use vstd::multiset::group_multiset_axioms;
                broadcast use vstd::multiset::group_multiset_properties;

                assert(v@ =~= before.update(j - 1, before[j as int]).update(
                    j as int,
                    before[j - 1],
                ));
                let mvb = model_views(before);
                let s1 = mvb.update(j - 1, mvb[j as int]);
                let s2 = s1.update(j as int, mvb[j - 1]);
                assert(model_views(v@) =~= s2);
                let m0 = mvb.to_multiset();
                vstd::seq_lib::to_multiset_update(mvb, j - 1, mvb[j as int]);
                vstd::seq_lib::to_multiset_update(s1, j as int, mvb[j - 1]);
                vstd::seq_lib::to_multiset_contains(mvb, mvb[j - 1]);
                assert(mvb.contains(mvb[j - 1]));
                assert(m0.count(mvb[j - 1]) > 0);
                assert(s1[j as int] == mvb[j as int]);
                assert(s2.to_multiset() == s1.to_multiset().insert(mvb[j - 1]).remove(
                    mvb[j as int],
                ));
                assert(s2.to_multiset() =~= m0);
                assert(model_views(v@).to_multiset() == model_views(before).to_multiset());
                lemma_model_le_total(before[j - 1]@, before[j as int]@);
                assert forall|x: int, y: int|
                    0 <= x < y <= i && y != j - 1 implies model_le(
                    #[trigger] v@[x]@,
                    #[trigger] v@[y]@,
                ) by {
                    if x == j - 1 {
                        assert(v@[x] == before[j as int]);
                        if y == j {
                            assert(v@[y] == before[j - 1]);
                        } else {
                            assert(v@[y] == before[y]);
                        }
                    } else if x == j {
                        assert(v@[x] == before[j - 1]);
                        assert(v@[y] == before[y]);
                    } else {
                        assert(v@[x] == before[x]);
                        if y == j {
                            assert(v@[y] == before[j - 1]);
                            assert(model_le(before[x]@, before[j - 1]@));
                        } else {
                            assert(v@[y] == before[y]);
                        }
                    }
                }
            }
            j = j - 1;
        }
        proof {
            if j > 0 {
                assert(model_le(v@[j - 1]@, v@[j as int]@));
                assert forall|x: int, y: int| 0 <= x < y <= i implies model_le(
                    #[trigger] v@[x]@,
                    #[trigger] v@[y]@,
                ) by {
                    if y == j && x < j - 1 {
                        assert(model_le(v@[x]@, v@[j - 1]@));
                        lemma_model_le_trans(v@[x]@, v@[j - 1]@, v@[j as int]@);
                    }
                }
            }
        }
        i = i + 1;
    }
    proof {
        if v@.len() > 0 {
            assert forall|x: int, y: int|
                0 <= x < y < model_views(v@).len() implies model_le(
                #[trigger] model_views(v@)[x],
                #[trigger] model_views(v@)[y],
            ) by {
                assert(model_views(v@)[x] == v@[x]@);
                assert(model_views(v@)[y] == v@[y]@);
            }
        }
    }
}

} // verus!

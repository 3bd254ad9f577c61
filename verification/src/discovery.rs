//! Stage one of the discovery pipeline: request shape for the models-listing
//! and routing-options endpoints, and resolution of a raw listing response
//! into the sorted base-model catalog.

use vstd::prelude::*;
use crate::catalog::{CatalogRecord, ModelView, RecordView, ResolvedModel, model_views,
    record_kept, record_views, resolve_record, resolved_of_record};
use crate::order::{catalog_order, sort_models};
use crate::text::concat2;
use vstd::relations::sorted_by;

verus! {

/// The input URL with trailing slashes removed.
pub open spec fn trim_trailing_slashes(s: Seq<char>) -> Seq<char>
    decreases s.len(),
{
    if s.len() > 0 && s.last() == '/' {
        trim_trailing_slashes(s.drop_last())
    } else {
        s
    }
}

/// The API base: trailing slashes removed, then one trailing "/v1" segment
/// stripped if present.
pub open spec fn base_api_url(s: Seq<char>) -> Seq<char> {
    let t = trim_trailing_slashes(s);
    if t.len() >= 3 && t[t.len() - 3] == '/' && t[t.len() - 2] == 'v' && t[t.len() - 1] == '1' {
        t.take(t.len() - 3)
    } else {
        t
    }
}

/// Normalizes a configured API URL to the discovery endpoints' base.
pub fn base_api_url_of(api_url: &str) -> (r: String)
    ensures
        r@ == base_api_url(api_url@),
{
    let total = api_url.unicode_len();
    let mut len = total;
    proof {
        assert(api_url@.take(total as int) =~= api_url@);
    }
    while len > 0 && api_url.get_char(len - 1) == '/'
        invariant
            len <= total,
            total == api_url@.len(),
            trim_trailing_slashes(api_url@) == trim_trailing_slashes(api_url@.take(len as int)),
        decreases len,
    {
        proof {
            assert(api_url@.take(len as int).drop_last() =~= api_url@.take(len - 1));
        }
        len = len - 1;
    }
    proof {
        assert(trim_trailing_slashes(api_url@.take(len as int)) == api_url@.take(len as int));
    }
    let stripped = if len >= 3 && api_url.get_char(len - 3) == '/' && api_url.get_char(len - 2)
        == 'v' && api_url.get_char(len - 1) == '1' {
        let r = api_url.substring_char(0, len - 3);
        proof {
            assert(api_url@.take(len as int).take(len - 3) =~= api_url@.subrange(0, len - 3));
        }
        r
    } else {
        api_url.substring_char(0, len)
    };
    proof {
        assert(api_url@.subrange(0, len as int) =~= api_url@.take(len as int));
    }
    stripped.to_owned()
}

/// What `url_encode` returns for a given input; the encoding depends on the
/// input characters alone.
pub uninterp spec fn url_encoded(s: Seq<char>) -> Seq<char>;

/// Relies on urlencoding::encode: percent-encodes every byte except ASCII
/// alphanumerics and '-', '_', '.', '~'; an empty input stays empty.
#[verifier::external_body]
fn url_encode(s: &str) -> (r: String)
    ensures
        r@ == url_encoded(s@),
        s@.len() == 0 ==> r@.len() == 0,
{
    urlencoding::encode(s).into_owned()
}

/// The models-listing endpoint for a configured API URL.
pub fn models_listing_uri(api_url: &str) -> (r: String)
    ensures
        r@ == base_api_url(api_url@) + "/models?detailed=true"@,
{
    let base = base_api_url_of(api_url);
    concat2(base.as_str(), "/models?detailed=true")
}

/// The routing-options endpoint for one model of a configured API URL; the
/// model identifier is percent-encoded into the path.
pub fn providers_uri(api_url: &str, model_id: &str) -> (r: String)
    ensures
        r@ == base_api_url(api_url@) + "/models/"@ + url_encoded(model_id@) + "/providers"@,
{
    let base = base_api_url_of(api_url);
    let encoded = url_encode(model_id);
    let mut r = concat2(base.as_str(), "/models/");
    r.append(encoded.as_str());
    r.append("/providers");
    r
}

/// The Authorization header value a discovery request carries: a bearer
/// token exactly when a non-empty key is present.
pub fn bearer_header_value(api_key: Option<&str>) -> (r: Option<String>)
    ensures
        match api_key {
            Some(k) if k@.len() > 0 => r matches Some(v) && v@ == "Bearer "@ + k@,
            _ => r is None,
        },
{
    match api_key {
        Some(k) => if k.unicode_len() > 0 {
            Some(concat2("Bearer ", k))
        } else {
            None
        },
        None => None,
    }
}

/// Whether an HTTP status code is in the success class.
pub fn is_success_status(status: u16) -> (r: bool)
    ensures
        r == (200 <= status < 300),
{
    200 <= status && status < 300
}

/// The catalog entries a listing response resolves to, before sorting:
/// every record not marked invisible, in response order.
pub open spec fn stage1_models(rs: Seq<RecordView>) -> Seq<ModelView> {
    rs.filter(|r: RecordView| record_kept(r)).map_values(|r: RecordView| resolved_of_record(r))
}

proof fn lemma_stage1_step(rs: Seq<RecordView>, k: int)
    requires
        0 <= k < rs.len(),
    ensures
        stage1_models(rs.take(k + 1)) == if record_kept(rs[k]) {
            stage1_models(rs.take(k)).push(resolved_of_record(rs[k]))
        } else {
            stage1_models(rs.take(k))
        },
{
    let pred = |r: RecordView| record_kept(r);
    let f = |r: RecordView| resolved_of_record(r);
    let t1 = rs.take(k + 1);
    assert(t1.drop_last() =~= rs.take(k));
    assert(t1.last() == rs[k]);
    reveal_with_fuel(Seq::filter, 2);
    if pred(rs[k]) {
        assert(t1.filter(pred) == rs.take(k).filter(pred).push(rs[k]));
        assert(rs.take(k).filter(pred).push(rs[k]).map_values(f) =~= rs.take(k).filter(
            pred,
        ).map_values(f).push(f(rs[k])));
    } else {
        assert(t1.filter(pred) == rs.take(k).filter(pred));
    }
}

/// Every entry of the resolved base catalog comes from a record that was
/// not marked invisible: a record with a false visibility flag never
/// appears in the catalog.
pub proof fn lemma_stage1_only_visible(rs: Seq<RecordView>)
    ensures
        forall|m: ModelView|
            stage1_models(rs).contains(m) ==> exists|i: int|
                0 <= i < rs.len() && record_kept(#[trigger] rs[i]) && m == resolved_of_record(
                    rs[i],
                ),
{
    let pred = |r: RecordView| record_kept(r);
    let f = |r: RecordView| resolved_of_record(r);
    let kept = rs.filter(pred);
    assert forall|m: ModelView| stage1_models(rs).contains(m) implies exists|i: int|
        0 <= i < rs.len() && record_kept(#[trigger] rs[i]) && m == resolved_of_record(rs[i]) by {
        let j = choose|j: int| 0 <= j < kept.map_values(f).len() && kept.map_values(f)[j] == m;
        assert(kept.map_values(f)[j] == f(kept[j]));
        assert(kept.contains(kept[j]));
        lemma_filter_member_of_source(rs, kept[j]);
        let i = choose|i: int| 0 <= i < rs.len() && rs[i] == kept[j];
        assert(record_kept(rs[i]) && m == resolved_of_record(rs[i]));
    }
}

/// A record found among the kept ones is a record of the response, and it
/// was not marked invisible.
proof fn lemma_filter_member_of_source(rs: Seq<RecordView>, x: RecordView)
    requires
        rs.filter(|r: RecordView| record_kept(r)).contains(x),
    ensures
        rs.contains(x),
        record_kept(x),
    decreases rs.len(),
{
    reveal(Seq::filter);
    let pred = |r: RecordView| record_kept(r);
    assert(rs.len() > 0);
    let prev = rs.drop_last().filter(pred);
    if pred(rs.last()) {
        assert(rs.filter(pred) == prev.push(rs.last()));
        let idx = choose|idx: int|
            0 <= idx < rs.filter(pred).len() && rs.filter(pred)[idx] == x;
        if idx == prev.len() {
            assert(x == rs.last());
            assert(rs[rs.len() - 1] == x);
        } else {
            assert(prev[idx] == x);
            assert(prev.contains(x));
            lemma_filter_member_of_source(rs.drop_last(), x);
            let i = choose|i: int| 0 <= i < rs.drop_last().len() && rs.drop_last()[i] == x;
            assert(rs[i] == x);
        }
    } else {
        assert(rs.filter(pred) == prev);
        lemma_filter_member_of_source(rs.drop_last(), x);
        let i = choose|i: int| 0 <= i < rs.drop_last().len() && rs.drop_last()[i] == x;
        assert(rs[i] == x);
    }
}

/// Resolves a listing response's records into the base-model catalog:
/// exactly the visible records' entries, sorted into the catalog order.
pub fn base_models_from_records(records: Vec<CatalogRecord>) -> (out: Vec<ResolvedModel>)
    ensures
        sorted_by(model_views(out@), catalog_order()),
        model_views(out@).to_multiset() == stage1_models(record_views(records@)).to_multiset(),
{
    let ghost rv = record_views(records@);
    let mut rest = records;
    let mut out: Vec<ResolvedModel> = Vec::new();
    let ghost k: int = 0;
    while rest.len() > 0
        invariant
            0 <= k <= rv.len(),
            record_views(rest@) =~= rv.skip(k),
            model_views(out@) == stage1_models(rv.take(k)),
        decreases rest@.len(),
    {
        let ghost rest0 = rest@;
        let rec = rest.remove(0);
        proof {
            assert(rec@ == record_views(rest0)[0]);
            assert(record_views(rest0).len() == rest0.len());
            assert(k < rv.len());
            assert(rv.skip(k)[0] == rv[k]);
            assert(rec@ == rv[k]);
            assert(record_views(rest0.remove(0)) =~= record_views(rest0).remove(0));
            assert(record_views(rest@) =~= rv.skip(k + 1));
            lemma_stage1_step(rv, k);
        }
        let ghost out_before = model_views(out@);
        match resolve_record(rec) {
            Some(m) => {
                let ghost mv = m@;
                out.push(m);
                proof {
                    assert(model_views(out@) =~= out_before.push(mv));
                }
            },
            None => {},
        }
        proof {
            k = k + 1;
        }
    }
    proof {
        assert(rv.take(k) =~= rv);
    }
    sort_models(&mut out);
    out
}

} // verus!

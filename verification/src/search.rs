//! Scoring records against per-category query texts. The external match
//! primitive judges one query text against one category string and returns a
//! raw score or "no match"; a record whose categories all match is kept, any
//! other is excluded. Kept records are ordered by aggregate score descending,
//! ties broken by record id ascending.
use vstd::prelude::*;

use crate::record::QueryData;
use crate::record::QueryView;

verus! {

broadcast use vstd::seq_lib::group_to_multiset_ensures;

/// What the external match primitive returns for one (query text, category
/// text) pair: "no match", or the raw score encoded as an order-carrying
/// integer key. A pure function of the two strings.
pub uninterp spec fn match_bits_of(needle: Seq<char>, haystack: Seq<char>) -> Option<u64>;

/// Relies on rff::match_and_score: it returns `Some` exactly when the needle
/// fuzzily matches the haystack, together with a raw score, and its result is
/// a pure function of the two strings. The score is carried as its raw bit
/// pattern, an order-preserving key for the non-negative aggregates built
/// from it.
#[verifier::external_body]
fn match_raw(needle: &str, haystack: &str) -> (r: Option<u64>)
    ensures
        r == match_bits_of(needle@, haystack@),
{
    rff::match_and_score(needle, haystack).map(|m| m.1.to_bits())
}

/// The texts of a sequence of query strings.
pub open spec fn texts_of(ss: Seq<String>) -> Seq<Seq<char>> {
    ss.map_values(|s: String| s@)
}

/// The match outcome of one category of a record.
pub open spec fn category_match(q: QueryView, searches: Seq<Seq<char>>, i: int) -> Option<u64> {
    match_bits_of(searches[i], q.strings[i])
}

/// Whether every category of the record matches its query text.
pub open spec fn all_categories_match(q: QueryView, searches: Seq<Seq<char>>) -> bool {
    forall|i: int| 0 <= i < searches.len() ==> #[trigger] category_match(q, searches, i) is Some
}

/// Match every category of a record against the corresponding query text.
/// Returns the per-category raw score keys, or `None` exactly when at least
/// one category yields "no match" from the primitive; a record with outcome
/// `None` has no rank and must be excluded from the ranked result.
pub fn match_categories(query: &QueryData, searches: &Vec<String>) -> (r: Option<Vec<u64>>)
    requires
        searches@.len() == query@.strings.len(),
    ensures
        r is Some <==> all_categories_match(query@, texts_of(searches@)),
        r is None <==> exists|i: int|
            0 <= i < searches@.len() && #[trigger] category_match(
                query@,
                texts_of(searches@),
                i,
            ) is None,
        r matches Some(v) ==> v@.len() == searches@.len() && forall|i: int|
            0 <= i < v@.len() ==> Some(v@[i]) == category_match(query@, texts_of(searches@), i),
{
    let ghost stexts = texts_of(searches@);
    let mut out: Vec<u64> = Vec::new();
    let mut i: usize = 0;
    while i < searches.len()
        invariant
            i <= searches@.len(),
            searches@.len() == query@.strings.len(),
            stexts == texts_of(searches@),
            out@.len() == i,
            forall|k: int| 0 <= k < i ==> Some(out@[k]) == category_match(query@, stexts, k),
        decreases searches@.len() - i,
    {
        proof {
            assert(stexts[i as int] == searches@[i as int]@);
            assert(query@.strings[i as int] == query.strings@[i as int]@);
        }
        match match_raw(searches[i].as_str(), query.strings[i].as_str()) {
            Some(b) => {
                out.push(b);
            },
            None => {
                proof {
                    assert(category_match(query@, stexts, i as int) is None);
                }
                return None;
            },
        }
        i = i + 1;
    }
    Some(out)
}

/// Ranked order: higher score first; among equal scores, lower id first.
pub open spec fn rank_leq(a: (QueryView, u64), b: (QueryView, u64)) -> bool {
    b.1 < a.1 || (a.1 == b.1 && a.0.id <= b.0.id)
}

/// The order is total: any two entries are comparable.
pub proof fn lemma_rank_leq_total(a: (QueryView, u64), b: (QueryView, u64))
    ensures
        rank_leq(a, b) || rank_leq(b, a),
{
}

/// The order is transitive.
pub proof fn lemma_rank_leq_transitive(a: (QueryView, u64), b: (QueryView, u64), c: (QueryView, u64))
    ensures
        rank_leq(a, b) && rank_leq(b, c) ==> rank_leq(a, c),
{
}

/// A ranked list is sorted: every entry ranks no later than those after it.
pub open spec fn ranked_sorted(s: Seq<(QueryView, u64)>) -> bool {
    forall|i: int, j: int| 0 <= i <= j < s.len() ==> #[trigger] rank_leq(s[i], s[j])
}

/// The model of a list of (record, score key) pairs.
pub open spec fn ranked_view(s: Seq<(QueryData, u64)>) -> Seq<(QueryView, u64)> {
    s.map_values(|p: (QueryData, u64)| (p.0@, p.1))
}

/// The (record, score key) pairs of the records whose score is defined,
/// in record order.
pub open spec fn matched_pairs(data: Seq<QueryView>, scores: Seq<Option<u64>>) -> Seq<
    (QueryView, u64),
>
    decreases data.len(),
{
    if data.len() == 0 || scores.len() < data.len() {
        Seq::empty()
    } else {
        let init = matched_pairs(data.drop_last(), scores.take(data.len() - 1));
        match scores[data.len() - 1] {
            Some(s) => init.push((data.last(), s)),
            None => init,
        }
    }
}

/// Exec comparison mirroring `rank_leq`.
fn ranks_before(a: &(QueryData, u64), b: &(QueryData, u64)) -> (r: bool)
    ensures
        r == rank_leq((a.0@, a.1), (b.0@, b.1)),
{
    b.1 < a.1 || (a.1 == b.1 && a.0.id <= b.0.id)
}

/// The full-collection scan result: keep exactly the records whose aggregate
/// score key is defined, pair each with its key, and sort by score descending
/// with ties broken by record id ascending.
pub fn run_scan(data: &Vec<QueryData>, scores: &Vec<Option<u64>>) -> (r: Vec<(QueryData, u64)>)
    requires
        data@.len() == scores@.len(),
    ensures
        ranked_sorted(ranked_view(r@)),
        ranked_view(r@).to_multiset() == matched_pairs(data.deep_view(), scores@).to_multiset(),
{
    let ghost goal = matched_pairs(data.deep_view(), scores@);
    // Collect the kept pairs in record order.
    let mut kept: Vec<(QueryData, u64)> = Vec::new();
    let mut i: usize = 0;
    while i < data.len()
        invariant
            i <= data@.len(),
            data@.len() == scores@.len(),
            ranked_view(kept@) == matched_pairs(
                data.deep_view().take(i as int),
                scores@.take(i as int),
            ),
        decreases data@.len() - i,
    {
        let ghost prior = ranked_view(kept@);
        match scores[i] {
            Some(s) => {
                let q = data[i].clone();
                kept.push((q, s));
            },
            None => {},
        }
        proof {
            let dv = data.deep_view();
            assert(dv.take(i + 1).drop_last() =~= dv.take(i as int));
            assert(scores@.take(i + 1).take(i as int) =~= scores@.take(i as int));
            assert(dv.take(i + 1).last() == dv[i as int]);
            assert(dv[i as int] == data@[i as int]@);
            assert(scores@.take(i + 1)[i as int] == scores@[i as int]);
            match scores@[i as int] {
                Some(s) => {
                    assert(ranked_view(kept@) =~= prior.push((data@[i as int]@, s)));
                },
                None => {},
            }
            assert(ranked_view(kept@) =~= matched_pairs(dv.take(i + 1), scores@.take(i + 1)));
        }
        i = i + 1;
    }
    proof {
        assert(data.deep_view().take(data@.len() as int) =~= data.deep_view());
        assert(scores@.take(scores@.len() as int) =~= scores@);
    }
    sort_ranked(kept)
}

/// Sort kept pairs by the ranked order; the result is a permutation of the
/// input.
fn sort_ranked(pairs: Vec<(QueryData, u64)>) -> (r: Vec<(QueryData, u64)>)
    ensures
        ranked_sorted(ranked_view(r@)),
        ranked_view(r@).to_multiset() == ranked_view(pairs@).to_multiset(),
{
    let ghost total = ranked_view(pairs@);
    let mut rest = pairs;
    let mut out: Vec<(QueryData, u64)> = Vec::new();
    while rest.len() > 0
        invariant
            ranked_sorted(ranked_view(out@)),
            ranked_view(out@).to_multiset().add(ranked_view(rest@).to_multiset())
                == total.to_multiset(),
            forall|a: int, b: int|
                0 <= a < out@.len() && 0 <= b < rest@.len() ==> #[trigger] rank_leq(
                    ranked_view(out@)[a],
                    ranked_view(rest@)[b],
                ),
        decreases rest@.len(),
    {
        // Find the least remaining entry under the ranked order.
        let mut m: usize = 0;
        let mut j: usize = 1;
        while j < rest.len()
            invariant
                rest@.len() > 0,
                m < j,
                j <= rest@.len(),
                forall|k: int|
                    0 <= k < j ==> #[trigger] rank_leq(
                        ranked_view(rest@)[m as int],
                        ranked_view(rest@)[k],
                    ),
            decreases rest@.len() - j,
        {
            if ranks_before(&rest[j], &rest[m]) {
                proof {
                    let rv = ranked_view(rest@);
                    assert forall|k: int| 0 <= k < j implies #[trigger] rank_leq(
                        rv[j as int],
                        rv[k],
                    ) by {
                        lemma_rank_leq_transitive(rv[j as int], rv[m as int], rv[k]);
                    }
                }
                m = j;
            } else {
                proof {
                    let rv = ranked_view(rest@);
                    lemma_rank_leq_total(rv[m as int], rv[j as int]);
                }
            }
            j = j + 1;
        }
        let ghost out_prior = ranked_view(out@);
        let ghost rest_prior = ranked_view(rest@);
        let p = rest.remove(m);
        out.push(p);
        proof {
            assert(ranked_view(out@) =~= out_prior.push((p.0@, p.1)));
            assert(ranked_view(rest@) =~= rest_prior.remove(m as int));
            assert(rest_prior[m as int] == (p.0@, p.1));
            // Multiset bookkeeping: moving the least entry keeps the union.
            assert(out_prior.push((p.0@, p.1)).to_multiset() =~= out_prior.to_multiset().insert(
                (p.0@, p.1),
            ));
            assert(rest_prior.remove(m as int).to_multiset() =~= rest_prior.to_multiset().remove(
                rest_prior[m as int],
            ));
            assert(ranked_view(out@).to_multiset() == out_prior.to_multiset().insert((p.0@, p.1)));
            assert(ranked_view(rest@).to_multiset() == rest_prior.to_multiset().remove(
                (p.0@, p.1),
            ));
            assert(rest_prior.to_multiset().count((p.0@, p.1)) > 0) by {
                assert(rest_prior.contains(rest_prior[m as int]));
            }
            assert(ranked_view(out@).to_multiset().add(ranked_view(rest@).to_multiset())
                =~= out_prior.to_multiset().add(rest_prior.to_multiset()));
            // Order bookkeeping: the moved entry ranks after everything placed
            // and no later than everything left.
            let ov = ranked_view(out@);
            let rv = ranked_view(rest@);
            assert forall|a: int, b: int|
                0 <= a <= b < ov.len() implies #[trigger] rank_leq(ov[a], ov[b]) by {
                if b < ov.len() - 1 {
                    assert(rank_leq(out_prior[a], out_prior[b]));
                }
            }
            assert forall|a: int, b: int|
                0 <= a < ov.len() && 0 <= b < rv.len() implies #[trigger] rank_leq(
                ov[a],
                rv[b],
            ) by {
                let orig: int = if b < m { b } else { b + 1 };
                assert(rv[b] == rest_prior[orig]);
                assert(rank_leq(rest_prior[m as int], rest_prior[orig]));
                if a < ov.len() - 1 {
                    assert(rank_leq(out_prior[a], rest_prior[orig]));
                } else {
                    assert(ov[a] == rest_prior[m as int]);
                }
            }
        }
    }
    out
}

} // verus!

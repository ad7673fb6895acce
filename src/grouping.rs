//! Grouping a batch by metric name: one group per metric, in name order, each
//! holding that metric's datums in batch order.
use vstd::prelude::*;
use itertools::Itertools;
use crate::model::{Datum, has_name};
use crate::order::{text_lt, lemma_text_lt_irreflexive, lemma_text_lt_transitive, lemma_text_lt_total};
use crate::schema::names_sorted;

verus! {

/// The datums of the metric `k`.
pub open spec fn of_metric(k: Seq<char>) -> spec_fn(Datum) -> bool {
    |d: Datum| d.metric@ == k
}

/// Relies on `itertools::Itertools::sorted_by_key`, which collects into a `Vec`
/// and calls the stable `sort_by_key`, here keyed by the metric name: the datums
/// come out ordered by name, and those of one metric keep their order.
#[verifier::external_body]
fn sorted_by_metric(batch: Vec<Datum>) -> (r: Vec<Datum>)
    ensures
        r@.len() == batch@.len(),
        forall|i: int, j: int|
            0 <= i < j < r@.len() ==> !text_lt(#[trigger] r@[j].metric@, #[trigger] r@[i].metric@),
        forall|k: Seq<char>| #[trigger] r@.filter(of_metric(k)) == batch@.filter(of_metric(k)),
{
    batch.into_iter().sorted_by_key(|d| d.metric.clone()).collect()
}

proof fn lemma_filter_empty(s: Seq<Datum>, k: Seq<char>)
    requires
        forall|p: int| 0 <= p < s.len() ==> (#[trigger] s[p]).metric@ != k,
    ensures
        s.filter(of_metric(k)).len() == 0,
{
    if s.filter(of_metric(k)).len() > 0 {
        s.lemma_filter_pred(of_metric(k), 0);
        let e = s.filter(of_metric(k))[0];
        assert(s.filter(of_metric(k)).contains(e));
        s.lemma_filter_contains_rev(of_metric(k), e);
    }
}

/// Splits a batch by metric: the groups are in strictly increasing name order, each
/// is exactly the datums of its metric in batch order, and every datum's metric has
/// a group.
pub fn group_metrics(batch: Vec<Datum>) -> (r: Vec<(String, Vec<Datum>)>)
    ensures
        names_sorted(r@),
        forall|g: int|
            0 <= g < r@.len() ==> (#[trigger] r@[g]).1@ == batch@.filter(of_metric(r@[g].0@))
                && r@[g].1@.len() > 0,
        forall|i: int| 0 <= i < batch@.len() ==> has_name(r@, (#[trigger] batch@[i]).metric@),
{
    let ghost b = batch@;
    let s = sorted_by_metric(batch);
    let ghost sv = s@;
    let mut groups: Vec<(String, Vec<Datum>)> = Vec::new();
    let mut current: Vec<Datum> = Vec::new();
    let mut key: String = String::new();
    let mut started = false;
    for d in it: s
        invariant
            it.seq() == sv,
            sv.len() == b.len(),
            forall|i: int, j: int|
                0 <= i < j < sv.len() ==> !text_lt(#[trigger] sv[j].metric@, #[trigger] sv[i].metric@),
            started <==> it.index() > 0,
            !started ==> groups@.len() == 0,
            started ==> key@ == sv[it.index() - 1].metric@,
            started ==> current@ == sv.subrange(0, it.index() as int).filter(of_metric(key@)),
            started ==> current@.len() > 0,
            names_sorted(groups@),
            forall|g: int|
                0 <= g < groups@.len() ==> (#[trigger] groups@[g]).1@ == sv.subrange(
                    0,
                    it.index() as int,
                ).filter(of_metric(groups@[g].0@)) && groups@[g].1@.len() > 0,
            started ==> forall|g: int|
                0 <= g < groups@.len() ==> text_lt((#[trigger] groups@[g]).0@, key@),
            forall|p: int|
                0 <= p < it.index() ==> (#[trigger] sv[p]).metric@ == key@ || has_name(
                    groups@,
                    sv[p].metric@,
                ),
    {
        let ghost i = it.index();
        let ghost pre = sv.subrange(0, i as int);
        let ghost post = sv.subrange(0, i + 1);
        assert(post =~= pre.push(d));
        proof {
            broadcast use Seq::lemma_filter_push;
        }
        let ghost km = d.metric@;
        if started && d.metric == key {
            current.push(d);
            proof {
                assert forall|g: int| 0 <= g < groups@.len() implies (#[trigger] groups@[g]).1@
                    == post.filter(of_metric(groups@[g].0@)) by {
                    assert(text_lt(groups@[g].0@, key@));
                    lemma_text_lt_irreflexive(key@);
                    assert(!(of_metric(groups@[g].0@))(d));
                    assert(post.filter(of_metric(groups@[g].0@)) == pre.filter(
                        of_metric(groups@[g].0@),
                    ));
                }
            }
        } else {
            proof {
                if started {
                    assert(!text_lt(km, key@));
                    lemma_text_lt_total(km, key@);
                    assert forall|p: int| 0 <= p < i implies (#[trigger] sv[p]).metric@ != km by {
                        if p < i - 1 {
                            assert(!text_lt(sv[i - 1].metric@, sv[p].metric@));
                            if sv[p].metric@ == km {
                                lemma_text_lt_irreflexive(km);
                            }
                        }
                    }
                }
                lemma_filter_empty(pre, km);
                assert((of_metric(km))(d));
                assert(post.filter(of_metric(km)) == pre.filter(of_metric(km)).push(d));
                assert(post.filter(of_metric(km)) =~= seq![d]);
            }
            if started {
                let ghost old_groups = groups@;
                let old_key = key;
                let old_current = current;
                groups.push((old_key, old_current));
                proof {
                    assert forall|g: int| 0 <= g < groups@.len() implies text_lt(
                        (#[trigger] groups@[g]).0@,
                        km,
                    ) by {
                        if g < old_groups.len() {
                            assert(groups@[g] == old_groups[g]);
                            lemma_text_lt_transitive(groups@[g].0@, old_key@, km);
                        }
                    }
                    assert forall|x: int, y: int| 0 <= x < y < groups@.len() implies text_lt(
                        #[trigger] groups@[x].0@,
                        #[trigger] groups@[y].0@,
                    ) by {
                        assert(groups@[x] == old_groups[x]);
                        if y < old_groups.len() {
                            assert(groups@[y] == old_groups[y]);
                        }
                    }
                    assert forall|g: int| 0 <= g < groups@.len() implies (#[trigger] groups@[g]).1@
                        == post.filter(of_metric(groups@[g].0@)) && groups@[g].1@.len() > 0 by {
                        if g < old_groups.len() {
                            assert(groups@[g] == old_groups[g]);
                        }
                        lemma_text_lt_irreflexive(km);
                        assert(!(of_metric(groups@[g].0@))(d));
                        assert(post.filter(of_metric(groups@[g].0@)) == pre.filter(
                            of_metric(groups@[g].0@),
                        ));
                    }
                    assert forall|p: int| 0 <= p < i implies has_name(
                        groups@,
                        (#[trigger] sv[p]).metric@,
                    ) by {
                        if sv[p].metric@ == old_key@ {
                            assert(groups@[old_groups.len() as int].0@ == old_key@);
                        } else {
                            let g = choose|g: int|
                                0 <= g < old_groups.len() && #[trigger] old_groups[g].0@
                                    == sv[p].metric@;
                            assert(groups@[g] == old_groups[g]);
                        }
                    }
                }
            } else {
                proof {
                    assert(groups@.len() == 0);
                }
            }
            key = d.metric.clone();
            current = Vec::new();
            current.push(d);
            started = true;
            assert(current@ =~= seq![d]);
        }
    }
    assert(sv.subrange(0, sv.len() as int) =~= sv);
    if started {
        let ghost old_groups = groups@;
        let ghost k = key@;
        groups.push((key, current));
        proof {
            assert forall|x: int, y: int| 0 <= x < y < groups@.len() implies text_lt(
                #[trigger] groups@[x].0@,
                #[trigger] groups@[y].0@,
            ) by {
                assert(groups@[x] == old_groups[x]);
                if y < old_groups.len() {
                    assert(groups@[y] == old_groups[y]);
                }
            }
            assert forall|p: int| 0 <= p < sv.len() implies has_name(
                groups@,
                (#[trigger] sv[p]).metric@,
            ) by {
                if sv[p].metric@ == k {
                    assert(groups@[old_groups.len() as int].0@ == k);
                } else {
                    let g = choose|g: int|
                        0 <= g < old_groups.len() && #[trigger] old_groups[g].0@ == sv[p].metric@;
                    assert(groups@[g] == old_groups[g]);
                }
            }
        }
    }
    assert(forall|p: int| 0 <= p < sv.len() ==> has_name(groups@, (#[trigger] sv[p]).metric@));
    proof {
        assert forall|g: int| 0 <= g < groups@.len() implies (#[trigger] groups@[g]).1@
            == b.filter(of_metric(groups@[g].0@)) && groups@[g].1@.len() > 0 by {
            assert(sv.filter(of_metric(groups@[g].0@)) == b.filter(of_metric(groups@[g].0@)));
        }
        assert forall|i: int| 0 <= i < b.len() implies has_name(groups@, (#[trigger] b[i]).metric@) by {
            let k = b[i].metric@;
            b.lemma_filter_contains(of_metric(k), i);
            assert(sv.filter(of_metric(k)) == b.filter(of_metric(k)));
            assert(sv.filter(of_metric(k)).len() > 0);
            sv.lemma_filter_pred(of_metric(k), 0);
            let e = sv.filter(of_metric(k))[0];
            assert(sv.filter(of_metric(k)).contains(e));
            sv.lemma_filter_contains_rev(of_metric(k), e);
            let p = choose|p: int| 0 <= p < sv.len() && sv[p] == e;
            assert(sv[p].metric@ == k);
            assert(has_name(groups@, sv[p].metric@));
        }
    }
    groups
}

} // verus!

//! Lists of key/value pairs used as maps: the environment of a job, the
//! mounts of its container. A later pair with the same key overrides an
//! earlier one.
use vstd::prelude::*;
use crate::docker::str_equal;

verus! {

/// The pairs, by value.
pub open spec fn pair_texts(v: Seq<(String, String)>) -> Seq<(Seq<char>, Seq<char>)> {
    v.map_values(|p: (String, String)| (p.0@, p.1@))
}

/// The map that the pairs stand for: each key maps to the value of its last
/// pair.
pub open spec fn pairs_map(p: Seq<(Seq<char>, Seq<char>)>) -> Map<Seq<char>, Seq<char>>
    decreases p.len(),
{
    if p.len() == 0 {
        Map::empty()
    } else {
        pairs_map(p.drop_last()).insert(p.last().0, p.last().1)
    }
}

/// No key occurs twice.
pub open spec fn distinct_keys(p: Seq<(Seq<char>, Seq<char>)>) -> bool {
    forall|i: int, j: int| 0 <= i < j < p.len() ==> p[i].0 != p[j].0
}

pub proof fn lemma_pairs_map_push(p: Seq<(Seq<char>, Seq<char>)>, k: Seq<char>, v: Seq<char>)
    ensures
        pairs_map(p.push((k, v))) == pairs_map(p).insert(k, v),
{
    assert(p.push((k, v)).drop_last() =~= p);
}

pub proof fn lemma_pairs_map_dom(p: Seq<(Seq<char>, Seq<char>)>, k: Seq<char>)
    ensures
        pairs_map(p).dom().contains(k) <==> exists|i: int| 0 <= i < p.len() && p[i].0 == k,
    decreases p.len(),
{
    if p.len() > 0 {
        lemma_pairs_map_dom(p.drop_last(), k);
        if exists|i: int| 0 <= i < p.len() && p[i].0 == k {
            let i = choose|i: int| 0 <= i < p.len() && p[i].0 == k;
            if i < p.len() - 1 {
                assert(p.drop_last()[i].0 == k);
            }
        }
        if exists|i: int| 0 <= i < p.drop_last().len() && p.drop_last()[i].0 == k {
            let i = choose|i: int| 0 <= i < p.drop_last().len() && p.drop_last()[i].0 == k;
            assert(p[i].0 == k);
        }
    }
}

pub proof fn lemma_pairs_map_update(p: Seq<(Seq<char>, Seq<char>)>, i: int, v: Seq<char>)
    requires
        distinct_keys(p),
        0 <= i < p.len(),
    ensures
        pairs_map(p.update(i, (p[i].0, v))) == pairs_map(p).insert(p[i].0, v),
    decreases p.len(),
{
    let k = p[i].0;
    let q = p.update(i, (k, v));
    if i == p.len() - 1 {
        assert(q.drop_last() =~= p.drop_last());
        assert(pairs_map(q) =~= pairs_map(p).insert(k, v));
    } else {
        assert(q.drop_last() =~= p.drop_last().update(i, (k, v)));
        lemma_pairs_map_update(p.drop_last(), i, v);
        assert(p.last().0 != k);
        assert(pairs_map(q) =~= pairs_map(p).insert(k, v));
    }
}

fn upsert(out: &mut Vec<(String, String)>, k: String, v: String)
    requires
        distinct_keys(pair_texts(old(out)@)),
    ensures
        distinct_keys(pair_texts(final(out)@)),
        pairs_map(pair_texts(final(out)@)) == pairs_map(pair_texts(old(out)@)).insert(k@, v@),
{
    let ghost before = pair_texts(out@);
    let mut i: usize = 0;
    while i < out.len()
        invariant
            i <= out@.len(),
            before == pair_texts(out@),
            before == pair_texts(old(out)@),
            distinct_keys(before),
            forall|j: int| 0 <= j < i ==> out@[j].0@ != k@,
        decreases out.len() - i,
    {
        if str_equal(out[i].0.as_str(), k.as_str()) {
            let ghost kk = out@[i as int].0@;
            proof {
                assert(before[i as int].0 == kk);
                assert(kk == k@);
            }
            out.set(i, (k, v));
            proof {
                assert(pair_texts(out@) =~= before.update(i as int, (before[i as int].0, v@)));
                lemma_pairs_map_update(before, i as int, v@);
                assert(pairs_map(pair_texts(out@)) == pairs_map(before).insert(k@, v@));
                assert forall|a: int, b: int|
                    0 <= a < b < pair_texts(out@).len() implies pair_texts(out@)[a].0
                    != pair_texts(out@)[b].0 by {
                    assert(pair_texts(out@)[a].0 == before[a].0);
                    assert(pair_texts(out@)[b].0 == before[b].0);
                }
            }
            return;
        }
        i = i + 1;
    }
    out.push((k, v));
    proof {
        assert(pair_texts(out@) =~= before.push((k@, v@)));
        lemma_pairs_map_push(before, k@, v@);
        assert forall|a: int, b: int|
            0 <= a < b < pair_texts(out@).len() implies pair_texts(out@)[a].0 != pair_texts(
            out@,
        )[b].0 by {
            if b == before.len() {
                assert(out@[a].0@ != k@);
            }
        }
    }
}

/// The pairs of `base`, then those of `extra`, as one map without repeated
/// keys: a later pair overrides an earlier one with the same key.
pub fn merge_pairs(base: &Vec<(String, String)>, extra: &Vec<(String, String)>) -> (r: Vec<
    (String, String),
>)
    ensures
        distinct_keys(pair_texts(r@)),
        pairs_map(pair_texts(r@)) == pairs_map(pair_texts(base@) + pair_texts(extra@)),
{
    let mut out: Vec<(String, String)> = Vec::new();
    let ghost all = pair_texts(base@) + pair_texts(extra@);
    let mut i: usize = 0;
    proof {
        assert(pair_texts(out@) =~= Seq::empty());
        assert(all.subrange(0, 0) =~= Seq::empty());
    }
    while i < base.len()
        invariant
            i <= base@.len(),
            all == pair_texts(base@) + pair_texts(extra@),
            distinct_keys(pair_texts(out@)),
            pairs_map(pair_texts(out@)) == pairs_map(all.subrange(0, i as int)),
        decreases base.len() - i,
    {
        let k = base[i].0.clone();
        let v = base[i].1.clone();
        proof {
            assert(all.subrange(0, i + 1) =~= all.subrange(0, i as int).push((k@, v@)));
            lemma_pairs_map_push(all.subrange(0, i as int), k@, v@);
        }
        upsert(&mut out, k, v);
        i = i + 1;
    }
    let mut j: usize = 0;
    while j < extra.len()
        invariant
            j <= extra@.len(),
            all == pair_texts(base@) + pair_texts(extra@),
            distinct_keys(pair_texts(out@)),
            pairs_map(pair_texts(out@)) == pairs_map(all.subrange(0, (base@.len() + j) as int)),
        decreases extra.len() - j,
    {
        let k = extra[j].0.clone();
        let v = extra[j].1.clone();
        proof {
            let n = base@.len() + j;
            assert(all.subrange(0, n + 1) =~= all.subrange(0, n as int).push((k@, v@)));
            lemma_pairs_map_push(all.subrange(0, n as int), k@, v@);
        }
        upsert(&mut out, k, v);
        j = j + 1;
    }
    proof {
        assert(all.subrange(0, (base@.len() + extra@.len()) as int) =~= all);
    }
    out
}

} // verus!

//! Shell completion candidates for jobs, given by id or by name.
use vstd::prelude::*;
use itertools::Itertools;
use crate::cscs::{Job, PathEntry, PathType};
use crate::docker::str_equal;
use crate::pairs::pair_texts;
use crate::text::{decimal, decimal_text, has_prefix, signed_decimal, signed_decimal_text, starts_with, texts};

verus! {

/// The order of `String`: lexicographic by character.
pub open spec fn text_lt(a: Seq<char>, b: Seq<char>) -> bool
    decreases a.len(),
{
    if a.len() == 0 {
        b.len() > 0
    } else if b.len() == 0 {
        false
    } else if a[0] != b[0] {
        (a[0] as u32) < (b[0] as u32)
    } else {
        text_lt(a.drop_first(), b.drop_first())
    }
}

pub open spec fn text_le(a: Seq<char>, b: Seq<char>) -> bool {
    a == b || text_lt(a, b)
}

/// Texts in ascending order.
pub open spec fn sorted_texts(s: Seq<Seq<char>>) -> bool {
    forall|i: int, j: int| 0 <= i < j < s.len() ==> text_le(s[i], s[j])
}

/// Sorts texts ascending with `Itertools::sorted`, which collects them and
/// uses `slice::sort`: the result holds the same texts, in order.
#[verifier::external_body]
fn sort_texts(v: Vec<String>) -> (r: Vec<String>)
    ensures
        texts(r@).to_multiset() == texts(v@).to_multiset(),
        sorted_texts(texts(r@)),
{
    v.into_iter().sorted().collect()
}

/// Sorts pairs by their first text with `Itertools::sorted_by_key`, which
/// collects them and uses `slice::sort_by_key`: the result holds the same
/// pairs, ascending by first text. That pairs with equal first texts keep
/// their order (the sort is stable) is left unsaid.
#[verifier::external_body]
fn sort_by_first(v: Vec<(String, String)>) -> (r: Vec<(String, String)>)
    ensures
        pair_texts(r@).to_multiset() == pair_texts(v@).to_multiset(),
        forall|i: int, j: int| 0 <= i < j < r@.len() ==> text_le(r@[i].0@, r@[j].0@),
{
    v.into_iter().sorted_by_key(|p| p.0.clone()).collect()
}

/// `s` with each run of equal neighbours kept once.
pub open spec fn dedup_spec(s: Seq<Seq<char>>) -> Seq<Seq<char>>
    decreases s.len(),
{
    if s.len() <= 1 {
        s
    } else if s.last() == s[s.len() - 2] {
        dedup_spec(s.drop_last())
    } else {
        dedup_spec(s.drop_last()).push(s.last())
    }
}

/// Keeps each run of equal neighbouring texts once.
pub fn dedup_texts(v: Vec<String>) -> (r: Vec<String>)
    ensures
        texts(r@) == dedup_spec(texts(v@)),
{
    let mut r: Vec<String> = Vec::new();
    let mut i: usize = 0;
    while i < v.len()
        invariant
            i <= v@.len(),
            texts(r@) == dedup_spec(texts(v@).take(i as int)),
        decreases v.len() - i,
    {
        let ghost t = texts(v@).take(i + 1);
        proof {
            assert(t.drop_last() =~= texts(v@).take(i as int));
        }
        if i == 0 || !str_equal(v[i].as_str(), v[i - 1].as_str()) {
            let ghost before = r@;
            r.push(v[i].clone());
            proof {
                assert(texts(r@) =~= texts(before).push(v@[i as int]@));
                assert(t.last() == v@[i as int]@);
                if i > 0 {
                    assert(t[t.len() - 2] == v@[i - 1]@);
                }
            }
        } else {
            proof {
                assert(t.last() == v@[i as int]@);
                assert(t[t.len() - 2] == v@[i - 1]@);
            }
        }
        i = i + 1;
    }
    proof {
        assert(texts(v@).take(v@.len() as int) =~= texts(v@));
    }
    r
}

/// The ids (as text) and names of the jobs whose id text starts with
/// `partial`, in the jobs' order.
pub open spec fn id_candidates(jobs: Seq<Job>, partial: Seq<char>) -> Seq<(Seq<char>, Seq<char>)>
    decreases jobs.len(),
{
    if jobs.len() == 0 {
        Seq::empty()
    } else {
        let rest = id_candidates(jobs.drop_last(), partial);
        let id_text = decimal(jobs.last().id as nat);
        if has_prefix(id_text, partial) {
            rest.push((id_text, jobs.last().name@))
        } else {
            rest
        }
    }
}

/// The names of the jobs that start with `prefix`, in the jobs' order.
pub open spec fn name_candidates(jobs: Seq<Job>, prefix: Seq<char>) -> Seq<Seq<char>>
    decreases jobs.len(),
{
    if jobs.len() == 0 {
        Seq::empty()
    } else {
        let rest = name_candidates(jobs.drop_last(), prefix);
        if has_prefix(jobs.last().name@, prefix) {
            rest.push(jobs.last().name@)
        } else {
            rest
        }
    }
}

/// Completions for a partly typed job id: each job whose id starts with
/// the typed digits, as its id text and its name, ascending by id text.
pub fn id_completions(jobs: &Vec<Job>, partial_id: i64) -> (r: Vec<(String, String)>)
    ensures
        pair_texts(r@).to_multiset() == id_candidates(jobs@, signed_decimal(partial_id as int))
            .to_multiset(),
        forall|i: int, j: int| 0 <= i < j < r@.len() ==> text_le(r@[i].0@, r@[j].0@),
{
    let partial = signed_decimal_text(partial_id);
    let mut found: Vec<(String, String)> = Vec::new();
    let mut i: usize = 0;
    while i < jobs.len()
        invariant
            i <= jobs@.len(),
            partial@ == signed_decimal(partial_id as int),
            pair_texts(found@) == id_candidates(jobs@.take(i as int), partial@),
        decreases jobs.len() - i,
    {
        proof {
            assert(jobs@.take(i + 1).drop_last() =~= jobs@.take(i as int));
        }
        let id_text = decimal_text(jobs[i].id as u64);
        if starts_with(id_text.as_str(), partial.as_str()) {
            let ghost before = found@;
            found.push((id_text, jobs[i].name.clone()));
            proof {
                assert(pair_texts(found@) =~= pair_texts(before).push(
                    (decimal(jobs@[i as int].id as nat), jobs@[i as int].name@),
                ));
            }
        }
        i = i + 1;
    }
    proof {
        assert(jobs@.take(jobs@.len() as int) =~= jobs@);
    }
    sort_by_first(found)
}

/// Completions for a partly typed job name: the names of the jobs that
/// start with it, ascending, each once.
pub fn name_completions(jobs: &Vec<Job>, prefix: &str) -> (r: Vec<String>)
    ensures
        exists|s: Seq<Seq<char>>|
            #![trigger dedup_spec(s)]
            s.to_multiset() == name_candidates(jobs@, prefix@).to_multiset() && sorted_texts(s)
                && texts(r@) == dedup_spec(s),
{
    let mut found: Vec<String> = Vec::new();
    let mut i: usize = 0;
    while i < jobs.len()
        invariant
            i <= jobs@.len(),
            texts(found@) == name_candidates(jobs@.take(i as int), prefix@),
        decreases jobs.len() - i,
    {
        proof {
            assert(jobs@.take(i + 1).drop_last() =~= jobs@.take(i as int));
        }
        if starts_with(jobs[i].name.as_str(), prefix) {
            let ghost before = found@;
            found.push(jobs[i].name.clone());
            proof {
                assert(texts(found@) =~= texts(before).push(jobs@[i as int].name@));
            }
        }
        i = i + 1;
    }
    proof {
        assert(jobs@.take(jobs@.len() as int) =~= jobs@);
    }
    let sorted = sort_texts(found);
    let r = dedup_texts(sorted);
    proof {
        let s = texts(sorted@);
        assert(dedup_spec(s) == texts(r@));
    }
    r
}

/// The completion of a listed entry below `base`: folders end with `/`.
pub open spec fn entry_candidate(base: Seq<char>, e: PathEntry) -> Seq<char> {
    if e.path_type == PathType::Directory {
        crate::text::path_join(crate::text::path_join(base, e.name@), Seq::empty())
    } else {
        crate::text::path_join(base, e.name@)
    }
}

/// The completions from a listing of `base` of the entries whose names
/// start with `partial`, in the listing's order.
pub open spec fn listing_candidates(base: Seq<char>, partial: Seq<char>, entries: Seq<PathEntry>) -> Seq<
    Seq<char>,
>
    decreases entries.len(),
{
    if entries.len() == 0 {
        Seq::empty()
    } else {
        let rest = listing_candidates(base, partial, entries.drop_last());
        if has_prefix(entries.last().name@, partial) {
            rest.push(entry_candidate(base, entries.last()))
        } else {
            rest
        }
    }
}

/// Completions for a remote path: the entries of the listing of `base`
/// whose names start with `partial` (all of them for an empty `partial`),
/// joined to `base`, folders with a trailing `/`.
pub fn listing_completions(base: &str, partial: &str, entries: &Vec<PathEntry>) -> (r: Vec<String>)
    ensures
        texts(r@) == listing_candidates(base@, partial@, entries@),
{
    let mut r: Vec<String> = Vec::new();
    let mut i: usize = 0;
    while i < entries.len()
        invariant
            i <= entries@.len(),
            texts(r@) == listing_candidates(base@, partial@, entries@.take(i as int)),
        decreases entries.len() - i,
    {
        proof {
            assert(entries@.take(i + 1).drop_last() =~= entries@.take(i as int));
            assert(entries@.take(i + 1).last() == entries@[i as int]);
        }
        if starts_with(entries[i].name.as_str(), partial) {
            let joined = crate::text::join_path(base, entries[i].name.as_str());
            let c = if entries[i].path_type == PathType::Directory {
                crate::text::join_path(joined.as_str(), "")
            } else {
                joined
            };
            proof {
                reveal_strlit("");
                assert(""@ =~= Seq::<char>::empty());
            }
            let ghost before = r@;
            r.push(c);
            proof {
                assert(texts(r@) =~= texts(before).push(entry_candidate(base@, entries@[i as int])));
            }
        }
        i = i + 1;
    }
    proof {
        assert(entries@.take(entries@.len() as int) =~= entries@);
    }
    r
}

/// Completions of a listing go entry by entry: those of two listings, one
/// after the other, are those of the first and then those of the second.
pub proof fn law_listing_candidates_concat(base: Seq<char>, partial: Seq<char>, a: Seq<PathEntry>, b: Seq<PathEntry>)
    ensures
        listing_candidates(base, partial, a + b) == listing_candidates(base, partial, a) + listing_candidates(
            base,
            partial,
            b,
        ),
    decreases b.len(),
{
    if b.len() == 0 {
        assert(a + b =~= a);
        assert(listing_candidates(base, partial, a) + Seq::<Seq<char>>::empty() =~= listing_candidates(
            base,
            partial,
            a,
        ));
    } else {
        assert((a + b).drop_last() =~= a + b.drop_last());
        assert((a + b).last() == b.last());
        law_listing_candidates_concat(base, partial, a, b.drop_last());
        let x = listing_candidates(base, partial, a);
        let y = listing_candidates(base, partial, b.drop_last());
        if has_prefix(b.last().name@, partial) {
            assert((x + y).push(entry_candidate(base, b.last())) =~= x + y.push(entry_candidate(base, b.last())));
        }
    }
}

/// A listed entry (with a name) whose name starts with `partial` completes
/// to the entry joined to `base`: a folder with a trailing `/` added (where
/// the joined path has none), any other entry as the joined path itself,
/// so without a trailing `/` where its name ends in none. An entry whose
/// name does not start with `partial` gives no completion.
pub proof fn law_listing_entry(base: Seq<char>, partial: Seq<char>, e: PathEntry)
    requires
        e.name@.len() > 0,
    ensures
        !has_prefix(e.name@, partial) ==> listing_candidates(base, partial, seq![e]) == Seq::<Seq<char>>::empty(),
        has_prefix(e.name@, partial) ==> listing_candidates(base, partial, seq![e]).len() == 1,
        has_prefix(e.name@, partial) && e.path_type == PathType::Directory ==> {
            let c = listing_candidates(base, partial, seq![e])[0];
            let j = crate::text::path_join(base, e.name@);
            &&& c.len() > 0
            &&& c.last() == '/'
            &&& has_prefix(c, j)
            &&& c.len() <= j.len() + 1
        },
        has_prefix(e.name@, partial) && e.path_type != PathType::Directory ==> listing_candidates(
            base,
            partial,
            seq![e],
        )[0] == crate::text::path_join(base, e.name@),
        has_prefix(e.name@, partial) && e.path_type != PathType::Directory && e.name@.last() != '/'
            ==> listing_candidates(base, partial, seq![e])[0].last() != '/',
{
    let l = seq![e];
    assert(l.drop_last() =~= Seq::<PathEntry>::empty());
    assert(listing_candidates(base, partial, l.drop_last()) =~= Seq::<Seq<char>>::empty());
    assert(l.last() == e);
    let n = e.name@;
    let j = crate::text::path_join(base, n);
    if n[0] == '/' {
        assert(j == n);
    } else if base.len() > 0 && base.last() != '/' {
        assert(j == base + seq!['/'] + n);
        assert(j.last() == n.last());
    } else {
        assert(j == base + n);
        assert(j.last() == n.last());
    }
    assert(j.len() > 0);
    if has_prefix(n, partial) {
        assert(listing_candidates(base, partial, l) == Seq::<Seq<char>>::empty().push(entry_candidate(base, e)));
        if e.path_type == PathType::Directory {
            let c = entry_candidate(base, e);
            if j.last() != '/' {
                assert(c == j + seq!['/'] + Seq::<char>::empty());
                assert(c.subrange(0, j.len() as int) =~= j);
            } else {
                assert(c == j + Seq::<char>::empty());
                assert(c =~= j);
                assert(c.subrange(0, j.len() as int) =~= j);
            }
        }
    }
}

} // verus!

//! Ranking scored entries: those under the threshold are dropped, the rest
//! are ordered by descending similarity, ties in catalog order, and the
//! first few are kept.

use crate::entry::views;
use crate::entry::AtcCode;
use crate::entry::AtcCodeView;
use crate::order::descending;
use crate::order::has_similarity;
use crate::order::lemma_descending_len;
use crate::order::lemma_descending_sorted;
use crate::order::lemma_filter_narrower;
use crate::order::lemma_filter_none;
use crate::order::lemma_group_of_descending;
use crate::order::lemma_sorted_is_descending;
use crate::order::sort_by_similarity;
use crate::order::sorted_desc;
use vstd::prelude::*;

verus! {

/// The least similarity with which an entry counts as a match.
pub const THRESHOLD: u8 = 90;

/// The largest number of entries in a result.
pub const LIMIT: usize = 25;

/// The test "counts as a match".
pub open spec fn qualifies() -> spec_fn(AtcCodeView) -> bool {
    |e: AtcCodeView| e.similarity >= THRESHOLD
}

/// The entries that count as matches, in their order in `s`.
pub open spec fn qualifying(s: Seq<AtcCodeView>) -> Seq<AtcCodeView> {
    s.filter(qualifies())
}

/// The first `LIMIT` entries of `s`, or all of them where there are fewer.
pub open spec fn leading(s: Seq<AtcCodeView>) -> Seq<AtcCodeView> {
    if s.len() > LIMIT {
        s.take(LIMIT as int)
    } else {
        s
    }
}

/// The result list made from scored entries.
pub open spec fn ranked(s: Seq<AtcCodeView>) -> Seq<AtcCodeView> {
    leading(descending(qualifying(s)))
}

/// The values of a list with one more entry.
pub proof fn lemma_views_push(s: Seq<AtcCode>, e: AtcCode)
    ensures
        views(s.push(e)) == views(s).push(e@),
{
    assert(views(s.push(e)) =~= views(s).push(e@));
}

/// Ranks scored entries: drops those under [`THRESHOLD`], orders the rest by
/// descending similarity with ties in the order given, and keeps at most
/// [`LIMIT`] of them.
pub fn rank(scored: Vec<AtcCode>) -> (r: Vec<AtcCode>)
    ensures
        views(r@) == ranked(views(scored@)),
{
    let ghost input = scored@;
    let mut kept: Vec<AtcCode> = Vec::new();
    proof {
        lemma_filter_none(views(input.take(0)), qualifies());
        assert(views(kept@) =~= Seq::<AtcCodeView>::empty());
    }
    for entry in it: scored
        invariant
            it.seq() == input,
            views(kept@) == qualifying(views(input.take(it.index()))),
    {
        proof {
            let seen = input.take(it.index());
            assert(input.take(it.index() + 1) =~= seen.push(entry));
            lemma_views_push(seen, entry);
            views(seen).lemma_filter_push(entry@, qualifies());
            lemma_views_push(kept@, entry);
        }
        if entry.similarity >= THRESHOLD {
            kept.push(entry);
        }
    }
    assert(input.take(input.len() as int) =~= input);
    let mut sorted = sort_by_similarity(kept);
    proof {
        lemma_sorted_is_descending(views(sorted@), views(kept@));
    }
    let ghost ordered = sorted@;
    sorted.truncate(LIMIT);
    assert(views(sorted@) =~= leading(views(ordered)));
    sorted
}

/// A result holds at most `LIMIT` entries, each of similarity `THRESHOLD` or
/// more, and each of them an entry of the input.
pub proof fn law_ranked_bounds(s: Seq<AtcCodeView>)
    ensures
        ranked(s).len() <= LIMIT,
        forall|i: int|
            0 <= i < ranked(s).len() ==> (#[trigger] ranked(s)[i]).similarity >= THRESHOLD,
        forall|i: int| 0 <= i < ranked(s).len() ==> s.contains(#[trigger] ranked(s)[i]),
{
    let q = qualifying(s);
    let d = descending(q);
    assert forall|i: int| 0 <= i < ranked(s).len() implies (#[trigger] ranked(s)[i]).similarity
        >= THRESHOLD && s.contains(ranked(s)[i]) by {
        let e = ranked(s)[i];
        assert(e == d[i]);
        d.lemma_filter_contains(has_similarity(e.similarity as int), i);
        lemma_group_of_descending(q, 255, e.similarity as int);
        q.lemma_filter_contains_rev(has_similarity(e.similarity as int), e);
        let k = choose|k: int| 0 <= k < q.len() && q[k] == e;
        s.lemma_filter_pred(qualifies(), k);
        s.lemma_filter_contains_rev(qualifies(), e);
    }
}

/// In a result no entry is followed by one of larger similarity.
pub proof fn law_ranked_sorted(s: Seq<AtcCodeView>)
    ensures
        sorted_desc(ranked(s)),
{
    lemma_descending_sorted(qualifying(s), 255);
}

/// Entries of equal similarity keep their catalog order: for every
/// similarity, the entries of the result that have it are the first of the
/// input's entries that have it, in the same order.
pub proof fn law_ranked_stable(s: Seq<AtcCodeView>, v: int)
    ensures
        ranked(s).filter(has_similarity(v)).is_prefix_of(s.filter(has_similarity(v))),
{
    let q = qualifying(s);
    let d = descending(q);
    let had = d.filter(has_similarity(v));
    // The ordered list holds the qualifying entries of similarity `v` as they came.
    lemma_group_of_descending(q, 255, v);
    if THRESHOLD <= v <= 255 {
        lemma_filter_narrower(s, qualifies(), has_similarity(v));
        assert(had == s.filter(has_similarity(v)));
    } else {
        assert forall|i: int| 0 <= i < q.len() implies !has_similarity(v)(#[trigger] q[i]) by {
            s.lemma_filter_pred(qualifies(), i);
        }
        lemma_filter_none(q, has_similarity(v));
        assert(had == Seq::<AtcCodeView>::empty());
    }
    // Cutting the list short keeps a prefix of them.
    if d.len() > LIMIT {
        let front = d.take(LIMIT as int);
        let back = d.skip(LIMIT as int);
        assert(front + back =~= d);
        Seq::filter_distributes_over_add(front, back, has_similarity(v));
        let a = front.filter(has_similarity(v));
        let b = back.filter(has_similarity(v));
        assert((a + b).subrange(0, a.len() as int) =~= a);
    } else {
        assert(had.subrange(0, had.len() as int) =~= had);
    }
}

/// A result holds every qualifying entry, up to `LIMIT` of them.
pub proof fn law_ranked_len(s: Seq<AtcCodeView>)
    ensures
        ranked(s).len() == if qualifying(s).len() > LIMIT {
            LIMIT as int
        } else {
            qualifying(s).len() as int
        },
{
    lemma_descending_len(qualifying(s));
}

} // verus!

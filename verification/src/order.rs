//! The order of a result list: larger similarity first, and entries of one
//! similarity in the order in which they came.

use crate::entry::views;
use crate::entry::AtcCode;
use crate::entry::AtcCodeView;
use core::cmp::Ordering;
use itertools::Itertools;
use vstd::prelude::*;

verus! {

/// The test "has similarity `v`".
pub open spec fn has_similarity(v: int) -> spec_fn(AtcCodeView) -> bool {
    |e: AtcCodeView| e.similarity == v
}

/// No entry is followed by one of larger similarity.
pub open spec fn sorted_desc(s: Seq<AtcCodeView>) -> bool {
    forall|i: int, j: int| 0 <= i < j < s.len() ==> s[i].similarity >= s[j].similarity
}

/// The entries of similarity `top` in their order in `s`, then those of
/// similarity `top - 1`, and so on down to 0.
pub open spec fn by_similarity_from(s: Seq<AtcCodeView>, top: int) -> Seq<AtcCodeView>
    decreases top + 1,
{
    if top < 0 {
        Seq::empty()
    } else {
        s.filter(has_similarity(top)) + by_similarity_from(s, top - 1)
    }
}

/// `s` in descending order of similarity, entries of equal similarity
/// keeping the order they have in `s`.
pub open spec fn descending(s: Seq<AtcCodeView>) -> Seq<AtcCodeView> {
    by_similarity_from(s, 255)
}

/// Compares two entries so that the one of larger similarity comes first.
pub fn larger_first(a: &AtcCode, b: &AtcCode) -> (o: Ordering)
    ensures
        o == if a.similarity > b.similarity {
            Ordering::Less
        } else if a.similarity < b.similarity {
            Ordering::Greater
        } else {
            Ordering::Equal
        },
{
    if a.similarity > b.similarity {
        Ordering::Less
    } else if a.similarity < b.similarity {
        Ordering::Greater
    } else {
        Ordering::Equal
    }
}

/// `Itertools::sorted_by` under [`larger_first`]. It sorts with the stable
/// `slice::sort_by`, so the contract claims: in the result no entry is
/// followed by one of larger similarity, and for every similarity the entries
/// that have it are the same, in the same order, as in the input.
#[verifier::external_body]
pub(crate) fn sort_by_similarity(entries: Vec<AtcCode>) -> (sorted: Vec<AtcCode>)
    ensures
        sorted_desc(views(sorted@)),
        forall|v: int|
            views(sorted@).filter(#[trigger] has_similarity(v)) == views(entries@).filter(
                has_similarity(v),
            ),
{
    entries.into_iter().sorted_by(|a, b| larger_first(a, b)).collect()
}

/// A test that every entry passes keeps the whole list.
pub proof fn lemma_filter_all(s: Seq<AtcCodeView>, p: spec_fn(AtcCodeView) -> bool)
    requires
        forall|i: int| 0 <= i < s.len() ==> p(#[trigger] s[i]),
    ensures
        s.filter(p) == s,
    decreases s.len(),
{
    reveal(Seq::filter);
    if s.len() > 0 {
        let t = s.drop_last();
        lemma_filter_all(t, p);
        assert(s =~= t.push(s.last()));
    }
}

/// A test that no entry passes keeps nothing.
pub proof fn lemma_filter_none(s: Seq<AtcCodeView>, p: spec_fn(AtcCodeView) -> bool)
    requires
        forall|i: int| 0 <= i < s.len() ==> !p(#[trigger] s[i]),
    ensures
        s.filter(p) == Seq::<AtcCodeView>::empty(),
    decreases s.len(),
{
    reveal(Seq::filter);
    if s.len() > 0 {
        lemma_filter_none(s.drop_last(), p);
    } else {
        assert(s =~= Seq::<AtcCodeView>::empty());
    }
}

/// Filtering by a test and then by a narrower one is filtering by the
/// narrower one.
pub proof fn lemma_filter_narrower(
    s: Seq<AtcCodeView>,
    p: spec_fn(AtcCodeView) -> bool,
    q: spec_fn(AtcCodeView) -> bool,
)
    requires
        forall|e: AtcCodeView| #[trigger] q(e) ==> p(e),
    ensures
        s.filter(p).filter(q) == s.filter(q),
    decreases s.len(),
{
    reveal(Seq::filter);
    if s.len() > 0 {
        let t = s.drop_last();
        lemma_filter_narrower(t, p, q);
        if p(s.last()) {
            t.filter(p).lemma_filter_push(s.last(), q);
        }
    }
}

/// The entries of one similarity stand in the ordered list exactly as they
/// stand in the input.
pub proof fn lemma_group_of_descending(s: Seq<AtcCodeView>, top: int, v: int)
    ensures
        by_similarity_from(s, top).filter(has_similarity(v)) == if 0 <= v <= top {
            s.filter(has_similarity(v))
        } else {
            Seq::empty()
        },
    decreases top + 1,
{
    if top < 0 {
        lemma_filter_none(Seq::empty(), has_similarity(v));
    } else {
        let group = s.filter(has_similarity(top));
        let rest = by_similarity_from(s, top - 1);
        lemma_group_of_descending(s, top - 1, v);
        Seq::filter_distributes_over_add(group, rest, has_similarity(v));
        assert forall|i: int| 0 <= i < group.len() implies #[trigger] group[i].similarity
            == top by {
            s.lemma_filter_pred(has_similarity(top), i);
        }
        if v == top {
            lemma_filter_all(group, has_similarity(v));
            assert(group + Seq::<AtcCodeView>::empty() =~= group);
        } else {
            lemma_filter_none(group, has_similarity(v));
            assert(Seq::<AtcCodeView>::empty() + rest.filter(has_similarity(v)) =~= rest.filter(
                has_similarity(v),
            ));
        }
    }
}

/// The ordered list is sorted, and holds no similarity above `top`.
pub proof fn lemma_descending_sorted(s: Seq<AtcCodeView>, top: int)
    ensures
        sorted_desc(by_similarity_from(s, top)),
        forall|i: int|
            0 <= i < by_similarity_from(s, top).len() ==> (#[trigger] by_similarity_from(
                s,
                top,
            )[i]).similarity <= top,
    decreases top + 1,
{
    if top >= 0 {
        lemma_descending_sorted(s, top - 1);
        let group = s.filter(has_similarity(top));
        let rest = by_similarity_from(s, top - 1);
        let d = group + rest;
        assert forall|i: int| 0 <= i < group.len() implies #[trigger] group[i].similarity
            == top by {
            s.lemma_filter_pred(has_similarity(top), i);
        }
        assert forall|i: int| 0 <= i < d.len() implies (#[trigger] d[i]).similarity <= top by {
            if i >= group.len() {
                assert(d[i] == rest[i - group.len()]);
            }
        }
        assert forall|i: int, j: int| 0 <= i < j < d.len() implies d[i].similarity
            >= d[j].similarity by {
            if i >= group.len() {
                assert(d[i] == rest[i - group.len()]);
                assert(d[j] == rest[j - group.len()]);
            } else if j >= group.len() {
                assert(d[j] == rest[j - group.len()]);
            }
        }
    }
}

/// Where every similarity is above `m`, nothing is listed from `m` down.
pub proof fn lemma_nothing_below(s: Seq<AtcCodeView>, m: int)
    requires
        forall|i: int| 0 <= i < s.len() ==> (#[trigger] s[i]).similarity > m,
    ensures
        by_similarity_from(s, m) == Seq::<AtcCodeView>::empty(),
    decreases m + 1,
{
    if m >= 0 {
        lemma_filter_none(s, has_similarity(m));
        lemma_nothing_below(s, m - 1);
        assert(Seq::<AtcCodeView>::empty() + Seq::<AtcCodeView>::empty() =~= Seq::<
            AtcCodeView,
        >::empty());
    }
}

/// An entry added behind entries that are all at least as similar comes last
/// in the ordered list.
pub proof fn lemma_descending_push(t: Seq<AtcCodeView>, x: AtcCodeView, top: int)
    requires
        forall|i: int| 0 <= i < t.len() ==> (#[trigger] t[i]).similarity >= x.similarity,
        x.similarity <= top,
    ensures
        by_similarity_from(t.push(x), top) == by_similarity_from(t, top).push(x),
    decreases top - x.similarity,
{
    t.lemma_filter_push(x, has_similarity(top));
    if top == x.similarity {
        assert forall|i: int| 0 <= i < t.push(x).len() implies (#[trigger] t.push(
            x,
        )[i]).similarity > top - 1 by {
            if i < t.len() {
                assert(t.push(x)[i] == t[i]);
            }
        }
        lemma_nothing_below(t.push(x), top - 1);
        lemma_nothing_below(t, top - 1);
        assert(by_similarity_from(t.push(x), top) =~= by_similarity_from(t, top).push(x));
    } else {
        lemma_descending_push(t, x, top - 1);
        assert(by_similarity_from(t.push(x), top) =~= by_similarity_from(t, top).push(x));
    }
}

/// A sorted list without its last entry is sorted, and none of its entries
/// is less similar than that last one.
pub proof fn lemma_sorted_drop_last(t: Seq<AtcCodeView>)
    requires
        sorted_desc(t),
        t.len() > 0,
    ensures
        sorted_desc(t.drop_last()),
        forall|i: int|
            0 <= i < t.drop_last().len() ==> (#[trigger] t.drop_last()[i]).similarity
                >= t.last().similarity,
{
    let p = t.drop_last();
    assert forall|i: int, j: int| 0 <= i < j < p.len() implies p[i].similarity
        >= p[j].similarity by {
        assert(p[i] == t[i]);
        assert(p[j] == t[j]);
    }
    assert forall|i: int| 0 <= i < p.len() implies (#[trigger] p[i]).similarity
        >= t.last().similarity by {
        assert(p[i] == t[i]);
        assert(t.last() == t[t.len() - 1]);
    }
}

/// A list that its own ordering leaves unchanged stays so when an entry is
/// added behind entries that are all at least as similar.
pub proof fn lemma_sorted_push(p: Seq<AtcCodeView>, x: AtcCodeView, top: int)
    requires
        by_similarity_from(p, top) == p,
        forall|i: int| 0 <= i < p.len() ==> (#[trigger] p[i]).similarity >= x.similarity,
        x.similarity <= top,
    ensures
        by_similarity_from(p.push(x), top) == p.push(x),
{
    lemma_descending_push(p, x, top);
}

/// A list is its front with its last entry added.
pub proof fn lemma_rejoin(t: Seq<AtcCodeView>, top: int)
    requires
        t.len() > 0,
        by_similarity_from(t.drop_last().push(t.last()), top) == t.drop_last().push(t.last()),
    ensures
        by_similarity_from(t, top) == t,
{
    assert(t.drop_last().push(t.last()) =~= t);
}

/// Listing a sorted list from a similarity that none of its entries exceeds
/// changes nothing.
pub proof fn lemma_sorted_from(t: Seq<AtcCodeView>, top: int)
    requires
        sorted_desc(t),
        forall|i: int| 0 <= i < t.len() ==> (#[trigger] t[i]).similarity <= top,
    ensures
        by_similarity_from(t, top) == t,
    decreases t.len(),
{
    if t.len() == 0 {
        lemma_nothing_below(t, top);
        assert(t =~= Seq::<AtcCodeView>::empty());
    } else {
        let p = t.drop_last();
        let x = t.last();
        lemma_sorted_drop_last(t);
        assert forall|i: int| 0 <= i < p.len() implies (#[trigger] p[i]).similarity <= top by {
            assert(p[i] == t[i]);
        }
        assert(x == t[t.len() - 1]);
        lemma_sorted_from(p, top);
        lemma_sorted_push(p, x, top);
        lemma_rejoin(t, top);
    }
}

/// Ordering a sorted list changes nothing.
pub proof fn lemma_descending_of_sorted(t: Seq<AtcCodeView>)
    requires
        sorted_desc(t),
    ensures
        descending(t) == t,
{
    lemma_sorted_from(t, 255);
}

/// Two lists that agree on the entries of every similarity have the same
/// ordered list.
pub proof fn lemma_same_groups(a: Seq<AtcCodeView>, b: Seq<AtcCodeView>, top: int)
    requires
        forall|v: int| a.filter(#[trigger] has_similarity(v)) == b.filter(has_similarity(v)),
    ensures
        by_similarity_from(a, top) == by_similarity_from(b, top),
    decreases top + 1,
{
    if top >= 0 {
        lemma_same_groups(a, b, top - 1);
        assert(a.filter(has_similarity(top)) == b.filter(has_similarity(top)));
    }
}

/// A sorted list that agrees with `input` on the entries of every similarity
/// is the ordered list of `input`.
pub proof fn lemma_sorted_is_descending(sorted: Seq<AtcCodeView>, input: Seq<AtcCodeView>)
    requires
        sorted_desc(sorted),
        forall|v: int|
            sorted.filter(#[trigger] has_similarity(v)) == input.filter(has_similarity(v)),
    ensures
        sorted == descending(input),
{
    lemma_descending_of_sorted(sorted);
    lemma_same_groups(sorted, input, 255);
}

/// One more entry makes the list from `top` down one longer if its
/// similarity is `top` or less, and leaves it as long as it was if not.
pub proof fn lemma_descending_len_push(s: Seq<AtcCodeView>, x: AtcCodeView, top: int)
    ensures
        by_similarity_from(s.push(x), top).len() == by_similarity_from(s, top).len() + (
        if x.similarity <= top {
            1int
        } else {
            0int
        }),
    decreases top + 1,
{
    if top >= 0 {
        lemma_descending_len_push(s, x, top - 1);
        s.lemma_filter_push(x, has_similarity(top));
    }
}

/// Ordering neither adds nor loses an entry.
pub proof fn lemma_descending_len(s: Seq<AtcCodeView>)
    ensures
        descending(s).len() == s.len(),
    decreases s.len(),
{
    if s.len() == 0 {
        lemma_nothing_below(s, 255);
    } else {
        lemma_descending_len(s.drop_last());
        lemma_descending_len_push(s.drop_last(), s.last(), 255);
        assert(s =~= s.drop_last().push(s.last()));
    }
}

} // verus!

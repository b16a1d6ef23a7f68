//! What holds of trimming, case folding and normalisation.

use crate::text::is_blank;
use crate::text::is_space;
use crate::text::lemma_skip_leading;
use crate::text::lower;
use crate::text::normalized;
use crate::text::skip_leading;
use crate::text::skip_trailing;
use crate::text::trimmed;
use crate::text::upper;
use vstd::prelude::*;

verus! {

/// Folding to lower case twice is folding once.
pub proof fn law_lower_idempotent(s: Seq<char>)
    ensures
        lower(lower(s)) == lower(s),
{
    assert(lower(lower(s)) =~= lower(s));
}

/// The upper-case form of a text is that of its lower-case form.
pub proof fn law_upper_of_lower(s: Seq<char>)
    ensures
        upper(lower(s)) == upper(s),
{
    assert(upper(lower(s)) =~= upper(s));
}

/// What is left after the leading white space is empty or begins with
/// another character.
pub proof fn lemma_skip_leading_shape(s: Seq<char>)
    ensures
        skip_leading(s).len() > 0 ==> !is_space(skip_leading(s).first()),
    decreases s.len(),
{
    if s.len() > 0 && is_space(s.first()) {
        lemma_skip_leading_shape(s.drop_first());
    }
}

/// What is left before the trailing white space is empty or ends with
/// another character, and is the beginning of the text.
pub proof fn lemma_skip_trailing_shape(s: Seq<char>)
    ensures
        skip_trailing(s).len() > 0 ==> !is_space(skip_trailing(s).last()),
        skip_trailing(s).is_prefix_of(s),
    decreases s.len(),
{
    if s.len() > 0 && is_space(s.last()) {
        let t = s.drop_last();
        lemma_skip_trailing_shape(t);
        let k = skip_trailing(t).len() as int;
        assert(t.subrange(0, k) =~= s.subrange(0, k));
    } else {
        assert(s =~= s.subrange(0, s.len() as int));
    }
}

/// A trimmed text neither begins nor ends with white space.
pub proof fn law_trimmed_ends(s: Seq<char>)
    ensures
        trimmed(s).len() > 0 ==> !is_space(trimmed(s).first()) && !is_space(trimmed(s).last()),
{
    let u = skip_leading(s);
    lemma_skip_leading_shape(s);
    lemma_skip_trailing_shape(u);
    if trimmed(s).len() > 0 {
        assert(trimmed(s).first() == u.subrange(0, trimmed(s).len() as int)[0]);
    }
}

/// Trimming twice is trimming once.
pub proof fn law_trimmed_idempotent(s: Seq<char>)
    ensures
        trimmed(trimmed(s)) == trimmed(s),
{
    law_trimmed_ends(s);
}

/// Leading white space does not change when the text is folded to lower
/// case.
pub proof fn lemma_skip_leading_lower(s: Seq<char>)
    ensures
        skip_leading(lower(s)) == lower(skip_leading(s)),
    decreases s.len(),
{
    if s.len() > 0 && is_space(s.first()) {
        lemma_skip_leading_lower(s.drop_first());
        assert(lower(s).drop_first() =~= lower(s.drop_first()));
    }
}

/// Trailing white space does not change when the text is folded to lower
/// case.
pub proof fn lemma_skip_trailing_lower(s: Seq<char>)
    ensures
        skip_trailing(lower(s)) == lower(skip_trailing(s)),
    decreases s.len(),
{
    if s.len() > 0 && is_space(s.last()) {
        lemma_skip_trailing_lower(s.drop_last());
        assert(lower(s).drop_last() =~= lower(s.drop_last()));
    }
}

/// Trimming and folding to lower case can be done in either order.
pub proof fn law_trim_lower_commute(s: Seq<char>)
    ensures
        trimmed(lower(s)) == lower(trimmed(s)),
{
    lemma_skip_leading_lower(s);
    lemma_skip_trailing_lower(skip_leading(s));
}

/// Normalising a normalised query changes nothing.
pub proof fn law_normalized_idempotent(s: Seq<char>)
    ensures
        normalized(normalized(s)) == normalized(s),
{
    law_trim_lower_commute(trimmed(s));
    law_trimmed_idempotent(s);
    law_lower_idempotent(trimmed(s));
}

/// Queries that differ in letter case only have the same normal form.
pub proof fn law_normalized_ignores_case(a: Seq<char>, b: Seq<char>)
    requires
        lower(a) == lower(b),
    ensures
        normalized(a) == normalized(b),
{
    law_trim_lower_commute(a);
    law_trim_lower_commute(b);
}

/// White space in front of a text is skipped with the text's own.
pub proof fn lemma_skip_leading_margin(pre: Seq<char>, s: Seq<char>)
    requires
        is_blank(pre),
    ensures
        skip_leading(pre + s) == skip_leading(s),
    decreases pre.len(),
{
    if pre.len() > 0 {
        assert((pre + s).first() == pre[0]);
        assert((pre + s).drop_first() =~= pre.drop_first() + s);
        assert forall|i: int| 0 <= i < pre.drop_first().len() implies is_space(
            #[trigger] pre.drop_first()[i],
        ) by {
            assert(pre.drop_first()[i] == pre[i + 1]);
        }
        lemma_skip_leading_margin(pre.drop_first(), s);
    } else {
        assert(pre + s =~= s);
    }
}

/// White space behind a text is skipped with the text's own.
pub proof fn lemma_skip_trailing_margin(s: Seq<char>, post: Seq<char>)
    requires
        is_blank(post),
    ensures
        skip_trailing(s + post) == skip_trailing(s),
    decreases post.len(),
{
    if post.len() > 0 {
        assert((s + post).last() == post[post.len() - 1]);
        assert((s + post).drop_last() =~= s + post.drop_last());
        assert forall|i: int| 0 <= i < post.drop_last().len() implies is_space(
            #[trigger] post.drop_last()[i],
        ) by {
            assert(post.drop_last()[i] == post[i]);
        }
        lemma_skip_trailing_margin(s, post.drop_last());
    } else {
        assert(s + post =~= s);
    }
}

/// Skipping the leading white space of a text that is followed by more:
/// only where the text is blank does the skipping go on into what follows.
pub proof fn lemma_skip_leading_before(s: Seq<char>, post: Seq<char>)
    ensures
        skip_leading(s + post) == if is_blank(s) {
            skip_leading(post)
        } else {
            skip_leading(s) + post
        },
    decreases s.len(),
{
    if s.len() == 0 {
        assert(s + post =~= post);
    } else if is_space(s.first()) {
        let t = s.drop_first();
        assert((s + post).first() == s[0]);
        assert((s + post).drop_first() =~= t + post);
        lemma_skip_leading_before(t, post);
        if is_blank(s) {
            assert forall|i: int| 0 <= i < t.len() implies is_space(#[trigger] t[i]) by {
                assert(t[i] == s[i + 1]);
            }
        } else {
            let k = choose|k: int| 0 <= k < s.len() && !is_space(s[k]);
            assert(t[k - 1] == s[k]);
        }
    } else {
        assert((s + post).first() == s[0]);
    }
}

/// A blank text trims to nothing.
pub proof fn law_blank_trims_to_nothing(s: Seq<char>)
    requires
        is_blank(s),
    ensures
        trimmed(s).len() == 0,
        normalized(s).len() == 0,
{
    lemma_skip_leading(s, s.len() as int);
}

/// Skipping trailing white space keeps everything up to a character that is
/// none.
pub proof fn lemma_skip_trailing_keeps(s: Seq<char>, k: int)
    requires
        0 <= k < s.len(),
        !is_space(s[k]),
    ensures
        skip_trailing(s).len() > k,
    decreases s.len(),
{
    if is_space(s.last()) {
        lemma_skip_trailing_keeps(s.drop_last(), k);
    }
}

/// If skipping the leading white space leaves nothing, the text is blank.
pub proof fn lemma_skip_leading_all(s: Seq<char>)
    requires
        skip_leading(s).len() == 0,
    ensures
        is_blank(s),
    decreases s.len(),
{
    if s.len() > 0 {
        let t = s.drop_first();
        lemma_skip_leading_all(t);
        assert forall|i: int| 0 <= i < s.len() implies is_space(#[trigger] s[i]) by {
            if i > 0 {
                assert(s[i] == t[i - 1]);
            }
        }
    }
}

/// A text that trims to nothing is blank.
pub proof fn law_nothing_left_of_blank_only(s: Seq<char>)
    requires
        normalized(s).len() == 0,
    ensures
        is_blank(s),
{
    let u = skip_leading(s);
    lemma_skip_leading_shape(s);
    lemma_skip_trailing_shape(u);
    if u.len() > 0 {
        // `u` begins with a character that is no white space, so trimming
        // its end cannot consume it.
        lemma_skip_trailing_keeps(u, 0);
    }
    lemma_skip_leading_all(s);
}

/// White space around a query does not change its normal form.
pub proof fn law_normalized_ignores_margin(pre: Seq<char>, s: Seq<char>, post: Seq<char>)
    requires
        is_blank(pre),
        is_blank(post),
    ensures
        normalized(pre + s + post) == normalized(s),
{
    assert(pre + s + post =~= pre + (s + post));
    lemma_skip_leading_margin(pre, s + post);
    lemma_skip_leading_before(s, post);
    if is_blank(s) {
        lemma_skip_leading(post, post.len() as int);
        lemma_skip_leading(s, s.len() as int);
    } else {
        lemma_skip_trailing_margin(skip_leading(s), post);
    }
}

} // verus!

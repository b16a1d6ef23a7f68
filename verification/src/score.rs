//! The similarity of a query to one catalog entry, from 0 to 100.
//!
//! Three rules, the first that applies decides:
//! 1. a query that is code-shaped once folded to upper case is a lookup by
//!    code prefix: 100 if the query begins the entry's code, else 0;
//! 2. a query equal to the entry's name, or beginning the text "code name",
//!    scores 100;
//! 3. otherwise the score is the larger of two fuzzy percentages, one against
//!    the code and one against the name, which the caller measures.
//!
//! All comparisons are made on ASCII lower-case forms.

use crate::entry::AtcCode;
use crate::entry::AtcCodeView;
use crate::pattern::code_shaped;
use crate::pattern::code_shaped_chars;
use crate::text::chars_of;
use crate::text::lower;
use crate::text::lower_chars;
use crate::text::starts_with;
use crate::text::upper;
use crate::text::upper_chars;
use crate::text_laws::law_upper_of_lower;
use vstd::prelude::*;

verus! {

/// The similarity of a certain match.
pub const CERTAIN: u8 = 100;

/// How closely a query resembles an entry's code and its name, each as a
/// percentage: the string similarity of the lower-case query to the
/// lower-case field, times 100, truncated.
#[derive(Clone, Copy, Debug, PartialEq, Eq)]
pub struct Fuzzy {
    pub code: u8,
    pub name: u8,
}

impl Fuzzy {
    /// Both numbers are percentages.
    pub open spec fn valid(self) -> bool {
        self.code <= 100 && self.name <= 100
    }

    /// The larger of the two percentages.
    pub open spec fn best(self) -> u8 {
        if self.code > self.name {
            self.code
        } else {
            self.name
        }
    }
}

/// The text against which a free-text query is matched by prefix: the
/// lower-case code, one space, the lower-case name.
pub open spec fn labelled(entry: AtcCodeView) -> Seq<char> {
    lower(entry.code) + seq![' '] + lower(entry.name)
}

/// The similarity that the first two rules give, or `None` where neither
/// applies and the fuzzy percentages decide.
pub open spec fn exact_score(query: Seq<char>, entry: AtcCodeView) -> Option<u8> {
    if code_shaped(upper(query)) {
        if lower(query).is_prefix_of(lower(entry.code)) {
            Some(100u8)
        } else {
            Some(0u8)
        }
    } else if lower(query) == lower(entry.name) || lower(query).is_prefix_of(labelled(entry)) {
        Some(100u8)
    } else {
        None
    }
}

/// The similarity of `query` to `entry`, given the fuzzy percentages measured
/// for the pair.
pub open spec fn score(query: Seq<char>, entry: AtcCodeView, fuzzy: Fuzzy) -> u8 {
    match exact_score(query, entry) {
        Some(s) => s,
        None => fuzzy.best(),
    }
}

/// Applies the two exact rules. `None` means that neither applies, so that
/// the similarity of the pair is decided by its fuzzy percentages.
pub fn exact_similarity(query: &str, atc_code: &AtcCode) -> (r: Option<u8>)
    ensures
        r == exact_score(query@, atc_code@),
{
    let q = chars_of(query);
    let needle = lower_chars(&q);
    let mut code = lower_chars(&chars_of(atc_code.code.as_str()));
    if code_shaped_chars(&upper_chars(&q)) {
        if starts_with(&code, &needle) {
            return Some(CERTAIN);
        }
        return Some(0);
    }
    let mut name = lower_chars(&chars_of(atc_code.name.as_str()));
    if needle.len() == name.len() && starts_with(&name, &needle) {
        assert(needle@ =~= name@);
        return Some(CERTAIN);
    }
    assert(needle@ != name@) by {
        if needle@ == name@ {
            assert(name@.subrange(0, needle@.len() as int) =~= name@);
        }
    }
    code.push(' ');
    code.append(&mut name);
    assert(code@ =~= labelled(atc_code@));
    if starts_with(&code, &needle) {
        Some(CERTAIN)
    } else {
        None
    }
}

/// The similarity of `query` to `atc_code`. `fuzzy` holds the percentages
/// measured for the pair; they are read only where no exact rule applies.
pub fn get_similarity(query: &str, atc_code: &AtcCode, fuzzy: Fuzzy) -> (r: u8)
    ensures
        r == score(query@, atc_code@, fuzzy),
        fuzzy.valid() ==> r <= 100,
{
    match exact_similarity(query, atc_code) {
        Some(s) => s,
        None => if fuzzy.code > fuzzy.name {
            fuzzy.code
        } else {
            fuzzy.name
        },
    }
}

/// A query that is code-shaped once folded to upper case is a lookup by code
/// prefix and nothing else: the entry scores 100 if the query begins its
/// code and 0 if not, whatever its name and the fuzzy percentages are.
pub proof fn law_code_query_is_prefix_lookup(query: Seq<char>, entry: AtcCodeView, fuzzy: Fuzzy)
    requires
        code_shaped(upper(query)),
    ensures
        score(query, entry, fuzzy) == if lower(query).is_prefix_of(lower(entry.code)) {
            100u8
        } else {
            0u8
        },
{
}

/// A query that is not code-shaped and equals the entry's name, letter case
/// aside, scores 100.
pub proof fn law_exact_name(query: Seq<char>, entry: AtcCodeView, fuzzy: Fuzzy)
    requires
        !code_shaped(upper(query)),
        lower(query) == lower(entry.name),
    ensures
        score(query, entry, fuzzy) == 100,
{
}

/// A query that is not code-shaped and begins the text "code name" of the
/// entry, letter case aside, scores 100.
pub proof fn law_labelled_prefix(query: Seq<char>, entry: AtcCodeView, fuzzy: Fuzzy)
    requires
        !code_shaped(upper(query)),
        lower(query).is_prefix_of(labelled(entry)),
    ensures
        score(query, entry, fuzzy) == 100,
{
}

/// Where no exact rule applies, the larger of the two percentages is the
/// similarity.
pub proof fn law_fuzzy_decides(query: Seq<char>, entry: AtcCodeView, fuzzy: Fuzzy)
    requires
        !code_shaped(upper(query)),
        lower(query) != lower(entry.name),
        !lower(query).is_prefix_of(labelled(entry)),
    ensures
        score(query, entry, fuzzy) == fuzzy.best(),
        score(query, entry, fuzzy) >= fuzzy.code,
        score(query, entry, fuzzy) >= fuzzy.name,
{
}

/// With percentages for the fuzzy part, the similarity is a percentage too.
pub proof fn law_score_range(query: Seq<char>, entry: AtcCodeView, fuzzy: Fuzzy)
    requires
        fuzzy.valid(),
    ensures
        score(query, entry, fuzzy) <= 100,
{
}

/// The letter case of the query does not count.
pub proof fn law_score_ignores_case(a: Seq<char>, b: Seq<char>, entry: AtcCodeView, fuzzy: Fuzzy)
    requires
        lower(a) == lower(b),
    ensures
        score(a, entry, fuzzy) == score(b, entry, fuzzy),
{
    law_upper_of_lower(a);
    law_upper_of_lower(b);
}

/// The similarity is decided by the query, the entry's code and name, and
/// the two percentages: where these are equal, so is the similarity. The
/// similarity that the entry already carries does not count.
pub proof fn law_score_deterministic(
    query: Seq<char>,
    entry: AtcCodeView,
    fuzzy: Fuzzy,
    same_query: Seq<char>,
    same_entry: AtcCodeView,
    same_fuzzy: Fuzzy,
)
    requires
        query == same_query,
        entry.code == same_entry.code,
        entry.name == same_entry.name,
        fuzzy.code == same_fuzzy.code,
        fuzzy.name == same_fuzzy.name,
    ensures
        score(query, entry, fuzzy) == score(same_query, same_entry, same_fuzzy),
{
}

} // verus!

//! The search itself: a query is normalised, an empty one answered with
//! nothing, the cache asked, and on a miss every catalog entry scored, the
//! matches ranked, and the result stored under the normalised query.
//!
//! The fuzzy percentages come from the caller, one pair per catalog entry.
//! [`SearchEngine::lookup`] tells whether they are needed at all.

use crate::cache::MAX_SECS;
use crate::cache::cache_get;
use crate::cache::cache_insert;
use crate::cache::limits;
use crate::cache::new_cache;
use crate::cache::stored;
use crate::entry::AtcCode;
use crate::entry::AtcCodeView;
use crate::entry::views;
use crate::order::sorted_desc;
use crate::rank::LIMIT;
use crate::rank::THRESHOLD;
use crate::rank::law_ranked_bounds;
use crate::rank::law_ranked_sorted;
use crate::rank::lemma_views_push;
use crate::rank::rank;
use crate::rank::ranked;
use crate::score::Fuzzy;
use crate::score::get_similarity;
use crate::score::score;
use crate::text::is_blank;
use crate::text::normalize;
use crate::text::normalized;
use crate::text_laws::law_blank_trims_to_nothing;
use moka::sync::Cache;
use vstd::prelude::*;

verus! {

/// The limits of the cache: how many results it holds, and for how many
/// seconds a result lives after it was stored and after it was last read.
#[derive(Clone, Copy, Debug, PartialEq, Eq)]
pub struct CacheConfig {
    pub max_entries: u64,
    pub live_secs: u64,
    pub idle_secs: u64,
}

impl CacheConfig {
    /// Both durations are ones that the cache accepts.
    pub open spec fn valid(self) -> bool {
        self.live_secs <= MAX_SECS && self.idle_secs <= MAX_SECS
    }

    /// Tells whether the cache accepts both durations.
    pub fn is_valid(&self) -> (r: bool)
        ensures
            r == self.valid(),
    {
        self.live_secs <= MAX_SECS && self.idle_secs <= MAX_SECS
    }
}

impl Default for CacheConfig {
    /// A thousand results, each kept for thirty minutes, or for five without
    /// being read.
    fn default() -> (config: CacheConfig)
        ensures
            config == (CacheConfig { max_entries: 1000, live_secs: 1800, idle_secs: 300 }),
            config.valid(),
    {
        CacheConfig { max_entries: 1000, live_secs: 1800, idle_secs: 300 }
    }
}

/// There is one pair of percentages for each catalog entry.
pub open spec fn table_fits(catalog: Seq<AtcCodeView>, fuzzy: Seq<Fuzzy>) -> bool {
    &&& fuzzy.len() == catalog.len()
    &&& forall|i: int| 0 <= i < fuzzy.len() ==> (#[trigger] fuzzy[i]).valid()
}

/// The catalog with each entry's similarity to `query`.
pub open spec fn scored(catalog: Seq<AtcCodeView>, query: Seq<char>, fuzzy: Seq<Fuzzy>) -> Seq<
    AtcCodeView,
> {
    Seq::new(
        catalog.len(),
        |i: int| AtcCodeView { similarity: score(query, catalog[i], fuzzy[i]), ..catalog[i] },
    )
}

/// `result` is what the catalog gives for the normalised query `key` under
/// some table of percentages.
pub open spec fn is_result(
    catalog: Seq<AtcCodeView>,
    key: Seq<char>,
    result: Seq<AtcCodeView>,
) -> bool {
    exists|fuzzy: Seq<Fuzzy>|
        table_fits(catalog, fuzzy) && result == ranked(#[trigger] scored(catalog, key, fuzzy))
}

/// What one search may do: `before` and `after` are what the cache has
/// stored, `result` is the answer.
pub open spec fn search_outcome(
    before: Map<Seq<char>, Seq<AtcCodeView>>,
    catalog: Seq<AtcCodeView>,
    query: Seq<char>,
    fuzzy: Seq<Fuzzy>,
    result: Seq<AtcCodeView>,
    after: Map<Seq<char>, Seq<AtcCodeView>>,
) -> bool {
    let key = normalized(query);
    if key.len() == 0 {
        result.len() == 0 && after == before
    } else {
        ||| before.contains_key(key) && result == before[key] && after == before
        ||| result == ranked(scored(catalog, key, fuzzy)) && after == before.insert(key, result)
    }
}

/// What the cache says of a query before anything is scored.
#[derive(Debug, PartialEq, Eq)]
pub enum Lookup {
    /// The normalised query is empty: the answer is the empty list.
    Empty,
    /// The cache holds the answer.
    Hit(Vec<AtcCode>),
    /// The answer has to be computed; the normalised query is given.
    Miss(String),
}

/// What is made of the cache's reply for the non-empty normalised query
/// `key`.
pub fn resolve(key: String, hit: Option<Vec<AtcCode>>) -> (r: Lookup)
    ensures
        r == match hit {
            Some(entries) => Lookup::Hit(entries),
            None => Lookup::Miss(key),
        },
{
    match hit {
        Some(entries) => Lookup::Hit(entries),
        None => Lookup::Miss(key),
    }
}

/// A copy of a list of entries.
pub fn clone_entries(entries: &Vec<AtcCode>) -> (copy: Vec<AtcCode>)
    ensures
        views(copy@) == views(entries@),
{
    let mut copy: Vec<AtcCode> = Vec::new();
    let mut i: usize = 0;
    while i < entries.len()
        invariant
            i <= entries.len(),
            views(copy@) == views(entries@).take(i as int),
        decreases entries.len() - i,
    {
        let entry = entries[i].clone();
        proof {
            lemma_views_push(copy@, entry);
        }
        copy.push(entry);
        i += 1;
    }
    assert(views(entries@).take(entries@.len() as int) =~= views(entries@));
    copy
}

/// Scores every catalog entry against `query` and ranks the matches.
/// `fuzzy[i]` holds the percentages of `query` and `catalog[i]`.
pub fn search_catalog(query: &str, catalog: &Vec<AtcCode>, fuzzy: &Vec<Fuzzy>) -> (r: Vec<AtcCode>)
    requires
        fuzzy.len() == catalog.len(),
    ensures
        views(r@) == ranked(scored(views(catalog@), query@, fuzzy@)),
{
    let ghost target = scored(views(catalog@), query@, fuzzy@);
    let mut all: Vec<AtcCode> = Vec::new();
    let mut i: usize = 0;
    while i < catalog.len()
        invariant
            i <= catalog.len(),
            fuzzy.len() == catalog.len(),
            target == scored(views(catalog@), query@, fuzzy@),
            views(all@) == target.take(i as int),
        decreases catalog.len() - i,
    {
        let similarity = get_similarity(query, &catalog[i], fuzzy[i]);
        let entry = catalog[i].clone().with_similarity(similarity);
        proof {
            lemma_views_push(all@, entry);
            assert(target.take(i + 1) =~= target.take(i as int).push(entry@));
        }
        all.push(entry);
        i += 1;
    }
    assert(target.take(catalog@.len() as int) =~= target);
    rank(all)
}

/// An entry of the catalog with some similarity attached.
pub open spec fn from_catalog(catalog: Seq<AtcCodeView>, found: AtcCodeView) -> bool {
    exists|k: int|
        0 <= k < catalog.len() && (#[trigger] catalog[k]).code == found.code && catalog[k].name
            == found.name
}

/// A result is a list of at most `LIMIT` entries of the catalog, each with a
/// similarity from `THRESHOLD` to 100, and none followed by one of larger
/// similarity.
pub proof fn law_result_shape(catalog: Seq<AtcCodeView>, key: Seq<char>, result: Seq<AtcCodeView>)
    requires
        is_result(catalog, key, result),
    ensures
        result.len() <= LIMIT,
        forall|i: int|
            0 <= i < result.len() ==> THRESHOLD <= (#[trigger] result[i]).similarity <= 100,
        forall|i: int| 0 <= i < result.len() ==> from_catalog(catalog, #[trigger] result[i]),
        sorted_desc(result),
{
    let fuzzy = choose|fuzzy: Seq<Fuzzy>|
        table_fits(catalog, fuzzy) && result == ranked(#[trigger] scored(catalog, key, fuzzy));
    let all = scored(catalog, key, fuzzy);
    law_ranked_bounds(all);
    law_ranked_sorted(all);
    assert forall|i: int| 0 <= i < result.len() implies (#[trigger] result[i]).similarity
        <= 100 by {
        assert(all.contains(result[i]));
        let k = choose|k: int| 0 <= k < all.len() && all[k] == result[i];
        assert(fuzzy[k].valid());
    }
    assert forall|i: int| 0 <= i < result.len() implies from_catalog(
        catalog,
        #[trigger] result[i],
    ) by {
        assert(all.contains(result[i]));
        let k = choose|k: int| 0 <= k < all.len() && all[k] == result[i];
        assert(catalog[k].code == result[i].code);
    }
}

/// Queries of one normal form are the same query to a search: what one may
/// answer and store, the other may.
pub proof fn law_same_normal_form(
    before: Map<Seq<char>, Seq<AtcCodeView>>,
    catalog: Seq<AtcCodeView>,
    a: Seq<char>,
    b: Seq<char>,
    fuzzy: Seq<Fuzzy>,
    result: Seq<AtcCodeView>,
    after: Map<Seq<char>, Seq<AtcCodeView>>,
)
    requires
        normalized(a) == normalized(b),
    ensures
        search_outcome(before, catalog, a, fuzzy, result, after) == search_outcome(
            before,
            catalog,
            b,
            fuzzy,
            result,
            after,
        ),
{
}

/// A blank query is answered with nothing, and nothing is stored for it.
pub proof fn law_blank_query(
    before: Map<Seq<char>, Seq<AtcCodeView>>,
    catalog: Seq<AtcCodeView>,
    query: Seq<char>,
    fuzzy: Seq<Fuzzy>,
    result: Seq<AtcCodeView>,
    after: Map<Seq<char>, Seq<AtcCodeView>>,
)
    requires
        is_blank(query),
        search_outcome(before, catalog, query, fuzzy, result, after),
    ensures
        result.len() == 0,
        after == before,
{
    law_blank_trims_to_nothing(query);
}

/// After a search for a query that is not blank, its answer is what is
/// stored under the normalised query.
pub proof fn law_answer_is_stored(
    before: Map<Seq<char>, Seq<AtcCodeView>>,
    catalog: Seq<AtcCodeView>,
    query: Seq<char>,
    fuzzy: Seq<Fuzzy>,
    result: Seq<AtcCodeView>,
    after: Map<Seq<char>, Seq<AtcCodeView>>,
)
    requires
        normalized(query).len() > 0,
        search_outcome(before, catalog, query, fuzzy, result, after),
    ensures
        after.contains_key(normalized(query)),
        after[normalized(query)] == result,
{
}

/// Of two searches in a row for one normalised query that is not empty, the
/// second either returns the answer of the first and leaves the cache as it
/// is, or computes and stores its own. If both are given the same
/// percentages and the first one computed its answer, the answers are equal
/// either way.
pub proof fn law_second_search(
    before: Map<Seq<char>, Seq<AtcCodeView>>,
    catalog: Seq<AtcCodeView>,
    first_query: Seq<char>,
    first_fuzzy: Seq<Fuzzy>,
    first: Seq<AtcCodeView>,
    between: Map<Seq<char>, Seq<AtcCodeView>>,
    second_query: Seq<char>,
    second_fuzzy: Seq<Fuzzy>,
    second: Seq<AtcCodeView>,
    after: Map<Seq<char>, Seq<AtcCodeView>>,
)
    requires
        normalized(first_query).len() > 0,
        normalized(second_query) == normalized(first_query),
        search_outcome(before, catalog, first_query, first_fuzzy, first, between),
        search_outcome(between, catalog, second_query, second_fuzzy, second, after),
    ensures
        (second == first && after == between) || (second == ranked(
            scored(catalog, normalized(second_query), second_fuzzy),
        ) && after == between.insert(normalized(second_query), second)),
        !before.contains_key(normalized(first_query)) && second_fuzzy == first_fuzzy ==> second
            == first,
{
}

/// A catalog with a cache of the results that were computed from it.
pub struct SearchEngine {
    catalog: Vec<AtcCode>,
    cache: Cache<String, Vec<AtcCode>>,
}

impl SearchEngine {
    /// Whatever is stored under a key is a result of this catalog for that
    /// key.
    #[verifier::type_invariant]
    spec fn sound(&self) -> bool {
        forall|key: Seq<char>| #[trigger]
            stored(self.cache).contains_key(key) ==> is_result(
                views(self.catalog@),
                key,
                stored(self.cache)[key],
            )
    }

    /// The catalog that is searched.
    pub closed spec fn catalog_view(&self) -> Seq<AtcCodeView> {
        views(self.catalog@)
    }

    /// For each key, the result stored under it last.
    pub closed spec fn cache_view(&self) -> Map<Seq<char>, Seq<AtcCodeView>> {
        stored(self.cache)
    }

    /// The limits that the cache was built with.
    pub closed spec fn config_view(&self) -> CacheConfig {
        CacheConfig {
            max_entries: limits(self.cache).0,
            live_secs: limits(self.cache).1,
            idle_secs: limits(self.cache).2,
        }
    }

    /// An engine over `catalog`, with an empty cache of the given limits.
    pub fn new(catalog: Vec<AtcCode>, config: CacheConfig) -> (engine: SearchEngine)
        requires
            config.valid(),
        ensures
            engine.catalog_view() == views(catalog@),
            engine.config_view() == config,
            (engine.cache_view() == Map::<Seq<char>, Seq<AtcCodeView>>::empty()),
    {
        let cache = new_cache(config.max_entries, config.live_secs, config.idle_secs);
        SearchEngine { catalog, cache }
    }

    /// The catalog that is searched.
    pub fn catalog(&self) -> (entries: &Vec<AtcCode>)
        ensures
            views(entries@) == self.catalog_view(),
    {
        &self.catalog
    }

    /// Tells whether `fuzzy` holds one pair of percentages for each catalog
    /// entry, which is what [`SearchEngine::find_codes`] asks for.
    pub fn accepts(&self, fuzzy: &Vec<Fuzzy>) -> (r: bool)
        ensures
            r == table_fits(self.catalog_view(), fuzzy@),
    {
        if fuzzy.len() != self.catalog.len() {
            return false;
        }
        let mut i: usize = 0;
        while i < fuzzy.len()
            invariant
                i <= fuzzy.len(),
                forall|k: int| 0 <= k < i ==> (#[trigger] fuzzy@[k]).valid(),
            decreases fuzzy.len() - i,
        {
            if fuzzy[i].code > 100 || fuzzy[i].name > 100 {
                return false;
            }
            i += 1;
        }
        true
    }

    /// Normalises the query and, unless it is empty, asks the cache for it.
    /// An empty query never reaches the cache.
    pub fn lookup(&self, query: &str) -> (r: Lookup)
        ensures
            match r {
                Lookup::Empty => normalized(query@).len() == 0,
                Lookup::Hit(entries) => {
                    &&& normalized(query@).len() > 0
                    &&& self.cache_view().contains_key(normalized(query@))
                    &&& self.cache_view()[normalized(query@)] == views(entries@)
                    &&& is_result(self.catalog_view(), normalized(query@), views(entries@))
                },
                Lookup::Miss(key) => key@ == normalized(query@) && key@.len() > 0,
            },
    {
        let key = normalize(query);
        if key.as_str().is_empty() {
            return Lookup::Empty;
        }
        let hit = cache_get(&self.cache, key.as_str());
        proof {
            use_type_invariant(self);
        }
        resolve(key, hit)
    }

    /// Answers a query: the empty list for a query that is empty once
    /// normalised; else what the cache holds for it; else the ranked matches
    /// of the catalog, which are then stored. `fuzzy[i]` holds the
    /// percentages of the normalised query and entry `i` of the catalog.
    pub fn find_codes(&mut self, query: &str, fuzzy: &Vec<Fuzzy>) -> (r: Vec<AtcCode>)
        requires
            table_fits(old(self).catalog_view(), fuzzy@),
        ensures
            final(self).catalog_view() == old(self).catalog_view(),
            final(self).config_view() == old(self).config_view(),
            search_outcome(
                old(self).cache_view(),
                old(self).catalog_view(),
                query@,
                fuzzy@,
                views(r@),
                final(self).cache_view(),
            ),
            normalized(query@).len() > 0 ==> is_result(
                old(self).catalog_view(),
                normalized(query@),
                views(r@),
            ),
            r@.len() <= LIMIT,
            forall|i: int| 0 <= i < r@.len() ==> THRESHOLD <= (#[trigger] r@[i]).similarity <= 100,
            sorted_desc(views(r@)),
    {
        let found = self.lookup(query);
        let r = match found {
            Lookup::Empty => Vec::new(),
            Lookup::Hit(entries) => entries,
            Lookup::Miss(key) => {
                let entries = search_catalog(key.as_str(), &self.catalog, fuzzy);
                let copy = clone_entries(&entries);
                proof {
                    use_type_invariant(&*self);
                    assert(views(entries@) == ranked(
                        scored(views(self.catalog@), key@, fuzzy@),
                    ));
                    assert(is_result(views(self.catalog@), key@, views(entries@)));
                }
                cache_insert(&mut self.cache, key, copy);
                entries
            },
        };
        proof {
            if normalized(query@).len() > 0 {
                law_result_shape(old(self).catalog_view(), normalized(query@), views(r@));
                assert forall|i: int| 0 <= i < r@.len() implies THRESHOLD <= (
                #[trigger] r@[i]).similarity <= 100 by {
                    assert(views(r@)[i].similarity == r@[i].similarity);
                }
            } else {
                assert(views(r@) =~= Seq::<AtcCodeView>::empty());
            }
        }
        r
    }
}

} // verus!

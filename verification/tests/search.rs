use atc_search::catalog::all_codes;
use atc_search::entry::AtcCode;
use atc_search::score::Fuzzy;
use atc_search::search::clone_entries;
use atc_search::search::resolve;
use atc_search::search::search_catalog;
use atc_search::search::CacheConfig;
use atc_search::search::Lookup;
use atc_search::search::SearchEngine;
use atc_search::text::ascii_lowercase;

const CATALOG: &str = "code,name
A01AA01,Sodium fluoride
N02BA01,Acetylsalicylic acid
N02BE01,Paracetamol
N02BE51,\"Paracetamol, combinations excl. psycholeptics\"
N02BE71,\"Paracetamol, combinations with psycholeptics\"
R05DA04,Codeine
";

fn percent(a: &str, b: &str) -> u8 {
    (100.0 * strsim::jaro_winkler(a, b)) as u8
}

fn measure(key: &str, catalog: &Vec<AtcCode>) -> Vec<Fuzzy> {
    catalog
        .iter()
        .map(|entry| Fuzzy {
            code: percent(key, &ascii_lowercase(&entry.code)),
            name: percent(key, &ascii_lowercase(&entry.name)),
        })
        .collect()
}

fn search(engine: &mut SearchEngine, query: &str) -> Vec<AtcCode> {
    match engine.lookup(query) {
        Lookup::Empty => Vec::new(),
        Lookup::Hit(entries) => entries,
        Lookup::Miss(key) => {
            let fuzzy = measure(&key, engine.catalog());
            engine.find_codes(&key, &fuzzy)
        }
    }
}

fn engine() -> SearchEngine {
    SearchEngine::new(all_codes(CATALOG), CacheConfig::default())
}

fn found(code: &str, name: &str, similarity: u8) -> AtcCode {
    AtcCode { code: code.to_string(), name: name.to_string(), similarity }
}

#[test]
fn a_code_prefix_finds_the_codes_under_it_in_catalog_order() {
    let mut engine = engine();
    assert_eq!(
        search(&mut engine, "n02be"),
        vec![
            found("N02BE01", "Paracetamol", 100),
            found("N02BE51", "Paracetamol, combinations excl. psycholeptics", 100),
            found("N02BE71", "Paracetamol, combinations with psycholeptics", 100),
        ]
    );
    assert_eq!(search(&mut engine, "N02BE5"), vec![found(
        "N02BE51",
        "Paracetamol, combinations excl. psycholeptics",
        100
    )]);
}

#[test]
fn queries_of_one_normal_form_give_one_result() {
    let mut engine = engine();
    let spaced = search(&mut engine, " N02BE ");
    let lower = search(&mut engine, "n02be");
    let upper = search(&mut engine, "N02BE");
    assert_eq!(spaced.len(), 3);
    assert_eq!(spaced, lower);
    assert_eq!(lower, upper);
    let mut fresh = self::engine();
    assert_eq!(search(&mut fresh, "N02BE"), spaced);
}

#[test]
fn a_blank_query_finds_nothing_and_stores_nothing() {
    let mut engine = engine();
    let fuzzy = measure("", engine.catalog());
    for query in ["", " ", "   ", "\t\r\n"] {
        assert_eq!(engine.lookup(query), Lookup::Empty);
        assert_eq!(engine.find_codes(query, &fuzzy), Vec::new());
        assert_eq!(engine.lookup(query), Lookup::Empty);
        assert_eq!(search(&mut engine, query), Vec::new());
    }
}

#[test]
fn an_exact_name_finds_its_entry() {
    let mut engine = engine();
    assert_eq!(search(&mut engine, "Paracetamol"), vec![found("N02BE01", "Paracetamol", 100)]);
    assert_eq!(search(&mut engine, "codeine"), vec![found("R05DA04", "Codeine", 100)]);
}

#[test]
fn a_near_miss_is_found_by_its_fuzzy_percentage() {
    let mut engine = engine();
    assert_eq!(percent("paracetamoll", "paracetamol"), 98);
    assert_eq!(search(&mut engine, "paracetamoll"), vec![found("N02BE01", "Paracetamol", 98)]);
}

#[test]
fn a_code_shaped_query_may_find_nothing() {
    let mut engine = engine();
    assert_eq!(search(&mut engine, "v03"), Vec::new());
    assert_eq!(engine.lookup("V03"), Lookup::Hit(Vec::new()));
}

#[test]
fn a_second_lookup_is_answered_by_the_cache() {
    let mut engine = engine();
    assert_eq!(engine.lookup("Paracetamol"), Lookup::Miss("paracetamol".to_string()));
    let first = search(&mut engine, "Paracetamol");
    assert_eq!(engine.lookup("Paracetamol"), Lookup::Hit(first.clone()));
    assert_eq!(engine.lookup("  PARACETAMOL "), Lookup::Hit(first.clone()));
    let none = vec![Fuzzy { code: 0, name: 0 }; engine.catalog().len()];
    assert_eq!(engine.find_codes("paracetamol", &none), first);
}

#[test]
fn a_result_that_has_expired_is_computed_again() {
    let config = CacheConfig { max_entries: 1000, live_secs: 0, idle_secs: 300 };
    let mut engine = SearchEngine::new(all_codes(CATALOG), config);
    let first = search(&mut engine, "n02be");
    assert_eq!(first.len(), 3);
    assert_eq!(engine.lookup("n02be"), Lookup::Miss("n02be".to_string()));
    assert_eq!(search(&mut engine, "n02be"), first);
}

#[test]
fn a_cache_without_room_never_answers() {
    let config = CacheConfig { max_entries: 0, live_secs: 1800, idle_secs: 300 };
    let mut engine = SearchEngine::new(all_codes(CATALOG), config);
    let first = search(&mut engine, "codeine");
    assert_eq!(first, vec![found("R05DA04", "Codeine", 100)]);
    assert_eq!(engine.lookup("codeine"), Lookup::Miss("codeine".to_string()));
}

#[test]
fn the_longest_durations_are_accepted() {
    let config =
        CacheConfig { max_entries: 10, live_secs: 31_536_000_000, idle_secs: 31_536_000_000 };
    let mut engine = SearchEngine::new(all_codes(CATALOG), config);
    assert_eq!(search(&mut engine, "r05").len(), 1);
}

#[test]
fn the_standard_limits_are_a_thousand_results_for_thirty_and_five_minutes() {
    assert_eq!(
        CacheConfig::default(),
        CacheConfig { max_entries: 1000, live_secs: 30 * 60, idle_secs: 5 * 60 }
    );
}

#[test]
fn a_result_has_at_most_twenty_five_entries_in_descending_order() {
    let mut text = String::from("code,name\n");
    for i in 0..40 {
        text.push_str(&format!("Z{:02},substance {:02}\n", i, i));
    }
    text.push_str("Q01,substance\n");
    let mut engine = SearchEngine::new(all_codes(&text), CacheConfig::default());
    let result = search(&mut engine, "substance");
    assert_eq!(result.len(), 25);
    assert_eq!(result[0], found("Q01", "substance", 100));
    for k in 1..25 {
        assert!(result[k].similarity >= 90);
        assert!(result[k - 1].similarity >= result[k].similarity);
        assert_eq!(result[k].code, format!("Z{:02}", k - 1));
    }
}

#[test]
fn search_catalog_scores_and_ranks_without_a_cache() {
    let catalog = all_codes(CATALOG);
    let fuzzy = measure("n02b", &catalog);
    let result = search_catalog("n02b", &catalog, &fuzzy);
    let codes: Vec<&str> = result.iter().map(|e| e.code.as_str()).collect();
    assert_eq!(codes, vec!["N02BA01", "N02BE01", "N02BE51", "N02BE71"]);
    assert!(result.iter().all(|e| e.similarity == 100));
    assert!(catalog.iter().all(|e| e.similarity == 0));
}

#[test]
fn accepts_wants_one_pair_of_percentages_for_each_entry() {
    let engine = engine();
    let n = engine.catalog().len();
    assert_eq!(n, 6);
    assert!(engine.accepts(&vec![Fuzzy { code: 100, name: 0 }; n]));
    assert!(!engine.accepts(&vec![Fuzzy { code: 100, name: 0 }; n - 1]));
    assert!(!engine.accepts(&vec![Fuzzy { code: 100, name: 0 }; n + 1]));
    assert!(!engine.accepts(&vec![Fuzzy { code: 101, name: 0 }; n]));
    assert!(!engine.accepts(&vec![Fuzzy { code: 0, name: 255 }; n]));
    let mut last_bad = vec![Fuzzy { code: 1, name: 2 }; n];
    last_bad[n - 1] = Fuzzy { code: 1, name: 101 };
    assert!(!engine.accepts(&last_bad));
}

#[test]
fn find_codes_normalises_the_query_itself() {
    let mut engine = engine();
    let fuzzy = measure("paracetamoll", engine.catalog());
    assert_eq!(
        engine.find_codes("  ParacetamoLL\n", &fuzzy),
        vec![found("N02BE01", "Paracetamol", 98)]
    );
    assert_eq!(
        engine.lookup("paracetamoll"),
        Lookup::Hit(vec![found("N02BE01", "Paracetamol", 98)])
    );
}

#[test]
fn resolve_turns_the_reply_of_the_cache_into_a_lookup() {
    assert_eq!(resolve("abc".to_string(), None), Lookup::Miss("abc".to_string()));
    assert_eq!(
        resolve("abc".to_string(), Some(vec![found("A01", "abc", 100)])),
        Lookup::Hit(vec![found("A01", "abc", 100)])
    );
    assert_eq!(resolve("abc".to_string(), Some(Vec::new())), Lookup::Hit(Vec::new()));
}

#[test]
fn clone_entries_copies_every_entry() {
    let entries = vec![found("A01", "one", 100), found("B02", "two", 91)];
    assert_eq!(clone_entries(&entries), entries);
    assert_eq!(clone_entries(&Vec::new()), Vec::new());
}

#[test]
fn durations_above_a_thousand_years_are_not_valid() {
    let longest = 1000 * 365 * 24 * 3600;
    assert_eq!(atc_search::cache::MAX_SECS, longest);
    assert!(CacheConfig { max_entries: 1, live_secs: longest, idle_secs: longest }.is_valid());
    assert!(!CacheConfig { max_entries: 1, live_secs: longest + 1, idle_secs: 0 }.is_valid());
    assert!(!CacheConfig { max_entries: 1, live_secs: 0, idle_secs: longest + 1 }.is_valid());
    assert!(CacheConfig::default().is_valid());
}

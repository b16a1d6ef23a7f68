use atc_search::entry::AtcCode;
use atc_search::score::exact_similarity;
use atc_search::score::get_similarity;
use atc_search::score::Fuzzy;
use atc_search::text::ascii_lowercase;

fn entry(code: &str, name: &str) -> AtcCode {
    AtcCode { code: code.to_string(), name: name.to_string(), similarity: 0 }
}

fn percent(a: &str, b: &str) -> u8 {
    (100.0 * strsim::jaro_winkler(a, b)) as u8
}

fn measure(query: &str, entry: &AtcCode) -> Fuzzy {
    let query = ascii_lowercase(query);
    Fuzzy {
        code: percent(&query, &ascii_lowercase(&entry.code)),
        name: percent(&query, &ascii_lowercase(&entry.name)),
    }
}

const NONE: Fuzzy = Fuzzy { code: 0, name: 0 };

#[test]
fn a_code_prefix_scores_one_hundred() {
    let paracetamol = entry("N02BE01", "Paracetamol");
    assert_eq!(get_similarity("n02be", &paracetamol, NONE), 100);
    assert_eq!(get_similarity("N02BE", &paracetamol, NONE), 100);
    assert_eq!(get_similarity("n02be01", &paracetamol, NONE), 100);
    assert_eq!(exact_similarity("n02", &paracetamol), Some(100));
}

#[test]
fn a_code_shaped_query_that_is_no_prefix_scores_zero() {
    let paracetamol = entry("N02BE01", "Paracetamol");
    let high = Fuzzy { code: 99, name: 99 };
    assert_eq!(get_similarity("n02ba", &paracetamol, high), 0);
    assert_eq!(get_similarity("a01", &paracetamol, high), 0);
    assert_eq!(get_similarity("n02be011", &paracetamol, high), 0);
    assert_eq!(exact_similarity("n02be01 paracetamol", &paracetamol), Some(0));
}

#[test]
fn a_query_outside_the_grammar_is_scored_fuzzily() {
    let paracetamol = entry("N02BE01", "Paracetamol");
    assert_eq!(exact_similarity("x99", &paracetamol), None);
    assert_eq!(get_similarity("x99", &paracetamol, Fuzzy { code: 40, name: 30 }), 40);
    assert_eq!(get_similarity("x99", &paracetamol, Fuzzy { code: 30, name: 40 }), 40);
    assert_eq!(get_similarity("x99", &paracetamol, measure("x99", &paracetamol)), 0);
}

#[test]
fn the_exact_name_scores_one_hundred() {
    let paracetamol = entry("N02BE01", "Paracetamol");
    assert_eq!(get_similarity("paracetamol", &paracetamol, NONE), 100);
    assert_eq!(get_similarity("PARACETAMOL", &paracetamol, NONE), 100);
    assert_eq!(get_similarity("Paracetamol", &paracetamol, NONE), 100);
}

#[test]
fn a_prefix_of_code_and_name_scores_one_hundred() {
    let other = entry("Z99", "Test Entry");
    assert_eq!(get_similarity("z99", &other, NONE), 100);
    assert_eq!(get_similarity("z99 ", &other, NONE), 100);
    assert_eq!(get_similarity("Z99 te", &other, NONE), 100);
    assert_eq!(get_similarity("z99 test entry", &other, NONE), 100);
    assert_eq!(exact_similarity("z99 test entry!", &other), None);
    assert_eq!(exact_similarity("test", &other), None);
}

#[test]
fn the_larger_percentage_decides_otherwise() {
    let paracetamol = entry("N02BE01", "Paracetamol");
    assert_eq!(get_similarity("paracetamoll", &paracetamol, Fuzzy { code: 12, name: 98 }), 98);
    assert_eq!(get_similarity("paracetamoll", &paracetamol, Fuzzy { code: 98, name: 12 }), 98);
    assert_eq!(get_similarity("paracetamoll", &paracetamol, Fuzzy { code: 50, name: 50 }), 50);
}

#[test]
fn percentages_are_truncated_similarities() {
    assert_eq!(percent("cheeseburger", "cheese fries"), 86);
    assert_eq!(percent("abc", "abc"), 100);
    assert_eq!(percent("abc", "xyz"), 0);
    let burger = entry("Q1", "Cheese Fries");
    assert_eq!(get_similarity("cheeseburger", &burger, measure("cheeseburger", &burger)), 86);
}

#[test]
fn scoring_twice_gives_the_same_number() {
    let paracetamol = entry("N02BE01", "Paracetamol");
    for query in ["n02be", "paracetamol", "paracetamoll", "x99", "a01"] {
        let first = get_similarity(query, &paracetamol, measure(query, &paracetamol));
        let second = get_similarity(query, &paracetamol, measure(query, &paracetamol));
        assert_eq!(first, second);
    }
}

#[test]
fn an_empty_query_is_a_prefix_of_everything() {
    let paracetamol = entry("N02BE01", "Paracetamol");
    assert_eq!(get_similarity("", &paracetamol, NONE), 100);
}

#[test]
fn a_name_that_is_code_shaped_is_looked_up_by_code() {
    let group = entry("N02", "N02 analgesics");
    assert_eq!(get_similarity("n02 analgesics", &group, Fuzzy { code: 60, name: 100 }), 0);
    assert_eq!(get_similarity("n02", &group, NONE), 100);
}

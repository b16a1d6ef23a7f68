use atc_search::text::ascii_lowercase;
use atc_search::text::ascii_uppercase;
use atc_search::text::chars_of;
use atc_search::text::is_whitespace;
use atc_search::text::normalize;
use atc_search::text::starts_with;
use atc_search::text::string_of;
use atc_search::text::trim;

#[test]
fn normalize_trims_and_folds_case() {
    assert_eq!(normalize(" N02BE "), "n02be");
    assert_eq!(normalize("n02be"), "n02be");
    assert_eq!(normalize("N02BE"), "n02be");
    assert_eq!(normalize("\t Para Cetamol\r\n"), "para cetamol");
}

#[test]
fn normalize_is_idempotent() {
    let once = normalize("  Acetylsalicylic ACID ");
    assert_eq!(normalize(&once), once);
}

#[test]
fn normalize_of_blank_is_empty() {
    assert_eq!(normalize(""), "");
    assert_eq!(normalize("   "), "");
    assert_eq!(normalize(" \t\r\n\u{a0}\u{3000}"), "");
}

#[test]
fn trim_removes_unicode_white_space_at_both_ends_only() {
    assert_eq!(trim("\u{3000}a b\t\n"), "a b");
    assert_eq!(trim("\u{2003}x\u{205f}y\u{85}"), "x\u{205f}y");
    assert_eq!(trim("abc"), "abc");
    assert_eq!(trim(" a"), "a");
    assert_eq!(trim("a "), "a");
}

#[test]
fn trim_agrees_with_std() {
    let samples =
        ["", " ", "  a  ", "\u{1680}\u{2028}q\u{2029}\u{202f}", "\u{200b}a\u{200b}", "\u{feff}a"];
    for s in samples {
        assert_eq!(trim(s), s.trim());
    }
}

#[test]
fn whitespace_agrees_with_std_on_every_character() {
    let mut n: u32 = 0;
    while n <= 0x10FFFF {
        if let Some(c) = char::from_u32(n) {
            assert_eq!(is_whitespace(c), c.is_whitespace());
        }
        n += 1;
    }
}

#[test]
fn case_folding_touches_ascii_letters_only() {
    assert_eq!(ascii_lowercase("N02BE01 Paracetamol"), "n02be01 paracetamol");
    assert_eq!(ascii_uppercase("n02be01 Paracetamol"), "N02BE01 PARACETAMOL");
    assert_eq!(ascii_lowercase("\u{c4}bC@[`{"), "\u{c4}bc@[`{");
    assert_eq!(ascii_uppercase("\u{e4}bC@[`{"), "\u{e4}BC@[`{");
}

#[test]
fn case_folding_agrees_with_std() {
    for s in ["", "AZaz", "@[`{", "Gr\u{fc}\u{df}e", "N02BE01"] {
        assert_eq!(ascii_lowercase(s), s.to_ascii_lowercase());
        assert_eq!(ascii_uppercase(s), s.to_ascii_uppercase());
    }
}

#[test]
fn strings_and_characters_convert_both_ways() {
    let chars = chars_of("a\u{e9}\u{3000}z");
    assert_eq!(chars, vec!['a', '\u{e9}', '\u{3000}', 'z']);
    assert_eq!(string_of(&chars), "a\u{e9}\u{3000}z");
    assert_eq!(string_of(&Vec::new()), "");
}

#[test]
fn starts_with_compares_prefixes() {
    let text = chars_of("n02be01");
    assert!(starts_with(&text, &chars_of("")));
    assert!(starts_with(&text, &chars_of("n02")));
    assert!(starts_with(&text, &chars_of("n02be01")));
    assert!(!starts_with(&text, &chars_of("n02be012")));
    assert!(!starts_with(&text, &chars_of("n03")));
}

//! Texts and substitutions.

use muni::substitution::{resolve_overlaps, substitute, Candidate};
use muni::text::{
    decimal_text, eq_ignore_ascii_case, join, parse_decimal, same_text, signed_text, split,
    split_words, starts_with, strip_prefix, trim, trim_suffix,
};

fn candidate(start: usize, end: usize, rule: usize, trigger_len: usize) -> Candidate {
    Candidate { start, end, rule, trigger_len }
}

#[test]
fn trimming_takes_every_kind_of_white_space() {
    assert_eq!(trim(" \t\n\u{A0}\u{2003}a b\u{3000} "), "a b");
    assert_eq!(trim("\u{200B}a"), "\u{200B}a");
    assert_eq!(trim("   "), "");
}

#[test]
fn splitting_and_joining_are_inverse() {
    let parts = split("a||b|", '|');
    assert_eq!(parts, vec!["a", "", "b", ""]);
    assert_eq!(join(&parts, "|"), "a||b|");
    assert_eq!(split_words("  a \t b\n"), vec!["a", "b"]);
    assert!(split_words(" ").is_empty());
}

#[test]
fn numbers_are_read_back() {
    for n in [0, 7, 10, 12_345, u64::MAX] {
        assert_eq!(decimal_text(n), n.to_string());
        assert_eq!(parse_decimal(&decimal_text(n), u64::MAX), Some(n));
    }
    assert_eq!(parse_decimal("256", 255), None);
    assert_eq!(parse_decimal("+255", 255), Some(255));
    assert_eq!(parse_decimal("+", 255), None);
    assert_eq!(parse_decimal("", 255), None);
    assert_eq!(parse_decimal("1a", 255), None);
    assert_eq!(signed_text(-42), "-42");
}

#[test]
fn beginnings_and_endings_are_told() {
    assert!(starts_with("KeyR", "Key"));
    assert!(!starts_with("Ke", "Key"));
    assert_eq!(strip_prefix("KeyR", "Key"), Some("R".to_string()));
    assert_eq!(strip_prefix("R", "Key"), None);
    assert_eq!(trim_suffix("a.app", ".app"), "a");
    assert_eq!(trim_suffix("a", ".app"), "a");
    assert!(same_text("é", "é"));
    assert!(!same_text("e", "é"));
    assert!(eq_ignore_ascii_case("FALSE", "false"));
    assert!(!eq_ignore_ascii_case("É", "é"));
}

#[test]
fn the_earlier_match_wins_then_the_longer_one() {
    let kept = resolve_overlaps(&vec![
        candidate(4, 11, 1, 7),
        candidate(0, 7, 0, 7),
        candidate(0, 3, 2, 3),
    ]);
    assert_eq!(kept.len(), 1);
    assert_eq!((kept[0].start, kept[0].end, kept[0].rule), (0, 7, 0));
}

#[test]
fn ties_go_to_the_longer_trigger_then_to_the_earlier_rule() {
    let kept = resolve_overlaps(&vec![candidate(0, 3, 0, 3), candidate(0, 3, 1, 9)]);
    assert_eq!(kept[0].rule, 1);
    let kept = resolve_overlaps(&vec![candidate(0, 3, 0, 3), candidate(0, 3, 1, 3)]);
    assert_eq!(kept[0].rule, 0);
}

#[test]
fn matches_are_replaced_in_place() {
    let replacements = vec!["X".to_string(), "YY".to_string()];
    let out = substitute(
        "aé b",
        &vec![candidate(4, 5, 1, 1), candidate(0, 1, 0, 1)],
        &replacements,
    );
    assert_eq!(out, "Xé YY");
    assert_eq!(substitute("same", &vec![], &replacements), "same");
}

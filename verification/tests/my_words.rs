//! My Words: the rules that a dictation goes through.

use muni::my_words::{
    build_alternate_pattern, build_trigger_pattern, collapse_internal_whitespace,
    read_snapshot_from_store, relax_apostrophe_class, sanitize_entries, sanitize_loaded_snapshot,
    sanitize_snapshot, MyWords, MyWordsEntry, MyWordsSnapshot, APOSTROPHE_CLASS, MAX_ENTRIES,
};
use muni::settings::SettingValue;

fn entry(trigger: &str, replacement: &str) -> MyWordsEntry {
    MyWordsEntry { trigger: trigger.into(), replacement: replacement.into() }
}

fn mw(entries: Vec<(&str, &str)>) -> MyWords {
    MyWords::from_snapshot(MyWordsSnapshot {
        enabled: true,
        entries: entries.into_iter().map(|(t, r)| entry(t, r)).collect(),
    })
}

#[test]
fn case_insensitive_match() {
    let m = mw(vec![("cloud code", "Cloud Code")]);
    assert_eq!(
        m.apply("i wrote in cloud code today"),
        "i wrote in Cloud Code today"
    );
    assert_eq!(m.apply("CLOUD CODE rules"), "Cloud Code rules");
}

#[test]
fn word_boundary_does_not_match_inside_word() {
    let m = mw(vec![("cat", "feline")]);
    assert_eq!(m.apply("I love concatenate"), "I love concatenate");
    assert_eq!(m.apply("a cat sat"), "a feline sat");
}

#[test]
fn whitespace_tolerance() {
    let m = mw(vec![("hello world", "HW")]);
    assert_eq!(m.apply("hello   world"), "HW");
    assert_eq!(m.apply("hello\tworld"), "HW");
    assert_eq!(m.apply("hello\nworld"), "HW");
}

#[test]
fn longest_match_wins() {
    let m = mw(vec![("foo bar", "FB"), ("foo", "F")]);
    assert_eq!(m.apply("foo bar baz"), "FB baz");
}

#[test]
fn mid_sentence_substitution() {
    let m = mw(vec![("slash plan feature", "/plan-feature")]);
    assert_eq!(
        m.apply("let's slash plan feature this"),
        "let's /plan-feature this"
    );
}

#[test]
fn no_cascade_after_substitution() {
    let m = mw(vec![("a", "b"), ("b", "c")]);
    assert_eq!(m.apply("a"), "b");
    assert_eq!(m.apply("a and b"), "b and c");
}

#[test]
fn kill_switch_off() {
    let m = MyWords::from_snapshot(MyWordsSnapshot {
        enabled: false,
        entries: vec![MyWordsEntry {
            trigger: "foo".into(),
            replacement: "BAR".into(),
        }],
    });
    assert_eq!(m.apply("foo foo foo"), "foo foo foo");
}

#[test]
fn replacement_verbatim_casing() {
    let m = mw(vec![("hello", "Hello, World!")]);
    assert_eq!(m.apply("HELLO friend"), "Hello, World! friend");
}

#[test]
fn replacement_with_special_chars_literal() {
    let m = mw(vec![("dollar one", "$1.99")]);
    assert_eq!(m.apply("the dollar one menu"), "the $1.99 menu");
}

#[test]
fn replacement_with_slash() {
    let m = mw(vec![("slash plan feature", "/plan-feature")]);
    assert_eq!(
        m.apply("run slash plan feature now"),
        "run /plan-feature now"
    );
}

#[test]
fn empty_input_returns_empty() {
    let m = mw(vec![("foo", "bar")]);
    assert_eq!(m.apply(""), "");
}

#[test]
fn no_rules_returns_input_unchanged() {
    let m = mw(vec![]);
    assert_eq!(m.apply("anything goes"), "anything goes");
}

#[test]
fn multiple_non_overlapping_matches() {
    let m = mw(vec![("foo", "F"), ("bar", "B")]);
    assert_eq!(m.apply("foo and bar and foo"), "F and B and F");
}

#[test]
fn sanitize_drops_empty_triggers() {
    let snap = sanitize_snapshot(MyWordsSnapshot {
        enabled: true,
        entries: vec![
            MyWordsEntry {
                trigger: "  ".into(),
                replacement: "x".into(),
            },
            MyWordsEntry {
                trigger: "ok".into(),
                replacement: "OK".into(),
            },
            MyWordsEntry {
                trigger: "".into(),
                replacement: "y".into(),
            },
        ],
    });
    assert_eq!(snap.entries.len(), 1);
    assert_eq!(snap.entries[0].trigger, "ok");
}

#[test]
fn sanitize_collapses_repeated_whitespace_in_trigger() {
    let snap = sanitize_snapshot(MyWordsSnapshot {
        enabled: true,
        entries: vec![MyWordsEntry {
            trigger: "  hello   world  ".into(),
            replacement: "HW".into(),
        }],
    });
    assert_eq!(snap.entries[0].trigger, "hello world");
}

#[test]
fn unicode_trigger_round_trips() {
    let m = mw(vec![("café", "Café Latte")]);
    assert_eq!(m.apply("a café please"), "a Café Latte please");
}

#[test]
fn bare_word_alternate_fires_in_mid_sentence() {
    let m = mw(vec![("slash brainstorm|brainstorm", "/brainstorm")]);
    assert_eq!(
        m.apply("let's brainstorm about this"),
        "let's /brainstorm about this"
    );
    assert_eq!(
        m.apply("slash brainstorm about this"),
        "/brainstorm about this"
    );
}

#[test]
fn trigger_words_match_across_ascii_hyphen() {
    let m = mw(vec![("plan feature", "/plan-feature")]);
    assert_eq!(
        m.apply("let's plan feature this"),
        "let's /plan-feature this"
    );
    assert_eq!(
        m.apply("let's plan-feature this"),
        "let's /plan-feature this"
    );
    assert_eq!(
        m.apply("let's plan - feature this"),
        "let's /plan-feature this"
    );
}

#[test]
fn pipe_alternation_matches_either_phrase() {
    let m = mw(vec![("slash cpm|slush cpm", "/cpm")]);
    assert_eq!(m.apply("slash cpm now"), "/cpm now");
    assert_eq!(m.apply("slush cpm now"), "/cpm now");
}

#[test]
fn pipe_alternation_handles_spaced_letters_variant() {
    let m = mw(vec![("slash cpm|slash c p m", "/cpm")]);
    assert_eq!(m.apply("slash cpm"), "/cpm");
    assert_eq!(m.apply("slash c p m"), "/cpm");
    assert_eq!(m.apply("slash c  p  m"), "/cpm"); // whitespace-tolerant per alt
}

#[test]
fn pipe_alternation_tolerates_whitespace_around_separator() {
    let m = mw(vec![("slash cpm | slush cpm", "/cpm")]);
    assert_eq!(m.apply("slush cpm"), "/cpm");
}

#[test]
fn pipe_alternation_drops_empty_alternates() {
    let m = mw(vec![("|slash cpm||slush cpm|", "/cpm")]);
    assert_eq!(m.apply("slash cpm"), "/cpm");
    assert_eq!(m.apply("slush cpm"), "/cpm");
}

#[test]
fn pipe_alternation_preserves_word_boundaries_per_alt() {
    let m = mw(vec![("slash cpm|slush cpm", "/cpm")]);
    assert_eq!(m.apply("slashcpms today"), "slashcpms today");
    assert_eq!(m.apply("a slash cpm"), "a /cpm");
}

#[test]
fn pipe_alternation_no_pipe_is_byte_identical_to_legacy() {
    let m = mw(vec![("slash plan feature", "/plan-feature")]);
    assert_eq!(
        m.apply("let's slash plan feature this"),
        "let's /plan-feature this"
    );
}

#[test]
fn pipe_alternation_longest_alt_governs_overlap_tiebreak() {
    let m = mw(vec![
        ("slash|x", "X"),
        ("slash plan feature|slush plan feature", "/plan-feature"),
    ]);
    assert_eq!(m.apply("slash plan feature now"), "/plan-feature now");
}

#[test]
fn overlapping_distinct_starts_earlier_wins() {
    let m = mw(vec![("foo bar", "FB"), ("bar baz", "BZ")]);
    assert_eq!(m.apply("foo bar baz"), "FB baz");
}

#[test]
fn curly_apostrophe_trigger_matches_straight_apostrophe_input() {
    let m = mw(vec![("let\u{2019}s park", "let\u{2019}s /park")]);
    assert_eq!(
        m.apply("let's park this for later"),
        "let\u{2019}s /park this for later",
        "trigger with U+2019 must match U+0027 input"
    );
}

#[test]
fn straight_apostrophe_trigger_matches_curly_input() {
    let m = mw(vec![("let's park", "let's /park")]);
    assert_eq!(
        m.apply("let\u{2019}s park this for later"),
        "let's /park this for later",
        "trigger with U+0027 must match U+2019 input"
    );
}

#[test]
fn apostrophe_class_covers_left_single_quote_too() {
    let m = mw(vec![("\u{2018}quoted\u{2019}", "marked")]);
    for input in [
        "see 'quoted' here",
        "see \u{2018}quoted\u{2019} here",
        "see \u{2018}quoted' here",
    ] {
        assert_eq!(
            m.apply(input),
            input
                .replace("'quoted'", "marked")
                .replace("\u{2018}quoted\u{2019}", "marked")
                .replace("\u{2018}quoted'", "marked"),
            "input {input:?} should normalise across apostrophe shapes"
        );
    }
}

#[test]
fn relax_apostrophe_class_is_noop_when_no_apostrophe_present() {
    let escaped = regex::escape("plain word");
    assert_eq!(relax_apostrophe_class(&escaped), escaped);
}

#[test]
fn relax_apostrophe_class_expands_all_three_codepoints() {
    for input in ["'", "\u{2018}", "\u{2019}"] {
        let escaped = regex::escape(input);
        let relaxed = relax_apostrophe_class(&escaped);
        assert_eq!(
            relaxed, APOSTROPHE_CLASS,
            "codepoint {input:?} should expand to {APOSTROPHE_CLASS}"
        );
    }
}

#[test]
fn alternates_sorted_longest_first_so_prefix_does_not_shadow_longer_alt() {
    let m = mw(vec![("cpm|cpm pro", "CPM")]);
    assert_eq!(m.apply("run cpm pro now"), "run CPM now");
    assert_eq!(m.apply("run cpm now"), "run CPM now");
}

#[test]
fn overlap_tiebreak_uses_matched_span_not_declared_alternate_len() {
    let m = mw(vec![
        ("cpm pro", "CPM_PRO"),
        ("cpm|cpm unused long alternate that never matches", "CPM"),
    ]);
    assert_eq!(m.apply("run cpm pro now"), "run CPM_PRO now");
}

#[test]
fn word_gap_matches_en_and_em_dash() {
    let m = mw(vec![("plan feature", "/plan-feature")]);
    assert_eq!(
        m.apply("let's plan\u{2013}feature this"),
        "let's /plan-feature this",
        "en dash (U+2013) should bridge trigger words"
    );
    assert_eq!(
        m.apply("let's plan\u{2014}feature this"),
        "let's /plan-feature this",
        "em dash (U+2014) should bridge trigger words"
    );
}

#[test]
fn load_time_cap_truncates_oversized_snapshot() {
    let entries: Vec<MyWordsEntry> = (0..MAX_ENTRIES + 50)
        .map(|i| MyWordsEntry {
            trigger: format!("trigger{i}"),
            replacement: format!("replacement{i}"),
        })
        .collect();
    let snap = sanitize_loaded_snapshot(MyWordsSnapshot {
        enabled: true,
        entries,
    });
    assert_eq!(snap.entries.len(), MAX_ENTRIES);
}

#[test]
fn load_time_cap_is_noop_under_cap() {
    let entries: Vec<MyWordsEntry> = (0..10)
        .map(|i| MyWordsEntry {
            trigger: format!("trigger{i}"),
            replacement: format!("replacement{i}"),
        })
        .collect();
    let snap = sanitize_loaded_snapshot(MyWordsSnapshot {
        enabled: true,
        entries: entries.clone(),
    });
    assert_eq!(snap.entries.len(), entries.len());
}

#[test]
fn a_pattern_anchors_on_word_characters_only() {
    assert_eq!(build_alternate_pattern("cat"), Some("\\bcat\\b".to_string()));
    assert_eq!(build_alternate_pattern("+1"), Some("\\+1\\b".to_string()));
    assert_eq!(build_alternate_pattern("c++"), Some("\\bc\\+\\+".to_string()));
    assert_eq!(build_alternate_pattern("   "), None);
    assert_eq!(
        build_alternate_pattern("a b"),
        Some("\\ba[-\u{2013}\u{2014}\\s]+b\\b".to_string())
    );
}

#[test]
fn a_trigger_of_separators_alone_has_no_pattern() {
    assert_eq!(build_trigger_pattern("| |"), None);
    assert_eq!(build_trigger_pattern(""), None);
}

#[test]
fn special_characters_in_a_trigger_are_literal() {
    let m = mw(vec![("a.b", "dot")]);
    assert_eq!(m.apply("a.b"), "dot");
    assert_eq!(m.apply("axb"), "axb");
    let m = mw(vec![("c++", "see plus plus")]);
    assert_eq!(m.apply("i like c++ a lot"), "i like see plus plus a lot");
}

#[test]
fn replacements_keep_text_around_wide_characters() {
    let m = mw(vec![("mid", "M")]);
    assert_eq!(m.apply("\u{1F600} mid \u{1F600}"), "\u{1F600} M \u{1F600}");
}

#[test]
fn adjacent_matches_are_both_replaced() {
    let m = mw(vec![("one", "1"), ("two", "2")]);
    assert_eq!(m.apply("one two one"), "1 2 1");
}

#[test]
fn white_space_collapses_within_a_trigger() {
    assert_eq!(collapse_internal_whitespace("a \t b\n\nc"), "a b c");
    assert_eq!(collapse_internal_whitespace("  a  "), " a ");
    assert_eq!(collapse_internal_whitespace(""), "");
}

#[test]
fn tidying_twice_changes_nothing_more() {
    let snap = MyWordsSnapshot {
        enabled: true,
        entries: vec![entry("  a   b ", " keep "), entry(" ", "x"), entry("c", "")],
    };
    let once = sanitize_snapshot(snap);
    let twice = sanitize_snapshot(once.clone());
    assert_eq!(once.entries, twice.entries);
    assert!(once.enabled && twice.enabled);
    assert_eq!(once.entries, vec![entry("a b", " keep "), entry("c", "")]);
}

#[test]
fn a_load_caps_after_tidying() {
    let mut entries = vec![entry(" ", "dropped")];
    for i in 0..MAX_ENTRIES {
        entries.push(entry(&format!("t{i}"), "r"));
    }
    let snap = sanitize_loaded_snapshot(MyWordsSnapshot { enabled: false, entries });
    assert_eq!(snap.entries.len(), MAX_ENTRIES);
    assert_eq!(snap.entries[0].trigger, "t0");
    assert!(!snap.enabled);
}

#[test]
fn a_store_without_values_is_on_and_empty() {
    let snap = read_snapshot_from_store(None, None);
    assert!(snap.enabled);
    assert!(snap.entries.is_empty());
    let snap = read_snapshot_from_store(
        Some(SettingValue::Bool(false)),
        Some(vec![entry(" a  b ", "c"), entry("", "d")]),
    );
    assert!(!snap.enabled);
    assert_eq!(snap.entries, vec![entry("a b", "c")]);
    assert!(read_snapshot_from_store(Some(SettingValue::Other), None).enabled);
}

#[test]
fn saved_entries_are_tidied() {
    assert_eq!(
        sanitize_entries(vec![entry(" x ", "y"), entry("  ", "z")]),
        vec![entry("x", "y")]
    );
}

#[test]
fn a_save_takes_effect_once_it_is_kept() {
    let mut m = mw(vec![("foo", "bar")]);
    let next = MyWordsSnapshot { enabled: true, entries: vec![entry("  foo ", "baz")] };
    assert_eq!(m.save(next.clone(), |_| Err("disk full".to_string())), Err("disk full".to_string()));
    assert_eq!(m.apply("foo"), "bar");
    assert_eq!(m.snapshot().entries, vec![entry("foo", "bar")]);

    let result = m.save(next, |kept| {
        assert_eq!(kept.entries, vec![entry("foo", "baz")]);
        Ok(())
    });
    assert_eq!(result, Ok(()));
    assert_eq!(m.apply("foo"), "baz");
}

#[test]
fn a_fresh_install_has_no_words() {
    let m = MyWords::default();
    assert!(m.snapshot().enabled);
    assert!(m.snapshot().entries.is_empty());
    assert_eq!(m.apply("as it is"), "as it is");
}

#[test]
fn saved_rules_load_again() {
    let mut m = MyWords::default();
    let next = MyWordsSnapshot {
        enabled: true,
        entries: vec![entry(" a  b ", "c"), entry(" ", "d"), entry("e", " f ")],
    };
    assert_eq!(m.save(next, |_| Ok(())), Ok(()));
    let saved = m.snapshot().entries;
    let loaded = read_snapshot_from_store(Some(SettingValue::Bool(true)), Some(saved.clone()));
    assert_eq!(loaded.entries, saved);
}

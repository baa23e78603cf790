//! "My Words": the user's own substitutions, applied to a transcript before it
//! is cleaned up.
//!
//! A rule is a trigger and a replacement. The trigger matches whole words,
//! whatever their case, and a gap between its words matches white space or
//! dashes. A trigger may list several phrases separated by `|`. All rules are
//! matched against the original text, so one replacement is never rewritten by
//! another rule.

use vstd::prelude::*;
use vstd::utf8::*;

use crate::order::{insert_ranked, rank, stable_sort, stable_sort_map, Ranked};
use crate::order::{insert_by, is_ranking, stable_sort_in_rank_order, stable_sort_keeps_items};
use crate::order::{stable_sort_keeps_ties, tied_with};
use crate::regex_engine::{escaped, find_spans, regex_compiles, regex_source, regex_spans};
use crate::settings::{flag_or, read_flag, SettingValue};
use crate::substitution::{all_forward, apart, matches_are_replaced_unless_they_overlap};
use crate::substitution::{stitched, substitute, substituted, Candidate};
use crate::text::{alphanumeric, chars_of, join, joined, pieces, split, split_words};
use crate::text::{is_white_space, trim, trimmed, trimmed_end, trimmed_start};
use crate::text::{only_blank_text_trims_to_nothing, pieces_part_at_the_separator};
use crate::text::{views, white_space, words, words_part_at_white_space};

verus! {

/// A rule as the user wrote it.
#[derive(Debug, Clone, PartialEq, Eq)]
pub struct MyWordsEntry {
    pub trigger: String,
    pub replacement: String,
}

impl View for MyWordsEntry {
    type V = (Seq<char>, Seq<char>);

    open spec fn view(&self) -> (Seq<char>, Seq<char>) {
        (self.trigger@, self.replacement@)
    }
}

/// The whole state of the feature, as it is stored and shown.
#[derive(Debug, Clone)]
pub struct MyWordsSnapshot {
    pub enabled: bool,
    pub entries: Vec<MyWordsEntry>,
}

impl View for MyWordsSnapshot {
    type V = (bool, Seq<(Seq<char>, Seq<char>)>);

    open spec fn view(&self) -> (bool, Seq<(Seq<char>, Seq<char>)>) {
        (self.enabled, self.entries@.map_values(|entry: MyWordsEntry| entry@))
    }
}

impl Default for MyWordsSnapshot {
    /// Switched on, without rules.
    fn default() -> (snapshot: Self)
        ensures
            snapshot@ == (true, Seq::<(Seq<char>, Seq<char>)>::empty()),
    {
        let snapshot = MyWordsSnapshot { enabled: true, entries: Vec::new() };
        assert(snapshot@.1 =~= Seq::<(Seq<char>, Seq<char>)>::empty());
        snapshot
    }
}

/// The largest number of rules that is loaded.
pub const MAX_ENTRIES: usize = 200;

/// The characters that stand for an apostrophe, as a character class.
pub const APOSTROPHE_CLASS: &'static str = "[\u{0027}\u{2018}\u{2019}]";

/// What matches the gap between two words of a trigger.
pub const WORD_GAP: &'static str = "[-\u{2013}\u{2014}\\s]+";

/// The characters that stand for an apostrophe.
pub open spec fn apostrophe(c: char) -> bool {
    c == '\u{0027}' || c == '\u{2018}' || c == '\u{2019}'
}

/// `pattern` with the apostrophe class in place of each apostrophe.
pub open spec fn relaxed(pattern: Seq<char>) -> Seq<char>
    decreases pattern.len(),
{
    if pattern.len() == 0 {
        pattern
    } else if apostrophe(pattern.last()) {
        relaxed(pattern.drop_last()) + APOSTROPHE_CLASS@
    } else {
        relaxed(pattern.drop_last()).push(pattern.last())
    }
}

/// Puts the apostrophe class in place of each apostrophe of an escaped word,
/// so that it matches whichever of them the text holds.
pub fn relax_apostrophe_class(escaped: &str) -> (out: String)
    ensures
        out@ == relaxed(escaped@),
{
    let chars = chars_of(escaped);
    let mut out = String::new();
    let mut i: usize = 0;
    while i < chars.len()
        invariant
            0 <= i <= chars@.len(),
            out@ == relaxed(chars@.take(i as int)),
        decreases chars@.len() - i,
    {
        let c = chars[i];
        proof {
            assert(chars@.take(i + 1).drop_last() =~= chars@.take(i as int));
        }
        if c == '\u{0027}' || c == '\u{2018}' || c == '\u{2019}' {
            out.append(APOSTROPHE_CLASS);
        } else {
            out.push(c);
        }
        i += 1;
    }
    proof {
        assert(chars@.take(i as int) =~= escaped@);
    }
    out
}

/// A pattern without apostrophes is left as it is.
pub proof fn relaxed_without_apostrophe(pattern: Seq<char>)
    requires
        forall|i: int| 0 <= i < pattern.len() ==> !apostrophe(#[trigger] pattern[i]),
    ensures
        relaxed(pattern) == pattern,
    decreases pattern.len(),
{
    if pattern.len() > 0 {
        let front = pattern.drop_last();
        assert forall|i: int| 0 <= i < front.len() implies !apostrophe(#[trigger] front[i]) by {
            assert(front[i] == pattern[i]);
        }
        relaxed_without_apostrophe(front);
        assert(!apostrophe(pattern[pattern.len() - 1]));
        assert(front.push(pattern.last()) =~= pattern);
    }
}

/// The word boundary that a phrase needs next to its outermost character `c`.
pub open spec fn anchor(c: char) -> Seq<char> {
    if alphanumeric(c) || c == '_' {
        "\\b"@
    } else {
        Seq::empty()
    }
}

/// The words of a phrase, each made into a pattern.
pub open spec fn shards(phrase: Seq<char>) -> Seq<Seq<char>> {
    words(phrase).map_values(|word: Seq<char>| relaxed(escaped(word)))
}

/// The pattern of one phrase of a trigger; a blank phrase has none.
pub open spec fn phrase_pattern(phrase: Seq<char>) -> Option<Seq<char>> {
    let bare = trimmed(phrase);
    if bare.len() == 0 {
        None
    } else {
        Some(anchor(bare[0]) + joined(shards(bare), WORD_GAP@) + anchor(bare.last()))
    }
}

fn word_anchor(c: char) -> (anchor_text: &'static str)
    ensures
        anchor_text@ == anchor(c),
{
    if c.is_alphanumeric() || c == '_' {
        "\\b"
    } else {
        proof {
            reveal_strlit("");
            assert(""@ =~= Seq::<char>::empty());
        }
        ""
    }
}

/// Makes one phrase of a trigger into a pattern that matches it at word
/// boundaries, with any gap between its words.
pub fn build_alternate_pattern(alt: &str) -> (pattern: Option<String>)
    ensures
        pattern is Some <==> phrase_pattern(alt@) is Some,
        pattern matches Some(text) ==> text@ == phrase_pattern(alt@)->0,
{
    let bare = trim(alt);
    let chars = chars_of(bare.as_str());
    if chars.len() == 0 {
        return None;
    }
    let found = split_words(bare.as_str());
    let mut parts: Vec<String> = Vec::new();
    let mut i: usize = 0;
    while i < found.len()
        invariant
            0 <= i <= found@.len(),
            views(found@) == words(bare@),
            views(parts@) == shards(bare@).take(i as int),
        decreases found@.len() - i,
    {
        let ghost before = parts@;
        let shard = relax_apostrophe_class(regex::escape(found[i].as_str()).as_str());
        proof {
            assert(views(found@)[i as int] == found@[i as int]@);
        }
        parts.push(shard);
        proof {
            assert(views(parts@) =~= views(before).push(shard@));
            assert(shards(bare@).take(i + 1) =~= shards(bare@).take(i as int).push(shard@));
        }
        i += 1;
    }
    proof {
        assert(shards(bare@).take(i as int) =~= shards(bare@));
    }
    let mut pattern = String::new();
    pattern.append(word_anchor(chars[0]));
    pattern.append(join(&parts, WORD_GAP).as_str());
    pattern.append(word_anchor(chars[chars.len() - 1]));
    proof {
        assert(pattern@ =~= phrase_pattern(alt@)->0);
    }
    Some(pattern)
}

/// The patterns of the phrases, each with the number of characters of its
/// phrase. Blank phrases are left out.
pub open spec fn phrase_patterns(phrases: Seq<Seq<char>>) -> Seq<(nat, Seq<char>)>
    decreases phrases.len(),
{
    if phrases.len() == 0 {
        Seq::empty()
    } else {
        let before = phrase_patterns(phrases.drop_last());
        match phrase_pattern(phrases.last()) {
            Some(pattern) => before.push((trimmed(phrases.last()).len(), pattern)),
            None => before,
        }
    }
}

/// Longer phrases come first.
pub open spec fn longer_phrase() -> spec_fn((nat, Seq<char>), (nat, Seq<char>)) -> bool {
    |a: (nat, Seq<char>), b: (nat, Seq<char>)| a.0 > b.0
}

/// The patterns of a trigger's phrases, those of longer phrases first: of two
/// alternatives that match at the same place the first one is taken, and a
/// short phrase must not hide a longer one.
pub open spec fn trigger_alternates(trigger: Seq<char>) -> Seq<Seq<char>> {
    stable_sort(phrase_patterns(pieces(trimmed(trigger), '|')), longer_phrase()).map_values(
        |alternate: (nat, Seq<char>)| alternate.1,
    )
}

/// The pattern of a whole trigger; one without a phrase has none.
pub open spec fn trigger_pattern(trigger: Seq<char>) -> Option<Seq<char>> {
    let alternates = trigger_alternates(trigger);
    if trimmed(trigger).len() == 0 || alternates.len() == 0 {
        None
    } else if alternates.len() == 1 {
        Some("(?i)"@ + alternates[0])
    } else {
        Some("(?i)(?:"@ + joined(alternates, "|"@) + ")"@)
    }
}

/// The byte length of the longest phrase.
pub open spec fn longest_phrase(phrases: Seq<Seq<char>>) -> nat
    decreases phrases.len(),
{
    if phrases.len() == 0 {
        0
    } else {
        let before = longest_phrase(phrases.drop_last());
        let last = encode_utf8(trimmed(phrases.last())).len();
        if last > before {
            last
        } else {
            before
        }
    }
}

/// One phrase of a trigger, as a pattern.
struct Alternate {
    len: usize,
    pattern: String,
}

impl View for Alternate {
    type V = (nat, Seq<char>);

    closed spec fn view(&self) -> (nat, Seq<char>) {
        (self.len as nat, self.pattern@)
    }
}

impl Ranked for Alternate {
    closed spec fn outranks(self, other: Self) -> bool {
        self.len > other.len
    }

    fn goes_before(&self, other: &Self) -> (result: bool) {
        self.len > other.len
    }
}

spec fn alternate_views(alternates: Seq<Alternate>) -> Seq<(nat, Seq<char>)> {
    alternates.map_values(|alternate: Alternate| alternate@)
}

/// The alternates of the phrases, longest first, in the order of `sorted`.
fn sorted_alternates(phrases: &Vec<String>) -> (sorted: Vec<Alternate>)
    ensures
        alternate_views(sorted@) == stable_sort(
            phrase_patterns(views(phrases@)),
            longer_phrase(),
        ),
{
    let ghost mut given: Seq<Alternate> = Seq::empty();
    let mut sorted: Vec<Alternate> = Vec::new();
    let mut i: usize = 0;
    proof {
        assert(alternate_views(given) =~= phrase_patterns(views(phrases@).take(0)));
    }
    while i < phrases.len()
        invariant
            0 <= i <= phrases@.len(),
            alternate_views(given) == phrase_patterns(views(phrases@).take(i as int)),
            sorted@ == stable_sort(given, rank::<Alternate>()),
        decreases phrases@.len() - i,
    {
        proof {
            assert(views(phrases@).take(i + 1).drop_last() =~= views(phrases@).take(i as int));
            assert(views(phrases@).take(i + 1).last() == phrases@[i as int]@);
        }
        let len: usize = trim(phrases[i].as_str()).as_str().unicode_len();
        if let Some(pattern) = build_alternate_pattern(phrases[i].as_str()) {
            let alternate = Alternate { len, pattern };
            proof {
                let next = given.push(alternate);
                assert(next.drop_last() =~= given);
                assert(alternate_views(next) =~= alternate_views(given).push(alternate@));
                given = next;
            }
            insert_ranked(&mut sorted, alternate);
        }
        i += 1;
    }
    proof {
        assert(views(phrases@).take(i as int) =~= views(phrases@));
        stable_sort_map(
            given,
            rank::<Alternate>(),
            |alternate: Alternate| alternate@,
            longer_phrase(),
        );
    }
    sorted
}

/// The pattern of a whole trigger.
pub fn build_trigger_pattern(trigger: &str) -> (pattern: Option<String>)
    ensures
        pattern is Some <==> trigger_pattern(trigger@) is Some,
        pattern matches Some(text) ==> text@ == trigger_pattern(trigger@)->0,
{
    let bare = trim(trigger);
    if bare.as_str().is_empty() {
        return None;
    }
    let phrases = split(bare.as_str(), '|');
    let sorted = sorted_alternates(&phrases);
    let ghost alternates = trigger_alternates(trigger@);
    let mut patterns: Vec<String> = Vec::new();
    let mut i: usize = 0;
    while i < sorted.len()
        invariant
            0 <= i <= sorted@.len(),
            alternates == alternate_views(sorted@).map_values(
                |alternate: (nat, Seq<char>)| alternate.1,
            ),
            views(patterns@) == alternates.take(i as int),
        decreases sorted@.len() - i,
    {
        let ghost before = patterns@;
        let pattern = sorted[i].pattern.clone();
        proof {
            assert(alternate_views(sorted@)[i as int] == sorted@[i as int]@);
            assert(alternates[i as int] == pattern@);
        }
        patterns.push(pattern);
        proof {
            assert(views(patterns@) =~= views(before).push(pattern@));
            assert(alternates.take(i + 1) =~= alternates.take(i as int).push(pattern@));
        }
        i += 1;
    }
    proof {
        assert(alternates.take(i as int) =~= alternates);
    }
    if patterns.len() == 0 {
        return None;
    }
    let mut text = String::new();
    if patterns.len() == 1 {
        text.append("(?i)");
        text.append(patterns[0].as_str());
        proof {
            assert(views(patterns@)[0] == patterns@[0]@);
            assert(text@ =~= "(?i)"@ + alternates[0]);
        }
    } else {
        text.append("(?i)(?:");
        text.append(join(&patterns, "|").as_str());
        text.append(")");
        proof {
            assert(text@ =~= "(?i)(?:"@ + joined(alternates, "|"@) + ")"@);
        }
    }
    Some(text)
}

/// The byte length of the longest phrase of a trigger.
pub fn longest_phrase_len(phrases: &Vec<String>) -> (len: usize)
    ensures
        len == longest_phrase(views(phrases@)),
{
    let mut len: usize = 0;
    let mut i: usize = 0;
    while i < phrases.len()
        invariant
            0 <= i <= phrases@.len(),
            len == longest_phrase(views(phrases@).take(i as int)),
        decreases phrases@.len() - i,
    {
        proof {
            assert(views(phrases@).take(i + 1).drop_last() =~= views(phrases@).take(i as int));
            assert(views(phrases@).take(i + 1).last() == phrases@[i as int]@);
        }
        let phrase = trim(phrases[i].as_str());
        let phrase_len: usize = phrase.as_str().as_bytes().len();
        if phrase_len > len {
            len = phrase_len;
        }
        i += 1;
    }
    proof {
        assert(views(phrases@).take(i as int) =~= views(phrases@));
    }
    len
}

/// A rule that is ready to be matched.
#[verifier::ext_equal]
pub struct RuleModel {
    pub pattern: Seq<char>,
    pub replacement: Seq<char>,
    pub trigger_len: nat,
}

/// The rule that an entry compiles to. An entry whose trigger has no phrase,
/// or whose pattern does not compile, gives none.
pub open spec fn entry_rule(entry: (Seq<char>, Seq<char>)) -> Option<RuleModel> {
    match trigger_pattern(entry.0) {
        Some(pattern) => if regex_compiles(pattern) {
            Some(
                RuleModel {
                    pattern,
                    replacement: entry.1,
                    trigger_len: longest_phrase(pieces(trimmed(entry.0), '|')),
                },
            )
        } else {
            None
        },
        None => None,
    }
}

/// The rules that the entries compile to, in the order of the entries.
pub open spec fn entry_rules(entries: Seq<(Seq<char>, Seq<char>)>) -> Seq<RuleModel>
    decreases entries.len(),
{
    if entries.len() == 0 {
        Seq::empty()
    } else {
        let before = entry_rules(entries.drop_last());
        match entry_rule(entries.last()) {
            Some(rule) => before.push(rule),
            None => before,
        }
    }
}

/// Rules with a longer trigger come first.
pub open spec fn longer_trigger() -> spec_fn(RuleModel, RuleModel) -> bool {
    |a: RuleModel, b: RuleModel| a.trigger_len > b.trigger_len
}

/// The compiled rules, those with longer triggers first.
pub open spec fn compiled_rules(entries: Seq<(Seq<char>, Seq<char>)>) -> Seq<RuleModel> {
    stable_sort(entry_rules(entries), longer_trigger())
}

/// Of two compiled rules the one with the longer trigger stands first.
pub proof fn compiled_rules_longest_first(entries: Seq<(Seq<char>, Seq<char>)>)
    ensures
        forall|i: int, j: int|
            0 <= i < j < compiled_rules(entries).len() ==> (#[trigger] compiled_rules(
                entries,
            )[i]).trigger_len >= (#[trigger] compiled_rules(entries)[j]).trigger_len,
{
    assert(is_ranking(longer_trigger()));
    stable_sort_in_rank_order(entry_rules(entries), longer_trigger());
    let rules = compiled_rules(entries);
    assert forall|i: int, j: int| 0 <= i < j < rules.len() implies (
    #[trigger] rules[i]).trigger_len >= (#[trigger] rules[j]).trigger_len by {
        assert(!longer_trigger()(rules[j], rules[i]));
    }
}

/// A compiled rule.
#[derive(Debug)]
pub struct CompiledRule {
    regex: regex::Regex,
    replacement: String,
    trigger_len: usize,
}

impl CompiledRule {
    /// Whether the pattern was compiled from its text.
    pub closed spec fn wf(self) -> bool {
        regex_source(self.regex) is Some
    }
}

impl View for CompiledRule {
    type V = RuleModel;

    closed spec fn view(&self) -> RuleModel {
        RuleModel {
            pattern: regex_source(self.regex)->0,
            replacement: self.replacement@,
            trigger_len: self.trigger_len as nat,
        }
    }
}

impl Ranked for CompiledRule {
    open spec fn outranks(self, other: Self) -> bool {
        self@.trigger_len > other@.trigger_len
    }

    fn goes_before(&self, other: &Self) -> (result: bool) {
        self.trigger_len > other.trigger_len
    }
}

/// The models of a list of compiled rules.
pub open spec fn rule_views(rules: Seq<CompiledRule>) -> Seq<RuleModel> {
    rules.map_values(|rule: CompiledRule| rule@)
}

/// Whether every rule was compiled from its text.
pub open spec fn all_wf(rules: Seq<CompiledRule>) -> bool {
    forall|i: int| 0 <= i < rules.len() ==> (#[trigger] rules[i]).wf()
}

/// Compiles one entry.
pub fn build_compiled_rule(entry: &MyWordsEntry) -> (rule: Option<CompiledRule>)
    ensures
        rule is Some <==> entry_rule(entry@) is Some,
        rule matches Some(compiled) ==> compiled.wf() && compiled@ == entry_rule(entry@)->0,
{
    match build_trigger_pattern(entry.trigger.as_str()) {
        None => None,
        Some(pattern) => {
            let bare = trim(entry.trigger.as_str());
            let phrases = split(bare.as_str(), '|');
            let trigger_len: usize = longest_phrase_len(&phrases);
            match regex::Regex::new(pattern.as_str()) {
                Ok(regex) => Some(
                    CompiledRule { regex, replacement: entry.replacement.clone(), trigger_len },
                ),
                Err(_) => None,
            }
        },
    }
}

proof fn insert_ranked_keeps_wf(sorted: Seq<CompiledRule>, rule: CompiledRule)
    requires
        all_wf(sorted),
        rule.wf(),
    ensures
        all_wf(insert_by(sorted, rule, rank::<CompiledRule>())),
    decreases sorted.len(),
{
    if sorted.len() > 0 && rule.outranks(sorted.last()) {
        let front = sorted.drop_last();
        assert(all_wf(front)) by {
            assert forall|i: int| 0 <= i < front.len() implies (#[trigger] front[i]).wf() by {
                assert(sorted[i].wf());
            }
        }
        insert_ranked_keeps_wf(front, rule);
        assert(sorted[sorted.len() - 1].wf());
    }
}

/// Compiles the entries and puts the rules with longer triggers first.
pub fn compile_entries(entries: &Vec<MyWordsEntry>) -> (rules: Vec<CompiledRule>)
    ensures
        all_wf(rules@),
        rule_views(rules@) == compiled_rules(
            entries@.map_values(|entry: MyWordsEntry| entry@),
        ),
{
    let ghost models = entries@.map_values(|entry: MyWordsEntry| entry@);
    let ghost mut given: Seq<CompiledRule> = Seq::empty();
    let mut rules: Vec<CompiledRule> = Vec::new();
    let mut i: usize = 0;
    proof {
        assert(rule_views(given) =~= entry_rules(models.take(0)));
    }
    while i < entries.len()
        invariant
            0 <= i <= entries@.len(),
            models == entries@.map_values(|entry: MyWordsEntry| entry@),
            rule_views(given) == entry_rules(models.take(i as int)),
            rules@ == stable_sort(given, rank::<CompiledRule>()),
            all_wf(rules@),
        decreases entries@.len() - i,
    {
        proof {
            assert(models.take(i + 1).drop_last() =~= models.take(i as int));
            assert(models.take(i + 1).last() == entries@[i as int]@);
        }
        if let Some(rule) = build_compiled_rule(&entries[i]) {
            proof {
                let next = given.push(rule);
                assert(next.drop_last() =~= given);
                assert(rule_views(next) =~= rule_views(given).push(rule@));
                given = next;
                insert_ranked_keeps_wf(rules@, rule);
            }
            insert_ranked(&mut rules, rule);
        }
        i += 1;
    }
    proof {
        assert(models.take(i as int) =~= models);
        stable_sort_map(
            given,
            rank::<CompiledRule>(),
            |rule: CompiledRule| rule@,
            longer_trigger(),
        );
    }
    rules
}

/// The matches of one rule.
pub open spec fn rule_candidates(rule: RuleModel, index: int, text: Seq<char>) -> Seq<Candidate> {
    regex_spans(rule.pattern, text).map_values(
        |span: (usize, usize)|
            Candidate {
                start: span.0,
                end: span.1,
                rule: index as usize,
                trigger_len: rule.trigger_len as usize,
            },
    )
}

/// The matches of all rules, rule by rule.
pub open spec fn all_candidates(rules: Seq<RuleModel>, text: Seq<char>) -> Seq<Candidate>
    decreases rules.len(),
{
    if rules.len() == 0 {
        Seq::empty()
    } else {
        all_candidates(rules.drop_last(), text) + rule_candidates(
            rules.last(),
            rules.len() - 1,
            text,
        )
    }
}

/// The replacements of the rules.
pub open spec fn replacements(rules: Seq<RuleModel>) -> Seq<Seq<char>> {
    rules.map_values(|rule: RuleModel| rule.replacement)
}

/// The encoding of `text` with the rules applied.
pub open spec fn rewritten(rules: Seq<RuleModel>, text: Seq<char>) -> Seq<u8> {
    substituted(text, all_candidates(rules, text), replacements(rules))
}

/// Adds the matches of one rule to `candidates`.
fn collect_candidates(
    candidates: &mut Vec<Candidate>,
    rule: &CompiledRule,
    index: usize,
    text: &str,
)
    requires
        rule.wf(),
    ensures
        final(candidates)@ == old(candidates)@ + rule_candidates(rule@, index as int, text@),
        forall|k: int|
            old(candidates)@.len() <= k < final(candidates)@.len() ==> {
                &&& (#[trigger] final(candidates)@[k]).fits(text@)
                &&& final(candidates)@[k].rule == index
            },
{
    let spans = find_spans(&rule.regex, text);
    let ghost found = rule_candidates(rule@, index as int, text@);
    let ghost before = candidates@;
    let mut j: usize = 0;
    while j < spans.len()
        invariant
            0 <= j <= spans@.len(),
            found == rule_candidates(rule@, index as int, text@),
            spans@ == regex_spans(rule@.pattern, text@),
            candidates@ == before + found.take(j as int),
            forall|i: int|
                0 <= i < spans@.len() ==> {
                    &&& (#[trigger] spans@[i]).0 <= spans@[i].1 <= encode_utf8(text@).len()
                    &&& is_char_boundary(encode_utf8(text@), spans@[i].0 as int)
                    &&& is_char_boundary(encode_utf8(text@), spans@[i].1 as int)
                },
            forall|k: int|
                before.len() <= k < candidates@.len() ==> (#[trigger] candidates@[k]).fits(text@)
                    && candidates@[k].rule == index,
        decreases spans@.len() - j,
    {
        let (start, end) = spans[j];
        let candidate = Candidate { start, end, rule: index, trigger_len: rule.trigger_len };
        proof {
            assert(candidate == found[j as int]);
            assert(found.take(j + 1) =~= found.take(j as int).push(candidate));
            assert(before + found.take(j + 1) =~= (before + found.take(j as int)).push(candidate));
            assert(spans@[j as int].0 <= spans@[j as int].1);
        }
        candidates.push(candidate);
        j += 1;
    }
    proof {
        assert(found.take(j as int) =~= found);
    }
}

/// Applies the rules to `text`: all matches are found in the text as it was
/// given, the overlapping ones are dropped, and the others are replaced.
pub fn apply_compiled(rules: &Vec<CompiledRule>, text: &str) -> (out: String)
    requires
        all_wf(rules@),
    ensures
        encode_utf8(out@) == rewritten(rule_views(rules@), text@),
{
    let ghost models = rule_views(rules@);
    let mut candidates: Vec<Candidate> = Vec::new();
    let mut texts: Vec<String> = Vec::new();
    let mut i: usize = 0;
    proof {
        assert(all_candidates(models.take(0), text@) =~= Seq::<Candidate>::empty());
        assert(views(texts@) =~= replacements(models.take(0)));
    }
    while i < rules.len()
        invariant
            0 <= i <= rules@.len(),
            all_wf(rules@),
            models == rule_views(rules@),
            candidates@ == all_candidates(models.take(i as int), text@),
            views(texts@) == replacements(models.take(i as int)),
            texts@.len() == i,
            forall|k: int|
                0 <= k < candidates@.len() ==> (#[trigger] candidates@[k]).fits(text@)
                    && candidates@[k].rule < i,
        decreases rules@.len() - i,
    {
        proof {
            assert(models.take(i + 1).drop_last() =~= models.take(i as int));
            assert(models.take(i + 1).last() == rules@[i as int]@);
            assert(rules@[i as int].wf());
        }
        let ghost before = candidates@;
        let ghost texts_before = texts@;
        collect_candidates(&mut candidates, &rules[i], i, text);
        let replacement = rules[i].replacement.clone();
        texts.push(replacement);
        proof {
            assert forall|k: int| 0 <= k < candidates@.len() implies (
            #[trigger] candidates@[k]).fits(text@) && candidates@[k].rule < i + 1 by {
                if k < before.len() {
                    assert(candidates@[k] == before[k]);
                }
            }
            assert(views(texts@) =~= views(texts_before).push(replacement@));
            assert(replacements(models.take(i + 1)) =~= replacements(models.take(i as int)).push(
                replacement@,
            ));
        }
        i += 1;
    }
    proof {
        assert(models.take(i as int) =~= models);
    }
    substitute(text, &candidates, &texts)
}

/// `text` with one space in place of each run of white space.
pub open spec fn collapsed(text: Seq<char>) -> Seq<char>
    decreases text.len(),
{
    if text.len() == 0 {
        text
    } else {
        let before = collapsed(text.drop_last());
        if !white_space(text.last()) {
            before.push(text.last())
        } else if text.len() > 1 && white_space(text[text.len() - 2]) {
            before
        } else {
            before.push(' ')
        }
    }
}

/// Puts one space in place of each run of white space.
pub fn collapse_internal_whitespace(s: &str) -> (out: String)
    ensures
        out@ == collapsed(s@),
{
    let chars = chars_of(s);
    let mut out = String::new();
    let mut prev_space = false;
    let mut i: usize = 0;
    while i < chars.len()
        invariant
            0 <= i <= chars@.len(),
            prev_space == (i > 0 && white_space(chars@[i - 1])),
            out@ == collapsed(chars@.take(i as int)),
        decreases chars@.len() - i,
    {
        proof {
            assert(chars@.take(i + 1).drop_last() =~= chars@.take(i as int));
        }
        if is_white_space(chars[i]) {
            if !prev_space {
                out.push(' ');
            }
            prev_space = true;
        } else {
            out.push(chars[i]);
            prev_space = false;
        }
        i += 1;
    }
    proof {
        assert(chars@.take(i as int) =~= s@);
    }
    out
}

/// The trigger as it is kept: trimmed, with single spaces.
pub open spec fn tidy_trigger(trigger: Seq<char>) -> Seq<char> {
    collapsed(trimmed(trigger))
}

/// The entries with tidied triggers, without those that have none. The
/// replacements stay as they are.
pub open spec fn sanitized(entries: Seq<(Seq<char>, Seq<char>)>) -> Seq<(Seq<char>, Seq<char>)>
    decreases entries.len(),
{
    if entries.len() == 0 {
        entries
    } else {
        let before = sanitized(entries.drop_last());
        let trigger = tidy_trigger(entries.last().0);
        if trigger.len() == 0 {
            before
        } else {
            before.push((trigger, entries.last().1))
        }
    }
}

/// The first `MAX_ENTRIES` of the sanitized entries.
pub open spec fn loadable(entries: Seq<(Seq<char>, Seq<char>)>) -> Seq<(Seq<char>, Seq<char>)> {
    let clean = sanitized(entries);
    if clean.len() > MAX_ENTRIES {
        clean.take(MAX_ENTRIES as int)
    } else {
        clean
    }
}

/// Tidies the triggers and drops the entries without one.
pub fn sanitize_snapshot(snap: MyWordsSnapshot) -> (clean: MyWordsSnapshot)
    ensures
        clean@ == (snap@.0, sanitized(snap@.1)),
{
    let mut entries: Vec<MyWordsEntry> = Vec::new();
    let mut i: usize = 0;
    let ghost models = snap@.1;
    proof {
        assert(entries@.map_values(|entry: MyWordsEntry| entry@) =~= sanitized(models.take(0)));
    }
    while i < snap.entries.len()
        invariant
            0 <= i <= snap.entries@.len(),
            models == snap@.1,
            entries@.map_values(|entry: MyWordsEntry| entry@) == sanitized(models.take(i as int)),
        decreases snap.entries@.len() - i,
    {
        proof {
            assert(models.take(i + 1).drop_last() =~= models.take(i as int));
            assert(models.take(i + 1).last() == snap.entries@[i as int]@);
        }
        let bare = trim(snap.entries[i].trigger.as_str());
        let trigger = collapse_internal_whitespace(bare.as_str());
        if !trigger.as_str().is_empty() {
            let entry = MyWordsEntry { trigger, replacement: snap.entries[i].replacement.clone() };
            let ghost before = entries@;
            entries.push(entry);
            proof {
                assert(entries@.map_values(|entry: MyWordsEntry| entry@) =~= before.map_values(
                    |entry: MyWordsEntry| entry@,
                ).push(entry@));
            }
        }
        i += 1;
    }
    proof {
        assert(models.take(i as int) =~= models);
    }
    MyWordsSnapshot { enabled: snap.enabled, entries }
}

/// Tidies a stored snapshot and cuts it down to `MAX_ENTRIES`.
pub fn sanitize_loaded_snapshot(snap: MyWordsSnapshot) -> (clean: MyWordsSnapshot)
    ensures
        clean@ == (snap@.0, loadable(snap@.1)),
{
    let mut clean = sanitize_snapshot(snap);
    let ghost before = clean.entries@;
    if clean.entries.len() > MAX_ENTRIES {
        clean.entries.truncate(MAX_ENTRIES);
        proof {
            assert(clean@.1 =~= sanitized(snap@.1).take(MAX_ENTRIES as int));
        }
    }
    clean
}

/// The snapshot that is stored: switched on unless it was switched off, and
/// without rules where none can be read.
pub fn read_snapshot_from_store(
    enabled: Option<SettingValue>,
    entries: Option<Vec<MyWordsEntry>>,
) -> (snapshot: MyWordsSnapshot)
    ensures
        snapshot@.0 == flag_or(enabled, true),
        snapshot@.1 == match entries {
            Some(entries) => loadable(entries@.map_values(|entry: MyWordsEntry| entry@)),
            None => Seq::empty(),
        },
{
    let enabled = read_flag(enabled, true);
    let stored = match entries {
        Some(entries) => entries,
        None => Vec::new(),
    };
    let ghost models = stored@.map_values(|entry: MyWordsEntry| entry@);
    proof {
        if entries is None {
            assert(models =~= Seq::empty());
        }
    }
    sanitize_loaded_snapshot(MyWordsSnapshot { enabled, entries: stored })
}

/// The entries as they are loaded: what is set in another way than by saving
/// passes the same rules.
pub fn sanitize_entries(entries: Vec<MyWordsEntry>) -> (clean: Vec<MyWordsEntry>)
    ensures
        clean@.map_values(|entry: MyWordsEntry| entry@) == loadable(
            entries@.map_values(|entry: MyWordsEntry| entry@),
        ),
{
    let snapshot = sanitize_loaded_snapshot(MyWordsSnapshot { enabled: true, entries });
    snapshot.entries
}

/// Whether `text` has no white space but single spaces between other
/// characters.
pub open spec fn tidy(text: Seq<char>) -> bool {
    &&& text.len() > 0 ==> !white_space(text[0]) && !white_space(text.last())
    &&& forall|i: int|
        0 <= i < text.len() && white_space(#[trigger] text[i]) ==> text[i] == ' ' && i + 1
            < text.len() && !white_space(text[i + 1])
}

proof fn trimmed_end_shape(text: Seq<char>)
    ensures
        trimmed_end(text).is_prefix_of(text),
        trimmed_end(text).len() > 0 ==> !white_space(
            trimmed_end(text).last(),
        ),
    decreases text.len(),
{
    if text.len() > 0 && white_space(text.last()) {
        trimmed_end_shape(text.drop_last());
    }
}

proof fn trimmed_start_shape(text: Seq<char>)
    ensures
        trimmed_start(text).len() > 0 ==> !white_space(
            trimmed_start(text)[0],
        ),
    decreases text.len(),
{
    if text.len() > 0 && white_space(text[0]) {
        trimmed_start_shape(text.drop_first());
    }
}

/// Trimmed text neither starts nor ends with white space.
pub proof fn trimmed_has_no_outer_space(text: Seq<char>)
    ensures
        trimmed(text).len() > 0 ==> !white_space(trimmed(text)[0]) && !white_space(
            trimmed(text).last(),
        ),
{
    let start = trimmed_start(text);
    trimmed_start_shape(text);
    trimmed_end_shape(start);
}

proof fn collapsed_shape(text: Seq<char>)
    requires
        text.len() > 0 ==> !white_space(text[0]),
    ensures
        text.len() > 0 ==> collapsed(text).len() > 0 && collapsed(text)[0] == text[0],
        text.len() > 0 ==> (white_space(text.last()) <==> white_space(collapsed(text).last())),
        forall|i: int|
            0 <= i < collapsed(text).len() && white_space(#[trigger] collapsed(text)[i]) ==> {
                &&& collapsed(text)[i] == ' '
                &&& i + 1 < collapsed(text).len() ==> !white_space(collapsed(text)[i + 1])
            },
    decreases text.len(),
{
    if text.len() > 0 {
        let front = text.drop_last();
        collapsed_shape(front);
        if front.len() > 0 {
            assert(front.last() == text[text.len() - 2]);
        }
        let before = collapsed(front);
        let after = collapsed(text);
        assert forall|i: int|
            0 <= i < after.len() && white_space(#[trigger] after[i]) implies after[i] == ' ' && (i
            + 1 < after.len() ==> !white_space(after[i + 1])) by {
            if i < before.len() {
                assert(before[i] == after[i]);
                if i + 1 < before.len() {
                    assert(before[i + 1] == after[i + 1]);
                } else if after.len() > before.len() {
                    assert(before[i] == before.last());
                }
            }
        }
    }
}

proof fn tidy_trigger_is_tidy(trigger: Seq<char>)
    ensures
        tidy(tidy_trigger(trigger)),
{
    let bare = trimmed(trigger);
    trimmed_has_no_outer_space(trigger);
    collapsed_shape(bare);
    let text = collapsed(bare);
    assert forall|i: int| 0 <= i < text.len() && white_space(#[trigger] text[i]) implies text[i]
        == ' ' && i + 1 < text.len() && !white_space(text[i + 1]) by {
        assert(text[text.len() - 1] == text.last());
    }
}

proof fn tidy_is_trimmed(text: Seq<char>)
    requires
        tidy(text),
    ensures
        trimmed(text) == text,
{
}

proof fn single_spaces_stay(text: Seq<char>)
    requires
        forall|i: int|
            0 <= i < text.len() && white_space(#[trigger] text[i]) ==> {
                &&& text[i] == ' '
                &&& i + 1 < text.len() ==> !white_space(text[i + 1])
            },
    ensures
        collapsed(text) == text,
    decreases text.len(),
{
    if text.len() > 0 {
        let front = text.drop_last();
        assert forall|i: int| 0 <= i < front.len() && white_space(#[trigger] front[i]) implies {
            &&& front[i] == ' '
            &&& i + 1 < front.len() ==> !white_space(front[i + 1])
        } by {
            assert(text[i] == front[i]);
        }
        single_spaces_stay(front);
        if text.len() > 1 {
            assert(white_space(text[text.len() - 2]) ==> !white_space(text[text.len() - 1]));
        }
        assert(front.push(text.last()) =~= text);
        assert(white_space(text[text.len() - 1]) ==> text[text.len() - 1] == ' ');
    }
}

/// Tidying a tidied trigger changes nothing.
pub proof fn tidy_trigger_idempotent(trigger: Seq<char>)
    ensures
        tidy_trigger(tidy_trigger(trigger)) == tidy_trigger(trigger),
{
    tidy_trigger_is_tidy(trigger);
    tidy_is_trimmed(tidy_trigger(trigger));
    single_spaces_stay(tidy_trigger(trigger));
}

/// Sanitizing sanitized entries changes nothing.
pub proof fn sanitized_idempotent(entries: Seq<(Seq<char>, Seq<char>)>)
    ensures
        sanitized(sanitized(entries)) == sanitized(entries),
    decreases entries.len(),
{
    if entries.len() > 0 {
        sanitized_idempotent(entries.drop_last());
        tidy_trigger_idempotent(entries.last().0);
        let clean = sanitized(entries);
        if tidy_trigger(entries.last().0).len() > 0 {
            assert(clean.drop_last() =~= sanitized(entries.drop_last()));
        }
    }
}

proof fn sanitized_take(entries: Seq<(Seq<char>, Seq<char>)>, count: int)
    requires
        sanitized(entries) == entries,
        0 <= count <= entries.len(),
    ensures
        sanitized(entries.take(count)) == entries.take(count),
    decreases entries.len() - count,
{
    if count < entries.len() {
        sanitized_take(entries, count + 1);
        let longer = entries.take(count + 1);
        assert(longer.drop_last() =~= entries.take(count));
        sanitized_len(entries.take(count));
        if tidy_trigger(longer.last().0).len() > 0 {
            assert(sanitized(entries.take(count)) =~= sanitized(longer).drop_last());
        }
    } else {
        assert(entries.take(count) =~= entries);
    }
}

proof fn sanitized_len(entries: Seq<(Seq<char>, Seq<char>)>)
    ensures
        sanitized(entries).len() <= entries.len(),
    decreases entries.len(),
{
    if entries.len() > 0 {
        sanitized_len(entries.drop_last());
    }
}

/// What was loaded once loads again unchanged, and never exceeds the cap.
pub proof fn loadable_idempotent(entries: Seq<(Seq<char>, Seq<char>)>)
    ensures
        loadable(loadable(entries)) == loadable(entries),
        loadable(entries).len() <= MAX_ENTRIES,
{
    sanitized_idempotent(entries);
    let clean = sanitized(entries);
    if clean.len() > MAX_ENTRIES {
        sanitized_take(clean, MAX_ENTRIES as int);
    }
}

/// Rules that were saved load again as they were saved, up to the cap.
pub proof fn saved_rules_load_again(entries: Seq<(Seq<char>, Seq<char>)>)
    ensures
        loadable(sanitized(entries)) == loadable(entries),
        sanitized(entries).len() <= MAX_ENTRIES ==> loadable(sanitized(entries)) == sanitized(
            entries,
        ),
{
    sanitized_idempotent(entries);
}

/// Every kept trigger is tidy and not empty.
pub proof fn sanitized_triggers_are_tidy(entries: Seq<(Seq<char>, Seq<char>)>)
    ensures
        forall|i: int|
            0 <= i < sanitized(entries).len() ==> tidy((#[trigger] sanitized(entries)[i]).0)
                && sanitized(entries)[i].0.len() > 0,
    decreases entries.len(),
{
    if entries.len() > 0 {
        sanitized_triggers_are_tidy(entries.drop_last());
        tidy_trigger_is_tidy(entries.last().0);
        let before = sanitized(entries.drop_last());
        let clean = sanitized(entries);
        assert forall|i: int| 0 <= i < clean.len() implies tidy((#[trigger] clean[i]).0)
            && clean[i].0.len() > 0 by {
            if i < before.len() {
                assert(clean[i] == before[i]);
            }
        }
    }
}

/// Whether a text holds anything but white space.
pub open spec fn spoken(text: Seq<char>) -> bool {
    exists|k: int| 0 <= k < text.len() && !white_space(#[trigger] text[k])
}

proof fn spoken_text_trims_to_some(text: Seq<char>)
    ensures
        spoken(text) <==> trimmed(text).len() > 0,
{
    only_blank_text_trims_to_nothing(text);
}

proof fn words_of_trimmed_end(text: Seq<char>)
    ensures
        words(trimmed_end(text)) == words(text),
    decreases text.len(),
{
    if text.len() > 0 && white_space(text.last()) {
        words_of_trimmed_end(text.drop_last());
    }
}

proof fn words_of_trimmed_start(text: Seq<char>)
    ensures
        words(trimmed_start(text)) == words(text),
    decreases text.len(),
{
    if text.len() > 0 && white_space(text[0]) {
        words_of_trimmed_start(text.drop_first());
        let none = Seq::<char>::empty();
        words_part_at_white_space(none, text.drop_first(), text[0]);
        assert(none.push(text[0]) + text.drop_first() =~= text);
        assert(words(none) + words(text.drop_first()) =~= words(text.drop_first()));
    }
}

proof fn words_of_trimmed(text: Seq<char>)
    ensures
        words(trimmed(text)) == words(text),
{
    words_of_trimmed_start(text);
    words_of_trimmed_end(trimmed_start(text));
}

proof fn outer_words(text: Seq<char>)
    requires
        text.len() > 0,
        !white_space(text[0]),
    ensures
        words(text).len() > 0,
        words(text)[0].len() > 0,
        words(text)[0][0] == text[0],
        !white_space(text.last()) ==> words(text).last().len() > 0 && words(text).last().last()
            == text.last(),
    decreases text.len(),
{
    if text.len() > 1 {
        let front = text.drop_last();
        outer_words(front);
        assert(front.last() == text[text.len() - 2]);
    } else {
        assert(words(text.drop_last()).len() == 0);
        assert(words(text)[0] == seq![text.last()]);
    }
}

proof fn collapsed_is_joined_words(text: Seq<char>)
    requires
        text.len() > 0,
        !white_space(text[0]),
    ensures
        collapsed(text) == joined(words(text), seq![' ']) + if white_space(text.last()) {
            seq![' ']
        } else {
            Seq::<char>::empty()
        },
    decreases text.len(),
{
    let space = seq![' '];
    let c = text.last();
    if text.len() == 1 {
        assert(text.drop_last() =~= Seq::<char>::empty());
        assert(words(text.drop_last()).len() == 0);
        assert(words(text) =~= seq![seq![c]]);
        assert(collapsed(text.drop_last()).len() == 0);
        assert(collapsed(text) =~= seq![c]);
        assert(collapsed(text) =~= joined(words(text), space) + Seq::<char>::empty());
    } else {
        let front = text.drop_last();
        let before = words(front);
        collapsed_is_joined_words(front);
        outer_words(front);
        assert(front.last() == text[text.len() - 2]);
        if white_space(c) {
            if white_space(front.last()) {
                assert(collapsed(text) =~= joined(words(text), space) + space);
            } else {
                assert(collapsed(text) =~= joined(words(text), space) + space);
            }
        } else if white_space(front.last()) {
            let all = before.push(seq![c]);
            assert(all.drop_last() =~= before);
            assert(collapsed(text) =~= joined(all, space) + Seq::<char>::empty());
        } else {
            let rest = before.drop_last();
            let all = rest.push(before.last().push(c));
            assert(all.drop_last() =~= rest);
            assert(joined(all, space) =~= joined(before, space).push(c));
            assert(collapsed(text) =~= joined(all, space) + Seq::<char>::empty());
        }
    }
}

/// A tidied trigger is its words with one space between any two.
pub proof fn tidy_trigger_is_its_words(trigger: Seq<char>)
    ensures
        tidy_trigger(trigger) == joined(words(trigger), seq![' ']),
{
    let bare = trimmed(trigger);
    words_of_trimmed(trigger);
    trimmed_has_no_outer_space(trigger);
    if bare.len() > 0 {
        collapsed_is_joined_words(bare);
        assert(tidy_trigger(trigger) =~= joined(words(trigger), seq![' ']));
    } else {
        assert(tidy_trigger(trigger) =~= joined(words(trigger), seq![' ']));
    }
}

/// Collapsing goes piece by piece: it puts one space in place of a run of white
/// space, leaves everything else, and two texts that no run spans are collapsed
/// each on its own.
pub proof fn collapsing_goes_run_by_run(a: Seq<char>, b: Seq<char>)
    ensures
        a.len() == 0 || b.len() == 0 || !white_space(a.last()) || !white_space(b[0]) ==> collapsed(
            a + b,
        ) == collapsed(a) + collapsed(b),
        (forall|k: int| 0 <= k < a.len() ==> !white_space(#[trigger] a[k])) ==> collapsed(a) == a,
        a.len() > 0 && (forall|k: int| 0 <= k < a.len() ==> white_space(#[trigger] a[k]))
            ==> collapsed(a) == seq![' '],
    decreases a.len() + b.len(),
{
    if forall|k: int| 0 <= k < a.len() ==> !white_space(#[trigger] a[k]) {
        single_spaces_stay(a);
    }
    if a.len() > 0 && forall|k: int| 0 <= k < a.len() ==> white_space(#[trigger] a[k]) {
        let front = a.drop_last();
        assert forall|k: int| 0 <= k < front.len() implies white_space(#[trigger] front[k]) by {
            assert(front[k] == a[k]);
        }
        collapsing_goes_run_by_run(front, Seq::empty());
        assert(white_space(a[a.len() - 1]));
        if a.len() > 1 {
            assert(white_space(a[a.len() - 2]));
        }
        assert(collapsed(a) =~= seq![' ']);
    }
    if a.len() == 0 {
        assert(a + b =~= b);
        assert(collapsed(a) + collapsed(b) =~= collapsed(b));
    } else if b.len() == 0 {
        assert(a + b =~= a);
        assert(collapsed(a) + collapsed(b) =~= collapsed(a));
    } else if !white_space(a.last()) || !white_space(b[0]) {
        let front = b.drop_last();
        let whole = a + b;
        assert(whole.drop_last() =~= a + front);
        collapsing_goes_run_by_run(a, front);
        if b.len() > 1 {
            assert(whole[whole.len() - 2] == b[b.len() - 2]);
        } else {
            assert(whole[whole.len() - 2] == a.last());
            assert(collapsed(front).len() == 0);
        }
        assert(collapsed(whole) =~= collapsed(a) + collapsed(b));
    }
}

/// Sanitizing keeps every entry whose trigger is not blank, in order, with the
/// words of the trigger one space apart and the replacement as it is; and it
/// keeps no other.
pub proof fn sanitizing_keeps_every_rule(entries: Seq<(Seq<char>, Seq<char>)>)
    ensures
        sanitized(entries) == entries.filter(
            |entry: (Seq<char>, Seq<char>)| spoken(entry.0),
        ).map_values(
            |entry: (Seq<char>, Seq<char>)| (joined(words(entry.0), seq![' ']), entry.1),
        ),
    decreases entries.len(),
{
    reveal(Seq::filter);
    let keep = |entry: (Seq<char>, Seq<char>)| spoken(entry.0);
    let tidied = |entry: (Seq<char>, Seq<char>)| (joined(words(entry.0), seq![' ']), entry.1);
    if entries.len() == 0 {
        assert(sanitized(entries) =~= entries.filter(keep).map_values(tidied));
    } else {
        let front = entries.drop_last();
        let last = entries.last();
        sanitizing_keeps_every_rule(front);
        tidy_trigger_is_its_words(last.0);
        spoken_text_trims_to_some(last.0);
        tidy_trigger_blank(last.0);
        if spoken(last.0) {
            assert(entries.filter(keep) =~= front.filter(keep).push(last));
            assert(entries.filter(keep).map_values(tidied) =~= front.filter(keep).map_values(
                tidied,
            ).push(tidied(last)));
        } else {
            assert(entries.filter(keep) =~= front.filter(keep));
        }
    }
}

proof fn tidy_trigger_blank(trigger: Seq<char>)
    ensures
        tidy_trigger(trigger).len() == 0 <==> trimmed(trigger).len() == 0,
{
    trimmed_has_no_outer_space(trigger);
    collapsed_shape(trimmed(trigger));
}

/// Whether a rule is kept does not depend on its replacement, nor on any other
/// rule: the rules of two lists are sanitized as those of each.
pub proof fn sanitizing_goes_rule_by_rule(
    a: Seq<(Seq<char>, Seq<char>)>,
    b: Seq<(Seq<char>, Seq<char>)>,
)
    ensures
        sanitized(a + b) == sanitized(a) + sanitized(b),
    decreases b.len(),
{
    if b.len() == 0 {
        assert(a + b =~= a);
        assert(sanitized(a) + sanitized(b) =~= sanitized(a));
    } else {
        assert((a + b).drop_last() =~= a + b.drop_last());
        sanitizing_goes_rule_by_rule(a, b.drop_last());
        assert(sanitized(a + b) =~= sanitized(a) + sanitized(b));
    }
}

/// Of the sanitized rules the first 200 are loaded, and all of them if there are
/// no more.
pub proof fn loading_keeps_the_first(entries: Seq<(Seq<char>, Seq<char>)>, i: int)
    ensures
        sanitized(entries).len() <= 200 ==> loadable(entries) == sanitized(entries),
        sanitized(entries).len() > 200 ==> loadable(entries).len() == 200,
        0 <= i < loadable(entries).len() ==> loadable(entries)[i] == sanitized(entries)[i],
{
}

/// An apostrophe becomes the class of all apostrophes, every other character
/// stays, and this character by character.
pub proof fn relaxing_goes_by_character(a: Seq<char>, b: Seq<char>)
    ensures
        relaxed(a + b) == relaxed(a) + relaxed(b),
        a.len() == 1 && (a[0] == '\u{27}' || a[0] == '\u{2018}' || a[0] == '\u{2019}') ==> relaxed(a)
            == seq!['[', '\u{27}', '\u{2018}', '\u{2019}', ']'],
        a.len() == 1 && a[0] != '\u{27}' && a[0] != '\u{2018}' && a[0] != '\u{2019}' ==> relaxed(a)
            == a,
        a.len() == 0 ==> relaxed(a).len() == 0,
    decreases b.len(),
{
    if a.len() == 1 {
        reveal_strlit("[\u{0027}\u{2018}\u{2019}]");
        assert(a.drop_last() =~= Seq::<char>::empty());
        assert(APOSTROPHE_CLASS@ =~= seq!['[', '\u{27}', '\u{2018}', '\u{2019}', ']']);
        reveal_with_fuel(relaxed, 2);
        assert(relaxed(Seq::<char>::empty()) =~= Seq::<char>::empty());
        if apostrophe(a[0]) {
            assert(relaxed(a) =~= APOSTROPHE_CLASS@);
        } else {
            assert(relaxed(a) =~= a);
        }
    }
    if b.len() == 0 {
        assert(a + b =~= a);
        assert(relaxed(a) + relaxed(b) =~= relaxed(a));
    } else {
        assert((a + b).drop_last() =~= a + b.drop_last());
        relaxing_goes_by_character(a, b.drop_last());
        assert(relaxed(a + b) =~= relaxed(a) + relaxed(b));
    }
}

/// A phrase that is not blank is matched by the patterns of its words, in order,
/// with a gap of white space or dashes between any two, and with a word boundary
/// at either end where the phrase has a letter, a digit or an underscore there.
pub proof fn phrases_match_their_words(phrase: Seq<char>)
    ensures
        phrase_pattern(phrase) is Some <==> spoken(phrase),
        spoken(phrase) ==> {
            let found = words(phrase);
            let first = found[0][0];
            let last = found.last().last();
            let boundary = seq!['\\', 'b'];
            let none = Seq::<char>::empty();
            &&& found.len() > 0
            &&& phrase_pattern(phrase) == Some(
                (if alphanumeric(first) || first == '_' {
                    boundary
                } else {
                    none
                }) + joined(
                    found.map_values(|word: Seq<char>| relaxed(escaped(word))),
                    seq!['[', '-', '\u{2013}', '\u{2014}', '\\', 's', ']', '+'],
                ) + (if alphanumeric(last) || last == '_' {
                    boundary
                } else {
                    none
                }),
            )
        },
{
    spoken_text_trims_to_some(phrase);
    words_of_trimmed(phrase);
    trimmed_has_no_outer_space(phrase);
    reveal_strlit("\\b");
    reveal_strlit("[-\u{2013}\u{2014}\\s]+");
    assert("\\b"@ =~= seq!['\\', 'b']);
    assert(WORD_GAP@ =~= seq!['[', '-', '\u{2013}', '\u{2014}', '\\', 's', ']', '+']);
    if spoken(phrase) {
        outer_words(trimmed(phrase));
    }
}

/// The phrases of a trigger that are not blank.
pub open spec fn spoken_phrases(trigger: Seq<char>) -> Seq<Seq<char>> {
    pieces(trimmed(trigger), '|').filter(|phrase: Seq<char>| spoken(phrase))
}

proof fn phrase_patterns_of_spoken(phrases: Seq<Seq<char>>)
    ensures
        phrase_patterns(phrases) == phrases.filter(
            |phrase: Seq<char>| spoken(phrase),
        ).map_values(
            |phrase: Seq<char>| (trimmed(phrase).len(), phrase_pattern(phrase)->0),
        ),
    decreases phrases.len(),
{
    reveal(Seq::filter);
    let keep = |phrase: Seq<char>| spoken(phrase);
    let made = |phrase: Seq<char>| (trimmed(phrase).len(), phrase_pattern(phrase)->0);
    if phrases.len() == 0 {
        assert(phrase_patterns(phrases) =~= phrases.filter(keep).map_values(made));
    } else {
        let front = phrases.drop_last();
        let last = phrases.last();
        phrase_patterns_of_spoken(front);
        spoken_text_trims_to_some(last);
        if spoken(last) {
            assert(phrases.filter(keep) =~= front.filter(keep).push(last));
            assert(phrases.filter(keep).map_values(made) =~= front.filter(keep).map_values(
                made,
            ).push(made(last)));
        } else {
            assert(phrases.filter(keep) =~= front.filter(keep));
        }
    }
}

/// The phrases with so many characters.
pub open spec fn as_long_as(len: nat) -> spec_fn(Seq<char>) -> bool {
    |phrase: Seq<char>| trimmed(phrase).len() == len
}

proof fn equally_long_stay_in_order(phrases: Seq<Seq<char>>, len: nat)
    ensures
        ({
            let longer = |a: Seq<char>, b: Seq<char>| trimmed(a).len() > trimmed(b).len();
            stable_sort(phrases, longer).filter(as_long_as(len)) == phrases.filter(
                as_long_as(len),
            )
        }),
{
    let longer = |a: Seq<char>, b: Seq<char>| trimmed(a).len() > trimmed(b).len();
    let sorted = stable_sort(phrases, longer);
    assert(is_ranking(longer));
    if exists|k: int| 0 <= k < phrases.len() && trimmed(#[trigger] phrases[k]).len() == len {
        let k = choose|k: int| 0 <= k < phrases.len() && trimmed(#[trigger] phrases[k]).len() == len;
        stable_sort_keeps_ties(phrases, longer, phrases[k]);
        assert(tied_with(phrases[k], longer) =~= as_long_as(len));
    } else {
        stable_sort_keeps_items(phrases, longer);
        assert forall|k: int| 0 <= k < sorted.len() implies !as_long_as(len)(
            #[trigger] sorted[k],
        ) by {
            broadcast use vstd::seq_lib::group_to_multiset_ensures;

            assert(sorted.contains(sorted[k]));
            assert(phrases.to_multiset().count(sorted[k]) == sorted.to_multiset().count(sorted[k]));
            assert(phrases.contains(sorted[k]));
            let j = choose|j: int| 0 <= j < phrases.len() && phrases[j] == sorted[k];
            assert(trimmed(phrases[j]).len() != len);
        }
        none_kept(sorted, as_long_as(len));
        none_kept(phrases, as_long_as(len));
        assert(sorted.filter(as_long_as(len)) =~= phrases.filter(as_long_as(len)));
    }
}

proof fn none_kept<T>(items: Seq<T>, keep: spec_fn(T) -> bool)
    requires
        forall|k: int| 0 <= k < items.len() ==> !keep(#[trigger] items[k]),
    ensures
        items.filter(keep).len() == 0,
    decreases items.len(),
{
    reveal(Seq::filter);
    if items.len() > 0 {
        let front = items.drop_last();
        assert forall|k: int| 0 <= k < front.len() implies !keep(#[trigger] front[k]) by {
            assert(front[k] == items[k]);
        }
        none_kept(front, keep);
        assert(!keep(items[items.len() - 1]));
    }
}

/// Every phrase of a trigger that is not blank is one of the alternatives of its
/// pattern, and there are no others: the alternatives are the patterns of those
/// phrases, put in an order in which no phrase stands behind a shorter one and
/// those of the same length stand as they were given. The pattern takes no account
/// of case.
pub proof fn every_phrase_is_an_alternative(trigger: Seq<char>)
    ensures
        trigger_pattern(trigger) is Some <==> spoken_phrases(trigger).len() > 0,
        spoken_phrases(trigger).len() == 1 ==> trigger_pattern(trigger) == Some(
            seq!['(', '?', 'i', ')'] + phrase_pattern(spoken_phrases(trigger)[0])->0,
        ),
        spoken_phrases(trigger).len() > 1 ==> exists|order: Seq<Seq<char>>|
            #![trigger order.to_multiset()]
            {
                &&& order.to_multiset() == spoken_phrases(trigger).to_multiset()
                &&& forall|i: int, j: int|
                    0 <= i < j < order.len() ==> trimmed(#[trigger] order[i]).len() >= trimmed(
                        #[trigger] order[j],
                    ).len()
                &&& forall|len: nat|
                    #![trigger as_long_as(len)]
                    order.filter(as_long_as(len)) == spoken_phrases(trigger).filter(as_long_as(len))
                &&& trigger_pattern(trigger) == Some(
                    seq!['(', '?', 'i', ')', '(', '?', ':'] + joined(
                        order.map_values(|phrase: Seq<char>| phrase_pattern(phrase)->0),
                        seq!['|'],
                    ) + seq![')'],
                )
            },
{
    let kept = spoken_phrases(trigger);
    let all = pieces(trimmed(trigger), '|');
    let made = |phrase: Seq<char>| (trimmed(phrase).len(), phrase_pattern(phrase)->0);
    let second = |alternate: (nat, Seq<char>)| alternate.1;
    let pattern_of = |phrase: Seq<char>| phrase_pattern(phrase)->0;
    let longer = |a: Seq<char>, b: Seq<char>| trimmed(a).len() > trimmed(b).len();
    phrase_patterns_of_spoken(all);
    assert(is_ranking(longer));
    let order = stable_sort(kept, longer);
    stable_sort_keeps_items(kept, longer);
    stable_sort_in_rank_order(kept, longer);
    stable_sort_map(kept, longer, made, longer_phrase());
    let alternates = trigger_alternates(trigger);
    assert(alternates =~= order.map_values(pattern_of)) by {
        assert(alternates == order.map_values(made).map_values(second));
    }
    assert forall|i: int, j: int| 0 <= i < j < order.len() implies trimmed(
        #[trigger] order[i],
    ).len() >= trimmed(#[trigger] order[j]).len() by {
        assert(!longer(order[j], order[i]));
    }
    assert forall|len: nat|
        #![trigger as_long_as(len)]
        order.filter(as_long_as(len)) == kept.filter(as_long_as(len)) by {
        equally_long_stay_in_order(kept, len);
    }
    if trimmed(trigger).len() == 0 {
        assert(trimmed(trigger) =~= Seq::<char>::empty());
        assert(all =~= seq![Seq::<char>::empty()]);
        reveal(Seq::filter);
        reveal_with_fuel(Seq::filter, 2);
        let keep = |phrase: Seq<char>| spoken(phrase);
        assert(!keep(all.last()));
        assert(all.drop_last() =~= Seq::<Seq<char>>::empty());
        assert(kept.len() == 0);
    }
    reveal_strlit("(?i)");
    reveal_strlit("(?i)(?:");
    reveal_strlit("|");
    reveal_strlit(")");
    assert("(?i)"@ =~= seq!['(', '?', 'i', ')']);
    assert("(?i)(?:"@ =~= seq!['(', '?', 'i', ')', '(', '?', ':']);
    assert("|"@ =~= seq!['|']);
    assert(")"@ =~= seq![')']);
    if kept.len() == 1 {
        broadcast use vstd::seq_lib::group_to_multiset_ensures;

        assert(order.contains(kept[0])) by {
            assert(kept.contains(kept[0]));
            assert(order.to_multiset().count(kept[0]) == kept.to_multiset().count(kept[0]));
        }
        assert(order[0] == kept[0]);
    }
}

/// The length of a trigger is that of its longest phrase, in bytes.
pub proof fn longest_phrase_is_the_longest(phrases: Seq<Seq<char>>)
    ensures
        forall|i: int|
            0 <= i < phrases.len() ==> encode_utf8(trimmed(#[trigger] phrases[i])).len()
                <= longest_phrase(phrases),
        phrases.len() > 0 ==> exists|i: int|
            0 <= i < phrases.len() && encode_utf8(trimmed(#[trigger] phrases[i])).len()
                == longest_phrase(phrases),
    decreases phrases.len(),
{
    if phrases.len() > 0 {
        let front = phrases.drop_last();
        longest_phrase_is_the_longest(front);
        assert forall|i: int| 0 <= i < phrases.len() implies encode_utf8(
            trimmed(#[trigger] phrases[i]),
        ).len() <= longest_phrase(phrases) by {
            if i < front.len() {
                assert(front[i] == phrases[i]);
            }
        }
        if front.len() > 0 && longest_phrase(front) == longest_phrase(phrases) {
            let i = choose|i: int|
                0 <= i < front.len() && encode_utf8(trimmed(#[trigger] front[i])).len()
                    == longest_phrase(front);
            assert(phrases[i] == front[i]);
        } else {
            assert(phrases[phrases.len() - 1] == phrases.last());
        }
    }
}

/// An entry gives a rule exactly if its trigger has a phrase that is not blank
/// and its pattern can be compiled. The rule has that pattern, and replaces by
/// what the entry says, to the letter.
pub proof fn entries_give_their_rules(entry: (Seq<char>, Seq<char>))
    ensures
        entry_rule(entry) is Some <==> spoken_phrases(entry.0).len() > 0 && regex_compiles(
            trigger_pattern(entry.0)->0,
        ),
        entry_rule(entry) matches Some(rule) ==> {
            &&& trigger_pattern(entry.0) == Some(rule.pattern)
            &&& rule.replacement == entry.1
            &&& forall|i: int|
                0 <= i < pieces(trimmed(entry.0), '|').len() ==> encode_utf8(
                    trimmed(#[trigger] pieces(trimmed(entry.0), '|')[i]),
                ).len() <= rule.trigger_len
            &&& exists|i: int|
                0 <= i < pieces(trimmed(entry.0), '|').len() && encode_utf8(
                    trimmed(#[trigger] pieces(trimmed(entry.0), '|')[i]),
                ).len() == rule.trigger_len
        },
{
    every_phrase_is_an_alternative(entry.0);
    longest_phrase_is_the_longest(pieces(trimmed(entry.0), '|'));
    pieces_part_at_the_separator(trimmed(entry.0), Seq::empty(), '|');
    pieces_never_none(trimmed(entry.0), '|');
}

proof fn pieces_never_none(text: Seq<char>, separator: char)
    ensures
        pieces(text, separator).len() > 0,
    decreases text.len(),
{
    if text.len() > 0 {
        pieces_never_none(text.drop_last(), separator);
    }
}

/// Every entry that gives a rule has it among the compiled ones, and no other
/// rule is there.
pub proof fn all_rules_are_compiled(entries: Seq<(Seq<char>, Seq<char>)>)
    ensures
        compiled_rules(entries).to_multiset() == entries.filter(
            |entry: (Seq<char>, Seq<char>)| entry_rule(entry) is Some,
        ).map_values(|entry: (Seq<char>, Seq<char>)| entry_rule(entry)->0).to_multiset(),
{
    entry_rules_are_filtered(entries);
    stable_sort_keeps_items(entry_rules(entries), longer_trigger());
}

proof fn entry_rules_are_filtered(entries: Seq<(Seq<char>, Seq<char>)>)
    ensures
        entry_rules(entries) == entries.filter(
            |entry: (Seq<char>, Seq<char>)| entry_rule(entry) is Some,
        ).map_values(|entry: (Seq<char>, Seq<char>)| entry_rule(entry)->0),
    decreases entries.len(),
{
    reveal(Seq::filter);
    let keep = |entry: (Seq<char>, Seq<char>)| entry_rule(entry) is Some;
    let made = |entry: (Seq<char>, Seq<char>)| entry_rule(entry)->0;
    if entries.len() == 0 {
        assert(entry_rules(entries) =~= entries.filter(keep).map_values(made));
    } else {
        let front = entries.drop_last();
        let last = entries.last();
        entry_rules_are_filtered(front);
        if keep(last) {
            assert(entries.filter(keep) =~= front.filter(keep).push(last));
            assert(entries.filter(keep).map_values(made) =~= front.filter(keep).map_values(
                made,
            ).push(made(last)));
        } else {
            assert(entries.filter(keep) =~= front.filter(keep));
        }
    }
}

/// The candidates are the matches of all rules in the text as it was given: each
/// match of each rule is one, and each one is a match of its rule.
pub proof fn candidates_are_the_matches(rules: Seq<RuleModel>, text: Seq<char>, c: Candidate)
    requires
        rules.len() <= usize::MAX,
        forall|i: int|
            0 <= i < rules.len() ==> (#[trigger] rules[i]).trigger_len <= usize::MAX,
    ensures
        all_candidates(rules, text).contains(c) <==> c.rule < rules.len() && c.trigger_len
            == rules[c.rule as int].trigger_len && regex_spans(
            rules[c.rule as int].pattern,
            text,
        ).contains((c.start, c.end)),
    decreases rules.len(),
{
    if rules.len() > 0 {
        let front = rules.drop_last();
        let last = rules.last();
        let at = rules.len() - 1;
        assert forall|i: int| 0 <= i < front.len() implies (#[trigger] front[i]).trigger_len
            <= usize::MAX by {
            assert(front[i] == rules[i]);
        }
        candidates_are_the_matches(front, text, c);
        assert(rules[at].trigger_len <= usize::MAX);
        let before = all_candidates(front, text);
        let more = rule_candidates(last, at, text);
        let spans = regex_spans(last.pattern, text);
        let all = before + more;
        assert(all.contains(c) <==> before.contains(c) || more.contains(c)) by {
            if all.contains(c) {
                let k = choose|k: int| 0 <= k < all.len() && all[k] == c;
                if k < before.len() {
                    assert(before[k] == c);
                } else {
                    assert(more[k - before.len()] == c);
                }
            }
            if before.contains(c) {
                let k = choose|k: int| 0 <= k < before.len() && before[k] == c;
                assert(all[k] == c);
            }
            if more.contains(c) {
                let k = choose|k: int| 0 <= k < more.len() && more[k] == c;
                assert(all[k + before.len()] == c);
            }
        }
        assert(more.contains(c) <==> c.rule == at && c.trigger_len == last.trigger_len
            && spans.contains((c.start, c.end))) by {
            if more.contains(c) {
                let k = choose|k: int| 0 <= k < more.len() && more[k] == c;
                assert(spans[k] == (c.start, c.end));
            }
            if c.rule == at && c.trigger_len == last.trigger_len && spans.contains(
                (c.start, c.end),
            ) {
                let k = choose|k: int| 0 <= k < spans.len() && spans[k] == (c.start, c.end);
                assert(more[k] == c);
            }
        }
        if c.rule < at {
            assert(front[c.rule as int] == rules[c.rule as int]);
        }
    }
}

/// What `MyWords` makes of `text`: the text itself while it is switched off,
/// has no rules, or the text is empty.
pub open spec fn applied(
    snapshot: (bool, Seq<(Seq<char>, Seq<char>)>),
    text: Seq<char>,
) -> Seq<u8> {
    let rules = compiled_rules(snapshot.1);
    if !snapshot.0 || rules.len() == 0 || text.len() == 0 {
        encode_utf8(text)
    } else {
        rewritten(rules, text)
    }
}

/// The user's rules together with their compiled form.
#[derive(Debug)]
pub struct MyWords {
    snapshot: MyWordsSnapshot,
    compiled: Vec<CompiledRule>,
}

impl View for MyWords {
    type V = (bool, Seq<(Seq<char>, Seq<char>)>);

    closed spec fn view(&self) -> (bool, Seq<(Seq<char>, Seq<char>)>) {
        self.snapshot@
    }
}

impl Default for MyWords {
    /// Switched on, without rules.
    fn default() -> (words: Self)
        ensures
            words@ == (true, Seq::<(Seq<char>, Seq<char>)>::empty()),
    {
        MyWords::from_snapshot(MyWordsSnapshot::default())
    }
}

impl MyWords {
    /// The compiled rules are those of the snapshot.
    #[verifier::type_invariant]
    closed spec fn inv(self) -> bool {
        &&& all_wf(self.compiled@)
        &&& rule_views(self.compiled@) == compiled_rules(self.snapshot@.1)
    }

    /// Compiles the rules of a snapshot.
    pub fn from_snapshot(snapshot: MyWordsSnapshot) -> (words: Self)
        ensures
            words@ == snapshot@,
    {
        let compiled = compile_entries(&snapshot.entries);
        MyWords { snapshot, compiled }
    }

    /// A copy of the current rules.
    pub fn snapshot(&self) -> (copy: MyWordsSnapshot)
        ensures
            copy@ == self@,
    {
        let mut entries: Vec<MyWordsEntry> = Vec::new();
        let mut i: usize = 0;
        while i < self.snapshot.entries.len()
            invariant
                0 <= i <= self.snapshot.entries@.len(),
                entries@ == self.snapshot.entries@.take(i as int),
            decreases self.snapshot.entries@.len() - i,
        {
            let entry = MyWordsEntry {
                trigger: self.snapshot.entries[i].trigger.clone(),
                replacement: self.snapshot.entries[i].replacement.clone(),
            };
            entries.push(entry);
            i += 1;
        }
        proof {
            assert(entries@ =~= self.snapshot.entries@);
        }
        MyWordsSnapshot { enabled: self.snapshot.enabled, entries }
    }

    /// Replaces the rules by the sanitized `next`. `persist` stores them
    /// first; if it fails, its error is returned and the rules in use stay.
    pub fn save<F: FnOnce(&MyWordsSnapshot) -> Result<(), String>>(
        &mut self,
        next: MyWordsSnapshot,
        persist: F,
    ) -> (result: Result<(), String>)
        requires
            forall|clean: MyWordsSnapshot|
                clean@ == (next@.0, sanitized(next@.1)) ==> #[trigger] persist.requires((&clean,)),
        ensures
            exists|clean: MyWordsSnapshot|
                clean@ == (next@.0, sanitized(next@.1)) && #[trigger] persist.ensures(
                    (&clean,),
                    result,
                ),
            result is Ok ==> final(self)@ == (next@.0, sanitized(next@.1)),
            result is Err ==> final(self)@ == old(self)@,
    {
        let clean = sanitize_snapshot(next);
        let compiled = compile_entries(&clean.entries);
        let stored = persist(&clean);
        assert(persist.ensures((&clean,), stored));
        if stored.is_ok() {
            *self = MyWords { snapshot: clean, compiled };
        }
        stored
    }

    /// Applies the rules to `text`.
    pub fn apply(&self, text: &str) -> (out: String)
        ensures
            encode_utf8(out@) == applied(self@, text@),
    {
        proof {
            use_type_invariant(self);
            assert(rule_views(self.compiled@).len() == self.compiled@.len());
        }
        if !self.snapshot.enabled || self.compiled.len() == 0 || text.is_empty() {
            return text.to_owned();
        }
        apply_compiled(&self.compiled, text)
    }
}

/// The text with the rules switched off is the text as it was given.
pub proof fn switched_off_changes_nothing(
    entries: Seq<(Seq<char>, Seq<char>)>,
    text: Seq<char>,
)
    ensures
        applied((false, entries), text) == encode_utf8(text),
        applied((true, Seq::empty()), text) == encode_utf8(text),
{
    assert(compiled_rules(Seq::empty()).len() == 0);
}

/// Whether there are no more rules, and no longer triggers, than can be counted.
pub open spec fn countable(rules: Seq<RuleModel>) -> bool {
    &&& rules.len() <= usize::MAX
    &&& forall|i: int| 0 <= i < rules.len() ==> (#[trigger] rules[i]).trigger_len <= usize::MAX
}

/// Whether no match in a text ends before it starts.
pub open spec fn spans_are_forward(text: Seq<char>) -> bool {
    forall|pattern: Seq<char>, i: int|
        0 <= i < regex_spans(pattern, text).len() ==> (#[trigger] regex_spans(pattern, text)[i]).0
            <= regex_spans(pattern, text)[i].1
}

/// While it is switched on, what it makes of a text is the text with matches of
/// the rules replaced, each by the replacement of its rule. All matches are
/// those of the text as it was given, no two that are replaced overlap, and each
/// that is not starts inside one that goes before it.
pub proof fn matches_of_the_rules_are_replaced(
    entries: Seq<(Seq<char>, Seq<char>)>,
    text: Seq<char>,
)
    ensures
        countable(compiled_rules(entries)) && spans_are_forward(text) ==> exists|kept: Seq<Candidate>|
            {
                let rules = compiled_rules(entries);
                &&& #[trigger] apart(kept)
                &&& forall|c: Candidate| #[trigger]
                    kept.contains(c) ==> c.rule < rules.len() && regex_spans(
                        rules[c.rule as int].pattern,
                        text,
                    ).contains((c.start, c.end))
                &&& forall|i: int, k: int|
                    0 <= i < rules.len() && 0 <= k < regex_spans(rules[i].pattern, text).len() ==> {
                        let span = #[trigger] regex_spans(rules[i].pattern, text)[k];
                        exists|w: Candidate| #[trigger]
                            kept.contains(w) && (w.start, w.end, w.rule as int) == (
                                span.0,
                                span.1,
                                i,
                            ) || kept.contains(w) && w.start <= span.0 < w.end && {
                                ||| w.start < span.0
                                ||| w.end > span.1
                                ||| w.end == span.1 && rules[w.rule as int].trigger_len
                                    >= rules[i].trigger_len
                            }
                    }
                &&& applied((true, entries), text) == stitched(
                    encode_utf8(text),
                    kept,
                    rules.map_values(|rule: RuleModel| rule.replacement),
                    0,
                ) || text.len() == 0 && applied((true, entries), text).len() == 0
            },
{
    if countable(compiled_rules(entries)) && spans_are_forward(text) {
        matches_are_replaced(entries, text);
    }
}

proof fn matches_are_replaced(entries: Seq<(Seq<char>, Seq<char>)>, text: Seq<char>)
    requires
        countable(compiled_rules(entries)),
        spans_are_forward(text),
    ensures
        exists|kept: Seq<Candidate>|
            {
                let rules = compiled_rules(entries);
                &&& #[trigger] apart(kept)
                &&& forall|c: Candidate| #[trigger]
                    kept.contains(c) ==> c.rule < rules.len() && regex_spans(
                        rules[c.rule as int].pattern,
                        text,
                    ).contains((c.start, c.end))
                &&& forall|i: int, k: int|
                    0 <= i < rules.len() && 0 <= k < regex_spans(rules[i].pattern, text).len() ==> {
                        let span = #[trigger] regex_spans(rules[i].pattern, text)[k];
                        exists|w: Candidate| #[trigger]
                            kept.contains(w) && (w.start, w.end, w.rule as int) == (
                                span.0,
                                span.1,
                                i,
                            ) || kept.contains(w) && w.start <= span.0 < w.end && {
                                ||| w.start < span.0
                                ||| w.end > span.1
                                ||| w.end == span.1 && rules[w.rule as int].trigger_len
                                    >= rules[i].trigger_len
                            }
                    }
                &&& applied((true, entries), text) == stitched(
                    encode_utf8(text),
                    kept,
                    rules.map_values(|rule: RuleModel| rule.replacement),
                    0,
                ) || text.len() == 0 && applied((true, entries), text).len() == 0
            },
{
    let rules = compiled_rules(entries);
    let candidates = all_candidates(rules, text);
    let texts = rules.map_values(|rule: RuleModel| rule.replacement);
    assert(all_forward(candidates)) by {
        assert forall|k: int| 0 <= k < candidates.len() implies (#[trigger] candidates[k]).start
            <= candidates[k].end by {
            let c = candidates[k];
            assert(candidates.contains(c));
            candidates_are_the_matches(rules, text, c);
            let spans = regex_spans(rules[c.rule as int].pattern, text);
            let j = choose|j: int| 0 <= j < spans.len() && spans[j] == (c.start, c.end);
            assert(spans[j].0 <= spans[j].1);
        }
    }
    matches_are_replaced_unless_they_overlap(text, candidates, texts);
    let kept = choose|kept: Seq<Candidate>| #[trigger]
        apart(kept) && (forall|c: Candidate| #[trigger]
            kept.contains(c) ==> candidates.contains(c)) && (forall|c: Candidate| #[trigger]
            candidates.contains(c) && !kept.contains(c) ==> exists|w: Candidate| #[trigger]
                kept.contains(w) && w.start <= c.start < w.end && {
                    ||| w.start < c.start
                    ||| w.end > c.end
                    ||| w.end == c.end && w.trigger_len >= c.trigger_len
                }) && substituted(text, candidates, texts) == stitched(
            encode_utf8(text),
            kept,
            texts,
            0,
        );
    assert forall|c: Candidate| #[trigger] kept.contains(c) implies c.rule < rules.len()
        && c.trigger_len == rules[c.rule as int].trigger_len && regex_spans(
        rules[c.rule as int].pattern,
        text,
    ).contains((c.start, c.end)) by {
        candidates_are_the_matches(rules, text, c);
    }
    assert forall|i: int, k: int|
        0 <= i < rules.len() && 0 <= k < regex_spans(rules[i].pattern, text).len() implies {
        let span = #[trigger] regex_spans(rules[i].pattern, text)[k];
        exists|w: Candidate| #[trigger]
            kept.contains(w) && (w.start, w.end, w.rule as int) == (span.0, span.1, i)
                || kept.contains(w) && w.start <= span.0 < w.end && {
                ||| w.start < span.0
                ||| w.end > span.1
                ||| w.end == span.1 && rules[w.rule as int].trigger_len >= rules[i].trigger_len
            }
    } by {
        let span = regex_spans(rules[i].pattern, text)[k];
        assert(rules[i].trigger_len <= usize::MAX);
        let c = Candidate {
            start: span.0,
            end: span.1,
            rule: i as usize,
            trigger_len: rules[i].trigger_len as usize,
        };
        candidates_are_the_matches(rules, text, c);
        assert(regex_spans(rules[i].pattern, text).contains((c.start, c.end)));
        assert(candidates.contains(c));
        if !kept.contains(c) {
            let w = choose|w: Candidate| #[trigger]
                kept.contains(w) && w.start <= c.start < w.end && {
                    ||| w.start < c.start
                    ||| w.end > c.end
                    ||| w.end == c.end && w.trigger_len >= c.trigger_len
                };
            assert(kept.contains(w));
        }
    }
    if rules.len() == 0 && text.len() > 0 {
        assert(kept.len() == 0) by {
            if kept.len() > 0 {
                assert(kept.contains(kept[0]));
            }
        }
        let bytes = encode_utf8(text);
        assert(bytes.subrange(0, bytes.len() as int) =~= bytes);
    }
}

/// Rules with triggers of the same length stand in the order of their entries.
pub proof fn equally_long_rules_stay_in_order(
    entries: Seq<(Seq<char>, Seq<char>)>,
    like: RuleModel,
)
    ensures
        compiled_rules(entries).filter(
            |rule: RuleModel| rule.trigger_len == like.trigger_len,
        ) == entries.filter(
            |entry: (Seq<char>, Seq<char>)| entry_rule(entry) is Some,
        ).map_values(|entry: (Seq<char>, Seq<char>)| entry_rule(entry)->0).filter(
            |rule: RuleModel| rule.trigger_len == like.trigger_len,
        ),
{
    let same = |rule: RuleModel| rule.trigger_len == like.trigger_len;
    entry_rules_are_filtered(entries);
    assert(is_ranking(longer_trigger()));
    stable_sort_keeps_ties(entry_rules(entries), longer_trigger(), like);
    assert(tied_with(like, longer_trigger()) =~= same);
}

/// The matches are listed rule by rule, so of two that cover the same place the
/// one of the rule that stands first was given first.
pub proof fn candidates_go_rule_by_rule(rules: Seq<RuleModel>, text: Seq<char>)
    requires
        rules.len() <= usize::MAX,
    ensures
        forall|i: int, j: int|
            0 <= i < j < all_candidates(rules, text).len() ==> (#[trigger] all_candidates(
                rules,
                text,
            )[i]).rule <= (#[trigger] all_candidates(rules, text)[j]).rule,
        forall|i: int|
            0 <= i < all_candidates(rules, text).len() ==> (#[trigger] all_candidates(
                rules,
                text,
            )[i]).rule < rules.len(),
    decreases rules.len(),
{
    if rules.len() > 0 {
        let front = rules.drop_last();
        candidates_go_rule_by_rule(front, text);
        let before = all_candidates(front, text);
        let all = all_candidates(rules, text);
        assert forall|i: int| 0 <= i < all.len() implies (#[trigger] all[i]).rule < rules.len() && (i
            >= before.len() ==> all[i].rule == rules.len() - 1) by {
            if i < before.len() {
                assert(all[i] == before[i]);
            }
        }
        assert forall|i: int, j: int| 0 <= i < j < all.len() implies (#[trigger] all[i]).rule <= (
        #[trigger] all[j]).rule by {
            if j < before.len() {
                assert(all[i] == before[i] && all[j] == before[j]);
            }
        }
    }
}

/// What is stored is read as it is: switched on unless it was switched off, with
/// the rules that load, and without any where none can be read.
pub proof fn stored_rules_are_read(
    enabled: Option<SettingValue>,
    entries: Option<Vec<MyWordsEntry>>,
    snapshot: MyWordsSnapshot,
)
    requires
        read_snapshot_from_store.ensures((enabled, entries), snapshot),
    ensures
        snapshot@.0 <==> enabled != Some(SettingValue::Bool(false)),
        entries is None ==> snapshot@.1.len() == 0,
        entries matches Some(entries) ==> snapshot@.1 == loadable(
            entries@.map_values(|entry: MyWordsEntry| entry@),
        ),
{
}

/// Rules that could be stored are in use from then on: all with a trigger that is
/// not blank, in order, each with its replacement as it was written. Where they
/// could not be stored, those in use stay.
pub proof fn saved_rules_are_in_use<F: FnOnce(&MyWordsSnapshot) -> Result<(), String>>(
    words_in_use: &mut MyWords,
    next: MyWordsSnapshot,
    persist: F,
    result: Result<(), String>,
)
    requires
        MyWords::save::<F>.ensures((words_in_use, next, persist), result),
    ensures
        result is Err ==> final(words_in_use)@ == old(words_in_use)@,
        result is Ok ==> final(words_in_use)@.0 == next@.0,
        result is Ok ==> final(words_in_use)@.1 == next@.1.filter(
            |entry: (Seq<char>, Seq<char>)| spoken(entry.0),
        ).map_values(
            |entry: (Seq<char>, Seq<char>)| (joined(words(entry.0), seq![' ']), entry.1),
        ),
{
    sanitizing_keeps_every_rule(next@.1);
}

} // verus!

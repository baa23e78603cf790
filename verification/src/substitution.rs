//! Overlap resolution and stitching for text substitution.
//!
//! Every rule is matched against the original text. The matches are ranked,
//! the overlapping ones are dropped, and the output is put together in one
//! pass, so a replacement is never scanned again.

use vstd::prelude::*;
use vstd::utf8::*;

use crate::order::{in_rank_order, insert_ranked, is_ranking, rank, stable_sort, Ranked};
use crate::order::{stable_sort_in_rank_order, stable_sort_keeps_items, stable_sort_keeps_ties};
use crate::order::tied_with;
use crate::text::{encode_concat, slice, views};

verus! {

/// A match of one rule: the bytes `start..end` of the text would be replaced.
#[derive(Debug, Clone, Copy, PartialEq, Eq, Structural)]
pub struct Candidate {
    /// Byte offset at which the match starts.
    pub start: usize,
    /// Byte offset at which the match ends.
    pub end: usize,
    /// Index of the rule that matched.
    pub rule: usize,
    /// Byte length of the rule's longest trigger phrase.
    pub trigger_len: usize,
}

impl Candidate {
    /// Number of bytes that the match covers.
    pub open spec fn span(self) -> int {
        self.end - self.start
    }

    /// Whether the match is a range of whole characters of `text`.
    pub open spec fn fits(self, text: Seq<char>) -> bool {
        &&& self.start <= self.end <= encode_utf8(text).len()
        &&& is_char_boundary(encode_utf8(text), self.start as int)
        &&& is_char_boundary(encode_utf8(text), self.end as int)
    }
}

impl Ranked for Candidate {
    /// The earlier start wins, then the longer match, then the rule with the
    /// longer trigger.
    open spec fn outranks(self, other: Self) -> bool {
        ||| self.start < other.start
        ||| self.start == other.start && self.span() > other.span()
        ||| self.start == other.start && self.span() == other.span() && self.trigger_len
            > other.trigger_len
    }

    fn goes_before(&self, other: &Self) -> (result: bool) {
        if self.start != other.start {
            self.start < other.start
        } else if self.end != other.end {
            self.end > other.end
        } else {
            self.trigger_len > other.trigger_len
        }
    }
}

/// The ranking of matches is a ranking.
pub proof fn candidate_rank_is_ranking()
    ensures
        is_ranking(rank::<Candidate>()),
{
}

/// The matches that are kept when `ranked` is gone through in order: each one
/// that starts at or after `cursor`, the end of the one kept before it.
pub open spec fn accepted(ranked: Seq<Candidate>, cursor: int) -> Seq<Candidate>
    decreases ranked.len(),
{
    if ranked.len() == 0 {
        ranked
    } else if ranked[0].start < cursor {
        accepted(ranked.drop_first(), cursor)
    } else {
        seq![ranked[0]] + accepted(ranked.drop_first(), ranked[0].end as int)
    }
}

/// The matches that are kept of all `candidates`.
pub open spec fn winners(candidates: Seq<Candidate>) -> Seq<Candidate> {
    accepted(stable_sort(candidates, rank::<Candidate>()), 0)
}

/// The bytes of `text` from `last` on, with each of the `kept` matches
/// replaced by its rule's replacement.
pub open spec fn stitched(
    text: Seq<u8>,
    kept: Seq<Candidate>,
    replacements: Seq<Seq<char>>,
    last: int,
) -> Seq<u8>
    decreases kept.len(),
{
    if kept.len() == 0 {
        text.subrange(last, text.len() as int)
    } else {
        let first = kept[0];
        text.subrange(last, first.start as int) + encode_utf8(replacements[first.rule as int])
            + stitched(text, kept.drop_first(), replacements, first.end as int)
    }
}

/// The encoding of the text that results from replacing the winners.
pub open spec fn substituted(
    text: Seq<char>,
    candidates: Seq<Candidate>,
    replacements: Seq<Seq<char>>,
) -> Seq<u8> {
    stitched(encode_utf8(text), winners(candidates), replacements, 0)
}

/// Drops every match that starts before the end of the one kept before it.
pub fn resolve_overlaps(candidates: &Vec<Candidate>) -> (kept: Vec<Candidate>)
    ensures
        kept@ == winners(candidates@),
{
    let mut ranked: Vec<Candidate> = Vec::new();
    let mut i: usize = 0;
    while i < candidates.len()
        invariant
            0 <= i <= candidates@.len(),
            ranked@ == stable_sort(candidates@.take(i as int), rank::<Candidate>()),
        decreases candidates@.len() - i,
    {
        proof {
            assert(candidates@.take(i + 1).drop_last() =~= candidates@.take(i as int));
        }
        insert_ranked(&mut ranked, candidates[i]);
        i += 1;
    }
    proof {
        assert(candidates@.take(i as int) =~= candidates@);
    }
    let mut kept: Vec<Candidate> = Vec::new();
    let mut cursor: usize = 0;
    let mut j: usize = 0;
    proof {
        assert(ranked@.skip(0) =~= ranked@);
    }
    while j < ranked.len()
        invariant
            0 <= j <= ranked@.len(),
            kept@ + accepted(ranked@.skip(j as int), cursor as int) == accepted(ranked@, 0),
        decreases ranked@.len() - j,
    {
        let c = ranked[j];
        proof {
            assert(ranked@.skip(j as int).drop_first() =~= ranked@.skip(j + 1));
        }
        if c.start >= cursor {
            proof {
                let rest = accepted(ranked@.skip(j + 1), c.end as int);
                assert(kept@.push(c) + rest =~= kept@ + (seq![c] + rest));
            }
            kept.push(c);
            cursor = c.end;
        }
        j += 1;
    }
    kept
}

proof fn accepted_from(ranked: Seq<Candidate>, cursor: int)
    ensures
        forall|c: Candidate|
            accepted(ranked, cursor).contains(c) ==> #[trigger] ranked.contains(c),
    decreases ranked.len(),
{
    if ranked.len() > 0 {
        let rest = ranked.drop_first();
        let next = if ranked[0].start < cursor {
            cursor
        } else {
            ranked[0].end as int
        };
        accepted_from(rest, next);
        let tail = accepted(rest, next);
        let kept = accepted(ranked, cursor);
        assert forall|c: Candidate| kept.contains(c) implies #[trigger] ranked.contains(c) by {
            let k = choose|k: int| 0 <= k < kept.len() && kept[k] == c;
            if ranked[0].start >= cursor && k == 0 {
                assert(ranked[0] == c);
            } else {
                assert(tail[if ranked[0].start < cursor {
                    k
                } else {
                    k - 1
                }] == c);
                assert(rest.contains(c));
                let j = choose|j: int| 0 <= j < rest.len() && rest[j] == c;
                assert(ranked[j + 1] == c);
            }
        }
    }
}

proof fn ranked_are_candidates(candidates: Seq<Candidate>)
    ensures
        forall|c: Candidate| #[trigger]
            stable_sort(candidates, rank::<Candidate>()).contains(c) <==> candidates.contains(c),
{
    broadcast use vstd::seq_lib::group_to_multiset_ensures;

    let ranked = stable_sort(candidates, rank::<Candidate>());
    stable_sort_keeps_items(candidates, rank::<Candidate>());
    assert forall|c: Candidate| #[trigger] ranked.contains(c) <==> candidates.contains(c) by {
        assert(ranked.to_multiset().count(c) == candidates.to_multiset().count(c));
    }
}

/// Every match that is kept is one of the candidates.
pub proof fn winners_are_candidates(candidates: Seq<Candidate>)
    ensures
        forall|c: Candidate| winners(candidates).contains(c) ==> #[trigger] candidates.contains(c),
{
    let ranked = stable_sort(candidates, rank::<Candidate>());
    accepted_from(ranked, 0);
    ranked_are_candidates(candidates);
    assert forall|c: Candidate| winners(candidates).contains(c) implies #[trigger] candidates.contains(
        c,
    ) by {
        assert(ranked.contains(c));
    }
}

/// Whether no match ends before it starts.
pub open spec fn all_forward(candidates: Seq<Candidate>) -> bool {
    forall|k: int|
        0 <= k < candidates.len() ==> (#[trigger] candidates[k]).start <= candidates[k].end
}

/// Whether the matches stand in the order of the text and do not overlap.
pub open spec fn apart(kept: Seq<Candidate>) -> bool {
    forall|i: int, j: int|
        0 <= i < j < kept.len() ==> (#[trigger] kept[i]).end <= (#[trigger] kept[j]).start
}

proof fn accepted_apart(ranked: Seq<Candidate>, cursor: int)
    requires
        all_forward(ranked),
    ensures
        apart(accepted(ranked, cursor)),
        all_forward(accepted(ranked, cursor)),
        accepted(ranked, cursor).len() > 0 ==> accepted(ranked, cursor)[0].start >= cursor,
    decreases ranked.len(),
{
    if ranked.len() > 0 {
        let rest = ranked.drop_first();
        assert(all_forward(rest)) by {
            assert forall|k: int| 0 <= k < rest.len() implies (#[trigger] rest[k]).start
                <= rest[k].end by {
                assert(rest[k] == ranked[k + 1]);
            }
        }
        if ranked[0].start < cursor {
            accepted_apart(rest, cursor);
        } else {
            let tail = accepted(rest, ranked[0].end as int);
            let kept = accepted(ranked, cursor);
            accepted_apart(rest, ranked[0].end as int);
            assert forall|i: int, j: int| 0 <= i < j < kept.len() implies (#[trigger] kept[i]).end
                <= (#[trigger] kept[j]).start by {
                assert(kept[j] == tail[j - 1]);
                if i > 0 {
                    assert(kept[i] == tail[i - 1]);
                } else if j > 1 {
                    assert(tail[0].end <= tail[j - 1].start);
                }
            }
            assert forall|k: int| 0 <= k < kept.len() implies (#[trigger] kept[k]).start
                <= kept[k].end by {
                if k > 0 {
                    assert(kept[k] == tail[k - 1]);
                }
            }
        }
    }
}

proof fn ranked_forward(candidates: Seq<Candidate>)
    requires
        all_forward(candidates),
    ensures
        all_forward(stable_sort(candidates, rank::<Candidate>())),
{
    let ranked = stable_sort(candidates, rank::<Candidate>());
    ranked_are_candidates(candidates);
    assert forall|k: int| 0 <= k < ranked.len() implies (#[trigger] ranked[k]).start
        <= ranked[k].end by {
        assert(ranked.contains(ranked[k]));
        let j = choose|j: int| 0 <= j < candidates.len() && candidates[j] == ranked[k];
        assert(candidates[j].start <= candidates[j].end);
    }
}

/// The kept matches stand in the order of the text and do not overlap.
pub proof fn winners_do_not_overlap(candidates: Seq<Candidate>)
    requires
        all_forward(candidates),
    ensures
        apart(winners(candidates)),
{
    ranked_forward(candidates);
    accepted_apart(stable_sort(candidates, rank::<Candidate>()), 0);
}

/// Whether `c` starts inside a kept match that it does not outrank.
pub open spec fn beaten(c: Candidate, kept: Seq<Candidate>) -> bool {
    exists|w: Candidate| #[trigger]
        kept.contains(w) && w.start <= c.start < w.end && !c.outranks(w)
}

proof fn accepted_or_beaten(ranked: Seq<Candidate>, cursor: int, at: int)
    requires
        in_rank_order(ranked, rank::<Candidate>()),
        all_forward(ranked),
        0 <= at < ranked.len(),
        ranked[at].start >= cursor,
    ensures
        accepted(ranked, cursor).contains(ranked[at]) || beaten(
            ranked[at],
            accepted(ranked, cursor),
        ),
    decreases ranked.len(),
{
    let kept = accepted(ranked, cursor);
    let rest = ranked.drop_first();
    let c = ranked[at];
    assert(in_rank_order(rest, rank::<Candidate>())) by {
        assert forall|i: int, j: int| 0 <= i < j < rest.len() implies !rank::<Candidate>()(
            #[trigger] rest[j],
            #[trigger] rest[i],
        ) by {
            assert(rest[i] == ranked[i + 1] && rest[j] == ranked[j + 1]);
        }
    }
    assert(all_forward(rest)) by {
        assert forall|k: int| 0 <= k < rest.len() implies (#[trigger] rest[k]).start
            <= rest[k].end by {
            assert(rest[k] == ranked[k + 1]);
        }
    }
    if ranked[0].start < cursor {
        assert(rest[at - 1] == c);
        accepted_or_beaten(rest, cursor, at - 1);
    } else {
        let first = ranked[0];
        let tail = accepted(rest, first.end as int);
        assert(kept[0] == first);
        if at > 0 {
            assert(!rank::<Candidate>()(ranked[at], ranked[0]));
            if c.start < first.end {
                assert(kept.contains(first));
            } else {
                assert(rest[at - 1] == c);
                accepted_or_beaten(rest, first.end as int, at - 1);
                assert forall|w: Candidate| tail.contains(w) implies #[trigger] kept.contains(
                    w,
                ) by {
                    let k = choose|k: int| 0 <= k < tail.len() && tail[k] == w;
                    assert(kept[k + 1] == w);
                }
                if beaten(c, tail) {
                    let w = choose|w: Candidate| #[trigger]
                        tail.contains(w) && w.start <= c.start < w.end && !c.outranks(w);
                    assert(kept.contains(w));
                }
            }
        }
    }
}

/// A match is dropped only in favour of one that it overlaps and does not
/// outrank: the one that starts earlier wins, then the longer one.
pub proof fn losers_are_beaten(candidates: Seq<Candidate>, c: Candidate)
    requires
        all_forward(candidates),
        candidates.contains(c),
    ensures
        winners(candidates).contains(c) || beaten(c, winners(candidates)),
{
    let ranked = stable_sort(candidates, rank::<Candidate>());
    ranked_are_candidates(candidates);
    ranked_forward(candidates);
    candidate_rank_is_ranking();
    stable_sort_in_rank_order(candidates, rank::<Candidate>());
    assert(ranked.contains(c));
    let at = choose|at: int| 0 <= at < ranked.len() && ranked[at] == c;
    accepted_or_beaten(ranked, 0, at);
}

/// A match that overlaps no other one is kept.
pub proof fn lone_match_wins(candidates: Seq<Candidate>, c: Candidate)
    requires
        forall|k: int|
            0 <= k < candidates.len() ==> (#[trigger] candidates[k]).start < candidates[k].end,
        candidates.contains(c),
        forall|k: int|
            0 <= k < candidates.len() && (#[trigger] candidates[k]) != c ==> candidates[k].end
                <= c.start || c.end <= candidates[k].start,
    ensures
        winners(candidates).contains(c),
{
    losers_are_beaten(candidates, c);
    if beaten(c, winners(candidates)) {
        let w = choose|w: Candidate| #[trigger]
            winners(candidates).contains(w) && w.start <= c.start < w.end && !c.outranks(w);
        winners_are_candidates(candidates);
        assert(candidates.contains(w));
        let k = choose|k: int| 0 <= k < candidates.len() && candidates[k] == w;
        let j = choose|j: int| 0 <= j < candidates.len() && candidates[j] == c;
        assert(candidates[j].start < candidates[j].end);
        assert(candidates[k] == w);
    }
}

/// Of two matches the one that starts earlier goes first; of two that start at
/// the same place the one that ends later; of two that cover the same place the
/// one of the rule with the longer trigger.
pub proof fn earlier_then_longer_goes_first(a: Candidate, b: Candidate)
    ensures
        a.start < b.start ==> a.outranks(b) && !b.outranks(a),
        a.start == b.start && a.end > b.end ==> a.outranks(b) && !b.outranks(a),
        a.start == b.start && a.end == b.end && a.trigger_len > b.trigger_len ==> a.outranks(b)
            && !b.outranks(a),
        a.start == b.start && a.end == b.end && a.trigger_len == b.trigger_len ==> !a.outranks(b)
            && !b.outranks(a),
{
}

/// A match is dropped only if it starts inside one that is kept, and that one
/// starts earlier, or reaches as far or farther, with a trigger as long or
/// longer if it reaches just as far.
pub proof fn dropped_matches_lose(candidates: Seq<Candidate>, c: Candidate)
    requires
        all_forward(candidates),
        candidates.contains(c),
        !winners(candidates).contains(c),
    ensures
        exists|w: Candidate| #[trigger]
            winners(candidates).contains(w) && w.start <= c.start < w.end && {
                ||| w.start < c.start
                ||| w.end > c.end
                ||| w.end == c.end && w.trigger_len >= c.trigger_len
            },
{
    losers_are_beaten(candidates, c);
    let w = choose|w: Candidate| #[trigger]
        winners(candidates).contains(w) && w.start <= c.start < w.end && !c.outranks(w);
    assert(winners(candidates).contains(w));
}

/// Replacing goes match by match: cut the text at a place that no match spans,
/// and what results is what results of the two parts. Without a match the text
/// stays; one match is replaced where it stands.
pub proof fn stitching_goes_match_by_match(
    text: Seq<u8>,
    a: Seq<Candidate>,
    b: Seq<Candidate>,
    replacements: Seq<Seq<char>>,
    last: int,
    cut: int,
)
    requires
        0 <= last <= cut <= text.len(),
        all_forward(a),
        all_forward(b),
        apart(a),
        apart(b),
        forall|k: int| 0 <= k < a.len() ==> last <= (#[trigger] a[k]).start && a[k].end <= cut,
        forall|k: int|
            0 <= k < b.len() ==> cut <= (#[trigger] b[k]).start && b[k].end <= text.len(),
    ensures
        stitched(text, a + b, replacements, last) == stitched(
            text.take(cut),
            a,
            replacements,
            last,
        ) + stitched(text, b, replacements, cut),
        a.len() == 0 ==> stitched(text, a, replacements, last) == text.skip(last),
        a.len() == 1 ==> stitched(text, a, replacements, last) == text.subrange(
            last,
            a[0].start as int,
        ) + encode_utf8(replacements[a[0].rule as int]) + text.skip(a[0].end as int),
    decreases a.len(),
{
    if a.len() == 1 {
        assert(a[0].start <= a[0].end);
        assert(a.drop_first().len() == 0);
        assert(text.subrange(a[0].end as int, text.len() as int) =~= text.skip(a[0].end as int));
    }
    if a.len() == 0 {
        assert(a + b =~= b);
        assert(text.subrange(last, text.len() as int) =~= text.skip(last));
        assert(text.take(cut).subrange(last, cut) =~= text.subrange(last, cut));
        if b.len() == 0 {
            assert(text.subrange(last, text.len() as int) =~= text.subrange(last, cut)
                + text.subrange(cut, text.len() as int));
        } else {
            let start = b[0].start as int;
            assert(b[0].start <= b[0].end);
            assert(text.subrange(last, start) =~= text.subrange(last, cut) + text.subrange(
                cut,
                start,
            ));
            let rest = stitched(text, b.drop_first(), replacements, b[0].end as int);
            let replacement = encode_utf8(replacements[b[0].rule as int]);
            assert(stitched(text, b, replacements, last) =~= text.subrange(last, cut) + (
            text.subrange(cut, start) + replacement + rest));
        }
    } else {
        let first = a[0];
        let rest = a.drop_first();
        assert(first.start <= first.end);
        assert((a + b).drop_first() =~= rest + b);
        assert((a + b)[0] == first);
        assert forall|k: int| 0 <= k < rest.len() implies first.end <= (#[trigger] rest[k]).start
            && rest[k].end <= cut && rest[k].start <= rest[k].end by {
            assert(rest[k] == a[k + 1]);
            assert(a[0].end <= a[k + 1].start);
        }
        assert(apart(rest)) by {
            assert forall|i: int, j: int| 0 <= i < j < rest.len() implies (#[trigger] rest[i]).end
                <= (#[trigger] rest[j]).start by {
                assert(rest[i] == a[i + 1] && rest[j] == a[j + 1]);
            }
        }
        stitching_goes_match_by_match(text, rest, b, replacements, first.end as int, cut);
        let replacement = encode_utf8(replacements[first.rule as int]);
        assert(text.take(cut).subrange(last, first.start as int) =~= text.subrange(
            last,
            first.start as int,
        ));
        assert(stitched(text, a + b, replacements, last) =~= stitched(
            text.take(cut),
            a,
            replacements,
            last,
        ) + stitched(text, b, replacements, cut));
    }
}

/// What results of a text is the text with some of the matches replaced, in the
/// order of the text: no two of them overlap, and every other match starts inside
/// one of them that goes before it.
pub proof fn matches_are_replaced_unless_they_overlap(
    text: Seq<char>,
    candidates: Seq<Candidate>,
    replacements: Seq<Seq<char>>,
)
    requires
        all_forward(candidates),
    ensures
        exists|kept: Seq<Candidate>| #[trigger]
            apart(kept) && (forall|c: Candidate| #[trigger]
                kept.contains(c) ==> candidates.contains(c)) && (forall|c: Candidate| #[trigger]
                candidates.contains(c) && !kept.contains(c) ==> exists|w: Candidate| #[trigger]
                    kept.contains(w) && w.start <= c.start < w.end && {
                        ||| w.start < c.start
                        ||| w.end > c.end
                        ||| w.end == c.end && w.trigger_len >= c.trigger_len
                    }) && substituted(text, candidates, replacements) == stitched(
                encode_utf8(text),
                kept,
                replacements,
                0,
            ),
{
    let kept = winners(candidates);
    winners_do_not_overlap(candidates);
    winners_are_candidates(candidates);
    assert forall|c: Candidate| #[trigger] candidates.contains(c) && !kept.contains(
        c,
    ) implies exists|w: Candidate| #[trigger]
        kept.contains(w) && w.start <= c.start < w.end && {
            ||| w.start < c.start
            ||| w.end > c.end
            ||| w.end == c.end && w.trigger_len >= c.trigger_len
        } by {
        dropped_matches_lose(candidates, c);
    }
    assert(apart(kept));
}

proof fn first_of_place(ranked: Seq<Candidate>, cursor: int, w: Candidate, at: int)
    requires
        all_forward(ranked),
        accepted(ranked, cursor).contains(w),
        w.start < w.end,
        0 <= at < ranked.len(),
        ranked[at].start == w.start,
        ranked[at].end == w.end,
    ensures
        exists|t: int| 0 <= t <= at && #[trigger] ranked[t] == w,
        w.start >= cursor,
    decreases ranked.len(),
{
    let kept = accepted(ranked, cursor);
    let rest = ranked.drop_first();
    let k = choose|k: int| 0 <= k < kept.len() && kept[k] == w;
    assert(all_forward(rest)) by {
        assert forall|i: int| 0 <= i < rest.len() implies (#[trigger] rest[i]).start
            <= rest[i].end by {
            assert(rest[i] == ranked[i + 1]);
        }
    }
    assert(ranked[0].start <= ranked[0].end);
    if ranked[0].start < cursor {
        accepted_from_cursor(rest, cursor);
        assert(accepted(rest, cursor)[k].start >= cursor);
        assert(rest[at - 1] == ranked[at]);
        first_of_place(rest, cursor, w, at - 1);
        let t = choose|t: int| 0 <= t <= at - 1 && #[trigger] rest[t] == w;
        assert(ranked[t + 1] == w);
    } else if k == 0 {
        assert(ranked[0] == w);
    } else {
        let tail = accepted(rest, ranked[0].end as int);
        assert(tail[k - 1] == w);
        accepted_from_cursor(rest, ranked[0].end as int);
        assert(tail[k - 1].start >= ranked[0].end);
        if at == 0 {
            assert(false);
        }
        assert(rest[at - 1] == ranked[at]);
        first_of_place(rest, ranked[0].end as int, w, at - 1);
        let t = choose|t: int| 0 <= t <= at - 1 && #[trigger] rest[t] == w;
        assert(ranked[t + 1] == w);
    }
}

proof fn accepted_from_cursor(ranked: Seq<Candidate>, cursor: int)
    requires
        all_forward(ranked),
    ensures
        forall|k: int|
            0 <= k < accepted(ranked, cursor).len() ==> (#[trigger] accepted(
                ranked,
                cursor,
            )[k]).start >= cursor,
    decreases ranked.len(),
{
    accepted_apart(ranked, cursor);
    let kept = accepted(ranked, cursor);
    assert forall|k: int| 0 <= k < kept.len() implies (#[trigger] kept[k]).start >= cursor by {
        if k > 0 {
            assert(kept[0].end <= kept[k].start);
            assert(kept[0].start <= kept[0].end);
        }
    }
}

proof fn first_of_filter<T>(items: Seq<T>, keep: spec_fn(T) -> bool, at: int)
    requires
        0 <= at < items.len(),
        keep(items[at]),
    ensures
        items.filter(keep).len() > 0,
        exists|t: int|
            0 <= t <= at && (#[trigger] items[t]) == items.filter(keep)[0] && keep(items[t])
                && forall|s: int| 0 <= s < t ==> !keep(#[trigger] items[s]),
    decreases items.len(),
{
    reveal(Seq::filter);
    let front = items.drop_last();
    if at < front.len() {
        assert(front[at] == items[at]);
        first_of_filter(front, keep, at);
        let t = choose|t: int|
            0 <= t <= at && (#[trigger] front[t]) == front.filter(keep)[0] && keep(front[t])
                && forall|s: int| 0 <= s < t ==> !keep(#[trigger] front[s]);
        assert(items[t] == front[t]);
        assert(items.filter(keep)[0] == front.filter(keep)[0]);
        assert forall|s: int| 0 <= s < t implies !keep(#[trigger] items[s]) by {
            assert(front[s] == items[s]);
        }
    } else if exists|s: int| 0 <= s < front.len() && keep(#[trigger] front[s]) {
        let s = choose|s: int| 0 <= s < front.len() && keep(#[trigger] front[s]);
        assert(items[s] == front[s]);
        first_of_filter(front, keep, s);
        let t = choose|t: int|
            0 <= t <= s && (#[trigger] front[t]) == front.filter(keep)[0] && keep(front[t])
                && forall|s: int| 0 <= s < t ==> !keep(#[trigger] front[s]);
        assert(items[t] == front[t]);
        assert(items.filter(keep)[0] == front.filter(keep)[0]);
        assert forall|s: int| 0 <= s < t implies !keep(#[trigger] items[s]) by {
            assert(front[s] == items[s]);
        }
    } else {
        nothing_to_filter(front, keep);
        assert(items[at] == items.filter(keep)[0]);
        assert forall|s: int| 0 <= s < at implies !keep(#[trigger] items[s]) by {
            assert(front[s] == items[s]);
        }
    }
}

proof fn nothing_to_filter<T>(items: Seq<T>, keep: spec_fn(T) -> bool)
    requires
        forall|s: int| 0 <= s < items.len() ==> !keep(#[trigger] items[s]),
    ensures
        items.filter(keep).len() == 0,
    decreases items.len(),
{
    reveal(Seq::filter);
    if items.len() > 0 {
        let front = items.drop_last();
        assert forall|s: int| 0 <= s < front.len() implies !keep(#[trigger] front[s]) by {
            assert(front[s] == items[s]);
        }
        nothing_to_filter(front, keep);
        assert(!keep(items[items.len() - 1]));
    }
}

/// Of the matches that cover the same place, with triggers of the same length,
/// only the one that was given first can be kept.
pub proof fn first_given_wins(candidates: Seq<Candidate>, w: Candidate, at: int)
    requires
        all_forward(candidates),
        winners(candidates).contains(w),
        w.start < w.end,
        0 <= at < candidates.len(),
        candidates[at].start == w.start,
        candidates[at].end == w.end,
        candidates[at].trigger_len == w.trigger_len,
    ensures
        exists|t: int| 0 <= t <= at && #[trigger] candidates[t] == w,
{
    let outranks = rank::<Candidate>();
    let ranked = stable_sort(candidates, outranks);
    let tied = tied_with(w, outranks);
    candidate_rank_is_ranking();
    ranked_forward(candidates);
    ranked_are_candidates(candidates);
    stable_sort_keeps_ties(candidates, outranks, w);
    stable_sort_in_rank_order(candidates, outranks);
    assert(tied(candidates[at]));
    first_of_filter(candidates, tied, at);
    let t = choose|t: int|
        0 <= t <= at && (#[trigger] candidates[t]) == candidates.filter(tied)[0] && tied(
            candidates[t],
        ) && forall|s: int| 0 <= s < t ==> !tied(#[trigger] candidates[s]);
    accepted_from(ranked, 0);
    assert(ranked.contains(w));
    let r = choose|r: int| 0 <= r < ranked.len() && ranked[r] == w;
    assert(tied(ranked[r]));
    first_of_filter(ranked, tied, r);
    let first = choose|first: int|
        0 <= first <= r && (#[trigger] ranked[first]) == ranked.filter(tied)[0] && tied(
            ranked[first],
        ) && forall|s: int| 0 <= s < first ==> !tied(#[trigger] ranked[s]);
    first_of_place(ranked, 0, w, first);
    let own = choose|own: int| 0 <= own <= first && #[trigger] ranked[own] == w;
    assert(tied(ranked[own]));
    assert(own == first);
    assert(candidates[t] == w);
}

proof fn winners_fit(text: Seq<char>, candidates: Seq<Candidate>, rules: nat)
    requires
        forall|k: int|
            0 <= k < candidates.len() ==> (#[trigger] candidates[k]).fits(text)
                && candidates[k].rule < rules,
    ensures
        apart(winners(candidates)),
        forall|k: int|
            0 <= k < winners(candidates).len() ==> (#[trigger] winners(candidates)[k]).fits(text)
                && winners(candidates)[k].rule < rules,
{
    winners_do_not_overlap(candidates);
    winners_are_candidates(candidates);
    let kept = winners(candidates);
    assert forall|k: int| 0 <= k < kept.len() implies (#[trigger] kept[k]).fits(text)
        && kept[k].rule < rules by {
        assert(kept.contains(kept[k]));
        assert(candidates.contains(kept[k]));
        let j = choose|j: int| 0 <= j < candidates.len() && candidates[j] == kept[k];
        assert(candidates[j].fits(text));
    }
}

/// Replaces the winning matches in `text`, each by the replacement of its
/// rule, and leaves everything else as it is.
pub fn substitute(text: &str, candidates: &Vec<Candidate>, replacements: &Vec<String>) -> (out:
    String)
    requires
        forall|k: int|
            0 <= k < candidates@.len() ==> (#[trigger] candidates@[k]).fits(text@)
                && candidates@[k].rule < replacements@.len(),
    ensures
        encode_utf8(out@) == substituted(text@, candidates@, views(replacements@)),
{
    let kept = resolve_overlaps(candidates);
    let ghost bytes = encode_utf8(text@);
    proof {
        winners_fit(text@, candidates@, replacements@.len());
        encode_utf8_valid_utf8(text@);
        is_char_boundary_start_end_of_seq(bytes);
        assert(kept@.skip(0) =~= kept@);
        assert(encode_utf8(Seq::<char>::empty()) =~= Seq::<u8>::empty());
    }
    let mut out = String::new();
    let mut last: usize = 0;
    let mut i: usize = 0;
    proof {
        assert(encode_utf8(out@) + stitched(bytes, kept@.skip(0), views(replacements@), 0) =~= stitched(
            bytes,
            kept@,
            views(replacements@),
            0,
        ));
    }
    while i < kept.len()
        invariant
            0 <= i <= kept@.len(),
            bytes == encode_utf8(text@),
            valid_utf8(bytes),
            apart(kept@),
            forall|k: int|
                0 <= k < kept@.len() ==> (#[trigger] kept@[k]).fits(text@) && kept@[k].rule
                    < replacements@.len(),
            last <= bytes.len(),
            is_char_boundary(bytes, last as int),
            i == 0 ==> last == 0,
            i > 0 ==> last == kept@[i - 1].end,
            encode_utf8(out@) + stitched(bytes, kept@.skip(i as int), views(replacements@), last as int)
                == stitched(bytes, kept@, views(replacements@), 0),
        decreases kept@.len() - i,
    {
        let c = kept[i];
        proof {
            assert(kept@[i as int].fits(text@));
            if i > 0 {
                assert(kept@[i - 1].end <= kept@[i as int].start);
            }
        }
        let ghost before = out@;
        let gap = slice(text, last, c.start);
        out.append(gap);
        out.append(replacements[c.rule].as_str());
        proof {
            let replacement = replacements@[c.rule as int]@;
            encode_concat(before, gap@);
            encode_concat(before + gap@, replacement);
            assert(kept@.skip(i as int).drop_first() =~= kept@.skip(i + 1));
            let rest = stitched(bytes, kept@.skip(i + 1), views(replacements@), c.end as int);
            assert(encode_utf8(out@) + rest =~= encode_utf8(before) + (encode_utf8(gap@)
                + encode_utf8(replacement) + rest));
        }
        last = c.end;
        i += 1;
    }
    let ghost before = out@;
    let tail = slice(text, last, text.as_bytes().len());
    out.append(tail);
    proof {
        encode_concat(before, tail@);
        assert(kept@.skip(i as int).len() == 0);
    }
    out
}

/// Text in which nothing matches stays as it is.
pub proof fn nothing_matched_nothing_changed(text: Seq<char>, replacements: Seq<Seq<char>>)
    ensures
        substituted(text, Seq::empty(), replacements) == encode_utf8(text),
{
    assert(encode_utf8(text).subrange(0, encode_utf8(text).len() as int) =~= encode_utf8(text));
}

} // verus!

//! What a drift score says of two snapshots, told by their texts and keywords.
use vstd::prelude::*;

use crate::chars::{is_ascii_digit, CharClass};
use crate::drift::{plain, snapshot_drift};
use crate::drift::{
    lemma_percent_bound, novel_percent, overlap_percent, printed_percent, rounded_percent,
};
use crate::drift_score::{DimensionView, DriftScoreSource};
use crate::facts::{
    important_lead, is_important, lemma_ranking, missing_facts, missing_terms, ranking, term_leq,
    told_count,
};
use crate::keywords::{
    first_items, is_keyword, keywords, keywords_among, keywords_listed, KEYWORD_LIMIT,
};
use crate::laws::{
    law_keywords_are_bounded, law_missing_facts_are_missing, law_scores_are_percentages,
};
use crate::numeral::decimal;
use crate::snapshot::SnapshotView;
use crate::text::{collapsed, contains_text, lowered, runs, trimmed_of};
use crate::text_laws::{
    law_cut_text_is_the_beginning, law_stretch_of_a_whole, law_stretches_of_two_sides,
};

verus! {

// ---- Keywords ----

/// The words that are never keywords.
pub open spec fn common_words() -> Seq<Seq<char>> {
    seq![
        "about"@, "after"@, "again"@, "also"@, "because"@, "before"@, "being"@, "blackbox"@,
        "could"@, "from"@, "have"@, "into"@, "latest"@, "more"@, "must"@, "need"@, "only"@,
        "please"@, "prompt"@, "request"@, "session"@, "should"@, "summary"@, "that"@, "their"@,
        "there"@, "these"@, "this"@, "through"@, "turn"@, "using"@, "with"@, "work"@, "would"@,
        "your"@,
    ]
}

/// A word is a keyword just where it has four characters or more, one of them no digit, and is
/// neither a common word nor the name of the assistant.
pub proof fn law_what_a_keyword_is(assistant: Seq<char>, word: Seq<char>)
    ensures
        is_keyword(assistant, word) <==> {
            &&& word.len() >= 4
            &&& !common_words().contains(word)
            &&& word != lowered(assistant)
            &&& exists|i: int| 0 <= i < word.len() && !('0' <= #[trigger] word[i] <= '9')
        },
{
    let all = common_words();
    assert(all[0] == "about"@ && all[1] == "after"@ && all[2] == "again"@ && all[3] == "also"@);
    assert(all[4] == "because"@ && all[5] == "before"@ && all[6] == "being"@);
    assert(all[7] == "blackbox"@ && all[8] == "could"@ && all[9] == "from"@ && all[10] == "have"@);
    assert(all[11] == "into"@ && all[12] == "latest"@ && all[13] == "more"@ && all[14] == "must"@);
    assert(all[15] == "need"@ && all[16] == "only"@ && all[17] == "please"@);
    assert(all[18] == "prompt"@ && all[19] == "request"@ && all[20] == "session"@);
    assert(all[21] == "should"@ && all[22] == "summary"@ && all[23] == "that"@);
    assert(all[24] == "their"@ && all[25] == "there"@ && all[26] == "these"@ && all[27] == "this"@);
    assert(all[28] == "through"@ && all[29] == "turn"@ && all[30] == "using"@);
    assert(all[31] == "with"@ && all[32] == "work"@ && all[33] == "would"@ && all[34] == "your"@);
    assert(all.len() == 35);
    if exists|i: int| 0 <= i < word.len() && !is_ascii_digit(#[trigger] word[i]) {
        let i = choose|i: int| 0 <= i < word.len() && !is_ascii_digit(#[trigger] word[i]);
        assert(!('0' <= word[i] <= '9'));
    }
    if exists|i: int| 0 <= i < word.len() && !('0' <= #[trigger] word[i] <= '9') {
        let i = choose|i: int| 0 <= i < word.len() && !('0' <= #[trigger] word[i] <= '9');
        assert(!is_ascii_digit(word[i]));
    }
}

/// The keywords of a text that is one word of letters, digits, underscores and hyphens are that
/// word in lower case without the hyphens at its ends, where that is a keyword, and none where
/// it is not.
pub proof fn law_keyword_of_a_word(assistant: Seq<char>, word: Seq<char>)
    requires
        word.len() > 0,
        forall|i: int| 0 <= i < word.len() ==> CharClass::Keyword.has(#[trigger] word[i]),
    ensures
        ({
            let term = trimmed_of(lowered(word), CharClass::Hyphen);
            keywords(assistant, word) == if is_keyword(assistant, term) {
                set![term]
            } else {
                Set::empty()
            }
        }),
{
    let low = lowered(word);
    assert forall|i: int| 0 <= i < low.len() implies CharClass::Keyword.has(#[trigger] low[i]) by {
        assert(CharClass::Keyword.has(word[i]));
    }
    law_stretch_of_a_whole(low, CharClass::Keyword);
    let term = trimmed_of(low, CharClass::Hyphen);
    let words = seq![low];
    assert(words.drop_last() =~= Seq::<Seq<char>>::empty());
    assert(keywords_among(assistant, words.drop_last()) =~= Seq::<Seq<char>>::empty());
    if is_keyword(assistant, term) {
        let listed = Seq::<Seq<char>>::empty().push(term);
        assert(keywords_among(assistant, words) =~= listed);
        assert(listed[0] == term);
        assert(listed.to_set() =~= set![term]);
    } else {
        assert(Seq::<Seq<char>>::empty().to_set() =~= Set::<Seq<char>>::empty());
    }
}

/// The keywords of a text are those of its parts on both sides of a character that no keyword
/// holds, as long as they are within the limit.
pub proof fn law_keywords_of_two_sides(
    assistant: Seq<char>,
    one: Seq<char>,
    gap: char,
    two: Seq<char>,
)
    requires
        !CharClass::Keyword.has(gap),
        keywords_listed(assistant, one).len() + keywords_listed(assistant, two).len()
            <= KEYWORD_LIMIT,
    ensures
        keywords(assistant, one.push(gap) + two) == keywords(assistant, one).union(
            keywords(assistant, two),
        ),
        keywords_listed(assistant, one.push(gap) + two) == keywords_listed(assistant, one)
            + keywords_listed(assistant, two),
{
    let class = CharClass::Keyword;
    let low_gap = lowered(seq![gap])[0];
    assert(lowered(one.push(gap) + two) =~= lowered(one).push(low_gap) + lowered(two));
    assert(!class.has(low_gap));
    law_stretches_of_two_sides(lowered(one), low_gap, lowered(two), class);
    let a = runs(lowered(one), class);
    let b = runs(lowered(two), class);
    lemma_among_sides(assistant, a, b);
    let x = keywords_among(assistant, a);
    let y = keywords_among(assistant, b);
    let listed = keywords_listed(assistant, one) + keywords_listed(assistant, two);
    assert(first_items(x + y, KEYWORD_LIMIT as nat) =~= listed);
    assert forall|w: Seq<char>| listed.to_set().contains(w) == keywords(assistant, one).union(
        keywords(assistant, two),
    ).contains(w) by {
        let p = keywords_listed(assistant, one);
        let q = keywords_listed(assistant, two);
        if p.contains(w) {
            let k = choose|k: int| 0 <= k < p.len() && p[k] == w;
            assert(listed[k] == w);
        }
        if q.contains(w) {
            let k = choose|k: int| 0 <= k < q.len() && q[k] == w;
            assert(listed[p.len() + k] == w);
        }
        if listed.contains(w) {
            let k = choose|k: int| 0 <= k < listed.len() && listed[k] == w;
            if k < p.len() {
                assert(p[k] == w);
            } else {
                assert(q[k - p.len()] == w);
            }
        }
    }
    assert(listed.to_set() =~= keywords(assistant, one).union(keywords(assistant, two)));
}

proof fn lemma_among_sides(assistant: Seq<char>, a: Seq<Seq<char>>, b: Seq<Seq<char>>)
    ensures
        keywords_among(assistant, a + b) == keywords_among(assistant, a) + keywords_among(
            assistant,
            b,
        ),
    decreases b.len(),
{
    if b.len() == 0 {
        assert(a + b =~= a);
        assert(keywords_among(assistant, a) + keywords_among(assistant, b) =~= keywords_among(
            assistant,
            a,
        ));
    } else {
        assert((a + b).drop_last() =~= a + b.drop_last());
        lemma_among_sides(assistant, a, b.drop_last());
        assert((a + b).last() == b.last());
        assert(keywords_among(assistant, a + b) =~= keywords_among(assistant, a) + keywords_among(
            assistant,
            b,
        ));
    }
}

/// Letter case does not matter to keywords.
pub proof fn law_keywords_in_any_case(assistant: Seq<char>, text: Seq<char>)
    ensures
        keywords(assistant, lowered(text)) == keywords(assistant, text),
{
    assert(lowered(lowered(text)) =~= lowered(text));
}

// ---- The score ----

/// The text that a snapshot shows of what was left: the excerpt of the compacted objective, or
/// else that of the summary.
pub open spec fn left_text(snapshot: SnapshotView) -> Seq<char> {
    if snapshot.excerpts.compacted_objective is Some {
        snapshot.excerpts.compacted_objective->0.text
    } else if snapshot.excerpts.compact_summary is Some {
        snapshot.excerpts.compact_summary->0.text
    } else {
        ""@
    }
}

/// The score is the percentage that a part is of a whole, to within half a point. A half goes
/// up; only 23 in 40, of which the quotient falls just below the half, goes down.
pub open spec fn is_percentage(score: int, part: int, whole: int) -> bool {
    &&& 200 * part - whole <= 2 * whole * score <= 200 * part + whole
    &&& 2 * whole * score == 200 * part - whole ==> 40 * part == 23 * whole
    &&& 40 * part == 23 * whole ==> score == 57
}

/// The number is the percentage that a part is of a whole as it is printed: a half goes to the
/// even neighbour, but for 23 in 40.
pub open spec fn is_printed_percentage(number: int, part: int, whole: int) -> bool {
    &&& 200 * part - whole <= 2 * whole * number <= 200 * part + whole
    &&& (2 * whole * number == 200 * part - whole || 2 * whole * number == 200 * part + whole)
        ==> number % 2 == 0 || 40 * part == 23 * whole
    &&& 40 * part == 23 * whole ==> number == 57
}

/// A session that was compacted again is measured by the snapshot before: where that one shows a
/// keyword that the latest one lacks, the state is not preserved in full. Within the limit of
/// keywords the lost one counts among the missing facts: it is told, or as many others are told
/// that come before it.
pub proof fn law_what_the_snapshot_before_showed_is_missed(
    assistant: Seq<char>,
    initial: Seq<char>,
    previous: SnapshotView,
    latest: SnapshotView,
    word: Seq<char>,
)
    requires
        keywords(assistant, left_text(previous)).contains(word),
        !keywords(assistant, left_text(latest)).contains(word),
    ensures
        ({
            let drift = snapshot_drift(assistant, initial, Some(previous), latest);
            let facts = drift.missing_facts;
            &&& drift.state_preservation.score < 100
            &&& drift.state_preservation.evidence == seq![
                decimal(
                    keywords(assistant, left_text(previous)).intersect(
                        keywords(assistant, left_text(latest)),
                    ).len(),
                ) + "/"@ + decimal(keywords(assistant, left_text(previous)).len())
                    + " state terms retained"@,
            ]
            &&& keywords_listed(assistant, initial).len() + keywords_listed(
                assistant,
                left_text(previous),
            ).len() <= KEYWORD_LIMIT ==> {
                &&& facts.len() >= 1
                &&& facts.contains(word) || facts.len() >= 3 && forall|i: int|
                    0 <= i < facts.len() ==> term_leq(#[trigger] facts[i], word)
                &&& drift.risk.score >= 8
            }
        }),
{
    reveal_strlit("");
    reveal_strlit(" ");
    reveal_strlit("state terms");
    reveal_strlit(" state terms retained");
    reveal_strlit(" retained");
    let drift = snapshot_drift(assistant, initial, Some(previous), latest);
    let before = left_text(previous);
    let now = left_text(latest);
    lemma_shown_texts(assistant, initial, Some(previous), latest);
    let expected = keywords(assistant, before);
    let actual = keywords(assistant, now);
    law_keywords_are_bounded(assistant, before);
    assert(expected.len() > 0) by {
        if expected.len() == 0 {
            assert(expected =~= Set::<Seq<char>>::empty());
        }
    }
    let kept = expected.intersect(actual);
    vstd::set_lib::lemma_len_intersect(expected, actual);
    assert(kept.subset_of(expected.remove(word)));
    vstd::set_lib::lemma_len_subset(kept, expected.remove(word));
    lemma_less_than_all(kept.len(), expected.len());
    let label = "state terms"@;
    assert(" "@ + label + " retained"@ =~= " state terms retained"@);
    let m = decimal(kept.len());
    let n = decimal(expected.len());
    assert(m + "/"@ + n + " "@ + label + " retained"@ =~= m + "/"@ + n + " state terms retained"@);
    assert(drift.state_preservation.evidence =~= seq![
        m + "/"@ + n + " state terms retained"@,
    ]);
    if keywords_listed(assistant, initial).len() + keywords_listed(assistant, before).len()
        <= KEYWORD_LIMIT {
        law_keywords_of_two_sides(assistant, initial, ' ', before);
        assert(initial + " "@ + before =~= initial.push(' ') + before);
        let terms = missing_terms(assistant, initial, before, now);
        assert(terms.contains(word));
        law_missing_facts_are_missing(assistant, initial, before, now);
        law_facts_are_few_but_enough(assistant, initial, before, now);
        law_keywords_are_bounded(assistant, initial + " "@ + before);
        let facts = drift.missing_facts;
        assert(facts == missing_facts(assistant, initial, before, now));
        if terms.len() == 0 {
            assert(terms =~= Set::<Seq<char>>::empty());
        }
        if facts.len() == terms.len() {
            facts.unique_seq_to_set();
            assert forall|x: Seq<char>| facts.to_set().contains(x) implies terms.contains(x) by {
                let i = choose|i: int| 0 <= i < facts.len() && facts[i] == x;
                assert(terms.contains(facts[i]));
            }
            vstd::set_lib::lemma_subset_equality(facts.to_set(), terms);
            assert(facts.to_set().contains(word));
        }
        assert(facts.contains(word) || facts.len() >= 3);
        law_scores_are_percentages(assistant, initial, before, now);
        assert(drift.risk.score >= 8);
    }
}

proof fn lemma_less_than_all(part: nat, whole: nat)
    requires
        part < whole <= KEYWORD_LIMIT,
    ensures
        rounded_percent(part, whole) < 100,
{
    assert((200 * part + whole) / (2 * whole) < 100) by (nonlinear_arith)
        requires
            part < whole <= 96,
    ;
}

/// The drift is that of the texts that the snapshots show.
proof fn lemma_shown_texts(
    assistant: Seq<char>,
    initial: Seq<char>,
    previous: Option<SnapshotView>,
    latest: SnapshotView,
)
    ensures
        ({
            let before = match previous {
                Some(snapshot) => left_text(snapshot),
                None => Seq::empty(),
            };
            snapshot_drift(assistant, initial, previous, latest) == crate::drift::drift_of(
                assistant,
                initial,
                before,
                left_text(latest),
            )
        }),
{
    reveal_strlit("");
    assert(""@ =~= Seq::<char>::empty());
}

/// The label of a score of which more is better goes by 80, 55 and 30.
pub open spec fn has_better_label(d: DimensionView) -> bool {
    d.label == if d.score >= 80 {
        "high"@
    } else if d.score >= 55 {
        "medium"@
    } else if d.score >= 30 {
        "low"@
    } else {
        "very low"@
    }
}

/// The label of a score of which more is worse goes by 80, 55 and 25.
pub open spec fn has_worse_label(d: DimensionView) -> bool {
    d.label == if d.score >= 80 {
        "high"@
    } else if d.score >= 55 {
        "medium"@
    } else if d.score >= 25 {
        "low"@
    } else {
        "very low"@
    }
}

/// The scores of a drift, from the keywords of the initial objective, of the snapshot before and
/// of the latest one. Objective: the share of the initial keywords that is left. State: the share
/// of the keywords of the snapshot before, or of the initial ones where it shows none, and eight
/// points less for each missing fact. Scope: the share of the latest keywords that neither had,
/// and 25 points more where the objective is below 45. Without keywords a share is half, and
/// nothing is new.
pub proof fn law_scores_follow_the_keywords(
    assistant: Seq<char>,
    initial: Seq<char>,
    previous: Option<SnapshotView>,
    latest: SnapshotView,
)
    ensures
        ({
            let drift = snapshot_drift(assistant, initial, previous, latest);
            let first = keywords(assistant, initial);
            let before = match previous {
                Some(snapshot) => keywords(assistant, left_text(snapshot)),
                None => keywords(assistant, ""@),
            };
            let now = keywords(assistant, left_text(latest));
            let measure = if before.len() > 0 {
                before
            } else {
                first
            };
            let lost = 8 * drift.missing_facts.len();
            let objective = drift.objective_alignment.score;
            let state = drift.state_preservation.score;
            let scope = drift.scope_drift.score;
            let more: int = if objective < 45 {
                25
            } else {
                0
            };
            &&& first.len() == 0 ==> objective == 50
            &&& first.len() > 0 ==> is_percentage(
                objective as int,
                first.intersect(now).len() as int,
                first.len() as int,
            )
            &&& measure.len() == 0 ==> state == if lost <= 50 {
                50 - lost
            } else {
                0
            }
            &&& measure.len() > 0 && state > 0 ==> is_percentage(
                state + lost,
                measure.intersect(now).len() as int,
                measure.len() as int,
            )
            &&& measure.len() > 0 && state == 0 ==> 200 * measure.intersect(now).len()
                <= measure.len() * (2 * lost + 1)
            &&& now.len() == 0 ==> scope == more
            &&& now.len() > 0 && scope < 100 ==> is_percentage(
                scope - more,
                now.difference(first.union(before)).len() as int,
                now.len() as int,
            )
            &&& now.len() > 0 && scope == 100 ==> 200 * now.difference(first.union(before)).len()
                >= now.len() * (2 * (100 - more) - 1)
        }),
{
    reveal_strlit("");
    assert(""@ =~= Seq::<char>::empty());
    lemma_shown_texts(assistant, initial, previous, latest);
    let p = match previous {
        Some(snapshot) => left_text(snapshot),
        None => ""@,
    };
    let l = left_text(latest);
    let first = keywords(assistant, initial);
    let before = keywords(assistant, p);
    let now = keywords(assistant, l);
    law_keywords_are_bounded(assistant, initial);
    law_keywords_are_bounded(assistant, p);
    law_keywords_are_bounded(assistant, l);
    let measure = if before.len() > 0 {
        before
    } else {
        first
    };
    vstd::set_lib::lemma_len_intersect(first, now);
    vstd::set_lib::lemma_len_intersect(measure, now);
    vstd::set_lib::lemma_len_difference(now, first.union(before));
    if first.len() > 0 {
        lemma_share(first.intersect(now).len(), first.len());
    }
    if measure.len() > 0 {
        lemma_share(measure.intersect(now).len(), measure.len());
    }
    if now.len() > 0 {
        lemma_share(now.difference(first.union(before)).len(), now.len());
    }
    let drift = snapshot_drift(assistant, initial, previous, latest);
    let lost = 8 * drift.missing_facts.len();
    if measure.len() > 0 && drift.state_preservation.score == 0 {
        let share = overlap_percent(measure, now);
        let m = measure.intersect(now).len();
        let n = measure.len();
        assert(200 * m <= n * (2 * lost + 1)) by (nonlinear_arith)
            requires
                200 * m - n <= 2 * n * share,
                share <= lost,
                n >= 0,
        ;
    }
    if now.len() > 0 && drift.scope_drift.score == 100 {
        let more: int = if drift.objective_alignment.score < 45 {
            25
        } else {
            0
        };
        let share = novel_percent(now, first.union(before));
        let m = now.difference(first.union(before)).len();
        let n = now.len();
        assert(200 * m >= n * (2 * (100 - more) - 1)) by (nonlinear_arith)
            requires
                2 * n * share <= 200 * m + n,
                share >= 100 - more,
                n >= 0,
        ;
    }
}

/// A rounded percentage is a percentage to within half a point.
proof fn lemma_share(part: nat, whole: nat)
    requires
        part <= whole,
        whole > 0,
    ensures
        is_percentage(rounded_percent(part, whole) as int, part as int, whole as int),
        rounded_percent(part, whole) <= 100,
{
    lemma_percent_bound(part, whole);
    let q = (200 * part + whole) / (2 * whole);
    assert(2 * whole * q <= 200 * part + whole < 2 * whole * q + 2 * whole) by (nonlinear_arith)
        requires
            whole > 0,
            q == (200 * part + whole) / (2 * whole),
    ;
    if 40 * part == 23 * whole {
        assert(200 * part == 115 * whole);
        assert(2 * whole * 57 == 114 * whole) by (nonlinear_arith);
    }
}

/// A printed percentage is one to within half a point.
proof fn lemma_printed_share(part: nat, whole: nat)
    requires
        part <= whole,
        whole > 0,
    ensures
        is_printed_percentage(printed_percent(part, whole) as int, part as int, whole as int),
{
    let down = 100 * part / whole;
    let rest = 100 * part % whole;
    assert(100 * part == whole * down + rest && 0 <= rest < whole) by (nonlinear_arith)
        requires
            whole > 0,
            down == 100 * part / whole,
            rest == 100 * part % whole,
    ;
    assert(2 * whole * down == 200 * part - 2 * rest) by (nonlinear_arith)
        requires
            100 * part == whole * down + rest,
    ;
    assert(2 * whole * (down + 1) == 200 * part - 2 * rest + 2 * whole) by (nonlinear_arith)
        requires
            100 * part == whole * down + rest,
    ;
    if 40 * part == 23 * whole {
        assert(200 * part == 115 * whole);
        assert(2 * whole * 57 == 114 * whole) by (nonlinear_arith);
    }
}

/// The other parts of a drift follow from its own scores and from the latest text. The risk is
/// half of what the objective lacks, a third of what the state lacks, and eight points for each
/// missing fact, up to a hundred. One can go on by the mean of objective and state, 18 points
/// more where the text names something to do, 12 less where it admits a gap. The objective was
/// restated where less than 45 is left of it.
pub proof fn law_parts_of_a_drift_agree(
    assistant: Seq<char>,
    initial: Seq<char>,
    previous: Option<SnapshotView>,
    latest: SnapshotView,
)
    ensures
        ({
            let drift = snapshot_drift(assistant, initial, previous, latest);
            let low = lowered(left_text(latest));
            let objective = drift.objective_alignment.score as int;
            let state = drift.state_preservation.score as int;
            let risk = (100 - objective) / 2 + (100 - state) / 3 + 8 * drift.missing_facts.len();
            let to_do = contains_text(low, "next"@) || contains_text(low, "todo"@)
                || contains_text(low, "continue"@) || contains_text(low, "remaining"@)
                || contains_text(low, "failing"@) || contains_text(low, "test"@) || contains_text(
                low,
                "fix"@,
            ) || contains_text(low, "implement"@) || contains_text(low, "verify"@);
            let gap = contains_text(low, "unknown"@) || contains_text(low, "missing"@);
            let action = (objective + state) / 2 + (if to_do {
                18int
            } else {
                0int
            }) - (if gap {
                12int
            } else {
                0int
            });
            &&& drift.source == DriftScoreSource::Deterministic
            &&& drift.risk.score == if risk <= 100 {
                risk
            } else {
                100
            }
            &&& drift.actionability.score == if action < 0 {
                0
            } else if action <= 100 {
                action
            } else {
                100
            }
            &&& has_better_label(drift.objective_alignment)
            &&& has_better_label(drift.state_preservation)
            &&& has_better_label(drift.actionability)
            &&& has_worse_label(drift.scope_drift)
            &&& has_worse_label(drift.risk)
            &&& drift.changed_framing == if objective < 45 {
                Some(
                    "\""@ + plain(initial, 80) + "\" became \""@ + plain(left_text(latest), 80)
                        + "\""@,
                )
            } else {
                None
            }
            &&& drift.caveats == seq![
                "Deterministic drift scoring is heuristic and uses redacted/capped evidence."@,
            ]
            &&& drift.risk.evidence.contains("objective overlap is weak"@) <== objective < 55
            &&& drift.risk.evidence.contains("state preservation is weak"@) <== state < 55
            &&& objective >= 55 && state >= 55 && drift.missing_facts.len() == 0
                ==> drift.risk.evidence == seq!["no major deterministic risk signal"@]
            &&& drift.missing_facts.len() > 0 ==> drift.risk.evidence.last() == decimal(
                drift.missing_facts.len(),
            ) + " missing fact(s) surfaced"@
        }),
{
    lemma_shown_texts(assistant, initial, previous, latest);
    law_scores_are_percentages(
        assistant,
        initial,
        match previous {
            Some(snapshot) => left_text(snapshot),
            None => Seq::empty(),
        },
        left_text(latest),
    );
    let drift = snapshot_drift(assistant, initial, previous, latest);
    let told = drift.risk.evidence;
    if drift.objective_alignment.score < 55 {
        assert(told[0] == "objective overlap is weak"@);
    }
    if drift.state_preservation.score < 55 {
        if drift.objective_alignment.score < 55 {
            assert(told[1] == "state preservation is weak"@);
        } else {
            assert(told[0] == "state preservation is weak"@);
        }
    }
}

/// Two snapshots that show the same text of what was left are scored alike, whatever else they
/// hold, and whatever else the snapshot before held.
pub proof fn law_drift_goes_by_what_is_shown(
    assistant: Seq<char>,
    initial: Seq<char>,
    previous: SnapshotView,
    other_previous: SnapshotView,
    latest: SnapshotView,
    other_latest: SnapshotView,
)
    requires
        left_text(previous) == left_text(other_previous),
        left_text(latest) == left_text(other_latest),
    ensures
        snapshot_drift(assistant, initial, Some(previous), latest) == snapshot_drift(
            assistant,
            initial,
            Some(other_previous),
            other_latest,
        ),
{
    lemma_shown_texts(assistant, initial, Some(previous), latest);
    lemma_shown_texts(assistant, initial, Some(other_previous), other_latest);
}

/// The evidence tells the counts that the scores come from: how many of the initial keywords are
/// left, how many of those that measure the state, and how much is new where that is more than
/// 35 percent. It tells whether the latest text names work to go on with, and checks to make.
pub proof fn law_evidence_tells_the_counts(
    assistant: Seq<char>,
    initial: Seq<char>,
    previous: Option<SnapshotView>,
    latest: SnapshotView,
)
    ensures
        ({
            let drift = snapshot_drift(assistant, initial, previous, latest);
            let first = keywords(assistant, initial);
            let before = match previous {
                Some(snapshot) => keywords(assistant, left_text(snapshot)),
                None => keywords(assistant, ""@),
            };
            let now = keywords(assistant, left_text(latest));
            let measure = if before.len() > 0 {
                before
            } else {
                first
            };
            let new_words = now.difference(first.union(before)).len();
            let low = lowered(left_text(latest));
            let work = contains_text(low, "next"@) || contains_text(low, "continue"@)
                || contains_text(low, "remaining"@);
            let checks = contains_text(low, "test"@) || contains_text(low, "failing"@)
                || contains_text(low, "verify"@);
            let told = drift.actionability.evidence;
            &&& first.len() > 0 ==> drift.objective_alignment.evidence == seq![
                decimal(first.intersect(now).len()) + "/"@ + decimal(first.len()) + " "@
                    + "objective terms"@ + " retained"@,
            ]
            &&& first.len() == 0 ==> drift.objective_alignment.evidence == seq![
                "objective terms"@ + " unavailable"@,
            ]
            &&& measure.len() > 0 ==> drift.state_preservation.evidence == seq![
                decimal(measure.intersect(now).len()) + "/"@ + decimal(measure.len()) + " "@
                    + "state terms"@ + " retained"@,
            ]
            &&& measure.len() == 0 ==> drift.state_preservation.evidence == seq![
                "state terms"@ + " unavailable"@,
            ]
            &&& drift.scope_drift.evidence.len() == 1 <==> 100 * new_words > 35 * now.len()
            &&& drift.scope_drift.evidence.len() <= 1
            &&& drift.scope_drift.evidence.len() == 1 ==> exists|number: nat|
                {
                    &&& is_printed_percentage(number as int, new_words as int, now.len() as int)
                    &&& drift.scope_drift.evidence[0] == #[trigger] decimal(number)
                        + "% of latest keywords are new"@
                }
            &&& work ==> told.contains("latest snapshot names continuation work"@)
            &&& checks ==> told.contains("latest snapshot mentions verification or failing tests"@)
            &&& told.len() == if work && checks {
                2int
            } else {
                1int
            }
            &&& !work && !checks ==> told == seq![
                "latest snapshot has limited next-action evidence"@,
            ]
        }),
{
    reveal_strlit("");
    assert(""@ =~= Seq::<char>::empty());
    lemma_shown_texts(assistant, initial, previous, latest);
    let p = match previous {
        Some(snapshot) => left_text(snapshot),
        None => ""@,
    };
    let now = keywords(assistant, left_text(latest));
    let known = keywords(assistant, initial).union(keywords(assistant, p));
    law_keywords_are_bounded(assistant, left_text(latest));
    vstd::set_lib::lemma_len_difference(now, known);
    let new_words = now.difference(known).len();
    if 100 * new_words > 35 * now.len() {
        lemma_printed_share(new_words, now.len());
        let number = decimal(printed_percent(new_words, now.len()));
    }
    let low = lowered(left_text(latest));
    let told = snapshot_drift(assistant, initial, previous, latest).actionability.evidence;
    let work = contains_text(low, "next"@) || contains_text(low, "continue"@) || contains_text(
        low,
        "remaining"@,
    );
    let checks = contains_text(low, "test"@) || contains_text(low, "failing"@) || contains_text(
        low,
        "verify"@,
    );
    if work {
        assert(told[0] == "latest snapshot names continuation work"@);
    }
    if checks {
        assert(told.last() == "latest snapshot mentions verification or failing tests"@);
        assert(told[told.len() - 1] == told.last());
    }
}

/// A text in a sentence about a drift stands on one line, cut where it is too long.
pub proof fn law_plain_text_is_one_line(s: Seq<char>, max: nat)
    requires
        max >= 3,
    ensures
        collapsed(s).len() <= max ==> plain(s, max) == collapsed(s),
        collapsed(s).len() > max ==> plain(s, max) == collapsed(s).subrange(0, max - 3) + "..."@,
{
    law_cut_text_is_the_beginning(collapsed(s), max);
}

// ---- Missing facts ----

/// A term matters more than others where it is one of a few words, or a name with a dot, an
/// underscore or a hyphen in it.
pub proof fn law_which_terms_matter(term: Seq<char>)
    ensures
        is_important(term) <==> {
            ||| seq![
                "constraint"@, "constraints"@, "failing"@, "failure"@, "migration"@, "privacy"@,
                "secret"@, "redacted"@, "budget"@, "sqlite"@, "tmux"@, "watch"@, "test"@, "tests"@,
            ].contains(term)
            ||| exists|i: int|
                0 <= i < term.len() && (#[trigger] term[i] == '.' || term[i] == '_' || term[i]
                    == '-')
        },
{
    let all = seq![
        "constraint"@, "constraints"@, "failing"@, "failure"@, "migration"@, "privacy"@,
        "secret"@, "redacted"@, "budget"@, "sqlite"@, "tmux"@, "watch"@, "test"@, "tests"@,
    ];
    assert(all[0] == "constraint"@ && all[1] == "constraints"@ && all[2] == "failing"@);
    assert(all[3] == "failure"@ && all[4] == "migration"@ && all[5] == "privacy"@);
    assert(all[6] == "secret"@ && all[7] == "redacted"@ && all[8] == "budget"@);
    assert(all[9] == "sqlite"@ && all[10] == "tmux"@ && all[11] == "watch"@);
    assert(all[12] == "test"@ && all[13] == "tests"@);
}

/// The facts that are told are enough and not too many: up to six of those that matter, all of
/// them where they are fewer than six, and up to three where few or none matter.
pub proof fn law_facts_are_few_but_enough(
    assistant: Seq<char>,
    initial: Seq<char>,
    previous: Seq<char>,
    latest: Seq<char>,
)
    ensures
        ({
            let facts = missing_facts(assistant, initial, previous, latest);
            let terms = missing_terms(assistant, initial, previous, latest);
            &&& facts.len() <= 6
            &&& facts.len() >= 3 || facts.len() == terms.len()
            &&& facts.len() > 3 ==> forall|i: int|
                0 <= i < facts.len() ==> is_important(#[trigger] facts[i])
            &&& facts.len() < 6 ==> forall|term: Seq<char>| #[trigger]
                terms.contains(term) && is_important(term) ==> facts.contains(term)
        }),
{
    law_keywords_are_bounded(assistant, initial + " "@ + previous);
    let terms = missing_terms(assistant, initial, previous, latest);
    lemma_ranking(terms);
    let ranked = ranking(terms);
    lemma_lead(ranked, 0);
    let lead = important_lead(ranked, 0);
    let count = told_count(ranked);
    let facts = missing_facts(assistant, initial, previous, latest);
    assert(facts.len() == count);
    if facts.len() < 6 {
        assert forall|term: Seq<char>| #[trigger]
            terms.contains(term) && is_important(term) implies facts.contains(term) by {
            assert(ranked.to_set().contains(term));
            let k = choose|k: int| 0 <= k < ranked.len() && ranked[k] == term;
            if k >= lead {
                assert(term_leq(ranked[lead], ranked[k]) || k == lead);
            }
            assert(facts[k] == term);
        }
    }
    if facts.len() > 3 {
        assert forall|i: int| 0 <= i < facts.len() implies is_important(#[trigger] facts[i]) by {
            assert(facts[i] == ranked[i]);
        }
    }
}

proof fn lemma_lead(list: Seq<Seq<char>>, i: int)
    requires
        0 <= i <= list.len(),
    ensures
        i <= important_lead(list, i) <= list.len(),
        forall|k: int| i <= k < important_lead(list, i) ==> is_important(#[trigger] list[k]),
        important_lead(list, i) < list.len() ==> !is_important(list[important_lead(list, i)]),
    decreases list.len() - i,
{
    if i < list.len() && is_important(list[i]) {
        lemma_lead(list, i + 1);
    }
}

/// Of two terms of which one matters and the other does not, the one that matters comes first;
/// of others, the one that comes first in the dictionary.
pub proof fn law_terms_are_in_order(a: Seq<char>, b: Seq<char>, common: Seq<char>, x: char, y: char)
    requires
        common.push(x).is_prefix_of(a),
        common.push(y).is_prefix_of(b),
        x < y,
    ensures
        is_important(a) == is_important(b) ==> term_leq(a, b) && !term_leq(b, a),
        is_important(a) && !is_important(b) ==> term_leq(a, b) && !term_leq(b, a),
        !is_important(a) && is_important(b) ==> term_leq(b, a) && !term_leq(a, b),
{
    lemma_text_order(a, b, common, x, y);
}

proof fn lemma_text_order(a: Seq<char>, b: Seq<char>, common: Seq<char>, x: char, y: char)
    requires
        common.push(x).is_prefix_of(a),
        common.push(y).is_prefix_of(b),
        x < y,
    ensures
        crate::facts::text_leq(a, b),
        !crate::facts::text_leq(b, a),
    decreases common.len(),
{
    let p = common.push(x);
    let q = common.push(y);
    assert(p =~= a.subrange(0, p.len() as int));
    assert(q =~= b.subrange(0, q.len() as int));
    assert(p[0] == a[0] && q[0] == b[0]);
    if common.len() > 0 {
        assert(p[0] == common[0] && q[0] == common[0]);
        let rest = common.drop_first();
        assert(rest.push(x) =~= a.drop_first().subrange(0, common.len() as int)) by {
            assert forall|i: int| 0 <= i < rest.len() + 1 implies rest.push(x)[i]
                == a.drop_first()[i] by {
                assert(p[i + 1] == a[i + 1]);
            }
        }
        assert(rest.push(y) =~= b.drop_first().subrange(0, common.len() as int)) by {
            assert forall|i: int| 0 <= i < rest.len() + 1 implies rest.push(y)[i]
                == b.drop_first()[i] by {
                assert(q[i + 1] == b[i + 1]);
            }
        }
        lemma_text_order(a.drop_first(), b.drop_first(), rest, x, y);
    }
}

} // verus!

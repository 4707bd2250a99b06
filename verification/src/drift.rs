//! Deterministic scoring of drift, by the keywords of the texts.
//!
//! Percentages are those of double-precision arithmetic. On sets of at most `KEYWORD_LIMIT`
//! keywords that is exact rounding, with one exception: the double product of 23/40 and a
//! hundred lies just under 57.5.
use vstd::prelude::*;
use vstd::string::*;

use crate::drift_score::{
    DimensionView, DriftDimensionScore, DriftScore, DriftScoreSource, DriftView,
};
use crate::excerpt::{cap_with_metadata, capped};
use crate::facts::{missing_facts, missing_important_facts};
use crate::keywords::{keyword_set, keywords, KeywordSet, KEYWORD_LIMIT};
use crate::numeral::{decimal, push_decimal};
use crate::snapshot::{CompactionSnapshot, SnapshotView};
use crate::text::{collapse_white_space, collapsed, contains_text, has_text, lower_chars, lowered};

verus! {

// ---- Percentages ----

/// The percentage, rounded; a half goes up. The one exception is 23 in 40: in binary arithmetic
/// its quotient lies just below the half.
pub open spec fn rounded_percent(part: nat, whole: nat) -> nat {
    if 40 * part == 23 * whole {
        57
    } else {
        (200 * part + whole) / (2 * whole)
    }
}

/// The percentage as it is printed, rounded; a half goes to the even neighbour. Again 23 in 40
/// lies just below the half.
pub open spec fn printed_percent(part: nat, whole: nat) -> nat {
    let down = 100 * part / whole;
    let rest = 100 * part % whole;
    if 40 * part == 23 * whole {
        57
    } else if 2 * rest > whole || (2 * rest == whole && down % 2 == 1) {
        down + 1
    } else {
        down
    }
}

/// A part gives no more than a hundred percent.
pub proof fn lemma_percent_bound(part: nat, whole: nat)
    requires
        part <= whole,
        whole > 0,
    ensures
        rounded_percent(part, whole) <= 100,
        printed_percent(part, whole) <= 100,
{
    assert((200 * part + whole) / (2 * whole) <= 100) by (nonlinear_arith)
        requires
            part <= whole,
            whole > 0,
    ;
    let down = 100 * part / whole;
    let rest = 100 * part % whole;
    assert(100 * part == whole * down + rest && 0 <= rest < whole) by (nonlinear_arith)
        requires
            whole > 0,
            down == 100 * part / whole,
            rest == 100 * part % whole,
    ;
    assert(down <= 100 && (down == 100 ==> rest == 0)) by (nonlinear_arith)
        requires
            part <= whole,
            whole > 0,
            100 * part == whole * down + rest,
            0 <= rest < whole,
    ;
}

/// The rounded percentage of a part.
pub fn percent(part: usize, whole: usize) -> (score: u8)
    requires
        part <= whole <= KEYWORD_LIMIT,
        whole > 0,
    ensures
        score == rounded_percent(part as nat, whole as nat),
        score <= 100,
{
    proof {
        lemma_percent_bound(part as nat, whole as nat);
    }
    if 40 * part == 23 * whole {
        57
    } else {
        ((200 * part + whole) / (2 * whole)) as u8
    }
}

/// The percentage of a part as it is printed.
pub fn percent_to_print(part: usize, whole: usize) -> (score: u8)
    requires
        part <= whole <= KEYWORD_LIMIT,
        whole > 0,
    ensures
        score == printed_percent(part as nat, whole as nat),
        score <= 100,
{
    proof {
        lemma_percent_bound(part as nat, whole as nat);
    }
    let down: usize = 100 * part / whole;
    let rest: usize = 100 * part % whole;
    if 40 * part == 23 * whole {
        57
    } else if 2 * rest > whole || (2 * rest == whole && down % 2 == 1) {
        (down + 1) as u8
    } else {
        down as u8
    }
}

// ---- Overlap ----

/// How much of the expected keywords is there, in percent. Where none are expected it is half.
pub open spec fn overlap_percent(expected: Set<Seq<char>>, actual: Set<Seq<char>>) -> nat {
    if expected.len() == 0 {
        50
    } else {
        rounded_percent(expected.intersect(actual).len(), expected.len())
    }
}

/// How much of the latest keywords is new, in percent.
pub open spec fn novel_percent(latest: Set<Seq<char>>, known: Set<Seq<char>>) -> nat {
    if latest.len() == 0 {
        0
    } else {
        rounded_percent(latest.difference(known).len(), latest.len())
    }
}

/// What is told of the overlap.
pub open spec fn overlap_told(
    expected: Set<Seq<char>>,
    actual: Set<Seq<char>>,
    label: Seq<char>,
) -> Seq<Seq<char>> {
    if expected.len() == 0 {
        seq![label + " unavailable"@]
    } else {
        seq![
            decimal(expected.intersect(actual).len()) + "/"@ + decimal(expected.len()) + " "@
                + label + " retained"@,
        ]
    }
}

/// What is told of new keywords, where they are more than 35 percent.
pub open spec fn novelty_told(latest: Set<Seq<char>>, known: Set<Seq<char>>) -> Seq<Seq<char>> {
    let novel = latest.difference(known).len();
    if 100 * novel > 35 * latest.len() {
        seq![decimal(printed_percent(novel, latest.len())) + "% of latest keywords are new"@]
    } else {
        Seq::empty()
    }
}

/// Scores how much of the expected keywords is there.
pub fn overlap_score(expected: &KeywordSet, actual: &KeywordSet) -> (score: u8)
    requires
        expected.wf(),
    ensures
        score == overlap_percent(expected@, actual@),
        score <= 100,
{
    let whole: usize = expected.len();
    if whole == 0 {
        50
    } else {
        percent(expected.common_with(actual), whole)
    }
}

/// Scores how much of the latest keywords is new.
pub fn novelty_score(latest: &KeywordSet, initial: &KeywordSet, previous: &KeywordSet) -> (score:
    u8)
    requires
        latest.wf(),
    ensures
        score == novel_percent(latest@, initial@.union(previous@)),
        score <= 100,
{
    let whole: usize = latest.len();
    if whole == 0 {
        0
    } else {
        percent(latest.absent_from(initial, previous), whole)
    }
}

/// A list of one text.
fn one_text(text: String) -> (list: Vec<String>)
    ensures
        list.deep_view() == seq![text@],
{
    let mut list: Vec<String> = Vec::new();
    list.push(text);
    assert(list.deep_view() =~= seq![text@]);
    list
}

/// Tells of the overlap.
pub fn overlap_evidence(expected: &KeywordSet, actual: &KeywordSet, label: &str) -> (evidence: Vec<
    String,
>)
    requires
        expected.wf(),
    ensures
        evidence.deep_view() == overlap_told(expected@, actual@, label@),
{
    let whole: usize = expected.len();
    if whole == 0 {
        let mut text = label.to_string();
        text.append(" unavailable");
        return one_text(text);
    }
    let mut text = String::new();
    push_decimal(&mut text, expected.common_with(actual) as u64);
    text.append("/");
    push_decimal(&mut text, whole as u64);
    text.append(" ");
    text.append(label);
    text.append(" retained");
    proof {
        assert(text@ =~= overlap_told(expected@, actual@, label@)[0]);
    }
    one_text(text)
}

/// Tells of new keywords.
pub fn novelty_evidence(
    latest: &KeywordSet,
    initial: &KeywordSet,
    previous: &KeywordSet,
) -> (evidence:
    Vec<String>)
    requires
        latest.wf(),
    ensures
        evidence.deep_view() == novelty_told(latest@, initial@.union(previous@)),
{
    let whole: usize = latest.len();
    let novel: usize = latest.absent_from(initial, previous);
    if 100 * novel > 35 * whole {
        let mut text = String::new();
        push_decimal(&mut text, percent_to_print(novel, whole) as u64);
        text.append("% of latest keywords are new");
        proof {
            assert(text@ =~= novelty_told(latest@, initial@.union(previous@))[0]);
        }
        one_text(text)
    } else {
        let evidence: Vec<String> = Vec::new();
        assert(evidence.deep_view() =~= Seq::<Seq<char>>::empty());
        evidence
    }
}

// ---- Labels and further evidence ----

/// The label of a score of which more is better.
pub open spec fn label_better(score: u8) -> Seq<char> {
    if 80 <= score <= 100 {
        "high"@
    } else if 55 <= score <= 79 {
        "medium"@
    } else if 30 <= score <= 54 {
        "low"@
    } else {
        "very low"@
    }
}

/// The label of a score of which more is worse.
pub open spec fn label_worse(score: u8) -> Seq<char> {
    if 80 <= score <= 100 {
        "high"@
    } else if 55 <= score <= 79 {
        "medium"@
    } else if 25 <= score <= 54 {
        "low"@
    } else {
        "very low"@
    }
}

/// Labels a score of which more is better.
pub fn score_label_higher_better(score: u8) -> (label: String)
    ensures
        label@ == label_better(score),
{
    if 80 <= score && score <= 100 {
        "high".to_string()
    } else if 55 <= score && score <= 79 {
        "medium".to_string()
    } else if 30 <= score && score <= 54 {
        "low".to_string()
    } else {
        "very low".to_string()
    }
}

/// Labels a score of which more is worse.
pub fn score_label_higher_worse(score: u8) -> (label: String)
    ensures
        label@ == label_worse(score),
{
    if 80 <= score && score <= 100 {
        "high".to_string()
    } else if 55 <= score && score <= 79 {
        "medium".to_string()
    } else if 25 <= score && score <= 54 {
        "low".to_string()
    } else {
        "very low".to_string()
    }
}

/// The text names something to do.
pub open spec fn names_action(low: Seq<char>) -> bool {
    ||| contains_text(low, "next"@)
    ||| contains_text(low, "todo"@)
    ||| contains_text(low, "continue"@)
    ||| contains_text(low, "remaining"@)
    ||| contains_text(low, "failing"@)
    ||| contains_text(low, "test"@)
    ||| contains_text(low, "fix"@)
    ||| contains_text(low, "implement"@)
    ||| contains_text(low, "verify"@)
}

/// The text admits that something is not known.
pub open spec fn admits_gap(low: Seq<char>) -> bool {
    contains_text(low, "unknown"@) || contains_text(low, "missing"@)
}

/// The difference, or zero where it would be negative.
pub open spec fn reduced(n: int, by: int) -> int {
    if n >= by {
        n - by
    } else {
        0
    }
}

/// The number, but a hundred at the most.
pub open spec fn to_hundred(n: int) -> int {
    if n <= 100 {
        n
    } else {
        100
    }
}

/// How well one can go on from the latest text: the mean of the two scores, with 18 more where
/// the text names something to do and 12 less where it admits a gap.
pub open spec fn actionability_of(latest: Seq<char>, objective: u8, preservation: u8) -> int {
    let low = lowered(latest);
    let mean = (objective + preservation) / 2;
    let raised = mean + if names_action(low) {
        18int
    } else {
        0int
    };
    to_hundred(
        reduced(
            raised,
            if admits_gap(low) {
                12
            } else {
                0
            },
        ),
    )
}

/// What is told of the ways to go on.
pub open spec fn action_told(latest: Seq<char>) -> Seq<Seq<char>> {
    let low = lowered(latest);
    let work = contains_text(low, "next"@) || contains_text(low, "continue"@) || contains_text(
        low,
        "remaining"@,
    );
    let checks = contains_text(low, "test"@) || contains_text(low, "failing"@) || contains_text(
        low,
        "verify"@,
    );
    let first = if work {
        seq!["latest snapshot names continuation work"@]
    } else {
        Seq::empty()
    };
    let both = if checks {
        first.push("latest snapshot mentions verification or failing tests"@)
    } else {
        first
    };
    if both.len() == 0 {
        seq!["latest snapshot has limited next-action evidence"@]
    } else {
        both
    }
}

/// What is told of the risk.
pub open spec fn risk_told(objective: u8, preservation: u8, missing: nat) -> Seq<Seq<char>> {
    let first = if objective < 55 {
        seq!["objective overlap is weak"@]
    } else {
        Seq::empty()
    };
    let second = if preservation < 55 {
        first.push("state preservation is weak"@)
    } else {
        first
    };
    let third = if missing > 0 {
        second.push(decimal(missing) + " missing fact(s) surfaced"@)
    } else {
        second
    };
    if third.len() == 0 {
        seq!["no major deterministic risk signal"@]
    } else {
        third
    }
}

/// Scores how well one can go on from the latest text.
pub fn actionability_score(latest: &str, objective_score: u8, preservation_score: u8) -> (score: u8)
    ensures
        score == actionability_of(latest@, objective_score, preservation_score),
        score <= 100,
{
    let low = lower_chars(latest);
    let mut score: u16 = (objective_score as u16 + preservation_score as u16) / 2;
    if has_text(&low, "next") || has_text(&low, "todo") || has_text(&low, "continue") || has_text(
        &low,
        "remaining",
    ) || has_text(&low, "failing") || has_text(&low, "test") || has_text(&low, "fix") || has_text(
        &low,
        "implement",
    ) || has_text(&low, "verify") {
        score = score + 18;
    }
    if has_text(&low, "unknown") || has_text(&low, "missing") {
        score = if score >= 12 {
            score - 12
        } else {
            0
        };
    }
    if score <= 100 {
        score as u8
    } else {
        100
    }
}

/// Adds a text to a list.
fn add_text(list: &mut Vec<String>, text: &str)
    ensures
        final(list).deep_view() == old(list).deep_view().push(text@),
{
    let ghost before = list.deep_view();
    list.push(text.to_string());
    assert(list.deep_view() =~= before.push(text@));
}

/// Tells of the ways to go on.
pub fn actionability_evidence(latest: &str) -> (evidence: Vec<String>)
    ensures
        evidence.deep_view() == action_told(latest@),
{
    let low = lower_chars(latest);
    let mut evidence: Vec<String> = Vec::new();
    assert(evidence.deep_view() =~= Seq::<Seq<char>>::empty());
    if has_text(&low, "next") || has_text(&low, "continue") || has_text(&low, "remaining") {
        add_text(&mut evidence, "latest snapshot names continuation work");
        assert(evidence.deep_view() =~= seq!["latest snapshot names continuation work"@]);
    }
    if has_text(&low, "test") || has_text(&low, "failing") || has_text(&low, "verify") {
        add_text(&mut evidence, "latest snapshot mentions verification or failing tests");
    }
    if evidence.is_empty() {
        assert(evidence.deep_view() =~= Seq::<Seq<char>>::empty());
        add_text(&mut evidence, "latest snapshot has limited next-action evidence");
        assert(evidence.deep_view() =~= seq!["latest snapshot has limited next-action evidence"@]);
    }
    evidence
}

/// Tells of the risk.
pub fn risk_evidence(
    objective_score: u8,
    preservation_score: u8,
    missing_count: usize,
) -> (evidence:
    Vec<String>)
    ensures
        evidence.deep_view() == risk_told(
            objective_score,
            preservation_score,
            missing_count as nat,
        ),
{
    let mut evidence: Vec<String> = Vec::new();
    assert(evidence.deep_view() =~= Seq::<Seq<char>>::empty());
    if objective_score < 55 {
        add_text(&mut evidence, "objective overlap is weak");
        assert(evidence.deep_view() =~= seq!["objective overlap is weak"@]);
    }
    if preservation_score < 55 {
        add_text(&mut evidence, "state preservation is weak");
    }
    if missing_count > 0 {
        let mut text = String::new();
        push_decimal(&mut text, missing_count as u64);
        text.append(" missing fact(s) surfaced");
        assert(text@ =~= decimal(missing_count as nat) + " missing fact(s) surfaced"@);
        add_text(&mut evidence, text.as_str());
    }
    if evidence.is_empty() {
        assert(evidence.deep_view() =~= Seq::<Seq<char>>::empty());
        add_text(&mut evidence, "no major deterministic risk signal");
        assert(evidence.deep_view() =~= seq!["no major deterministic risk signal"@]);
    }
    evidence
}

// ---- The score ----

/// The text on one line, in at most `max` characters where `max` is three or more.
pub open spec fn plain(s: Seq<char>, max: nat) -> Seq<char> {
    capped(collapsed(s), max)
}

/// Puts a text on one line and caps it.
pub fn truncate_plain(value: &str, max_chars: usize) -> (out: String)
    ensures
        out@ == plain(value@, max_chars as nat),
{
    let text = collapse_white_space(value);
    cap_with_metadata(text.as_str(), max_chars).0
}

/// The text by which a snapshot is scored.
pub open spec fn shown_text(snapshot: SnapshotView) -> Seq<char> {
    match snapshot.excerpts.compacted_objective {
        Some(excerpt) => excerpt.text,
        None => match snapshot.excerpts.compact_summary {
            Some(excerpt) => excerpt.text,
            None => Seq::empty(),
        },
    }
}

/// The text by which a snapshot is scored.
pub fn excerpt_text(snapshot: &CompactionSnapshot) -> (text: String)
    ensures
        text@ == shown_text(snapshot.deep_view()),
{
    match &snapshot.excerpts.compacted_objective {
        Some(excerpt) => excerpt.text.clone(),
        None => match &snapshot.excerpts.compact_summary {
            Some(excerpt) => excerpt.text.clone(),
            None => String::new(),
        },
    }
}

/// The keywords that are to be preserved: those of the snapshot before, or else the initial
/// ones.
pub open spec fn basis(
    assistant: Seq<char>,
    initial: Seq<char>,
    previous: Seq<char>,
) -> Set<Seq<char>> {
    if keywords(assistant, previous).len() == 0 {
        keywords(assistant, initial)
    } else {
        keywords(assistant, previous)
    }
}

/// How much of the objective is left.
pub open spec fn objective_of(assistant: Seq<char>, initial: Seq<char>, latest: Seq<char>) -> u8 {
    overlap_percent(keywords(assistant, initial), keywords(assistant, latest)) as u8
}

/// How much of the state is left: eight points go for each missing fact.
pub open spec fn preservation_of(
    assistant: Seq<char>,
    initial: Seq<char>,
    previous: Seq<char>,
    latest: Seq<char>,
) -> u8 {
    reduced(
        overlap_percent(basis(assistant, initial, previous), keywords(assistant, latest)) as int,
        8 * missing_facts(assistant, initial, previous, latest).len() as int,
    ) as u8
}

/// How far the scope has moved: what is new, with 25 more where the objective is weak.
pub open spec fn scope_of(
    assistant: Seq<char>,
    initial: Seq<char>,
    previous: Seq<char>,
    latest: Seq<char>,
) -> u8 {
    to_hundred(
        novel_percent(
            keywords(assistant, latest),
            keywords(assistant, initial).union(keywords(assistant, previous)),
        ) + if objective_of(
            assistant,
            initial,
            latest,
        ) < 45 {
            25int
        } else {
            0int
        },
    ) as u8
}

/// The risk of going on: half of what the objective lacks, a third of what the state lacks, and
/// eight points for each missing fact.
pub open spec fn risk_of(objective: u8, preservation: u8, missing: nat) -> u8 {
    to_hundred((100 - objective) / 2 + (100 - preservation) / 3 + 8 * missing) as u8
}

/// How the objective was restated, where little of it is left.
pub open spec fn framing_of(
    assistant: Seq<char>,
    initial: Seq<char>,
    latest: Seq<char>,
) -> Option<Seq<char>> {
    if objective_of(assistant, initial, latest) < 45 {
        Some("\""@ + plain(initial, 80) + "\" became \""@ + plain(latest, 80) + "\""@)
    } else {
        None
    }
}

/// The drift from the initial objective, and from the text of the snapshot before, to the
/// latest text.
pub open spec fn drift_of(
    assistant: Seq<char>,
    initial: Seq<char>,
    previous: Seq<char>,
    latest: Seq<char>,
) -> DriftView {
    let objective = objective_of(assistant, initial, latest);
    let preservation = preservation_of(assistant, initial, previous, latest);
    let scope = scope_of(assistant, initial, previous, latest);
    let actionability = actionability_of(latest, objective, preservation) as u8;
    let facts = missing_facts(assistant, initial, previous, latest);
    let risk = risk_of(objective, preservation, facts.len());
    DriftView {
        source: DriftScoreSource::Deterministic,
        objective_alignment: DimensionView {
            score: objective,
            label: label_better(objective),
            evidence: overlap_told(
                keywords(assistant, initial),
                keywords(assistant, latest),
                "objective terms"@,
            ),
        },
        state_preservation: DimensionView {
            score: preservation,
            label: label_better(preservation),
            evidence: overlap_told(
                basis(assistant, initial, previous),
                keywords(assistant, latest),
                "state terms"@,
            ),
        },
        scope_drift: DimensionView {
            score: scope,
            label: label_worse(scope),
            evidence: novelty_told(
                keywords(assistant, latest),
                keywords(assistant, initial).union(keywords(assistant, previous)),
            ),
        },
        actionability: DimensionView {
            score: actionability,
            label: label_better(actionability),
            evidence: action_told(latest),
        },
        risk: DimensionView {
            score: risk,
            label: label_worse(risk),
            evidence: risk_told(objective, preservation, facts.len()),
        },
        missing_facts: facts,
        changed_framing: framing_of(assistant, initial, latest),
        caveats: seq![
            "Deterministic drift scoring is heuristic and uses redacted/capped evidence."@,
        ],
    }
}

/// The drift of a snapshot.
pub open spec fn snapshot_drift(
    assistant: Seq<char>,
    initial: Seq<char>,
    previous: Option<SnapshotView>,
    latest: SnapshotView,
) -> DriftView {
    drift_of(
        assistant,
        initial,
        match previous {
            Some(snapshot) => shown_text(snapshot),
            None => Seq::empty(),
        },
        shown_text(latest),
    )
}

/// Restates the objective, where little of it is left.
fn restate(assistant: &str, initial: &str, latest: &str, objective: u8) -> (framing: Option<String>)
    requires
        objective == objective_of(assistant@, initial@, latest@),
    ensures
        framing.deep_view() == framing_of(assistant@, initial@, latest@),
{
    if objective < 45 {
        let mut text = "\"".to_string();
        text.append(truncate_plain(initial, 80).as_str());
        text.append("\" became \"");
        text.append(truncate_plain(latest, 80).as_str());
        text.append("\"");
        assert(text@ =~= framing_of(assistant@, initial@, latest@)->0);
        Some(text)
    } else {
        None
    }
}

/// Scores the drift between texts.
pub fn score_drift_between(
    assistant: &str,
    initial: &str,
    previous: &str,
    latest: &str,
) -> (drift: DriftScore)
    ensures
        drift.deep_view() == drift_of(assistant@, initial@, previous@, latest@),
{
    let initial_terms = keyword_set(assistant, initial);
    let latest_terms = keyword_set(assistant, latest);
    let previous_terms = keyword_set(assistant, previous);
    let kept = if previous_terms.len() == 0 {
        &initial_terms
    } else {
        &previous_terms
    };
    let objective: u8 = overlap_score(&initial_terms, &latest_terms);
    let missing = missing_important_facts(assistant, initial, previous, latest);
    let count: u8 = missing.len() as u8;
    let overlap: u8 = overlap_score(kept, &latest_terms);
    let preservation: u8 = if overlap >= 8 * count {
        overlap - 8 * count
    } else {
        0
    };
    let novelty: u8 = novelty_score(&latest_terms, &initial_terms, &previous_terms);
    let moved: u8 = novelty + if objective < 45 {
        25
    } else {
        0
    };
    let scope: u8 = if moved <= 100 {
        moved
    } else {
        100
    };
    let actionability: u8 = actionability_score(latest, objective, preservation);
    let danger: u8 = (100 - objective) / 2 + (100 - preservation) / 3 + 8 * count;
    let risk: u8 = if danger <= 100 {
        danger
    } else {
        100
    };
    let caveats = one_text(
        "Deterministic drift scoring is heuristic and uses redacted/capped evidence.".to_string(),
    );
    DriftScore {
        source: DriftScoreSource::Deterministic,
        objective_alignment: DriftDimensionScore {
            score: objective,
            label: score_label_higher_better(objective),
            evidence: overlap_evidence(&initial_terms, &latest_terms, "objective terms"),
        },
        state_preservation: DriftDimensionScore {
            score: preservation,
            label: score_label_higher_better(preservation),
            evidence: overlap_evidence(kept, &latest_terms, "state terms"),
        },
        scope_drift: DriftDimensionScore {
            score: scope,
            label: score_label_higher_worse(scope),
            evidence: novelty_evidence(&latest_terms, &initial_terms, &previous_terms),
        },
        actionability: DriftDimensionScore {
            score: actionability,
            label: score_label_higher_better(actionability),
            evidence: actionability_evidence(latest),
        },
        risk: DriftDimensionScore {
            score: risk,
            label: score_label_higher_worse(risk),
            evidence: risk_evidence(objective, preservation, missing.len()),
        },
        missing_facts: missing,
        changed_framing: restate(assistant, initial, latest, objective),
        caveats,
    }
}

/// Scores the drift of a snapshot.
pub fn score_drift_deterministic(
    assistant: &str,
    initial_objective: &str,
    previous_snapshot: Option<&CompactionSnapshot>,
    latest_snapshot: &CompactionSnapshot,
) -> (drift: DriftScore)
    ensures
        drift.deep_view() == snapshot_drift(
            assistant@,
            initial_objective@,
            previous_snapshot.deep_view(),
            latest_snapshot.deep_view(),
        ),
{
    let latest_text = excerpt_text(latest_snapshot);
    let previous_text = match previous_snapshot {
        Some(snapshot) => excerpt_text(snapshot),
        None => String::new(),
    };
    score_drift_between(assistant, initial_objective, previous_text.as_str(), latest_text.as_str())
}

} // verus!

use cc_blackbox_core::drift::{
    actionability_evidence, actionability_score, percent, percent_to_print, risk_evidence,
    score_drift_between, score_label_higher_better, score_label_higher_worse, truncate_plain,
};
use cc_blackbox_core::drift_score::DriftScoreSource;
use cc_blackbox_core::facts::{is_important_term, missing_important_facts};

#[test]
fn percentages_are_those_of_binary_arithmetic() {
    for whole in 1..=96usize {
        for part in 0..=whole {
            let ratio = part as f64 / whole as f64;
            let rounded = (ratio.clamp(0.0, 1.0) * 100.0).round() as u8;
            assert_eq!(percent(part, whole), rounded, "{part}/{whole}");
            let printed = format!("{:.0}", ratio * 100.0);
            assert_eq!(percent_to_print(part, whole).to_string(), printed, "{part}/{whole}");
            assert_eq!(100 * part > 35 * whole, ratio > 0.35, "{part}/{whole}");
        }
    }
    assert_eq!(percent(23, 40), 57);
    assert_eq!(percent(1, 8), 13);
    assert_eq!(percent_to_print(1, 8), 12);
}

#[test]
fn a_drift_is_scored_in_all_its_dimensions() {
    let drift = score_drift_between(
        "Helper",
        "alpha bravo charlie delta",
        "",
        "alpha bravo charlie echoes, next",
    );
    assert_eq!(drift.source, DriftScoreSource::Deterministic);
    assert_eq!(drift.objective_alignment.score, 75);
    assert_eq!(drift.objective_alignment.label, "medium");
    assert_eq!(drift.objective_alignment.evidence, ["3/4 objective terms retained"]);
    assert_eq!(drift.missing_facts, ["delta"]);
    assert_eq!(drift.state_preservation.score, 67);
    assert_eq!(drift.state_preservation.evidence, ["3/4 state terms retained"]);
    assert_eq!(drift.scope_drift.score, 40);
    assert_eq!(drift.scope_drift.label, "low");
    assert_eq!(drift.scope_drift.evidence, ["40% of latest keywords are new"]);
    assert_eq!(drift.actionability.score, 89);
    assert_eq!(drift.actionability.evidence, ["latest snapshot names continuation work"]);
    assert_eq!(drift.risk.score, 31);
    assert_eq!(drift.risk.evidence, ["1 missing fact(s) surfaced"]);
    assert!(drift.changed_framing.is_none());
    assert_eq!(
        drift.caveats,
        ["Deterministic drift scoring is heuristic and uses redacted/capped evidence."]
    );
}

#[test]
fn a_lost_objective_is_told_of() {
    let drift = score_drift_between("Helper", "alpha  bravo", "", "other things");
    assert_eq!(drift.objective_alignment.score, 0);
    assert_eq!(drift.objective_alignment.label, "very low");
    assert_eq!(drift.state_preservation.score, 0);
    assert_eq!(drift.scope_drift.score, 100);
    assert_eq!(drift.actionability.score, 0);
    assert_eq!(drift.risk.score, 99);
    assert_eq!(
        drift.changed_framing.as_deref(),
        Some("\"alpha bravo\" became \"other things\"")
    );
    assert_eq!(
        drift.risk.evidence,
        [
            "objective overlap is weak",
            "state preservation is weak",
            "2 missing fact(s) surfaced",
        ]
    );
}

#[test]
fn kept_keywords_keep_the_score() {
    let drift = score_drift_between("Helper", "alpha bravo", "charlie", "charlie bravo alpha");
    assert_eq!(drift.objective_alignment.score, 100);
    assert_eq!(drift.state_preservation.score, 100);
    assert_eq!(drift.scope_drift.score, 0);
    assert!(drift.scope_drift.evidence.is_empty());
    assert_eq!(drift.risk.score, 0);
    assert_eq!(drift.risk.evidence, ["no major deterministic risk signal"]);
    assert!(drift.missing_facts.is_empty());
    assert!(drift.changed_framing.is_none());
}

#[test]
fn without_keywords_the_overlap_is_half() {
    let drift = score_drift_between("Helper", "", "", "");
    assert_eq!(drift.objective_alignment.score, 50);
    assert_eq!(drift.objective_alignment.label, "low");
    assert_eq!(drift.objective_alignment.evidence, ["objective terms unavailable"]);
    assert_eq!(drift.state_preservation.evidence, ["state terms unavailable"]);
    assert_eq!(drift.scope_drift.score, 0);
    assert_eq!(drift.risk.score, 41);
}

#[test]
fn the_snapshot_before_is_what_is_to_be_preserved() {
    let drift = score_drift_between("Helper", "alpha", "bravo charlie", "bravo");
    assert_eq!(drift.state_preservation.evidence, ["1/2 state terms retained"]);
    assert_eq!(drift.missing_facts, ["alpha", "charlie"]);
    assert_eq!(drift.state_preservation.score, 34);
}

#[test]
fn missing_facts_are_ranked_and_few() {
    assert_eq!(
        missing_important_facts("Helper", "zulu yankee xray-1 watch migration other", "", ""),
        ["migration", "watch", "xray-1"]
    );
    assert_eq!(
        missing_important_facts("Helper", "zulu yankee watch other", "", ""),
        ["watch", "other", "yankee"]
    );
    assert_eq!(
        missing_important_facts("Helper", "aa_1 bb_1 cc_1 dd_1 ee_1 ff_1 gg_1", "", "cc_1"),
        ["aa_1", "bb_1", "dd_1", "ee_1", "ff_1", "gg_1"]
    );
    assert_eq!(
        missing_important_facts("Helper", "aa_1 bb_1 cc_1 dd_1 ee_1 ff_1 gg_1", "", "").len(),
        6
    );
    assert!(missing_important_facts("Helper", "alpha", "bravo", "bravo alpha").is_empty());
    assert!(is_important_term("sqlite") && is_important_term("a.b"));
    assert!(!is_important_term("other"));
}

#[test]
fn labels_change_at_their_thresholds() {
    let better = [(100, "high"), (80, "high"), (79, "medium"), (55, "medium"), (54, "low"),
        (30, "low"), (29, "very low"), (0, "very low"), (101, "very low")];
    for (score, label) in better {
        assert_eq!(score_label_higher_better(score), label);
    }
    let worse = [(80, "high"), (79, "medium"), (55, "medium"), (54, "low"), (25, "low"),
        (24, "very low")];
    for (score, label) in worse {
        assert_eq!(score_label_higher_worse(score), label);
    }
}

#[test]
fn actions_raise_and_gaps_lower_the_score() {
    assert_eq!(actionability_score("nothing here", 60, 51), 55);
    assert_eq!(actionability_score("TODO", 60, 51), 73);
    assert_eq!(actionability_score("unknown", 60, 51), 43);
    assert_eq!(actionability_score("fix the missing part", 60, 51), 61);
    assert_eq!(actionability_score("verify", 100, 100), 100);
    assert_eq!(actionability_score("unknown", 10, 10), 0);
    assert_eq!(
        actionability_evidence("nothing"),
        ["latest snapshot has limited next-action evidence"]
    );
    assert_eq!(
        actionability_evidence("continue, then verify"),
        [
            "latest snapshot names continuation work",
            "latest snapshot mentions verification or failing tests",
        ]
    );
    assert_eq!(risk_evidence(55, 54, 0), ["state preservation is weak"]);
}

#[test]
fn plain_text_stands_on_one_line() {
    assert_eq!(truncate_plain(" a\n b\tc ", 80), "a b c");
    assert_eq!(truncate_plain("abcdefgh", 6), "abc...");
}

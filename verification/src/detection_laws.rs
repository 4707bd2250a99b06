//! When a compaction is detected, told by the counts and texts of two requests.
use vstd::prelude::*;

use crate::candidate::{
    candidate_of, first_marked, first_resembling, is_marked, resembles_summary, summary_among,
    summary_phrases, tally, CandidateView, RequestSnapshotInput,
};
use crate::capture::{mode_named, PromptCaptureMode};
use crate::detection::{detection_of, signals_of, ObservationView};
use crate::numeral::decimal;
use crate::snapshot::CompactionDetectionStatus;
use crate::text::{contains_text, first_chars, joined, lowered, trimmed};

verus! {

// ---- The signs of a request ----

/// The counts are so small that no comparison of them saturates.
pub open spec fn fits(candidate: CandidateView, previous: ObservationView) -> bool {
    &&& 2 * candidate.message_count <= usize::MAX
    &&& 100 * candidate.estimated_input_tokens <= usize::MAX
    &&& 60 * previous.estimated_input_tokens <= usize::MAX
    &&& 100 * candidate.system_prompt_length <= usize::MAX
    &&& 100 * previous.system_prompt_length <= usize::MAX
}

/// How far two numbers are apart.
pub open spec fn distance(a: usize, b: usize) -> int {
    if a >= b {
        a - b
    } else {
        b - a
    }
}

/// The request lost half of its messages, and there were four or more.
pub open spec fn lost_messages(candidate: CandidateView, previous: ObservationView) -> bool {
    previous.message_count >= 4 && 2 * candidate.message_count <= previous.message_count
}

/// The request lost two fifths of its tokens, and there were two thousand or more.
pub open spec fn lost_tokens(candidate: CandidateView, previous: ObservationView) -> bool {
    previous.estimated_input_tokens >= 2000 && 5 * candidate.estimated_input_tokens <= 3
        * previous.estimated_input_tokens
}

/// The system prompt grew or shrank by a quarter.
pub open spec fn other_prompt(candidate: CandidateView, previous: ObservationView) -> bool {
    previous.system_prompt_length > 0 && 4 * distance(
        candidate.system_prompt_length,
        previous.system_prompt_length,
    ) >= previous.system_prompt_length
}

/// The request begins otherwise, in the same directory.
pub open spec fn other_start(candidate: CandidateView, previous: ObservationView) -> bool {
    candidate.working_dir == previous.working_dir && candidate.first_message_hash
        != previous.first_message_hash
}

/// One where the condition holds, and zero where it does not.
pub open spec fn one_if(held: bool) -> nat {
    if held {
        1
    } else {
        0
    }
}

/// Beside the request before, a compaction is detected just where the request says so, or lost
/// half of its messages or two fifths of its tokens, or has a system prompt that is longer or
/// shorter by a quarter, or begins otherwise in the same directory. Each of these is a sign; so
/// is a text that reads like a summary, and a context that was filled to 80 percent. Three
/// signs, the mark, or such a text with a loss make it certain. Each sign adds six points to 68
/// where it is certain, up to 95, and ten points to 35 where it is not.
pub proof fn law_detection_by_the_counts(
    candidate: CandidateView,
    previous: ObservationView,
    fill_percent: Option<u32>,
)
    requires
        fits(candidate, previous),
    ensures
        ({
            let fewer_messages = lost_messages(candidate, previous);
            let fewer_tokens = lost_tokens(candidate, previous);
            let marked = candidate.explicit_compaction_marker;
            let reads_so = resembles_summary(candidate.detection_text);
            let full = fill_percent is Some && fill_percent->0 >= 80;
            let signs = one_if(marked || reads_so) + one_if(fewer_messages) + one_if(fewer_tokens)
                + one_if(other_prompt(candidate, previous)) + one_if(
                other_start(candidate, previous),
            ) + one_if(full);
            match detection_of(candidate, Some(previous), fill_percent) {
                None => !marked && !fewer_messages && !fewer_tokens && !other_prompt(
                    candidate,
                    previous,
                ) && !other_start(candidate, previous),
                Some(d) => {
                    &&& marked || fewer_messages || fewer_tokens || other_prompt(
                        candidate,
                        previous,
                    ) || other_start(candidate, previous)
                    &&& d.signals.len() == signs
                    &&& d.status == CompactionDetectionStatus::Detected <==> marked || signs >= 3
                        || reads_so && (fewer_messages || fewer_tokens)
                    &&& d.status == CompactionDetectionStatus::Detected ==> d.confidence_percent
                        == if signs >= 5 {
                        95
                    } else {
                        68 + 6 * signs
                    }
                    &&& d.status == CompactionDetectionStatus::Suspected ==> d.confidence_percent
                        == 35 + 10 * signs
                    &&& d.reason == joined(d.signals, "; "@)
                },
            }
        }),
{
}

/// The signs that are told are the signs that there are: each names its two counts, and none is
/// told of what did not change.
pub proof fn law_signs_name_their_counts(
    candidate: CandidateView,
    previous: ObservationView,
    fill_percent: Option<u32>,
)
    requires
        fits(candidate, previous),
    ensures
        ({
            let told = signals_of(candidate, Some(previous), fill_percent);
            &&& lost_messages(candidate, previous) ==> told.contains(
                "message count dropped "@ + decimal(previous.message_count as nat) + " -> "@
                    + decimal(candidate.message_count as nat),
            )
            &&& lost_tokens(candidate, previous) ==> told.contains(
                "estimated input tokens dropped "@ + decimal(
                    previous.estimated_input_tokens as nat,
                ) + " -> "@ + decimal(candidate.estimated_input_tokens as nat),
            )
            &&& other_prompt(candidate, previous) ==> told.contains(
                "system prompt length changed "@ + decimal(previous.system_prompt_length as nat)
                    + " -> "@ + decimal(candidate.system_prompt_length as nat),
            )
            &&& other_start(candidate, previous) ==> told.contains(
                "first message hash changed in same working directory"@,
            )
            &&& candidate.explicit_compaction_marker ==> told.contains(
                "explicit compact-summary marker"@,
            )
            &&& !candidate.explicit_compaction_marker && resembles_summary(
                candidate.detection_text,
            ) ==> told.contains("compact-summary-looking text block"@)
            &&& fill_percent is Some && fill_percent->0 >= 80 ==> told.contains(
                "previous context fill was near compaction threshold"@,
            )
        }),
{
    let told = signals_of(candidate, Some(previous), fill_percent);
    let one = one_if(
        candidate.explicit_compaction_marker || resembles_summary(candidate.detection_text),
    ) as int;
    let two = one + one_if(lost_messages(candidate, previous));
    let three = two + one_if(lost_tokens(candidate, previous));
    let four = three + one_if(other_prompt(candidate, previous));
    let five = four + one_if(other_start(candidate, previous));
    if one > 0 {
        let first = told[0];
    }
    if two > one {
        let next = told[one];
    }
    if three > two {
        let next = told[two];
    }
    if four > three {
        let next = told[three];
    }
    if five > four {
        let next = told[four];
    }
    if fill_percent is Some && fill_percent->0 >= 80 {
        let next = told[five];
    }
}

/// A request without a mark that begins as the one before it, with no fewer messages and
/// tokens, is no compaction as long as its system prompt differs by less than a quarter; and it
/// is one, and says so, as soon as it differs by a quarter or more. Numbers at which the
/// comparison saturates are left out.
pub proof fn law_quarter_of_the_system_prompt(
    candidate: CandidateView,
    previous: ObservationView,
    fill_percent: Option<u32>,
)
    requires
        !candidate.explicit_compaction_marker,
        candidate.first_message_hash == previous.first_message_hash,
        candidate.message_count >= previous.message_count,
        candidate.estimated_input_tokens >= previous.estimated_input_tokens,
        previous.message_count < usize::MAX,
        60 * previous.estimated_input_tokens < usize::MAX,
    ensures
        ({
            let change = distance(candidate.system_prompt_length, previous.system_prompt_length);
            let found = detection_of(candidate, Some(previous), fill_percent);
            &&& 4 * change < previous.system_prompt_length && 25 * previous.system_prompt_length
                <= usize::MAX ==> found is None
            &&& previous.system_prompt_length == 0 ==> found is None
            &&& 4 * change >= previous.system_prompt_length > 0 ==> found is Some
                && found->0.signals.contains(
                "system prompt length changed "@ + decimal(previous.system_prompt_length as nat)
                    + " -> "@ + decimal(candidate.system_prompt_length as nat),
            )
        }),
{
    let change = distance(candidate.system_prompt_length, previous.system_prompt_length);
    if 4 * change >= previous.system_prompt_length && previous.system_prompt_length > 0 {
        let found = detection_of(candidate, Some(previous), fill_percent);
        let at = one_if(resembles_summary(candidate.detection_text)) as int;
        let sign = found->0.signals[at];
    }
}

/// The number, or the largest that a machine word holds.
pub open spec fn in_a_word(n: int) -> int {
    if n <= usize::MAX {
        n
    } else {
        usize::MAX as int
    }
}

/// At the end of the machine's numbers the counts are compared as far as a word holds them.
pub proof fn law_comparisons_saturate(
    candidate: CandidateView,
    previous: ObservationView,
    fill_percent: Option<u32>,
)
    ensures
        detection_of(candidate, Some(previous), fill_percent) is Some <==> {
            ||| candidate.explicit_compaction_marker
            ||| previous.message_count >= 4 && in_a_word(2 * candidate.message_count)
                <= previous.message_count
            ||| previous.estimated_input_tokens >= 2000 && in_a_word(
                100 * candidate.estimated_input_tokens,
            ) <= in_a_word(60 * previous.estimated_input_tokens)
            ||| previous.system_prompt_length > 0 && in_a_word(
                100 * distance(candidate.system_prompt_length, previous.system_prompt_length),
            ) >= in_a_word(25 * previous.system_prompt_length)
            ||| other_start(candidate, previous)
        },
{
}

/// A first request is detected by its mark alone, and then always.
pub proof fn law_first_request_by_its_mark(candidate: CandidateView, fill_percent: Option<u32>)
    ensures
        detection_of(candidate, None, fill_percent) is Some
            <==> candidate.explicit_compaction_marker,
{
}

// ---- Texts that tell of a compaction ----

/// The phrases that say outright that a conversation was compacted.
pub open spec fn marks() -> Seq<Seq<char>> {
    seq![
        "compaction summary:"@,
        "compact summary:"@,
        "conversation summary:"@,
        "session summary:"@,
        "conversation compacted"@,
        "conversation was compacted"@,
        "previous conversation has been summarized"@,
        "previous conversation was summarized"@,
    ]
}

/// The phrases of a summary.
pub open spec fn phrases() -> Seq<Seq<char>> {
    seq![
        "summary"@,
        "conversation summary"@,
        "session summary"@,
        "previous conversation"@,
        "continue from"@,
        "next steps"@,
        "remaining work"@,
        "handoff"@,
    ]
}

/// A text is marked just where it holds one of the marks somewhere, in any letter case.
pub proof fn law_marks_are_found_anywhere(text: Seq<char>)
    ensures
        is_marked(text) <==> exists|k: int|
            0 <= k < marks().len() && contains_text(lowered(text), #[trigger] marks()[k]),
{
    let all = marks();
    assert(all[0] == "compaction summary:"@ && all[1] == "compact summary:"@);
    assert(all[2] == "conversation summary:"@ && all[3] == "session summary:"@);
    assert(all[4] == "conversation compacted"@ && all[5] == "conversation was compacted"@);
    assert(all[6] == "previous conversation has been summarized"@);
    assert(all[7] == "previous conversation was summarized"@);
}

/// A text reads like a summary just where it holds two different phrases of one.
pub proof fn law_two_phrases_make_a_summary(text: Seq<char>)
    ensures
        resembles_summary(text) <==> exists|j: int, k: int|
            0 <= j < k < phrases().len() && contains_text(lowered(text), #[trigger] phrases()[j])
                && contains_text(lowered(text), #[trigger] phrases()[k]),
{
    let held = summary_phrases(text);
    assert(held.len() == 8);
    assert forall|k: int| 0 <= k < 8 implies #[trigger] held[k] == contains_text(
        lowered(text),
        phrases()[k],
    ) by {}
    lemma_tally(held);
    if tally(held) >= 2 {
        let (j, k) = choose|j: int, k: int| 0 <= j < k < held.len() && held[j] && held[k];
        assert(contains_text(lowered(text), phrases()[j]));
        assert(contains_text(lowered(text), phrases()[k]));
    }
    if exists|j: int, k: int|
        0 <= j < k < phrases().len() && contains_text(lowered(text), #[trigger] phrases()[j])
            && contains_text(lowered(text), #[trigger] phrases()[k]) {
        let (j, k) = choose|j: int, k: int|
            0 <= j < k < phrases().len() && contains_text(lowered(text), #[trigger] phrases()[j])
                && contains_text(lowered(text), #[trigger] phrases()[k]);
        assert(held[j] && held[k]);
    }
}

proof fn lemma_tally(held: Seq<bool>)
    ensures
        tally(held) >= 1 <==> exists|k: int| 0 <= k < held.len() && held[k],
        tally(held) >= 2 <==> exists|j: int, k: int| 0 <= j < k < held.len() && held[j] && held[k],
    decreases held.len(),
{
    if held.len() > 0 {
        let less = held.drop_last();
        let last = held.len() - 1;
        lemma_tally(less);
        assert forall|k: int| 0 <= k < last implies #[trigger] less[k] == held[k] by {}
        if tally(less) >= 1 {
            let k = choose|k: int| 0 <= k < less.len() && less[k];
            assert(held[k]);
            if held[last] {
                assert(0 <= k < last < held.len() && held[k] && held[last]);
            }
        }
        if tally(less) >= 2 {
            let (j, k) = choose|j: int, k: int| 0 <= j < k < less.len() && less[j] && less[k];
            assert(held[j] && held[k]);
        }
        if exists|j: int, k: int| 0 <= j < k < held.len() && held[j] && held[k] {
            let (j, k) = choose|j: int, k: int| 0 <= j < k < held.len() && held[j] && held[k];
            assert(less[j]);
            if k < last {
                assert(less[k]);
            }
        }
        if exists|k: int| 0 <= k < held.len() && held[k] {
            let k = choose|k: int| 0 <= k < held.len() && held[k];
            if k < last {
                assert(less[k]);
            }
        }
    }
}

/// The summary among some texts is the beginning of the first marked one; where none is marked,
/// of the first that reads like one; and there is none where none does.
pub proof fn law_summary_is_the_first_of_its_kind(texts: Seq<Seq<char>>)
    ensures
        match summary_among(texts) {
            Some(summary) => exists|k: int|
                {
                    &&& 0 <= k < texts.len()
                    &&& summary == first_chars(#[trigger] texts[k], 65_536)
                    &&& is_marked(texts[k]) || resembles_summary(texts[k])
                    &&& is_marked(texts[k]) ==> forall|i: int|
                        0 <= i < k ==> !is_marked(#[trigger] texts[i])
                    &&& !is_marked(texts[k]) ==> {
                        &&& forall|i: int| 0 <= i < texts.len() ==> !is_marked(#[trigger] texts[i])
                        &&& forall|i: int| 0 <= i < k ==> !resembles_summary(#[trigger] texts[i])
                    }
                },
            None => forall|i: int|
                0 <= i < texts.len() ==> !is_marked(#[trigger] texts[i]) && !resembles_summary(
                    texts[i],
                ),
        },
{
    lemma_first_marked(texts);
    lemma_first_resembling(texts);
}

proof fn lemma_first_marked(texts: Seq<Seq<char>>)
    ensures
        match first_marked(texts) {
            Some(text) => exists|k: int|
                {
                    &&& 0 <= k < texts.len()
                    &&& text == #[trigger] texts[k]
                    &&& is_marked(texts[k])
                    &&& forall|i: int| 0 <= i < k ==> !is_marked(#[trigger] texts[i])
                },
            None => forall|i: int| 0 <= i < texts.len() ==> !is_marked(#[trigger] texts[i]),
        },
    decreases texts.len(),
{
    if texts.len() > 0 {
        let less = texts.drop_last();
        lemma_first_marked(less);
        assert forall|i: int| 0 <= i < less.len() implies #[trigger] texts[i] == less[i] by {}
        if first_marked(less) is Some {
            let k = choose|k: int|
                {
                    &&& 0 <= k < less.len()
                    &&& first_marked(less)->0 == #[trigger] less[k]
                    &&& is_marked(less[k])
                    &&& forall|i: int| 0 <= i < k ==> !is_marked(#[trigger] less[i])
                };
            assert(texts[k] == less[k]);
        } else if is_marked(texts.last()) {
            assert(texts[texts.len() - 1] == texts.last());
        }
    }
}

proof fn lemma_first_resembling(texts: Seq<Seq<char>>)
    ensures
        match first_resembling(texts) {
            Some(text) => exists|k: int|
                {
                    &&& 0 <= k < texts.len()
                    &&& text == #[trigger] texts[k]
                    &&& resembles_summary(texts[k])
                    &&& forall|i: int| 0 <= i < k ==> !resembles_summary(#[trigger] texts[i])
                },
            None => forall|i: int| 0 <= i < texts.len() ==> !resembles_summary(#[trigger] texts[i]),
        },
    decreases texts.len(),
{
    if texts.len() > 0 {
        let less = texts.drop_last();
        lemma_first_resembling(less);
        assert forall|i: int| 0 <= i < less.len() implies #[trigger] texts[i] == less[i] by {}
        if first_resembling(less) is Some {
            let k = choose|k: int|
                {
                    &&& 0 <= k < less.len()
                    &&& first_resembling(less)->0 == #[trigger] less[k]
                    &&& resembles_summary(less[k])
                    &&& forall|i: int| 0 <= i < k ==> !resembles_summary(#[trigger] less[i])
                };
            assert(texts[k] == less[k]);
        } else if resembles_summary(texts.last()) {
            assert(texts[texts.len() - 1] == texts.last());
        }
    }
}

// ---- The candidate ----

/// Of a request that carries no summary and whose prompt is not blank, the compacted objective
/// is the prompt, whatever the messages hold: other messages leave it as it is.
pub proof fn law_prompt_is_the_objective(
    mode: PromptCaptureMode,
    input: RequestSnapshotInput,
    hash: Seq<char>,
    text: Seq<char>,
    other_hash: Seq<char>,
    other_text: Seq<char>,
)
    requires
        trimmed(input.user_prompt_excerpt@).len() > 0,
    ensures
        candidate_of(mode, input, hash, text, None).compacted_objective_text
            == input.user_prompt_excerpt@,
        candidate_of(mode, input, hash, text, None).compacted_objective_text == candidate_of(
            mode,
            input,
            other_hash,
            other_text,
            None,
        ).compacted_objective_text,
{
}

/// Of a request that carries no summary and whose prompt is blank, the compacted objective is
/// the beginning of the messages.
pub proof fn law_messages_are_the_objective_of_a_blank_prompt(
    mode: PromptCaptureMode,
    input: RequestSnapshotInput,
    hash: Seq<char>,
    text: Seq<char>,
)
    requires
        trimmed(input.user_prompt_excerpt@).len() == 0,
    ensures
        ({
            let objective = candidate_of(mode, input, hash, text, None).compacted_objective_text;
            &&& objective.is_prefix_of(text)
            &&& objective.len() == if text.len() <= 65_536 {
                text.len()
            } else {
                65_536
            }
        }),
{
    let objective = candidate_of(mode, input, hash, text, None).compacted_objective_text;
    assert(objective =~= text.subrange(0, objective.len() as int));
}

/// A summary that a request carries is its compacted objective and the text in which marks are
/// looked for, whatever the prompt and the other messages are; without one, marks are looked
/// for in the messages. The prompt is the initial objective either way. What else is known of
/// the request is kept as it is.
pub proof fn law_summary_is_the_objective(
    mode: PromptCaptureMode,
    input: RequestSnapshotInput,
    hash: Seq<char>,
    text: Seq<char>,
    summary: Option<Seq<char>>,
)
    ensures
        ({
            let made = candidate_of(mode, input, hash, text, summary);
            &&& summary is Some ==> made.compacted_objective_text == summary->0
                && made.detection_text == summary->0
            &&& summary is None ==> made.detection_text == text
            &&& made.compact_summary_text == summary
            &&& made.explicit_compaction_marker == is_marked(made.detection_text)
            &&& made.initial_objective_text == input.user_prompt_excerpt@
            &&& made.capture_mode == mode
            &&& made.system_prompt_hash == hash
            &&& made.model == input.model@
            &&& made.working_dir == input.working_dir@
            &&& made.message_count == input.message_count
            &&& made.system_prompt_length == input.system_prompt_length
            &&& made.estimated_input_tokens == input.estimated_input_tokens
            &&& made.first_message_hash == input.first_message_hash@
            &&& made.compacted_state_hash == input.compacted_state_hash@
        }),
{
}

// ---- The capture mode ----

/// The capture is full, safe or off by the name that the setting gives, whatever its letter
/// case and the white space around it.
pub proof fn law_capture_modes_have_names(setting: Seq<char>)
    ensures
        mode_named(setting) == Some(PromptCaptureMode::Full) <==> seq![
            "full"@,
            "raw"@,
            "full_local"@,
        ].contains(lowered(trimmed(setting))),
        mode_named(setting) == Some(PromptCaptureMode::Safe) <==> seq![
            "1"@,
            "true"@,
            "yes"@,
            "on"@,
            "summary"@,
            "redacted"@,
            "safe"@,
        ].contains(lowered(trimmed(setting))),
{
    let name = lowered(trimmed(setting));
    let full = seq!["full"@, "raw"@, "full_local"@];
    let safe = seq!["1"@, "true"@, "yes"@, "on"@, "summary"@, "redacted"@, "safe"@];
    assert(full[0] == "full"@ && full[1] == "raw"@ && full[2] == "full_local"@);
    assert(safe[0] == "1"@ && safe[1] == "true"@ && safe[2] == "yes"@ && safe[3] == "on"@);
    assert(safe[4] == "summary"@ && safe[5] == "redacted"@ && safe[6] == "safe"@);
    reveal_strlit("full");
    reveal_strlit("raw");
    reveal_strlit("full_local");
    reveal_strlit("1");
    reveal_strlit("true");
    reveal_strlit("yes");
    reveal_strlit("on");
    reveal_strlit("summary");
    reveal_strlit("redacted");
    reveal_strlit("safe");
    assert("full"@[0] == 'f' && "raw"@[0] == 'r' && "full_local"@[0] == 'f');
    assert("1"@[0] == '1' && "true"@[0] == 't' && "yes"@[0] == 'y' && "on"@[0] == 'o');
    assert("summary"@[0] == 's' && "redacted"@.len() == 8 && "safe"@[0] == 's');
}

} // verus!

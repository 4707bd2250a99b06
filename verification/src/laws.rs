//! What holds of excerpts, of the detection of compactions, of drift scores and of the answers
//! of an analyzer, whatever the input.
use std::collections::hash_map::DefaultHasher;

use vstd::endian::endianness;
use vstd::prelude::*;
use vstd::std_specs::hash::DefaultHasherAdditionalSpecFns;

use crate::analyzer::{
    advisory, analyzer_named, completed, evidence_of, json_object_in, plan_of, prompt_of,
    reading_of, verdict_of, EvidenceView, PlanView, PROMPT_HEAD,
};
use crate::candidate::{member_texts, message_text, system_text, CandidateView};
use crate::capture::PromptCaptureMode;
use crate::chars::CharClass;
use crate::detection::{detection_of, has_compaction_shape, ObservationView};
use crate::drift::{basis, drift_of, lemma_percent_bound, overlap_percent};
use crate::drift_score::{DriftScoreSource, DriftView};
use crate::excerpt::{capped, raw_excerpt_of, safe_excerpt_of};
use crate::facts::{
    important_lead, is_important, lemma_ranking, missing_facts, missing_terms, ranking, term_leq,
    told_count,
};
use crate::hash::hash_bytes_hex;
use crate::hash::{bytes_label, digest_label, slice_hash_input, text_label};
use crate::json::{member, JsonValue};
use crate::keywords::{keywords, keywords_listed, KEYWORD_LIMIT};
use crate::numeral::hexadecimal;
use crate::record::{excerpts_of, with_summary, FULL_EXCERPT_CHARS, SAFE_EXCERPT_CHARS};
use crate::redact::{code_redacted, is_code_like, redacted, summary_text};
use crate::snapshot::{CompactionDetectionStatus, ExcerptsView, SnapshotView};
use crate::text::{
    first_place, joined, last_place, lemma_find_back, lemma_find_from, lemma_span_end,
    lemma_span_start, lowered, occurs_at, span_end, span_start, trimmed,
};

verus! {

// ---- Excerpts ----

/// Trimming takes characters away at the ends only.
pub proof fn law_trimming_shortens(s: Seq<char>)
    ensures
        trimmed(s).len() <= s.len(),
        trimmed(s).len() > 0 ==> {
            &&& !CharClass::Space.has(trimmed(s)[0])
            &&& !CharClass::Space.has(trimmed(s).last())
        },
        trimmed(trimmed(s)) == trimmed(s),
{
    let from = span_end(s, CharClass::Space, 0);
    let to = span_start(s, CharClass::Space, s.len() as int);
    lemma_span_end(s, CharClass::Space, 0);
    lemma_span_start(s, CharClass::Space, s.len() as int);
    let t = trimmed(s);
    if from < to {
        assert(t[0] == s[from]);
        assert(t.last() == s[to - 1]);
        assert(span_end(t, CharClass::Space, 0) == 0);
        assert(span_start(t, CharClass::Space, t.len() as int) == t.len());
        assert(t.subrange(0, t.len() as int) =~= t);
    } else {
        assert(trimmed(t) =~= t);
    }
}

/// An excerpt has no more characters than may be shown, or the three dots where fewer than three
/// may be. It says that it was cut where fewer characters are shown than the source has. A raw
/// excerpt that says that it was not cut is the source; and where three characters or more may
/// be shown, one that says that it was cut is not.
pub proof fn law_excerpts_are_capped(value: Seq<char>, max: nat)
    ensures
        match safe_excerpt_of(value, max) {
            Some(excerpt) => {
                &&& excerpt.rendered_chars == excerpt.text.len()
                &&& excerpt.rendered_chars <= max || excerpt.rendered_chars <= 3
                &&& excerpt.redacted
                &&& excerpt.source_chars == trimmed(value).len() > 0
                &&& excerpt.rendered_chars < excerpt.source_chars ==> excerpt.truncated
                &&& excerpt.text != redacted(trimmed(value)) ==> excerpt.truncated
            },
            None => trimmed(value).len() == 0,
        },
        match raw_excerpt_of(value, max) {
            Some(excerpt) => {
                &&& excerpt.rendered_chars == excerpt.text.len()
                &&& excerpt.rendered_chars <= max || excerpt.rendered_chars <= 3
                &&& !excerpt.redacted
                &&& excerpt.source_chars == trimmed(value).len() > 0
                &&& excerpt.rendered_chars < excerpt.source_chars ==> excerpt.truncated
                &&& excerpt.text != trimmed(value) ==> excerpt.truncated
                &&& max >= 3 && excerpt.truncated ==> excerpt.text != trimmed(value)
            },
            None => trimmed(value).len() == 0,
        },
{
    reveal_strlit("...");
    let source = trimmed(value);
    if source.len() > max && max >= 3 {
        assert(capped(source, max).len() == max);
    }
}

/// The safe excerpts of a snapshot are short, whatever the capture mode.
pub proof fn law_snapshot_excerpts_are_short(candidate: CandidateView, initial: Seq<char>)
    ensures
        ({
            let excerpts = excerpts_of(candidate, initial);
            &&& excerpts.initial_objective matches Some(e) ==> e.rendered_chars
                <= SAFE_EXCERPT_CHARS && e.redacted
            &&& excerpts.compacted_objective matches Some(e) ==> e.rendered_chars
                <= SAFE_EXCERPT_CHARS && e.redacted
            &&& excerpts.compact_summary matches Some(e) ==> e.rendered_chars
                <= SAFE_EXCERPT_CHARS && e.redacted
            &&& excerpts.raw_initial_objective matches Some(e) ==> e.rendered_chars
                <= FULL_EXCERPT_CHARS
        }),
{
    law_excerpts_are_capped(initial, SAFE_EXCERPT_CHARS as nat);
    law_excerpts_are_capped(initial, FULL_EXCERPT_CHARS as nat);
    law_excerpts_are_capped(candidate.compacted_objective_text, SAFE_EXCERPT_CHARS as nat);
    if let Some(text) = candidate.compact_summary_text {
        law_excerpts_are_capped(text, SAFE_EXCERPT_CHARS as nat);
    }
}

/// In the full mode the raw excerpt of a generated summary is the whole summary, however long
/// it is.
pub proof fn law_full_summary_is_whole(
    candidate: CandidateView,
    summary: Seq<char>,
    initial: Seq<char>,
)
    requires
        candidate.capture_mode == PromptCaptureMode::Full,
        trimmed(summary).len() > 0,
    ensures
        ({
            let excerpts = excerpts_of(with_summary(candidate, summary), initial);
            &&& excerpts.raw_compacted_objective matches Some(e) && e.text == trimmed(summary)
                && !e.truncated && !e.redacted
            &&& excerpts.raw_compact_summary == excerpts.raw_compacted_objective
        }),
{
    law_trimming_shortens(summary);
}

/// The summary that a response holds is neither blank nor padded, and every response that is
/// not blank holds one.
pub proof fn law_summary_is_trimmed(cleaned: Seq<char>)
    ensures
        match summary_text(cleaned) {
            Some(summary) => summary.len() > 0 && trimmed(summary) == summary,
            None => trimmed(cleaned).len() == 0,
        },
{
    let whole = trimmed(cleaned);
    law_trimming_shortens(cleaned);
    if let (Some(start), Some(end)) = (
        first_place(lowered(whole), "<summary>"@),
        last_place(lowered(whole), "</summary>"@),
    ) {
        law_trimming_shortens(whole.subrange(start + "<summary>"@.len(), end));
    }
}

/// No line that looks like code is left where lines were redacted.
pub proof fn law_no_code_is_left(all: Seq<Seq<char>>, i: int)
    requires
        0 <= i < code_redacted(all).len(),
    ensures
        !is_code_like(code_redacted(all)[i]),
    decreases all.len(),
{
    lemma_notice_is_no_code();
    if all.len() > 0 {
        let before = code_redacted(all.drop_last());
        if i < before.len() {
            law_no_code_is_left(all.drop_last(), i);
        }
    }
}

/// The notice that stands for code does not itself look like code.
proof fn lemma_notice_is_no_code()
    ensures
        !is_code_like("<code/file content redacted>"@),
{
    let notice = "<code/file content redacted>"@;
    reveal_strlit("<code/file content redacted>");
    reveal_strlit("fn ");
    reveal_strlit("pub ");
    reveal_strlit("use ");
    reveal_strlit("impl ");
    reveal_strlit("class ");
    reveal_strlit("def ");
    reveal_strlit("function ");
    reveal_strlit("import ");
    reveal_strlit("stack trace");
    reveal_strlit("thread '");
    reveal_strlit("begin file");
    reveal_strlit("file contents");
    assert(notice.len() == 28);
    assert(span_end(notice, CharClass::Space, 0) == 0);
    assert(span_start(notice, CharClass::Space, 28) == 28);
    assert(trimmed(notice) =~= notice);
    let low = lowered(notice);
    assert(low =~= notice);
    assert(!notice.contains('{'));
    assert(!notice.contains('='));
    assert(notice[0] == '<');
    assert(notice.last() == '>');
    assert forall|part: Seq<char>| part.len() > 0 && part[0] != '<' implies !occurs_at(
        notice,
        part,
        0,
    ) by {
        if occurs_at(notice, part, 0) {
            assert(notice.subrange(0, part.len() as int)[0] == '<');
        }
    }
    assert forall|i: int| !occurs_at(low, "begin file"@, i) by {
        if occurs_at(low, "begin file"@, i) {
            assert(low.subrange(i, i + 10)[0] == 'b');
            assert(low[i] == 'b');
        }
    }
    assert forall|i: int| !occurs_at(low, "file contents"@, i) by {
        if occurs_at(low, "file contents"@, i) {
            let part = low.subrange(i, i + 13);
            assert(part[0] == 'f' && part[12] == 's');
            assert(low[i] == 'f' && low[i + 12] == 's');
        }
    }
}

/// The text of the messages that is looked at has no more characters than were asked for.
pub proof fn law_captured_text_is_bounded(value: JsonValue, max: nat)
    ensures
        message_text(value, max).len() <= max,
{
}

// ---- Labels ----

/// The label of some bytes has 21 characters: `hash_` and sixteen hexadecimal digits in lower
/// case.
pub proof fn law_label_shape(bytes: Seq<u8>)
    ensures
        bytes_label(bytes).len() == 21,
        bytes_label(bytes).take(5) == "hash_"@,
        forall|i: int|
            5 <= i < 21 ==> {
                ||| '0' <= #[trigger] bytes_label(bytes)[i] <= '9'
                ||| 'a' <= bytes_label(bytes)[i] <= 'f'
            },
{
    reveal_strlit("hash_");
    let digest = DefaultHasher::spec_finish(
        slice_hash_input(bytes, usize::BITS as nat, endianness() is Big),
    );
    lemma_hexadecimal(digest as nat, 16);
    let label = digest_label(digest);
    assert(label.take(5) =~= "hash_"@);
    assert forall|i: int| 5 <= i < 21 implies #[trigger] label[i] == hexadecimal(
        digest as nat,
        16,
    )[i - 5] by {}
}

proof fn lemma_hexadecimal(n: nat, width: nat)
    ensures
        hexadecimal(n, width).len() == width,
        forall|i: int|
            0 <= i < width ==> {
                ||| '0' <= #[trigger] hexadecimal(n, width)[i] <= '9'
                ||| 'a' <= hexadecimal(n, width)[i] <= 'f'
            },
    decreases width,
{
    if width > 0 {
        lemma_hexadecimal(n / 16, (width - 1) as nat);
        let before = hexadecimal(n / 16, (width - 1) as nat);
        assert forall|i: int| 0 <= i < width - 1 implies #[trigger] hexadecimal(n, width)[i]
            == before[i] by {}
    }
}

/// Equal bytes have equal labels, and so have equal texts: a label is a function of what it is
/// the label of. Each call of `hash_bytes_hex` and `hash_text_hex` on this machine gives it.
pub proof fn law_labels_agree(one: &[u8], two: &[u8], label_one: &String, label_two: &String)
    requires
        call_ensures(hash_bytes_hex, (one,), *label_one),
        call_ensures(hash_bytes_hex, (two,), *label_two),
        one@ == two@,
    ensures
        label_one@ == label_two@,
        label_one@ == bytes_label(one@),
{
}

/// The text of the system prompt, and with it its label, depends on the member `system` of a
/// request alone. A request without one has the label of the empty text.
pub proof fn law_system_text_is_of_the_system_member(one: JsonValue, two: JsonValue)
    requires
        member(one, "system"@) == member(two, "system"@),
    ensures
        system_text(one) == system_text(two),
        text_label(system_text(one)) == text_label(system_text(two)),
        match member(one, "system"@) {
            Some(JsonValue::Text(text)) => system_text(one) == text@,
            Some(JsonValue::Array(_)) => true,
            _ => system_text(one) == Seq::<char>::empty(),
        },
{
}

/// An array of items with texts is the same system prompt as the text of these on lines of
/// their own.
pub proof fn law_system_prompt_forms_agree(
    one: JsonValue,
    two: JsonValue,
    items: Vec<JsonValue>,
    text: String,
)
    requires
        member(one, "system"@) == Some(JsonValue::Array(items)),
        member(two, "system"@) == Some(JsonValue::Text(text)),
        text@ == joined(member_texts(items@), "\n"@),
    ensures
        system_text(one) == system_text(two),
        text_label(system_text(one)) == text_label(system_text(two)),
{
}

// ---- Detection ----

/// Nothing is detected of a request that bears no mark and comes first: a text that merely
/// reads like a summary is not enough, and a full context is not either.
pub proof fn law_first_request_is_no_compaction(candidate: CandidateView, fill_percent: Option<u32>)
    requires
        !candidate.explicit_compaction_marker,
    ensures
        detection_of(candidate, None, fill_percent) is None,
{
}

/// A request that says that its conversation was compacted is always taken at its word.
pub proof fn law_marked_request_is_detected(
    candidate: CandidateView,
    previous: Option<ObservationView>,
    fill_percent: Option<u32>,
)
    requires
        candidate.explicit_compaction_marker,
    ensures
        detection_of(candidate, previous, fill_percent) matches Some(d) && d.status
            == CompactionDetectionStatus::Detected,
{
}

/// A conversation that only grows is not taken as compacted: where the request bears no mark,
/// begins as the one before it, has the same system prompt and no fewer messages and tokens,
/// nothing is detected. So a summary that is carried along is told of once only. At the end of
/// the machine's numbers the comparison saturates, and such counts are left out.
pub proof fn law_growing_conversation_is_no_compaction(
    candidate: CandidateView,
    previous: ObservationView,
    fill_percent: Option<u32>,
)
    requires
        !candidate.explicit_compaction_marker,
        candidate.first_message_hash == previous.first_message_hash,
        candidate.system_prompt_length == previous.system_prompt_length,
        candidate.message_count >= previous.message_count,
        candidate.estimated_input_tokens >= previous.estimated_input_tokens,
        previous.message_count < usize::MAX,
        60 * previous.estimated_input_tokens < usize::MAX,
    ensures
        detection_of(candidate, Some(previous), fill_percent) is None,
{
}

/// A detection names at least one sign, and its confidence lies between 45 and 64 percent where
/// it is a suspicion, and between 74 and 95 percent where it is more.
pub proof fn law_confidence_follows_status(
    candidate: CandidateView,
    previous: Option<ObservationView>,
    fill_percent: Option<u32>,
)
    ensures
        match detection_of(candidate, previous, fill_percent) {
            Some(d) => {
                &&& d.signals.len() >= 1
                &&& d.status == CompactionDetectionStatus::Suspected ==> 45 <= d.confidence_percent
                    <= 64
                &&& d.status == CompactionDetectionStatus::Detected ==> 74 <= d.confidence_percent
                    <= 95
            },
            None => !has_compaction_shape(candidate, previous),
        },
{
}

// ---- Drift ----

/// The keywords of a text are finite, and no more than the limit.
pub proof fn law_keywords_are_bounded(assistant: Seq<char>, text: Seq<char>)
    ensures
        keywords(assistant, text).finite(),
        keywords(assistant, text).len() <= KEYWORD_LIMIT,
{
    vstd::seq_lib::seq_to_set_is_finite(keywords_listed(assistant, text));
    keywords_listed(assistant, text).lemma_cardinality_of_set();
}

/// Every score of a drift lies between 0 and 100, and the drift says where it comes from.
pub proof fn law_scores_are_percentages(
    assistant: Seq<char>,
    initial: Seq<char>,
    previous: Seq<char>,
    latest: Seq<char>,
)
    ensures
        ({
            let drift = drift_of(assistant, initial, previous, latest);
            &&& drift.source == DriftScoreSource::Deterministic
            &&& drift.objective_alignment.score <= 100
            &&& drift.state_preservation.score <= 100
            &&& drift.scope_drift.score <= 100
            &&& drift.actionability.score <= 100
            &&& drift.risk.score <= 100
            &&& drift.caveats.len() == 1
        }),
{
    let now = keywords(assistant, latest);
    lemma_overlap_bound(assistant, keywords(assistant, initial), now, initial);
    if keywords(assistant, previous).len() == 0 {
        lemma_overlap_bound(assistant, basis(assistant, initial, previous), now, initial);
    } else {
        lemma_overlap_bound(assistant, basis(assistant, initial, previous), now, previous);
    }
}

proof fn lemma_overlap_bound(
    assistant: Seq<char>,
    expected: Set<Seq<char>>,
    actual: Set<Seq<char>>,
    text: Seq<char>,
)
    requires
        expected == keywords(assistant, text),
    ensures
        overlap_percent(expected, actual) <= 100,
{
    law_keywords_are_bounded(assistant, text);
    if expected.len() > 0 {
        vstd::set_lib::lemma_len_intersect(expected, actual);
        lemma_percent_bound(expected.intersect(actual).len(), expected.len());
    }
}

/// Compression alone is not punished: where the latest text holds every keyword of what came
/// before, the objective and the state are kept in full, no fact is missing, nothing was
/// restated and there is no risk, however short it is.
pub proof fn law_kept_keywords_keep_the_score(
    assistant: Seq<char>,
    initial: Seq<char>,
    previous: Seq<char>,
    latest: Seq<char>,
)
    requires
        keywords(assistant, initial).len() > 0,
        keywords(assistant, initial).subset_of(keywords(assistant, latest)),
        keywords(assistant, previous).subset_of(keywords(assistant, latest)),
        keywords(assistant, initial + " "@ + previous).subset_of(keywords(assistant, latest)),
    ensures
        ({
            let drift = drift_of(assistant, initial, previous, latest);
            &&& drift.objective_alignment.score == 100
            &&& drift.state_preservation.score == 100
            &&& drift.risk.score == 0
            &&& drift.missing_facts.len() == 0
            &&& drift.changed_framing is None
        }),
{
    law_keywords_are_bounded(assistant, initial);
    law_keywords_are_bounded(assistant, previous);
    lemma_full_overlap(keywords(assistant, initial), keywords(assistant, latest));
    lemma_full_overlap(basis(assistant, initial, previous), keywords(assistant, latest));
    let terms = missing_terms(assistant, initial, previous, latest);
    assert(terms =~= Set::<Seq<char>>::empty());
    lemma_ranking(terms);
    assert(ranking(terms).len() == 0);
}

proof fn lemma_full_overlap(expected: Set<Seq<char>>, actual: Set<Seq<char>>)
    requires
        expected.len() > 0,
        expected.subset_of(actual),
    ensures
        overlap_percent(expected, actual) == 100,
{
    let n = expected.len();
    assert(expected.intersect(actual) =~= expected);
    assert((200 * n + n) / (2 * n) == 100) by (nonlinear_arith)
        requires
            n > 0,
    ;
}

/// A text that brings no new keyword does not move the scope, as long as the objective is not
/// weak.
pub proof fn law_no_new_keywords_no_scope_drift(
    assistant: Seq<char>,
    initial: Seq<char>,
    previous: Seq<char>,
    latest: Seq<char>,
)
    requires
        keywords(assistant, latest).subset_of(
            keywords(assistant, initial).union(keywords(assistant, previous)),
        ),
        drift_of(assistant, initial, previous, latest).objective_alignment.score >= 45,
    ensures
        drift_of(assistant, initial, previous, latest).scope_drift.score == 0,
        drift_of(assistant, initial, previous, latest).scope_drift.evidence.len() == 0,
{
    let known = keywords(assistant, initial).union(keywords(assistant, previous));
    assert(keywords(assistant, latest).difference(known) =~= Set::<Seq<char>>::empty());
    let n = keywords(assistant, latest).len();
    if n > 0 {
        assert((200 * 0 + n) / (2 * n) == 0) by (nonlinear_arith)
            requires
                n > 0,
        ;
    }
}

/// The missing facts are terms of what came before that the latest text lacks, each told once,
/// at most six, and the important ones first. None is left out for a lesser one.
pub proof fn law_missing_facts_are_missing(
    assistant: Seq<char>,
    initial: Seq<char>,
    previous: Seq<char>,
    latest: Seq<char>,
)
    ensures
        ({
            let facts = missing_facts(assistant, initial, previous, latest);
            let terms = missing_terms(assistant, initial, previous, latest);
            &&& facts.len() <= 6
            &&& facts.len() == 0 ==> terms.len() == 0
            &&& facts.no_duplicates()
            &&& forall|i: int| 0 <= i < facts.len() ==> terms.contains(#[trigger] facts[i])
            &&& forall|i: int, term: Seq<char>|
                #![trigger facts[i], terms.contains(term)]
                0 <= i < facts.len() && terms.contains(term) && !facts.contains(term) ==> term_leq(
                    facts[i],
                    term,
                )
        }),
{
    law_keywords_are_bounded(assistant, initial + " "@ + previous);
    let terms = missing_terms(assistant, initial, previous, latest);
    lemma_ranking(terms);
    let ranked = ranking(terms);
    lemma_lead_bound(ranked, 0);
    let count = told_count(ranked);
    let facts = missing_facts(assistant, initial, previous, latest);
    assert forall|i: int| 0 <= i < facts.len() implies terms.contains(#[trigger] facts[i]) by {
        assert(facts[i] == ranked[i]);
        assert(ranked.to_set().contains(ranked[i]));
    }
    assert forall|i: int, term: Seq<char>|
        #![trigger facts[i], terms.contains(term)]
        0 <= i < facts.len() && terms.contains(term) && !facts.contains(term) implies term_leq(
        facts[i],
        term,
    ) by {
        assert(ranked.to_set().contains(term));
        let k = choose|k: int| 0 <= k < ranked.len() && ranked[k] == term;
        if k < count {
            assert(facts[k] == term);
        }
        assert(term_leq(ranked[i], ranked[k]));
    }
}

proof fn lemma_lead_bound(list: Seq<Seq<char>>, i: int)
    requires
        0 <= i <= list.len(),
    ensures
        i <= important_lead(list, i) <= list.len(),
    decreases list.len() - i,
{
    if i < list.len() && is_important(list[i]) {
        lemma_lead_bound(list, i + 1);
    }
}

// ---- The analyzer ----

/// An analyzer that is to see redacted evidence is shown no raw text, whatever the snapshot
/// holds; the rest of the evidence is that of the snapshot.
pub proof fn law_redacted_evidence_holds_no_raw_text(snapshot: SnapshotView)
    ensures
        ({
            let evidence = evidence_of(snapshot, DriftScoreSource::ClaudeAssistedRedacted);
            &&& evidence.excerpts.raw_initial_objective is None
            &&& evidence.excerpts.raw_compacted_objective is None
            &&& evidence.excerpts.raw_compact_summary is None
            &&& evidence.excerpts.initial_objective == snapshot.excerpts.initial_objective
            &&& evidence.excerpts.compacted_objective == snapshot.excerpts.compacted_objective
            &&& evidence.excerpts.compact_summary == snapshot.excerpts.compact_summary
        }),
{
}

/// With redacted evidence, two snapshots that differ in their raw excerpts only give one prompt,
/// however the evidence is written as JSON.
pub proof fn law_raw_text_does_not_reach_the_prompt(
    one: SnapshotView,
    two: SnapshotView,
    json: spec_fn(EvidenceView) -> Seq<char>,
)
    requires
        two == (SnapshotView {
            excerpts: ExcerptsView {
                raw_initial_objective: two.excerpts.raw_initial_objective,
                raw_compacted_objective: two.excerpts.raw_compacted_objective,
                raw_compact_summary: two.excerpts.raw_compact_summary,
                ..one.excerpts
            },
            ..one
        }),
    ensures
        ({
            let source = DriftScoreSource::ClaudeAssistedRedacted;
            &&& evidence_of(one, source) == evidence_of(two, source)
            &&& prompt_of(json(evidence_of(one, source)), source) == prompt_of(
                json(evidence_of(two, source)),
                source,
            )
        }),
{
}

/// The prompt names its source.
pub proof fn law_prompt_names_its_source(bundle: Seq<char>, source: DriftScoreSource)
    ensures
        (PROMPT_HEAD@ + source.label()).is_prefix_of(prompt_of(bundle, source)),
{
    let head = PROMPT_HEAD@ + source.label();
    assert(prompt_of(bundle, source).subrange(0, head.len() as int) =~= head);
}

/// Raw text reaches an analyzer only where the settings ask for the full evidence.
pub proof fn law_full_evidence_is_asked_for(
    assistant: Seq<char>,
    analyzer: Option<Seq<char>>,
    response: Option<Seq<char>>,
    command: Option<Seq<char>>,
    context: Option<Seq<char>>,
)
    ensures
        match plan_of(analyzer_named(assistant, analyzer, response, command, context)) {
            PlanView::Run { source, .. } => match source {
                DriftScoreSource::ClaudeAssistedRedacted => true,
                DriftScoreSource::ClaudeAssistedFull => context is Some && lowered(
                    trimmed(context->0),
                ) == "full"@,
                DriftScoreSource::Deterministic => false,
            },
            PlanView::Read { source, .. } => source == DriftScoreSource::ClaudeAssistedRedacted,
            PlanView::Refuse { .. } => true,
        },
{
    reveal_strlit("full");
    let nothing = Seq::<char>::empty();
    law_trimming_shortens(nothing);
    assert(lowered(trimmed(nothing)).len() == 0);
}

/// What is read as JSON begins with an opening brace and ends with a closing one, and no such
/// brace of the answer stands outside it: before it there is no opening one, and behind it no
/// closing one. Where there is nothing to read, the braces are missing or in the wrong order.
pub proof fn law_object_is_between_braces(response: Seq<char>)
    ensures
        match json_object_in(response) {
            Some(object) => {
                &&& object.len() >= 2
                &&& object[0] == '{'
                &&& object.last() == '}'
                &&& exists|from: int, to: int|
                    {
                        &&& 0 <= from < to <= response.len()
                        &&& object == #[trigger] response.subrange(from, to)
                        &&& forall|i: int| 0 <= i < from ==> response[i] != '{'
                        &&& forall|i: int| to <= i < response.len() ==> response[i] != '}'
                    }
            },
            None => forall|i: int, j: int|
                #![trigger response[i], response[j]]
                0 <= i < j < response.len() ==> !(response[i] == '{' && response[j] == '}'),
        },
{
    reveal_strlit("{");
    reveal_strlit("}");
    lemma_find_from(response, "{"@, 0);
    lemma_find_back(response, "}"@, response.len() - 1);
    assert forall|i: int| 0 <= i < response.len() implies (occurs_at(response, "{"@, i)
        <==> #[trigger] response[i] == '{') && (occurs_at(response, "}"@, i) <==> response[i]
        == '}') by {
        let part = response.subrange(i, i + 1);
        assert(part[0] == response[i]);
        if response[i] == '{' {
            assert(part =~= "{"@);
        }
        if response[i] == '}' {
            assert(part =~= "}"@);
        }
    }
    match (first_place(response, "{"@), last_place(response, "}"@)) {
        (Some(start), Some(end)) => {
            assert(response[start] == '{');
            assert(response[end] == '}');
            if end >= start {
                assert(json_object_in(response) == Some(response.subrange(start, end + 1)));
                assert forall|i: int| 0 <= i < start implies response[i] != '{' by {
                    assert(!occurs_at(response, "{"@, i));
                }
                assert forall|i: int| end + 1 <= i < response.len() implies response[i] != '}' by {
                    assert(!occurs_at(response, "}"@, i));
                }
            } else {
                assert forall|i: int, j: int|
                    #![trigger response[i], response[j]]
                    0 <= i < j < response.len() implies !(response[i] == '{' && response[j]
                    == '}') by {
                    if response[i] == '{' && response[j] == '}' {
                        assert(occurs_at(response, "{"@, i));
                        assert(occurs_at(response, "}"@, j));
                    }
                }
            }
        },
        (None, _) => {
            assert forall|i: int| 0 <= i < response.len() implies response[i] != '{' by {
                assert(!occurs_at(response, "{"@, i));
            }
        },
        (_, None) => {
            assert forall|i: int| 0 <= i < response.len() implies response[i] != '}' by {
                assert(!occurs_at(response, "}"@, i));
            }
        },
    }
}

/// What stands around the JSON object does not matter: no opening brace before it, no closing
/// one behind it.
pub proof fn law_text_around_the_object_does_not_matter(
    assistant: Seq<char>,
    before: Seq<char>,
    object: Seq<char>,
    behind: Seq<char>,
    fallback_source: DriftScoreSource,
    read: spec_fn(Seq<char>) -> Result<DriftView, Seq<char>>,
)
    requires
        object.len() >= 2,
        object[0] == '{',
        object.last() == '}',
        !before.contains('{'),
        !behind.contains('}'),
    ensures
        json_object_in(before + object + behind) == Some(object),
        json_object_in(object) == Some(object),
        reading_of(assistant, before + object + behind, fallback_source, read) == reading_of(
            assistant,
            object,
            fallback_source,
            read,
        ),
{
    lemma_object_within(before, object, behind);
    lemma_object_within(Seq::empty(), object, Seq::empty());
    assert(Seq::<char>::empty() + object + Seq::<char>::empty() =~= object);
}

proof fn lemma_object_within(before: Seq<char>, object: Seq<char>, behind: Seq<char>)
    requires
        object.len() >= 2,
        object[0] == '{',
        object.last() == '}',
        !before.contains('{'),
        !behind.contains('}'),
    ensures
        json_object_in(before + object + behind) == Some(object),
{
    let all = before + object + behind;
    let start = before.len() as int;
    let end = start + object.len() - 1;
    law_object_is_between_braces(all);
    assert(all[start] == '{');
    assert(all[end] == '}');
    let found = json_object_in(all)->0;
    let (from, to) = choose|from: int, to: int|
        {
            &&& 0 <= from < to <= all.len()
            &&& found == #[trigger] all.subrange(from, to)
            &&& forall|i: int| 0 <= i < from ==> all[i] != '{'
            &&& forall|i: int| to <= i < all.len() ==> all[i] != '}'
        };
    assert(all[from] == found[0]);
    assert(all[to - 1] == found.last());
    if from < start {
        assert(before[from] == '{');
    }
    if to - 1 > end {
        assert(behind[to - 1 - (end + 1)] == '}');
    }
    assert(found =~= object);
}

/// An answer gives a score, or one of two errors. The object is missing just where no opening
/// brace is followed by a closing one; every other error says that the object could not be
/// read. A score has a caveat, and the source that it names or else the fallback.
pub proof fn law_readings_of_an_answer(
    assistant: Seq<char>,
    response: Seq<char>,
    fallback_source: DriftScoreSource,
    read: spec_fn(Seq<char>) -> Result<DriftView, Seq<char>>,
)
    ensures
        match reading_of(assistant, response, fallback_source, read) {
            Ok(score) => {
                &&& json_object_in(response) is Some && read(json_object_in(response)->0) is Ok
                &&& score.caveats.len() >= 1
                &&& score.source == if read(json_object_in(response)->0)->Ok_0.source
                    == DriftScoreSource::Deterministic {
                    fallback_source
                } else {
                    read(json_object_in(response)->0)->Ok_0.source
                }
            },
            Err(error) => {
                ||| error == "missing JSON object"@
                ||| "invalid drift JSON: "@.is_prefix_of(error)
            },
        },
        reading_of(assistant, response, fallback_source, read) == Err::<DriftView, Seq<char>>(
            "missing JSON object"@,
        ) <==> !(exists|i: int, j: int|
            #![trigger response[i], response[j]]
            0 <= i < j < response.len() && response[i] == '{' && response[j] == '}'),
{
    reveal_strlit("missing JSON object");
    reveal_strlit("invalid drift JSON: ");
    law_object_is_between_braces(response);
    let heading = "invalid drift JSON: "@;
    if let Some(object) = json_object_in(response) {
        let (from, to) = choose|from: int, to: int|
            0 <= from < to <= response.len() && object == #[trigger] response.subrange(from, to);
        assert(response[from] == '{');
        assert(response[to - 1] == '}');
        if let Err(error) = read(object) {
            let told = heading + error;
            assert(told.subrange(0, heading.len() as int) =~= heading);
            assert(told[0] == 'i');
            assert("missing JSON object"@[0] == 'm');
        }
    }
}

/// A score that an analyzer gave is never passed off as deterministic and never comes without a
/// caveat; its dimensions and its facts are those that the analyzer gave.
pub proof fn law_answers_are_advisory(
    assistant: Seq<char>,
    score: DriftView,
    fallback_source: DriftScoreSource,
)
    requires
        fallback_source != DriftScoreSource::Deterministic,
    ensures
        ({
            let kept = completed(assistant, score, fallback_source);
            &&& verdict_of(assistant, Ok(score), fallback_source) == Ok::<DriftView, Seq<char>>(kept)
            &&& kept.source != DriftScoreSource::Deterministic
            &&& kept.caveats.len() >= 1
            &&& score.caveats.len() == 0 ==> kept.caveats == seq![advisory(assistant)]
            &&& kept.objective_alignment == score.objective_alignment
            &&& kept.state_preservation == score.state_preservation
            &&& kept.scope_drift == score.scope_drift
            &&& kept.actionability == score.actionability
            &&& kept.risk == score.risk
            &&& kept.missing_facts == score.missing_facts
            &&& kept.changed_framing == score.changed_framing
        }),
{
}

/// A score that was completed once is complete.
pub proof fn law_completion_settles(
    assistant: Seq<char>,
    score: DriftView,
    fallback_source: DriftScoreSource,
)
    ensures
        completed(assistant, completed(assistant, score, fallback_source), fallback_source) == completed(
            assistant,
            score,
            fallback_source,
        ),
{
}

} // verus!

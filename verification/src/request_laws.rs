//! What is read of a request, told by its JSON, and what the functions of the library give of
//! what the laws speak of.
use vstd::prelude::*;

use crate::analyzer::{collect_evidence, evidence_of, prompt_of, write_prompt, DriftEvidence};
use crate::analyzer::{
    DRIFT_ANALYZER_COMMAND_ENV, DRIFT_ANALYZER_CONTEXT_ENV, DRIFT_ANALYZER_ENV,
    DRIFT_ANALYZER_MOCK_RESPONSE_ENV, PROMPT_HEAD, PROMPT_SHAPE,
};
use crate::candidate::{
    build_candidate, collect_compact_summary_text, collect_message_text, collect_system_text,
    RequestSnapshotCandidate, RequestSnapshotInput,
};
use crate::candidate::{
    carried_summary, cleaned_messages, contents_of, is_marked, member_texts, message_text,
    summary_among, system_text,
};
use crate::capture::{PromptCaptureMode, CAPTURE_PROMPTS_ENV};
use crate::detection::{detect_compaction, detection_of, RequestObservation};
use crate::drift::{plain, score_drift_deterministic, snapshot_drift};
use crate::drift_score::{DriftScore, DriftScoreSource};
use crate::excerpt::{raw_excerpt, safe_excerpt, PromptExcerpt};
use crate::excerpt::{raw_excerpt_of, safe_excerpt_of};
use crate::hash::text_label;
use crate::json::{
    items_added, line_added, member, member_named, texts_added, JsonField, JsonValue,
};
use crate::redact::{denoised, redacted};
use crate::snapshot::{CompactionDetection, CompactionSnapshot};
use crate::store::{PROMPT_SNAPSHOT_LIMIT_ENV, PROMPT_SNAPSHOT_TTL_SECS_ENV};
use crate::text::{first_chars, joined, trimmed};

verus! {

// ---- JSON ----

/// The member of a name is the value that stands under the name, where it stands there once.
pub proof fn law_member_is_found_by_its_name(fields: Vec<JsonField>, name: Seq<char>, i: int)
    requires
        0 <= i < fields@.len(),
        fields@[i].name@ == name,
        forall|j: int| 0 <= j < fields@.len() && j != i ==> (#[trigger] fields@[j]).name@ != name,
    ensures
        member(JsonValue::Object(fields), name) == Some(fields@[i].value),
{
    lemma_member_at(fields@, name, i);
}

/// There is no member of a name that no field has, and none of a value that is no object.
pub proof fn law_no_member_without_its_name(
    fields: Vec<JsonField>,
    name: Seq<char>,
    value: JsonValue,
)
    requires
        forall|j: int| 0 <= j < fields@.len() ==> (#[trigger] fields@[j]).name@ != name,
        !(value is Object),
    ensures
        member(JsonValue::Object(fields), name) is None,
        member(value, name) is None,
{
    lemma_no_member(fields@, name);
}

proof fn lemma_member_at(fields: Seq<JsonField>, name: Seq<char>, i: int)
    requires
        0 <= i < fields.len(),
        fields[i].name@ == name,
        forall|j: int| 0 <= j < fields.len() && j != i ==> (#[trigger] fields[j]).name@ != name,
    ensures
        member_named(fields, name) == Some(fields[i].value),
    decreases fields.len(),
{
    if i < fields.len() - 1 {
        assert(fields.last() == fields[fields.len() - 1]);
        assert forall|j: int| 0 <= j < fields.len() - 1 implies #[trigger] fields.drop_last()[j]
            == fields[j] by {}
        lemma_member_at(fields.drop_last(), name, i);
    }
}

proof fn lemma_no_member(fields: Seq<JsonField>, name: Seq<char>)
    requires
        forall|j: int| 0 <= j < fields.len() ==> (#[trigger] fields[j]).name@ != name,
    ensures
        member_named(fields, name) is None,
    decreases fields.len(),
{
    if fields.len() > 0 {
        assert(fields.last() == fields[fields.len() - 1]);
        assert forall|j: int| 0 <= j < fields.len() - 1 implies #[trigger] fields.drop_last()[j]
            == fields[j] by {}
        lemma_no_member(fields.drop_last(), name);
    }
}

/// The value is a text, or an object with the member `text`, and the text is the given one.
pub open spec fn says(value: JsonValue, text: Seq<char>) -> bool {
    ||| value is Text && value->Text_0@ == text
    ||| match member(value, "text"@) {
        Some(JsonValue::Text(found)) => found@ == text,
        _ => false,
    }
}

/// The text of messages is their texts in order, each on a line of its own, up to the limit.
pub proof fn law_messages_are_read_in_order(
    messages: Seq<JsonValue>,
    texts: Seq<Seq<char>>,
    max: nat,
)
    requires
        messages.len() == texts.len(),
        forall|i: int|
            #![trigger messages[i]]
            0 <= i < messages.len() ==> texts[i].len() > 0 && match member(
                messages[i],
                "content"@,
            ) {
                Some(content) => says(content, texts[i]),
                None => false,
            },
    ensures
        contents_of(messages, max) == first_chars(joined(texts, "\n"@), max),
    decreases messages.len(),
{
    reveal_strlit("\n");
    if messages.len() > 0 {
        let fewer = messages.drop_last();
        let less = texts.drop_last();
        assert forall|i: int| 0 <= i < fewer.len() implies #[trigger] fewer[i] == messages[i] by {}
        assert forall|i: int| 0 <= i < less.len() implies (#[trigger] less[i]).len() > 0 by {
            let message = messages[i];
            assert(less[i] == texts[i]);
        }
        law_messages_are_read_in_order(fewer, less, max);
        let last = messages[messages.len() - 1];
        let content = member(last, "content"@)->0;
        lemma_joined_grows(less);
        lemma_line(less, texts.last(), max);
        assert(less.push(texts.last()) =~= texts);
        assert(contents_of(messages, max) == line_added(
            first_chars(joined(less, "\n"@), max),
            texts.last(),
            max,
        ));
    } else {
        assert(contents_of(messages, max) =~= first_chars(joined(texts, "\n"@), max));
    }
}

/// The texts of an array are its items' in order, each on a line of its own, up to the limit.
pub proof fn law_items_are_read_in_order(items: Seq<JsonValue>, texts: Seq<Seq<char>>, max: nat)
    requires
        items.len() == texts.len(),
        forall|i: int|
            #![trigger items[i]]
            0 <= i < items.len() ==> texts[i].len() > 0 && says(items[i], texts[i]),
    ensures
        items_added(items, Seq::empty(), max) == first_chars(joined(texts, "\n"@), max),
    decreases items.len(),
{
    reveal_strlit("\n");
    if items.len() > 0 {
        let fewer = items.drop_last();
        let less = texts.drop_last();
        assert forall|i: int| 0 <= i < fewer.len() implies less[i].len() > 0 && says(
            #[trigger] fewer[i],
            less[i],
        ) by {
            assert(fewer[i] == items[i]);
            assert(less[i] == texts[i]);
        }
        assert forall|i: int| 0 <= i < less.len() implies (#[trigger] less[i]).len() > 0 by {
            let item = fewer[i];
        }
        law_items_are_read_in_order(fewer, less, max);
        assert(items.last() == items[items.len() - 1]);
        assert(says(items.last(), texts.last()));
        reveal_with_fuel(texts_added, 2);
        reveal_with_fuel(items_added, 2);
        assert(items_added(items, Seq::empty(), max) == line_added(
            items_added(fewer, Seq::empty(), max),
            texts.last(),
            max,
        ));
        lemma_joined_grows(less);
        lemma_line(less, texts.last(), max);
        assert(less.push(texts.last()) =~= texts);
    } else {
        assert(items_added(items, Seq::empty(), max) =~= first_chars(joined(texts, "\n"@), max));
    }
}

/// Numbers, booleans, nulls and objects without a text add nothing.
pub proof fn law_other_values_say_nothing(value: JsonValue, out: Seq<char>, max: nat)
    requires
        value is Scalar || value is Object && !(member(value, "text"@) matches Some(
            JsonValue::Text(_),
        )),
    ensures
        texts_added(value, out, max) == out,
{
}

proof fn lemma_joined_grows(texts: Seq<Seq<char>>)
    requires
        forall|i: int| 0 <= i < texts.len() ==> (#[trigger] texts[i]).len() > 0,
    ensures
        texts.len() > 0 <==> joined(texts, "\n"@).len() > 0,
{
    if texts.len() > 0 {
        assert(texts.last() == texts[texts.len() - 1]);
    }
}

/// One more line.
proof fn lemma_line(less: Seq<Seq<char>>, text: Seq<char>, max: nat)
    requires
        less.len() > 0 <==> joined(less, "\n"@).len() > 0,
        text.len() > 0,
    ensures
        line_added(first_chars(joined(less, "\n"@), max), text, max) == first_chars(
            joined(less.push(text), "\n"@),
            max,
        ),
{
    reveal_strlit("\n");
    let all = less.push(text);
    let before = joined(less, "\n"@);
    let after = joined(all, "\n"@);
    assert(all.drop_last() =~= less);
    if less.len() > 0 {
        assert(after =~= before.push('\n') + text);
    } else {
        assert(before =~= Seq::<char>::empty());
        assert(all[0] == text);
        assert(after =~= text);
    }
    assert(line_added(first_chars(before, max), text, max) =~= first_chars(after, max));
}

/// The texts of a system prompt in parts are those of its items, in order.
pub proof fn law_system_prompt_in_parts(items: Seq<JsonValue>, texts: Seq<Seq<char>>)
    requires
        items.len() == texts.len(),
        forall|i: int|
            #![trigger items[i]]
            0 <= i < items.len() ==> match member(items[i], "text"@) {
                Some(JsonValue::Text(found)) => found@ == texts[i],
                _ => false,
            },
    ensures
        member_texts(items) == texts,
    decreases items.len(),
{
    if items.len() > 0 {
        let fewer = items.drop_last();
        let less = texts.drop_last();
        assert forall|i: int| 0 <= i < fewer.len() implies #[trigger] fewer[i] == items[i] by {}
        assert forall|i: int| 0 <= i < less.len() implies #[trigger] less[i] == texts[i] by {}
        law_system_prompt_in_parts(fewer, less);
        assert(items.last() == items[items.len() - 1]);
        assert(less.push(texts.last()) =~= texts);
    } else {
        assert(member_texts(items) =~= texts);
    }
}

// ---- The candidate of a request ----

/// Of a request that carries no summary and whose prompt is not blank, the compacted objective
/// is the prompt, whatever the messages hold: of two such requests with one prompt it is the
/// same. Each is known by the label of its own system prompt.
pub proof fn law_candidates_go_by_their_prompt(
    one: &JsonValue,
    two: &JsonValue,
    mode: PromptCaptureMode,
    input: RequestSnapshotInput,
    made: RequestSnapshotCandidate,
    other: RequestSnapshotCandidate,
)
    requires
        call_ensures(build_candidate, (one, mode, input), made),
        call_ensures(build_candidate, (two, mode, input), other),
        carried_summary(*one) is None,
        carried_summary(*two) is None,
        trimmed(input.user_prompt_excerpt@).len() > 0,
    ensures
        made.compacted_objective_text@ == input.user_prompt_excerpt@,
        made.compacted_objective_text@ == other.compacted_objective_text@,
        made.initial_objective_text@ == input.user_prompt_excerpt@,
        made.system_prompt_hash@ == text_label(system_text(*one)),
        made.detection_text@ == denoised(message_text(*one, 65_536)),
        made.compact_summary_text is None,
        made.explicit_compaction_marker == is_marked(made.detection_text@),
{
}

/// Of a request that carries a summary, the summary is the compacted objective and the text in
/// which marks are looked for, whatever the prompt is.
pub proof fn law_candidates_go_by_their_summary(
    value: &JsonValue,
    mode: PromptCaptureMode,
    input: RequestSnapshotInput,
    made: RequestSnapshotCandidate,
)
    requires
        call_ensures(build_candidate, (value, mode, input), made),
        carried_summary(*value) is Some,
    ensures
        made.compacted_objective_text@ == carried_summary(*value)->0,
        made.detection_text@ == carried_summary(*value)->0,
        made.compact_summary_text is Some,
        made.compact_summary_text->0@ == carried_summary(*value)->0,
        made.initial_objective_text@ == input.user_prompt_excerpt@,
        made.explicit_compaction_marker == is_marked(carried_summary(*value)->0),
{
}

/// What is known of a request beside its body is kept as it is.
pub proof fn law_candidates_keep_what_is_known(
    value: &JsonValue,
    mode: PromptCaptureMode,
    input: RequestSnapshotInput,
    made: RequestSnapshotCandidate,
)
    requires
        call_ensures(build_candidate, (value, mode, input), made),
    ensures
        made.capture_mode == mode,
        made.model@ == input.model@,
        made.working_dir@ == input.working_dir@,
        made.message_count == input.message_count,
        made.system_prompt_length == input.system_prompt_length,
        made.estimated_input_tokens == input.estimated_input_tokens,
        made.first_message_hash@ == input.first_message_hash@,
        made.compacted_state_hash@ == input.compacted_state_hash@,
{
}

/// The summary that a request carries is the beginning of one of its messages, without noise, of
/// which 16000 characters are looked at: a marked one, or else one that reads like a summary.
/// There is none where no message is such.
pub proof fn law_carried_summary_is_a_message(value: JsonValue)
    requires
        member(value, "messages"@) is Some,
        member(value, "messages"@)->0 is Array,
    ensures
        ({
            let messages = member(value, "messages"@)->0->Array_0@;
            let texts = messages.map_values(
                |message: JsonValue|
                    {
                        let text = match member(message, "content"@) {
                            Some(content) => texts_added(content, Seq::empty(), 16_000),
                            None => Seq::empty(),
                        };
                        if trimmed(text).len() == 0 {
                            Seq::empty()
                        } else {
                            denoised(text)
                        }
                    },
            );
            carried_summary(value) == summary_among(texts)
        }),
{
    let messages = member(value, "messages"@)->0->Array_0@;
    let texts = messages.map_values(
        |message: JsonValue|
            {
                let text = match member(message, "content"@) {
                    Some(content) => texts_added(content, Seq::empty(), 16_000),
                    None => Seq::empty(),
                };
                if trimmed(text).len() == 0 {
                    Seq::empty()
                } else {
                    denoised(text)
                }
            },
    );
    assert(cleaned_messages(messages) =~= texts);
}

// ---- What the functions give ----

/// A request is detected as compacted just where the laws of detection say so.
pub proof fn law_requests_are_detected(
    candidate: &RequestSnapshotCandidate,
    previous: Option<&RequestObservation>,
    fill_percent: Option<u32>,
    found: Option<CompactionDetection>,
)
    requires
        call_ensures(detect_compaction, (candidate, previous, fill_percent), found),
    ensures
        found.deep_view() == detection_of(
            candidate.deep_view(),
            previous.deep_view(),
            fill_percent,
        ),
{
}

/// A drift is scored as the laws of drift say, from the initial objective, the snapshot before
/// and the latest one.
pub proof fn law_drifts_are_scored(
    assistant: &str,
    initial: &str,
    previous: Option<&CompactionSnapshot>,
    latest: &CompactionSnapshot,
    drift: DriftScore,
)
    requires
        call_ensures(score_drift_deterministic, (assistant, initial, previous, latest), drift),
    ensures
        drift.deep_view() == snapshot_drift(
            assistant@,
            initial@,
            previous.deep_view(),
            latest.deep_view(),
        ),
{
}

/// A safe excerpt shows the redacted text, a raw one the text itself, both without the white
/// space around it, and cut where it is too long. A blank text has neither.
pub proof fn law_excerpts_show_their_text(
    value: &str,
    max: usize,
    safe: Option<PromptExcerpt>,
    raw: Option<PromptExcerpt>,
)
    requires
        call_ensures(safe_excerpt, (value, max), safe),
        call_ensures(raw_excerpt, (value, max), raw),
    ensures
        ({
            let source = trimmed(value@);
            &&& safe is Some <==> source.len() > 0
            &&& raw is Some <==> source.len() > 0
            &&& safe is Some ==> {
                &&& redacted(source).len() <= max ==> safe->0.text@ == redacted(source)
                &&& redacted(source).len() > max >= 3 ==> safe->0.text@ == redacted(source).take(
                    max - 3,
                ) + "..."@
                &&& safe->0.redacted
                &&& safe->0.source_chars == source.len()
                &&& safe->0.truncated <==> redacted(source).len() > max || redacted(source).len()
                    < source.len()
            }
            &&& raw is Some ==> {
                &&& source.len() <= max ==> raw->0.text@ == source
                &&& source.len() > max >= 3 ==> raw->0.text@ == source.take(max - 3) + "..."@
                &&& !raw->0.redacted
                &&& raw->0.source_chars == source.len()
                &&& raw->0.truncated <==> source.len() > max
            }
        }),
{
    assert(safe.deep_view() == safe_excerpt_of(value@, max as nat));
    assert(raw.deep_view() == raw_excerpt_of(value@, max as nat));
    if safe is Some {
        assert(safe.deep_view()->0 == safe->0.deep_view());
    }
    if raw is Some {
        assert(raw.deep_view()->0 == raw->0.deep_view());
    }
}

/// The texts of a request are read as the laws of reading say.
pub proof fn law_requests_are_read(
    value: &JsonValue,
    max: usize,
    system: String,
    messages: String,
    summary: Option<String>,
)
    requires
        call_ensures(collect_system_text, (value,), system),
        call_ensures(collect_message_text, (value, max), messages),
        call_ensures(collect_compact_summary_text, (value,), summary),
    ensures
        system@ == system_text(*value),
        messages@.len() <= max,
        match member(*value, "messages"@) {
            Some(JsonValue::Array(items)) => messages@ == first_chars(
                contents_of(items@, max as nat),
                max as nat,
            ),
            _ => messages@.len() == 0 && summary is None,
        },
        summary.deep_view() == carried_summary(*value),
{
}

/// The evidence that an analyzer sees is that of the snapshot, by its source; and the prompt
/// holds it behind the same words every time.
pub proof fn law_prompts_say_the_same(
    snapshot: &CompactionSnapshot,
    source: DriftScoreSource,
    evidence: DriftEvidence,
    one: &str,
    two: &str,
    prompt: String,
    other: String,
)
    requires
        call_ensures(collect_evidence, (snapshot, source), evidence),
        call_ensures(write_prompt, (one, source), prompt),
        call_ensures(write_prompt, (two, source), other),
    ensures
        evidence.deep_view() == evidence_of(snapshot.deep_view(), source),
        evidence.session_id@ == snapshot.session_id@,
        evidence.sequence == snapshot.sequence,
        evidence.capture_mode == snapshot.capture_mode,
        evidence.detection.deep_view() == snapshot.detection.deep_view(),
        evidence.request.deep_view() == snapshot.request.deep_view(),
        source != DriftScoreSource::ClaudeAssistedRedacted ==> evidence.excerpts.deep_view()
            == snapshot.excerpts.deep_view(),
        prompt@ == PROMPT_HEAD@ + source.label() + PROMPT_SHAPE@ + plain(one@, 24_000) + "\n```"@,
        plain(one@, 24_000) == plain(two@, 24_000) ==> prompt@ == other@,
{
}

/// Every prompt tells an analyzer the same: to use the evidence only, to answer in JSON of the
/// given shape, and which scores are better high and which low.
pub proof fn law_what_every_prompt_says(bundle: Seq<char>, source: DriftScoreSource)
    ensures
        prompt_of(bundle, source) == "You are cc-blackbox's compaction drift analyst.\n\
Use only the JSON evidence below. Return strict JSON only, with no Markdown.\n\
Score dimensions from 0 to 100. For objective_alignment, state_preservation, and actionability, higher is better. For scope_drift and risk, higher is worse.\n\
Do not invent raw prompt details. Preserve caveats when evidence is redacted, capped, or heuristic.\n\
Required JSON shape:\n\
{\"source\":\""@ + source.label() + "\",\"objective_alignment\":{\"score\":0,\"label\":\"low\",\"evidence\":[]},\"state_preservation\":{\"score\":0,\"label\":\"low\",\"evidence\":[]},\"scope_drift\":{\"score\":0,\"label\":\"low\",\"evidence\":[]},\"actionability\":{\"score\":0,\"label\":\"low\",\"evidence\":[]},\"risk\":{\"score\":0,\"label\":\"low\",\"evidence\":[]},\"missing_facts\":[],\"changed_framing\":null,\"caveats\":[]}\n\n\
Evidence JSON:\n```json\n"@ + plain(bundle, 24_000) + "\n```"@,
{
}

/// Sources and capture modes are told by their labels.
pub proof fn law_labels_of_sources_and_modes(source: DriftScoreSource, mode: PromptCaptureMode)
    ensures
        source.label() == match source {
            DriftScoreSource::Deterministic => "deterministic"@,
            DriftScoreSource::ClaudeAssistedRedacted => "claude_assisted_redacted"@,
            DriftScoreSource::ClaudeAssistedFull => "claude_assisted_full"@,
        },
        mode.label() == match mode {
            PromptCaptureMode::Safe => "safe_redacted"@,
            PromptCaptureMode::Full => "full_local"@,
        },
        forall|label: &'static str| #[trigger]
            call_ensures(DriftScoreSource::as_label, (&source,), label) ==> label@
                == source.label(),
        forall|label: &'static str| #[trigger]
            call_ensures(PromptCaptureMode::as_label, (mode,), label) ==> label@ == mode.label(),
{
}

/// The settings are read under their names.
pub proof fn law_settings_have_names()
    ensures
        CAPTURE_PROMPTS_ENV@ == "CC_BLACKBOX_CAPTURE_PROMPTS"@,
        DRIFT_ANALYZER_ENV@ == "CC_BLACKBOX_DRIFT_ANALYZER"@,
        DRIFT_ANALYZER_COMMAND_ENV@ == "CC_BLACKBOX_DRIFT_ANALYZER_COMMAND"@,
        DRIFT_ANALYZER_CONTEXT_ENV@ == "CC_BLACKBOX_DRIFT_ANALYZER_CONTEXT"@,
        DRIFT_ANALYZER_MOCK_RESPONSE_ENV@ == "CC_BLACKBOX_DRIFT_ANALYZER_MOCK_RESPONSE"@,
        PROMPT_SNAPSHOT_LIMIT_ENV@ == "CC_BLACKBOX_PROMPT_SNAPSHOT_LIMIT"@,
        PROMPT_SNAPSHOT_TTL_SECS_ENV@ == "CC_BLACKBOX_PROMPT_SNAPSHOT_TTL_SECS"@,
{
}

} // verus!

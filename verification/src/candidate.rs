//! What a request shows of its conversation: the candidate for a snapshot.
use vstd::prelude::*;
use vstd::string::*;

use crate::capture::PromptCaptureMode;
use crate::hash::{hash_text_hex, text_label};
use crate::json::{collect_text_from_value, JsonValue};
use crate::json::{member, text_member, texts_added, lemma_full_stays};
use crate::redact::strip_snapshot_noise_blocks;
use crate::redact::{denoised, lacks_noise, tidied};
use crate::text::{blank, has_text, head, join_texts, lower_chars};
use crate::text::{contains_text, first_chars, is_blank, joined, lowered};

verus! {

/// The most characters that are kept of a request's text.
pub const TEXT_CAPTURE_CHARS: usize = 65_536;

/// The most characters that are read of one message when a summary is looked for.
pub const SUMMARY_SCAN_CHARS: usize = 16_000;

/// What is known of a request beside its body.
#[derive(Debug)]
pub struct RequestSnapshotInput {
    pub model: String,
    pub working_dir: String,
    pub message_count: usize,
    pub system_prompt_length: usize,
    pub estimated_input_tokens: usize,
    pub first_message_hash: String,
    pub first_user_message: String,
    pub user_prompt_excerpt: String,
    pub compacted_state_hash: String,
}

impl Clone for RequestSnapshotInput {
    fn clone(&self) -> (copy: Self)
        ensures
            copy == *self,
    {
        RequestSnapshotInput {
            model: self.model.clone(),
            working_dir: self.working_dir.clone(),
            message_count: self.message_count,
            system_prompt_length: self.system_prompt_length,
            estimated_input_tokens: self.estimated_input_tokens,
            first_message_hash: self.first_message_hash.clone(),
            first_user_message: self.first_user_message.clone(),
            user_prompt_excerpt: self.user_prompt_excerpt.clone(),
            compacted_state_hash: self.compacted_state_hash.clone(),
        }
    }
}

/// A request that may give rise to a snapshot.
#[derive(Debug)]
pub struct RequestSnapshotCandidate {
    pub capture_mode: PromptCaptureMode,
    pub model: String,
    pub working_dir: String,
    pub message_count: usize,
    pub system_prompt_length: usize,
    pub estimated_input_tokens: usize,
    pub first_message_hash: String,
    pub system_prompt_hash: String,
    pub compacted_state_hash: String,
    pub initial_objective_text: String,
    pub compacted_objective_text: String,
    pub compact_summary_text: Option<String>,
    /// The text in which signs of a compaction are looked for.
    pub detection_text: String,
    /// The detection text says outright that the conversation was compacted.
    pub explicit_compaction_marker: bool,
}

/// The model of a candidate.
pub struct CandidateView {
    pub capture_mode: PromptCaptureMode,
    pub model: Seq<char>,
    pub working_dir: Seq<char>,
    pub message_count: usize,
    pub system_prompt_length: usize,
    pub estimated_input_tokens: usize,
    pub first_message_hash: Seq<char>,
    pub system_prompt_hash: Seq<char>,
    pub compacted_state_hash: Seq<char>,
    pub initial_objective_text: Seq<char>,
    pub compacted_objective_text: Seq<char>,
    pub compact_summary_text: Option<Seq<char>>,
    pub detection_text: Seq<char>,
    pub explicit_compaction_marker: bool,
}

impl DeepView for RequestSnapshotCandidate {
    type V = CandidateView;

    open spec fn deep_view(&self) -> CandidateView {
        CandidateView {
            capture_mode: self.capture_mode,
            model: self.model@,
            working_dir: self.working_dir@,
            message_count: self.message_count,
            system_prompt_length: self.system_prompt_length,
            estimated_input_tokens: self.estimated_input_tokens,
            first_message_hash: self.first_message_hash@,
            system_prompt_hash: self.system_prompt_hash@,
            compacted_state_hash: self.compacted_state_hash@,
            initial_objective_text: self.initial_objective_text@,
            compacted_objective_text: self.compacted_objective_text@,
            compact_summary_text: self.compact_summary_text.deep_view(),
            detection_text: self.detection_text@,
            explicit_compaction_marker: self.explicit_compaction_marker,
        }
    }
}

impl Clone for RequestSnapshotCandidate {
    fn clone(&self) -> (copy: Self)
        ensures
            copy.deep_view() == self.deep_view(),
    {
        RequestSnapshotCandidate {
            capture_mode: self.capture_mode,
            model: self.model.clone(),
            working_dir: self.working_dir.clone(),
            message_count: self.message_count,
            system_prompt_length: self.system_prompt_length,
            estimated_input_tokens: self.estimated_input_tokens,
            first_message_hash: self.first_message_hash.clone(),
            system_prompt_hash: self.system_prompt_hash.clone(),
            compacted_state_hash: self.compacted_state_hash.clone(),
            initial_objective_text: self.initial_objective_text.clone(),
            compacted_objective_text: self.compacted_objective_text.clone(),
            compact_summary_text: self.compact_summary_text.clone(),
            detection_text: self.detection_text.clone(),
            explicit_compaction_marker: self.explicit_compaction_marker,
        }
    }
}

// ---- Signs of a summary ----

/// The text says outright that the conversation was compacted or summarized.
pub open spec fn is_marked(value: Seq<char>) -> bool {
    let low = lowered(value);
    ||| contains_text(low, "compaction summary:"@)
    ||| contains_text(low, "compact summary:"@)
    ||| contains_text(low, "conversation summary:"@)
    ||| contains_text(low, "session summary:"@)
    ||| contains_text(low, "conversation compacted"@)
    ||| contains_text(low, "conversation was compacted"@)
    ||| contains_text(low, "previous conversation has been summarized"@)
    ||| contains_text(low, "previous conversation was summarized"@)
}

/// The number of the conditions that hold.
pub open spec fn tally(held: Seq<bool>) -> nat
    decreases held.len(),
{
    if held.len() == 0 {
        0
    } else {
        tally(held.drop_last()) + if held.last() {
            1nat
        } else {
            0nat
        }
    }
}

/// Which of the phrases of a summary the text holds.
pub open spec fn summary_phrases(value: Seq<char>) -> Seq<bool> {
    let low = lowered(value);
    seq![
        contains_text(low, "summary"@),
        contains_text(low, "conversation summary"@),
        contains_text(low, "session summary"@),
        contains_text(low, "previous conversation"@),
        contains_text(low, "continue from"@),
        contains_text(low, "next steps"@),
        contains_text(low, "remaining work"@),
        contains_text(low, "handoff"@),
    ]
}

/// The text reads like a summary: it holds two or more of the phrases of one.
pub open spec fn resembles_summary(value: Seq<char>) -> bool {
    tally(summary_phrases(value)) >= 2
}

/// Decides whether the text says outright that the conversation was compacted.
pub fn contains_explicit_compaction_marker(value: &str) -> (held: bool)
    ensures
        held == is_marked(value@),
{
    let low = lower_chars(value);
    has_text(&low, "compaction summary:") || has_text(&low, "compact summary:") || has_text(
        &low,
        "conversation summary:",
    ) || has_text(&low, "session summary:") || has_text(&low, "conversation compacted") || has_text(
        &low,
        "conversation was compacted",
    ) || has_text(&low, "previous conversation has been summarized") || has_text(
        &low,
        "previous conversation was summarized",
    )
}

/// Counts the conditions that hold.
fn count_held(held: &Vec<bool>) -> (count: usize)
    ensures
        count == tally(held@),
{
    let mut count: usize = 0;
    let mut i: usize = 0;
    while i < held.len()
        invariant
            i <= held@.len(),
            count <= i,
            count == tally(held@.take(i as int)),
        decreases held@.len() - i,
    {
        assert(held@.take(i + 1).drop_last() =~= held@.take(i as int));
        if held[i] {
            count += 1;
        }
        i += 1;
    }
    assert(held@.take(i as int) =~= held@);
    count
}

/// Decides whether the text reads like a summary.
pub fn looks_like_compact_summary(value: &str) -> (held: bool)
    ensures
        held == resembles_summary(value@),
{
    let low = lower_chars(value);
    let phrases: Vec<bool> = vec![
        has_text(&low, "summary"),
        has_text(&low, "conversation summary"),
        has_text(&low, "session summary"),
        has_text(&low, "previous conversation"),
        has_text(&low, "continue from"),
        has_text(&low, "next steps"),
        has_text(&low, "remaining work"),
        has_text(&low, "handoff"),
    ];
    assert(phrases@ =~= summary_phrases(value@));
    count_held(&phrases) >= 2
}

// ---- The text of a request ----

/// The texts of the members `text` of the items that have one.
pub open spec fn member_texts(items: Seq<JsonValue>) -> Seq<Seq<char>>
    decreases items.len(),
{
    if items.len() == 0 {
        Seq::empty()
    } else {
        match text_member(items.last()) {
            Some(text) => member_texts(items.drop_last()).push(text),
            None => member_texts(items.drop_last()),
        }
    }
}

/// The system prompt of a request: a text, or the texts of an array on lines of their own.
pub open spec fn system_text(value: JsonValue) -> Seq<char> {
    match member(value, "system"@) {
        Some(JsonValue::Text(text)) => text@,
        Some(JsonValue::Array(items)) => joined(member_texts(items@), "\n"@),
        _ => Seq::empty(),
    }
}

/// The messages of a request, where it has an array of them.
pub open spec fn messages_of(value: JsonValue) -> Option<Seq<JsonValue>> {
    match member(value, "messages"@) {
        Some(JsonValue::Array(items)) => Some(items@),
        _ => None,
    }
}

/// The text that is `out` with the texts of a message's content added.
pub open spec fn content_added(message: JsonValue, out: Seq<char>, max: nat) -> Seq<char> {
    match member(message, "content"@) {
        Some(content) => texts_added(content, out, max),
        None => out,
    }
}

/// The texts of the contents of the messages, up to `max` characters in all.
pub open spec fn contents_of(messages: Seq<JsonValue>, max: nat) -> Seq<char>
    decreases messages.len(),
{
    if messages.len() == 0 {
        Seq::empty()
    } else {
        content_added(messages.last(), contents_of(messages.drop_last(), max), max)
    }
}

/// The text of the messages of a request.
pub open spec fn message_text(value: JsonValue, max: nat) -> Seq<char> {
    match messages_of(value) {
        Some(messages) => first_chars(contents_of(messages, max), max),
        None => Seq::empty(),
    }
}

/// The text of one message without noise blocks. Of a blank text nothing is left.
pub open spec fn cleaned_message(message: JsonValue) -> Seq<char> {
    let text = content_added(message, Seq::empty(), SUMMARY_SCAN_CHARS as nat);
    if is_blank(text) {
        Seq::empty()
    } else {
        denoised(text)
    }
}

/// The message holds no noise block.
pub open spec fn is_quiet(message: JsonValue) -> bool {
    lacks_noise(content_added(message, Seq::empty(), SUMMARY_SCAN_CHARS as nat))
}

/// The text of one message, tidied.
pub open spec fn tidied_message(message: JsonValue) -> Seq<char> {
    let text = content_added(message, Seq::empty(), SUMMARY_SCAN_CHARS as nat);
    if is_blank(text) {
        Seq::empty()
    } else {
        tidied(text)
    }
}

/// The texts of the messages, tidied.
pub open spec fn tidied_messages(messages: Seq<JsonValue>) -> Seq<Seq<char>> {
    messages.map_values(|message: JsonValue| tidied_message(message))
}

/// No message of the request holds a noise block.
pub open spec fn messages_are_quiet(value: JsonValue) -> bool {
    match messages_of(value) {
        Some(messages) => forall|i: int|
            0 <= i < messages.len() ==> is_quiet(#[trigger] messages[i]),
        None => true,
    }
}

/// The summary that a request without noise blocks carries in its messages.
pub open spec fn quiet_summary(value: JsonValue) -> Option<Seq<char>> {
    match messages_of(value) {
        Some(messages) => summary_among(tidied_messages(messages)),
        None => None,
    }
}

/// The texts of the messages without noise blocks.
pub open spec fn cleaned_messages(messages: Seq<JsonValue>) -> Seq<Seq<char>> {
    messages.map_values(|message: JsonValue| cleaned_message(message))
}

/// The first of the texts that says outright that the conversation was compacted.
pub open spec fn first_marked(texts: Seq<Seq<char>>) -> Option<Seq<char>>
    decreases texts.len(),
{
    if texts.len() == 0 {
        None
    } else {
        match first_marked(texts.drop_last()) {
            Some(text) => Some(text),
            None => if is_marked(texts.last()) {
                Some(texts.last())
            } else {
                None
            },
        }
    }
}

/// The first of the texts that reads like a summary.
pub open spec fn first_resembling(texts: Seq<Seq<char>>) -> Option<Seq<char>>
    decreases texts.len(),
{
    if texts.len() == 0 {
        None
    } else {
        match first_resembling(texts.drop_last()) {
            Some(text) => Some(text),
            None => if resembles_summary(texts.last()) {
                Some(texts.last())
            } else {
                None
            },
        }
    }
}

/// The summary among the texts: the first that says it is one, or else the first that reads
/// like one.
pub open spec fn summary_among(texts: Seq<Seq<char>>) -> Option<Seq<char>> {
    match first_marked(texts) {
        Some(text) => Some(first_chars(text, TEXT_CAPTURE_CHARS as nat)),
        None => match first_resembling(texts) {
            Some(text) => Some(first_chars(text, TEXT_CAPTURE_CHARS as nat)),
            None => None,
        },
    }
}

/// The summary that a request carries in its messages.
pub open spec fn carried_summary(value: JsonValue) -> Option<Seq<char>> {
    match messages_of(value) {
        Some(messages) => summary_among(cleaned_messages(messages)),
        None => None,
    }
}

/// Once one of the first texts is marked, the others do not matter.
proof fn lemma_first_marked_settles(texts: Seq<Seq<char>>, k: int)
    requires
        0 <= k <= texts.len(),
        first_marked(texts.take(k)) is Some,
    ensures
        first_marked(texts) == first_marked(texts.take(k)),
    decreases texts.len(),
{
    if k < texts.len() {
        assert(texts.drop_last().take(k) =~= texts.take(k));
        lemma_first_marked_settles(texts.drop_last(), k);
    } else {
        assert(texts.take(k) =~= texts);
    }
}

/// Once the first messages have filled the text, the others add nothing.
proof fn lemma_contents_full(messages: Seq<JsonValue>, k: int, max: nat)
    requires
        0 <= k <= messages.len(),
        contents_of(messages.take(k), max).len() >= max,
    ensures
        contents_of(messages, max) == contents_of(messages.take(k), max),
    decreases messages.len(),
{
    if k < messages.len() {
        assert(messages.drop_last().take(k) =~= messages.take(k));
        lemma_contents_full(messages.drop_last(), k, max);
        if let Some(content) = member(messages.last(), "content"@) {
            lemma_full_stays(content, contents_of(messages.take(k), max), max);
        }
    } else {
        assert(messages.take(k) =~= messages);
    }
}

/// The first `max_chars` characters of a text.
pub fn truncate_string(value: &str, max_chars: usize) -> (out: String)
    ensures
        out@ == first_chars(value@, max_chars as nat),
{
    head(value, max_chars).to_string()
}

/// Reads the system prompt of a request.
pub fn collect_system_text(value: &JsonValue) -> (out: String)
    ensures
        out@ == system_text(*value),
{
    match value.get("system") {
        Some(JsonValue::Text(text)) => text.clone(),
        Some(JsonValue::Array(items)) => {
            let mut texts: Vec<String> = Vec::new();
            let mut i: usize = 0;
            assert(texts.deep_view() =~= Seq::<Seq<char>>::empty());
            while i < items.len()
                invariant
                    i <= items@.len(),
                    texts.deep_view() == member_texts(items@.take(i as int)),
                decreases items@.len() - i,
            {
                assert(items@.take(i + 1).drop_last() =~= items@.take(i as int));
                let ghost before = texts.deep_view();
                if let Some(text) = items[i].text_of_member() {
                    texts.push(text.to_string());
                    assert(texts.deep_view() =~= before.push(text@));
                }
                i += 1;
            }
            assert(items@.take(i as int) =~= items@);
            join_texts(&texts, "\n")
        },
        _ => String::new(),
    }
}

/// Adds the texts of a message's content.
fn add_content(message: &JsonValue, out: &mut String, max_chars: usize)
    ensures
        final(out)@ == content_added(*message, old(out)@, max_chars as nat),
{
    if let Some(content) = message.get("content") {
        collect_text_from_value(content, out, max_chars);
    }
}

/// Reads the text of the messages of a request.
pub fn collect_message_text(value: &JsonValue, max_chars: usize) -> (text: String)
    ensures
        text@ == message_text(*value, max_chars as nat),
{
    let mut out = String::new();
    if let Some(JsonValue::Array(messages)) = value.get("messages") {
        let mut i: usize = 0;
        assert(messages@.take(0) =~= Seq::<JsonValue>::empty());
        assert(messages@.take(messages@.len() as int) =~= messages@);
        while i < messages.len()
            invariant_except_break
                i <= messages@.len(),
                messages@.take(messages@.len() as int) == messages@,
                out@ == contents_of(messages@.take(i as int), max_chars as nat),
            ensures
                out@ == contents_of(messages@, max_chars as nat),
            decreases messages@.len() - i,
        {
            assert(messages@.take(i + 1).drop_last() =~= messages@.take(i as int));
            add_content(&messages[i], &mut out, max_chars);
            i += 1;
            if out.as_str().unicode_len() >= max_chars {
                proof {
                    lemma_contents_full(messages@, i as int, max_chars as nat);
                }
                break ;
            }
        }
        truncate_string(out.as_str(), max_chars)
    } else {
        out
    }
}

/// Picks the summary among the texts.
pub fn choose_summary(texts: &Vec<String>) -> (summary: Option<String>)
    ensures
        summary.deep_view() == summary_among(texts.deep_view()),
{
    let mut resembling: Option<usize> = None;
    let mut i: usize = 0;
    while i < texts.len()
        invariant
            i <= texts@.len(),
            first_marked(texts.deep_view().take(i as int)) is None,
            match resembling {
                Some(k) => k < texts@.len() && first_resembling(texts.deep_view().take(i as int))
                    == Some(texts.deep_view()[k as int]),
                None => first_resembling(texts.deep_view().take(i as int)) is None,
            },
        decreases texts@.len() - i,
    {
        proof {
            let longer = texts.deep_view().take(i + 1);
            assert(longer.drop_last() =~= texts.deep_view().take(i as int));
        }
        if contains_explicit_compaction_marker(texts[i].as_str()) {
            proof {
                lemma_first_marked_settles(texts.deep_view(), i + 1);
            }
            return Some(truncate_string(texts[i].as_str(), TEXT_CAPTURE_CHARS));
        }
        if resembling.is_none() && looks_like_compact_summary(texts[i].as_str()) {
            resembling = Some(i);
        }
        i += 1;
    }
    assert(texts.deep_view().take(i as int) =~= texts.deep_view());
    match resembling {
        Some(k) => Some(truncate_string(texts[k].as_str(), TEXT_CAPTURE_CHARS)),
        None => None,
    }
}

/// Reads the summary that a request carries in its messages.
pub fn collect_compact_summary_text(value: &JsonValue) -> (summary: Option<String>)
    ensures
        summary.deep_view() == carried_summary(*value),
        messages_are_quiet(*value) ==> summary.deep_view() == quiet_summary(*value),
{
    if let Some(JsonValue::Array(messages)) = value.get("messages") {
        let ghost all = cleaned_messages(messages@);
        let ghost quiet = tidied_messages(messages@);
        let mut texts: Vec<String> = Vec::new();
        let mut i: usize = 0;
        assert(texts.deep_view() =~= all.take(0));
        assert(all.take(messages@.len() as int) =~= all);
        assert(quiet.take(messages@.len() as int) =~= quiet);
        assert(texts.deep_view() =~= quiet.take(0));
        while i < messages.len()
            invariant_except_break
                i <= messages@.len(),
                all.take(messages@.len() as int) == all,
                all == cleaned_messages(messages@),
                quiet == tidied_messages(messages@),
                quiet.take(messages@.len() as int) == quiet,
                messages_of(*value) == Some(messages@),
                texts.deep_view() == all.take(i as int),
                messages_are_quiet(*value) ==> texts.deep_view() == quiet.take(i as int),
            ensures
                summary_among(texts.deep_view()) == summary_among(all),
                messages_are_quiet(*value) ==> summary_among(texts.deep_view())
                    == summary_among(quiet),
            decreases messages@.len() - i,
        {
            let mut text = String::new();
            add_content(&messages[i], &mut text, SUMMARY_SCAN_CHARS);
            let cleaned = if blank(text.as_str()) {
                String::new()
            } else {
                strip_snapshot_noise_blocks(text.as_str())
            };
            assert(cleaned@ == all[i as int]);
            let marked: bool = contains_explicit_compaction_marker(cleaned.as_str());
            texts.push(cleaned);
            i += 1;
            assert(texts.deep_view() =~= all.take(i as int));
            proof {
                if messages_are_quiet(*value) {
                    assert(is_quiet(messages@[i - 1]));
                    assert(cleaned@ == quiet[i - 1]);
                    assert(texts.deep_view() =~= quiet.take(i as int));
                }
            }
            if marked {
                proof {
                    assert(texts.deep_view().last() == cleaned@);
                    lemma_first_marked_settles(all, i as int);
                    if messages_are_quiet(*value) {
                        lemma_first_marked_settles(quiet, i as int);
                    }
                }
                break ;
            }
        }
        choose_summary(&texts)
    } else {
        None
    }
}

// ---- The candidate ----

/// The candidate that a request makes, given the label of its system prompt, the text of its
/// messages without noise blocks and the summary that it carries.
pub open spec fn candidate_of(
    capture_mode: PromptCaptureMode,
    input: RequestSnapshotInput,
    system_prompt_hash: Seq<char>,
    cleaned_text: Seq<char>,
    summary: Option<Seq<char>>,
) -> CandidateView {
    let detection_text = match summary {
        Some(text) => text,
        None => cleaned_text,
    };
    CandidateView {
        capture_mode,
        model: input.model@,
        working_dir: input.working_dir@,
        message_count: input.message_count,
        system_prompt_length: input.system_prompt_length,
        estimated_input_tokens: input.estimated_input_tokens,
        first_message_hash: input.first_message_hash@,
        system_prompt_hash,
        compacted_state_hash: input.compacted_state_hash@,
        initial_objective_text: input.user_prompt_excerpt@,
        compacted_objective_text: match summary {
            Some(text) => text,
            None => if is_blank(input.user_prompt_excerpt@) {
                first_chars(cleaned_text, TEXT_CAPTURE_CHARS as nat)
            } else {
                input.user_prompt_excerpt@
            },
        },
        compact_summary_text: summary,
        detection_text,
        explicit_compaction_marker: is_marked(detection_text),
    }
}

/// Puts a candidate together.
pub fn assemble_candidate(
    capture_mode: PromptCaptureMode,
    input: RequestSnapshotInput,
    system_prompt_hash: String,
    cleaned_text: String,
    summary: Option<String>,
) -> (candidate: RequestSnapshotCandidate)
    ensures
        candidate.deep_view() == candidate_of(
            capture_mode,
            input,
            system_prompt_hash@,
            cleaned_text@,
            summary.deep_view(),
        ),
{
    let detection_text = match &summary {
        Some(text) => text.clone(),
        None => cleaned_text.clone(),
    };
    let compacted_objective_text = match &summary {
        Some(text) => text.clone(),
        None => if blank(input.user_prompt_excerpt.as_str()) {
            truncate_string(cleaned_text.as_str(), TEXT_CAPTURE_CHARS)
        } else {
            input.user_prompt_excerpt.clone()
        },
    };
    let explicit_compaction_marker: bool = contains_explicit_compaction_marker(
        detection_text.as_str(),
    );
    RequestSnapshotCandidate {
        capture_mode,
        model: input.model,
        working_dir: input.working_dir,
        message_count: input.message_count,
        system_prompt_length: input.system_prompt_length,
        estimated_input_tokens: input.estimated_input_tokens,
        first_message_hash: input.first_message_hash,
        system_prompt_hash,
        compacted_state_hash: input.compacted_state_hash,
        initial_objective_text: input.user_prompt_excerpt,
        compacted_objective_text,
        compact_summary_text: summary,
        detection_text,
        explicit_compaction_marker,
    }
}

/// Makes the candidate of a request.
pub fn build_candidate(
    value: &JsonValue,
    capture_mode: PromptCaptureMode,
    input: RequestSnapshotInput,
) -> (candidate: RequestSnapshotCandidate)
    ensures
        candidate.deep_view() == candidate_of(
            capture_mode,
            input,
            text_label(system_text(*value)),
            denoised(message_text(*value, TEXT_CAPTURE_CHARS as nat)),
            carried_summary(*value),
        ),
        messages_are_quiet(*value) && lacks_noise(message_text(*value, TEXT_CAPTURE_CHARS as nat))
            ==> candidate.deep_view() == candidate_of(
            capture_mode,
            input,
            text_label(system_text(*value)),
            tidied(message_text(*value, TEXT_CAPTURE_CHARS as nat)),
            quiet_summary(*value),
        ),
{
    let system = collect_system_text(value);
    let messages = collect_message_text(value, TEXT_CAPTURE_CHARS);
    let cleaned_text = strip_snapshot_noise_blocks(messages.as_str());
    let summary = collect_compact_summary_text(value);
    let system_prompt_hash = hash_text_hex(system.as_str());
    assemble_candidate(capture_mode, input, system_prompt_hash, cleaned_text, summary)
}

} // verus!

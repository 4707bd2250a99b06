//! The scoring of drift with the help of an outside analyzer: how it is set up, what it is
//! shown, and what is made of its answer.
//!
//! The analyzer is named after the assistant that conversations are with; the caller gives
//! that name. Running the analyzer, and reading and writing JSON, is left to the caller.
use vstd::prelude::*;
use vstd::string::*;
use vstd::utf8::{decode_utf8, valid_utf8};

use crate::capture::PromptCaptureMode;
use crate::chars::{chars_of, string_of};
use crate::drift::{plain, truncate_plain};
use crate::drift_score::{DriftScore, DriftScoreSource, DriftView};
use crate::snapshot::{
    CompactionDetection, CompactionSnapshot, DetectionView, ExcerptsView, RequestShapeView,
    SnapshotExcerpts, SnapshotRequestShape, SnapshotView,
};
use crate::text::{find_first, find_last, lower_chars, lower_text, spells, trim};
use crate::text::{first_place, last_place, lowered, trimmed};

verus! {

// ---- Settings ----

/// The setting that turns the analyzer on.
pub const DRIFT_ANALYZER_ENV: &'static str = "CC_BLACKBOX_DRIFT_ANALYZER";

/// The setting that names the analyzer's command.
pub const DRIFT_ANALYZER_COMMAND_ENV: &'static str = "CC_BLACKBOX_DRIFT_ANALYZER_COMMAND";

/// The setting that says how much the analyzer is shown.
pub const DRIFT_ANALYZER_CONTEXT_ENV: &'static str = "CC_BLACKBOX_DRIFT_ANALYZER_CONTEXT";

/// The setting that holds the answer of a mock analyzer.
pub const DRIFT_ANALYZER_MOCK_RESPONSE_ENV: &'static str =
    "CC_BLACKBOX_DRIFT_ANALYZER_MOCK_RESPONSE";

/// The seconds that an analyzer may take.
pub const ANALYZER_TIMEOUT_SECS: u64 = 120;

/// The number of characters of evidence that an analyzer is shown at most.
pub const EVIDENCE_CHARS: usize = 24_000;

/// Which analyzer scores the drift.
#[derive(Debug, PartialEq, Eq)]
pub enum ClaudeDriftAnalyzerMode {
    /// None.
    Disabled,
    /// None is run; the answer is given.
    Mock { response: String },
    /// A command.
    Claude { command: String, source: DriftScoreSource, timeout_secs: u64 },
}

/// The model of the choice of an analyzer.
pub enum AnalyzerModeView {
    Disabled,
    Mock { response: Seq<char> },
    Claude { command: Seq<char>, source: DriftScoreSource, timeout_secs: u64 },
}

impl DeepView for ClaudeDriftAnalyzerMode {
    type V = AnalyzerModeView;

    open spec fn deep_view(&self) -> AnalyzerModeView {
        match *self {
            ClaudeDriftAnalyzerMode::Disabled => AnalyzerModeView::Disabled,
            ClaudeDriftAnalyzerMode::Mock { response } => AnalyzerModeView::Mock {
                response: response@,
            },
            ClaudeDriftAnalyzerMode::Claude {
                command,
                source,
                timeout_secs,
            } => AnalyzerModeView::Claude { command: command@, source, timeout_secs },
        }
    }
}

impl Clone for ClaudeDriftAnalyzerMode {
    fn clone(&self) -> (copy: Self)
        ensures
            copy.deep_view() == self.deep_view(),
    {
        match self {
            ClaudeDriftAnalyzerMode::Disabled => ClaudeDriftAnalyzerMode::Disabled,
            ClaudeDriftAnalyzerMode::Mock { response } => ClaudeDriftAnalyzerMode::Mock {
                response: response.clone(),
            },
            ClaudeDriftAnalyzerMode::Claude {
                command,
                source,
                timeout_secs,
            } => ClaudeDriftAnalyzerMode::Claude {
                command: command.clone(),
                source: *source,
                timeout_secs: *timeout_secs,
            },
        }
    }
}

/// A setting, or nothing where it is not made.
pub open spec fn setting_or_empty(setting: Option<Seq<char>>) -> Seq<char> {
    match setting {
        Some(text) => text,
        None => Seq::empty(),
    }
}

/// What an analyzer is shown, by its setting: the full evidence where the setting is `full`,
/// whatever its letter case and the white space around it.
pub open spec fn source_named(context: Option<Seq<char>>) -> DriftScoreSource {
    if lowered(trimmed(setting_or_empty(context))) == "full"@ {
        DriftScoreSource::ClaudeAssistedFull
    } else {
        DriftScoreSource::ClaudeAssistedRedacted
    }
}

/// The name turns the analyzer off.
pub open spec fn turns_off(name: Seq<char>) -> bool {
    ||| name == ""@ || name == "0"@ || name == "false"@
    ||| name == "no"@ || name == "off"@ || name == "disabled"@
}

/// The analyzer that the settings ask for. A name that is not known asks for none.
pub open spec fn analyzer_named(
    assistant: Seq<char>,
    analyzer: Option<Seq<char>>,
    response: Option<Seq<char>>,
    command: Option<Seq<char>>,
    context: Option<Seq<char>>,
) -> AnalyzerModeView {
    let name = lowered(trimmed(setting_or_empty(analyzer)));
    if turns_off(name) {
        AnalyzerModeView::Disabled
    } else if name == "mock"@ {
        AnalyzerModeView::Mock { response: setting_or_empty(response) }
    } else if name == "1"@ || name == "true"@ || name == lowered(assistant) {
        AnalyzerModeView::Claude {
            command: match command {
                Some(text) => text,
                None => lowered(assistant),
            },
            source: source_named(context),
            timeout_secs: ANALYZER_TIMEOUT_SECS,
        }
    } else {
        AnalyzerModeView::Disabled
    }
}

/// A setting, or nothing where it is not made.
fn text_or_empty(setting: Option<&str>) -> (text: &str)
    ensures
        text@ == setting_or_empty(setting.deep_view()),
{
    match setting {
        Some(text) => text,
        None => {
            let text = "";
            proof {
                reveal_strlit("");
                assert(text@ =~= Seq::<char>::empty());
            }
            text
        },
    }
}

impl ClaudeDriftAnalyzerMode {
    /// Reads from the settings which analyzer scores the drift.
    pub fn from_settings(
        assistant: &str,
        analyzer: Option<&str>,
        response: Option<&str>,
        command: Option<&str>,
        context: Option<&str>,
    ) -> (mode: Self)
        ensures
            mode.deep_view() == analyzer_named(
                assistant@,
                analyzer.deep_view(),
                response.deep_view(),
                command.deep_view(),
                context.deep_view(),
            ),
    {
        let name = lower_chars(trim(text_or_empty(analyzer)));
        if spells(&name, "") || spells(&name, "0") || spells(&name, "false") || spells(&name, "no")
            || spells(&name, "off") || spells(&name, "disabled") {
            ClaudeDriftAnalyzerMode::Disabled
        } else if spells(&name, "mock") {
            ClaudeDriftAnalyzerMode::Mock { response: text_or_empty(response).to_string() }
        } else if spells(&name, "1") || spells(&name, "true") || spells(
            &name,
            lower_text(assistant).as_str(),
        ) {
            let shown = lower_chars(trim(text_or_empty(context)));
            ClaudeDriftAnalyzerMode::Claude {
                command: match command {
                    Some(text) => text.to_string(),
                    None => lower_text(assistant),
                },
                source: if spells(&shown, "full") {
                    DriftScoreSource::ClaudeAssistedFull
                } else {
                    DriftScoreSource::ClaudeAssistedRedacted
                },
                timeout_secs: ANALYZER_TIMEOUT_SECS,
            }
        } else {
            ClaudeDriftAnalyzerMode::Disabled
        }
    }
}

// ---- Plan ----

/// What is to be done to have the drift scored.
#[derive(Debug, PartialEq, Eq)]
pub enum AnalysisPlan {
    /// Nothing: it fails, for the given reason.
    Refuse { reason: String },
    /// The answer is there, and is to be read.
    Read { response: String, source: DriftScoreSource },
    /// The command is to be run, and its answer read.
    Run { command: String, source: DriftScoreSource, timeout_secs: u64 },
}

/// The model of a plan.
pub enum PlanView {
    Refuse { reason: Seq<char> },
    Read { response: Seq<char>, source: DriftScoreSource },
    Run { command: Seq<char>, source: DriftScoreSource, timeout_secs: u64 },
}

impl DeepView for AnalysisPlan {
    type V = PlanView;

    open spec fn deep_view(&self) -> PlanView {
        match *self {
            AnalysisPlan::Refuse { reason } => PlanView::Refuse { reason: reason@ },
            AnalysisPlan::Read { response, source } => PlanView::Read {
                response: response@,
                source,
            },
            AnalysisPlan::Run { command, source, timeout_secs } => PlanView::Run {
                command: command@,
                source,
                timeout_secs,
            },
        }
    }
}

/// The plan for a choice of an analyzer. What a mock answers counts as based on redacted
/// evidence.
pub open spec fn plan_of(mode: AnalyzerModeView) -> PlanView {
    match mode {
        AnalyzerModeView::Disabled => PlanView::Refuse { reason: "drift analyzer disabled"@ },
        AnalyzerModeView::Mock { response } => PlanView::Read {
            response,
            source: DriftScoreSource::ClaudeAssistedRedacted,
        },
        AnalyzerModeView::Claude { command, source, timeout_secs } => PlanView::Run {
            command,
            source,
            timeout_secs,
        },
    }
}

/// Plans how the drift is to be scored.
pub fn plan_analysis(mode: ClaudeDriftAnalyzerMode) -> (plan: AnalysisPlan)
    ensures
        plan.deep_view() == plan_of(mode.deep_view()),
{
    match mode {
        ClaudeDriftAnalyzerMode::Disabled => AnalysisPlan::Refuse {
            reason: "drift analyzer disabled".to_string(),
        },
        ClaudeDriftAnalyzerMode::Mock { response } => AnalysisPlan::Read {
            response,
            source: DriftScoreSource::ClaudeAssistedRedacted,
        },
        ClaudeDriftAnalyzerMode::Claude { command, source, timeout_secs } => AnalysisPlan::Run {
            command,
            source,
            timeout_secs,
        },
    }
}

/// The arguments that an analyzer is run with: it prints one answer, keeps no session, spends
/// little and uses no tools.
pub open spec fn arguments_of_run() -> Seq<Seq<char>> {
    seq![
        "-p"@,
        "--output-format"@,
        "text"@,
        "--no-session-persistence"@,
        "--max-budget-usd"@,
        "0.25"@,
        "--tools"@,
        ""@,
    ]
}

/// The arguments that an analyzer is run with.
pub fn analyzer_arguments() -> (arguments: Vec<String>)
    ensures
        arguments.deep_view() == arguments_of_run(),
{
    let mut arguments: Vec<String> = Vec::new();
    arguments.push("-p".to_string());
    arguments.push("--output-format".to_string());
    arguments.push("text".to_string());
    arguments.push("--no-session-persistence".to_string());
    arguments.push("--max-budget-usd".to_string());
    arguments.push("0.25".to_string());
    arguments.push("--tools".to_string());
    arguments.push("".to_string());
    assert(arguments.deep_view() =~= arguments_of_run());
    arguments
}

/// The changes to the environment of an analyzer: what a variable is set to, or that it is
/// taken away. Taken away is the address of a proxy.
pub open spec fn variables_of_run() -> Seq<(Seq<char>, Option<Seq<char>>)> {
    seq![("ANTHROPIC_BASE_URL"@, None), ("CC_BLACKBOX_DRIFT_ANALYSIS"@, Some("1"@))]
}

/// The changes that are made to the environment of an analyzer.
pub fn analyzer_variables() -> (variables: Vec<(String, Option<String>)>)
    ensures
        variables.deep_view() == variables_of_run(),
{
    let mut variables: Vec<(String, Option<String>)> = Vec::new();
    variables.push(("ANTHROPIC_BASE_URL".to_string(), None));
    variables.push(("CC_BLACKBOX_DRIFT_ANALYSIS".to_string(), Some("1".to_string())));
    assert(variables.deep_view() =~= variables_of_run());
    variables
}

// ---- Evidence and prompt ----

/// What an analyzer is shown of a snapshot.
#[derive(Debug)]
pub struct DriftEvidence {
    pub session_id: String,
    pub sequence: u64,
    pub capture_mode: PromptCaptureMode,
    pub detection: CompactionDetection,
    pub request: SnapshotRequestShape,
    pub excerpts: SnapshotExcerpts,
}

/// The model of evidence.
pub struct EvidenceView {
    pub session_id: Seq<char>,
    pub sequence: u64,
    pub capture_mode: PromptCaptureMode,
    pub detection: DetectionView,
    pub request: RequestShapeView,
    pub excerpts: ExcerptsView,
}

impl DeepView for DriftEvidence {
    type V = EvidenceView;

    open spec fn deep_view(&self) -> EvidenceView {
        EvidenceView {
            session_id: self.session_id@,
            sequence: self.sequence,
            capture_mode: self.capture_mode,
            detection: self.detection.deep_view(),
            request: self.request.deep_view(),
            excerpts: self.excerpts.deep_view(),
        }
    }
}

/// The evidence that a source is based on. Where it is redacted, it holds no raw text.
pub open spec fn evidence_of(snapshot: SnapshotView, source: DriftScoreSource) -> EvidenceView {
    EvidenceView {
        session_id: snapshot.session_id,
        sequence: snapshot.sequence,
        capture_mode: snapshot.capture_mode,
        detection: snapshot.detection,
        request: snapshot.request,
        excerpts: if source == DriftScoreSource::ClaudeAssistedRedacted {
            ExcerptsView {
                raw_initial_objective: None,
                raw_compacted_objective: None,
                raw_compact_summary: None,
                ..snapshot.excerpts
            }
        } else {
            snapshot.excerpts
        },
    }
}

/// Collects the evidence that a source is based on.
pub fn collect_evidence(snapshot: &CompactionSnapshot, source: DriftScoreSource) -> (evidence:
    DriftEvidence)
    ensures
        evidence.deep_view() == evidence_of(snapshot.deep_view(), source),
{
    let mut excerpts = snapshot.excerpts.clone();
    if source == DriftScoreSource::ClaudeAssistedRedacted {
        excerpts.raw_initial_objective = None;
        excerpts.raw_compacted_objective = None;
        excerpts.raw_compact_summary = None;
    }
    DriftEvidence {
        session_id: snapshot.session_id.clone(),
        sequence: snapshot.sequence,
        capture_mode: snapshot.capture_mode,
        detection: snapshot.detection.clone(),
        request: snapshot.request.clone(),
        excerpts,
    }
}

/// What the prompt says before it names the source.
pub const PROMPT_HEAD: &'static str = "You are cc-blackbox's compaction drift analyst.\n\
Use only the JSON evidence below. Return strict JSON only, with no Markdown.\n\
Score dimensions from 0 to 100. For objective_alignment, state_preservation, and actionability, higher is better. For scope_drift and risk, higher is worse.\n\
Do not invent raw prompt details. Preserve caveats when evidence is redacted, capped, or heuristic.\n\
Required JSON shape:\n\
{\"source\":\"";

/// What the prompt says between the source and the evidence.
pub const PROMPT_SHAPE: &'static str = "\",\"objective_alignment\":{\"score\":0,\"label\":\"low\",\"evidence\":[]},\"state_preservation\":{\"score\":0,\"label\":\"low\",\"evidence\":[]},\"scope_drift\":{\"score\":0,\"label\":\"low\",\"evidence\":[]},\"actionability\":{\"score\":0,\"label\":\"low\",\"evidence\":[]},\"risk\":{\"score\":0,\"label\":\"low\",\"evidence\":[]},\"missing_facts\":[],\"changed_framing\":null,\"caveats\":[]}\n\n\
Evidence JSON:\n```json\n";

/// What the prompt says after the evidence.
pub const PROMPT_TAIL: &'static str = "\n```";

/// The prompt for an analyzer that is shown the given JSON.
pub open spec fn prompt_of(bundle: Seq<char>, source: DriftScoreSource) -> Seq<char> {
    PROMPT_HEAD@ + source.label() + PROMPT_SHAPE@ + plain(bundle, EVIDENCE_CHARS as nat)
        + PROMPT_TAIL@
}

/// Writes the prompt for an analyzer that is shown the given JSON.
pub fn write_prompt(bundle: &str, source: DriftScoreSource) -> (prompt: String)
    ensures
        prompt@ == prompt_of(bundle@, source),
{
    let mut prompt = PROMPT_HEAD.to_string();
    prompt.append(source.as_label());
    prompt.append(PROMPT_SHAPE);
    let shown = truncate_plain(bundle, EVIDENCE_CHARS);
    prompt.append(shown.as_str());
    prompt.append(PROMPT_TAIL);
    prompt
}

/// The writer gives the JSON that `json` says, whenever it is called.
pub open spec fn writes_as<F: FnOnce(&DriftEvidence) -> String>(
    write: F,
    json: spec_fn(EvidenceView) -> Seq<char>,
) -> bool {
    forall|evidence: &DriftEvidence, bundle: String| #[trigger]
        call_ensures(write, (evidence,), bundle) ==> bundle@ == json(evidence.deep_view())
}

/// Writes the prompt for an analyzer of a snapshot. The evidence is handed to `write`, which
/// writes it as JSON.
pub fn build_claude_drift_prompt<F: FnOnce(&DriftEvidence) -> String>(
    snapshot: &CompactionSnapshot,
    source: DriftScoreSource,
    write: F,
) -> (prompt: String)
    requires
        forall|evidence: &DriftEvidence|
            evidence.deep_view() == evidence_of(snapshot.deep_view(), source) ==> call_requires(
                write,
                (evidence,),
            ),
    ensures
        exists|evidence: &DriftEvidence, bundle: String|
            {
                &&& evidence.deep_view() == evidence_of(snapshot.deep_view(), source)
                &&& #[trigger] call_ensures(write, (evidence,), bundle)
                &&& prompt@ == prompt_of(bundle@, source)
            },
        forall|json: spec_fn(EvidenceView) -> Seq<char>| #[trigger]
            writes_as(write, json) ==> prompt@ == prompt_of(
                json(evidence_of(snapshot.deep_view(), source)),
                source,
            ),
{
    let evidence = collect_evidence(snapshot, source);
    let bundle = write(&evidence);
    write_prompt(bundle.as_str(), source)
}

// ---- The end of a run ----

/// The text that `String::from_utf8_lossy` reads from bytes.
pub uninterp spec fn lossy_text(bytes: Seq<u8>) -> Seq<char>;

/// Calls `String::from_utf8_lossy`. The contract claims that the text is a function of the
/// bytes, and that bytes which are well formed give the text that they encode.
#[verifier::external_body]
fn read_lossy(bytes: &[u8]) -> (text: String)
    ensures
        text@ == lossy_text(bytes@),
        valid_utf8(bytes@) ==> text@ == decode_utf8(bytes@),
{
    String::from_utf8_lossy(bytes).into_owned()
}

/// How a run of an analyzer came to its end. Errors are told as texts.
#[derive(Debug, PartialEq, Eq)]
pub enum AnalyzerEnd {
    /// It could not be started.
    NotStarted { error: String },
    /// It has no input to write to.
    NoInput,
    /// The prompt could not be written.
    NotWritten { error: String },
    /// It took too long.
    TimedOut,
    /// It could not be waited for.
    NotAwaited { error: String },
    /// It exited.
    Exited { success: bool, status: String, stdout: Vec<u8>, stderr: Vec<u8> },
}

/// What is made of an analyzer that exited: its answer, or why there is none.
pub open spec fn answer_of(
    assistant: Seq<char>,
    success: bool,
    status: Seq<char>,
    stdout: Seq<char>,
    stderr: Seq<char>,
) -> Result<Seq<char>, Seq<char>> {
    if !success {
        if trimmed(stderr).len() == 0 {
            Err(lowered(assistant) + " drift analyzer exited with "@ + status)
        } else {
            Err(
                lowered(assistant) + " drift analyzer exited with "@ + status + ": "@ + trimmed(
                    stderr,
                ),
            )
        }
    } else if trimmed(stdout).len() == 0 {
        Err(lowered(assistant) + " drift analyzer returned empty output"@)
    } else {
        Ok(trimmed(stdout))
    }
}

/// What is made of a run of an analyzer: its answer, or why there is none.
pub open spec fn conclusion_of(
    assistant: Seq<char>,
    end: AnalyzerEnd,
) -> Result<Seq<char>, Seq<char>> {
    match end {
        AnalyzerEnd::NotStarted { error } => Err(
            "failed to start "@ + lowered(assistant) + " drift analyzer: "@ + error@,
        ),
        AnalyzerEnd::NoInput => Err(
            "failed to open "@ + lowered(assistant) + " drift analyzer stdin"@,
        ),
        AnalyzerEnd::NotWritten { error } => Err("failed to write drift prompt: "@ + error@),
        AnalyzerEnd::TimedOut => Err("drift analysis timed out"@),
        AnalyzerEnd::NotAwaited { error } => Err(
            "failed to wait for drift analyzer: "@ + error@,
        ),
        AnalyzerEnd::Exited { success, status, stdout, stderr } => answer_of(
            assistant,
            success,
            status@,
            lossy_text(stdout@),
            lossy_text(stderr@),
        ),
    }
}

/// The texts in a result.
pub open spec fn texts_in(result: Result<String, String>) -> Result<Seq<char>, Seq<char>> {
    match result {
        Ok(text) => Ok(text@),
        Err(text) => Err(text@),
    }
}

/// Two texts, one after the other.
fn put_after(head: &str, tail: &str) -> (text: String)
    ensures
        text@ == head@ + tail@,
{
    let mut text = head.to_string();
    text.append(tail);
    text
}

/// Makes of what an analyzer printed its answer, or tells why there is none.
pub fn read_answer(
    assistant: &str,
    success: bool,
    status: &str,
    stdout: &str,
    stderr: &str,
) -> (answer: Result<
    String,
    String,
>)
    ensures
        texts_in(answer) == answer_of(assistant@, success, status@, stdout@, stderr@),
{
    if !success {
        let said = trim(stderr);
        let mut error = lower_text(assistant);
        error.append(" drift analyzer exited with ");
        error.append(status);
        if said.unicode_len() != 0 {
            error.append(": ");
            error.append(said);
        }
        return Err(error);
    }
    let answer = trim(stdout);
    if answer.unicode_len() == 0 {
        let mut error = lower_text(assistant);
        error.append(" drift analyzer returned empty output");
        Err(error)
    } else {
        Ok(answer.to_string())
    }
}

/// Makes of a run of an analyzer its answer, or tells why there is none.
pub fn conclude_run(assistant: &str, end: AnalyzerEnd) -> (answer: Result<String, String>)
    ensures
        texts_in(answer) == conclusion_of(assistant@, end),
{
    match end {
        AnalyzerEnd::NotStarted { error } => {
            let mut text = put_after("failed to start ", lower_text(assistant).as_str());
            text.append(" drift analyzer: ");
            text.append(error.as_str());
            Err(text)
        },
        AnalyzerEnd::NoInput => {
            let mut text = put_after("failed to open ", lower_text(assistant).as_str());
            text.append(" drift analyzer stdin");
            Err(text)
        },
        AnalyzerEnd::NotWritten { error } => Err(
            put_after("failed to write drift prompt: ", error.as_str()),
        ),
        AnalyzerEnd::TimedOut => Err("drift analysis timed out".to_string()),
        AnalyzerEnd::NotAwaited { error } => Err(
            put_after("failed to wait for drift analyzer: ", error.as_str()),
        ),
        AnalyzerEnd::Exited { success, status, stdout, stderr } => {
            let out = read_lossy(stdout.as_slice());
            let err = read_lossy(stderr.as_slice());
            read_answer(assistant, success, status.as_str(), out.as_str(), err.as_str())
        },
    }
}

// ---- The answer ----

/// The part of an answer from the first opening brace to the last closing one.
pub open spec fn json_object_in(response: Seq<char>) -> Option<Seq<char>> {
    match (first_place(response, "{"@), last_place(response, "}"@)) {
        (Some(start), Some(end)) => if end >= start {
            Some(response.subrange(start, end + 1))
        } else {
            None
        },
        _ => None,
    }
}

/// Finds the JSON object in an answer.
pub fn extract_json_object(response: &str) -> (object: Option<String>)
    ensures
        object.deep_view() == json_object_in(response@),
{
    let chars = chars_of(response);
    proof {
        reveal_strlit("{");
        reveal_strlit("}");
    }
    match (find_first(&chars, "{"), find_last(&chars, "}")) {
        (Some(start), Some(end)) => if end >= start {
            assert(end + 1 <= chars.len());
            Some(string_of(&chars, start, end + 1))
        } else {
            None
        },
        _ => None,
    }
}

/// The caveat of an answer that has none.
pub open spec fn advisory(assistant: Seq<char>) -> Seq<char> {
    assistant + "-assisted drift scoring is advisory."@
}

/// The score that an analyzer gave, with a source and a caveat where it named none. A score
/// does not count as deterministic because its analyzer says so.
pub open spec fn completed(
    assistant: Seq<char>,
    score: DriftView,
    fallback_source: DriftScoreSource,
) -> DriftView {
    DriftView {
        source: if score.source == DriftScoreSource::Deterministic {
            fallback_source
        } else {
            score.source
        },
        caveats: if score.caveats.len() == 0 {
            seq![advisory(assistant)]
        } else {
            score.caveats
        },
        ..score
    }
}

/// The model of a score, or of why there is none.
pub open spec fn score_in(result: Result<DriftScore, String>) -> Result<DriftView, Seq<char>> {
    match result {
        Ok(score) => Ok(score.deep_view()),
        Err(error) => Err(error@),
    }
}

/// What is made of a JSON object that was read as a score, or could not be.
pub open spec fn verdict_of(
    assistant: Seq<char>,
    parsed: Result<DriftView, Seq<char>>,
    fallback_source: DriftScoreSource,
) -> Result<DriftView, Seq<char>> {
    match parsed {
        Ok(score) => Ok(completed(assistant, score, fallback_source)),
        Err(error) => Err("invalid drift JSON: "@ + error),
    }
}

/// Makes a score of a JSON object that was read as one, or tells why it could not be.
pub fn complete_score(
    assistant: &str,
    parsed: Result<DriftScore, String>,
    fallback_source: DriftScoreSource,
) -> (result: Result<DriftScore, String>)
    ensures
        score_in(result) == verdict_of(assistant@, score_in(parsed), fallback_source),
{
    match parsed {
        Ok(given) => {
            let mut score = given;
            if score.source == DriftScoreSource::Deterministic {
                score.source = fallback_source;
            }
            if score.caveats.len() == 0 {
                score.caveats.push(put_after(assistant, "-assisted drift scoring is advisory."));
                assert(score.caveats.deep_view() =~= seq![advisory(assistant@)]);
            }
            Ok(score)
        },
        Err(error) => Err(put_after("invalid drift JSON: ", error.as_str())),
    }
}

/// What is made of an answer by a reader that is a function of the JSON object in it.
pub open spec fn reading_of(
    assistant: Seq<char>,
    response: Seq<char>,
    fallback_source: DriftScoreSource,
    read: spec_fn(Seq<char>) -> Result<DriftView, Seq<char>>,
) -> Result<DriftView, Seq<char>> {
    match json_object_in(response) {
        Some(object) => verdict_of(assistant, read(object), fallback_source),
        None => Err("missing JSON object"@),
    }
}

/// The reader gives what `read` says, whenever it is called.
pub open spec fn reads_as<F: FnOnce(&str) -> Result<DriftScore, String>>(
    parse: F,
    read: spec_fn(Seq<char>) -> Result<DriftView, Seq<char>>,
) -> bool {
    forall|json: &str, parsed: Result<DriftScore, String>| #[trigger]
        call_ensures(parse, (json,), parsed) ==> score_in(parsed) == read(json@)
}

/// Makes a score of an answer. The JSON object in it is handed to `parse`, which reads it as a
/// score.
pub fn parse_claude_drift_response<F: FnOnce(&str) -> Result<DriftScore, String>>(
    assistant: &str,
    response: &str,
    fallback_source: DriftScoreSource,
    parse: F,
) -> (result: Result<DriftScore, String>)
    requires
        forall|json: &str|
            json_object_in(response@) == Some(json@) ==> call_requires(parse, (json,)),
    ensures
        match json_object_in(response@) {
            Some(object) => exists|json: &str, parsed: Result<DriftScore, String>|
                {
                    &&& json@ == object
                    &&& #[trigger] call_ensures(parse, (json,), parsed)
                    &&& score_in(result) == verdict_of(
                        assistant@,
                        score_in(parsed),
                        fallback_source,
                    )
                },
            None => score_in(result) == Err::<DriftView, Seq<char>>("missing JSON object"@),
        },
        forall|read: spec_fn(Seq<char>) -> Result<DriftView, Seq<char>>| #[trigger]
            reads_as(parse, read) ==> score_in(result) == reading_of(
                assistant@,
                response@,
                fallback_source,
                read,
            ),
{
    match extract_json_object(response) {
        Some(object) => {
            let parsed = parse(object.as_str());
            complete_score(assistant, parsed, fallback_source)
        },
        None => Err("missing JSON object".to_string()),
    }
}

} // verus!

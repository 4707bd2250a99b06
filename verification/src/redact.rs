//! Cleaning of prompt text, and redaction of what must not leave the machine.
use vstd::prelude::*;
use vstd::string::*;
use vstd::utf8::encode_utf8;

use crate::chars::chars_of;
use crate::patterns::{
    replace_all, COMMAND_ARGS, COMMAND_MESSAGE, COMMAND_NAME, COMMAND_OUTPUT, COMMAND_STDERR,
    COMMAND_STDOUT, COMMAND_TAG, FENCED_CODE, LONG_SECRET_LIKE, SECRET_ASSIGNMENT, SECRET_TOKEN,
    SYSTEM_REMINDER, UNIX_PATH, URL_QUERY, WINDOWS_PATH,
};
use crate::patterns::{cannot_match, regex_replaced};
use crate::text::{
    begins_with, collapse_white_space, find_first, find_last, has_char, has_text, join_texts,
    lower_chars, split_lines, trim,
};
use crate::text::{
    collapsed, contains_text, first_place, joined, last_place, lines, lowered, occurs_at, trimmed,
};

verus! {

// ---- Noise blocks ----

/// The text after one round in which each kind of noise block is removed once.
pub open spec fn noise_round(text: Seq<char>) -> Seq<char> {
    let a = regex_replaced(SYSTEM_REMINDER@, text, ""@);
    let b = regex_replaced(COMMAND_NAME@, a, ""@);
    let c = regex_replaced(COMMAND_MESSAGE@, b, ""@);
    let d = regex_replaced(COMMAND_ARGS@, c, ""@);
    let e = regex_replaced(COMMAND_STDOUT@, d, ""@);
    regex_replaced(COMMAND_STDERR@, e, ""@)
}

/// The text after the given number of rounds.
pub open spec fn noise_rounds(text: Seq<char>, rounds: nat) -> Seq<char>
    decreases rounds,
{
    if rounds == 0 {
        text
    } else {
        noise_rounds(noise_round(text), (rounds - 1) as nat)
    }
}

/// The lines of a text that are not blank, each trimmed.
pub open spec fn kept_lines(all: Seq<Seq<char>>) -> Seq<Seq<char>>
    decreases all.len(),
{
    if all.len() == 0 {
        Seq::empty()
    } else {
        let line = trimmed(all.last());
        if line.len() == 0 {
            kept_lines(all.drop_last())
        } else {
            kept_lines(all.drop_last()).push(line)
        }
    }
}

/// The text without blank lines, and without white space around its lines.
pub open spec fn tidied(text: Seq<char>) -> Seq<char> {
    joined(kept_lines(lines(text)), "\n"@)
}

/// The prompt text without its noise blocks. A block may hold another, so there are up to four
/// rounds of removal.
pub open spec fn denoised(raw: Seq<char>) -> Seq<char> {
    tidied(noise_rounds(raw, 4))
}

/// The text holds no opening tag of a noise block.
pub open spec fn lacks_noise(text: Seq<char>) -> bool {
    &&& cannot_match(SYSTEM_REMINDER@, text)
    &&& cannot_match(COMMAND_NAME@, text)
    &&& cannot_match(COMMAND_MESSAGE@, text)
    &&& cannot_match(COMMAND_ARGS@, text)
    &&& cannot_match(COMMAND_STDOUT@, text)
    &&& cannot_match(COMMAND_STDERR@, text)
}

/// A text that one round leaves as it is stays so.
proof fn lemma_noise_rounds_settle(text: Seq<char>, rounds: nat)
    requires
        noise_round(text) == text,
    ensures
        noise_rounds(text, rounds) == text,
    decreases rounds,
{
    if rounds > 0 {
        lemma_noise_rounds_settle(text, (rounds - 1) as nat);
    }
}

/// Removes each kind of noise block once.
fn remove_noise_once(text: &str) -> (out: String)
    ensures
        out@ == noise_round(text@),
        lacks_noise(text@) ==> out@ == text@,
{
    let a = replace_all(SYSTEM_REMINDER, text, "");
    let b = replace_all(COMMAND_NAME, a.as_str(), "");
    let c = replace_all(COMMAND_MESSAGE, b.as_str(), "");
    let d = replace_all(COMMAND_ARGS, c.as_str(), "");
    let e = replace_all(COMMAND_STDOUT, d.as_str(), "");
    replace_all(COMMAND_STDERR, e.as_str(), "")
}

/// Drops the blank lines of a text, and the white space around the others.
pub fn tidy_lines(text: &str) -> (out: String)
    ensures
        out@ == tidied(text@),
{
    let all = split_lines(text);
    let mut kept: Vec<String> = Vec::new();
    let mut i: usize = 0;
    assert(kept.deep_view() =~= Seq::<Seq<char>>::empty());
    while i < all.len()
        invariant
            i <= all@.len(),
            kept.deep_view() == kept_lines(all.deep_view().take(i as int)),
        decreases all@.len() - i,
    {
        let ghost before = kept.deep_view();
        let line = trim(all[i].as_str());
        proof {
            let longer = all.deep_view().take(i + 1);
            assert(longer.drop_last() =~= all.deep_view().take(i as int));
        }
        if !line.is_empty() {
            kept.push(line.to_string());
            assert(kept.deep_view() =~= before.push(line@));
        }
        i += 1;
    }
    assert(all.deep_view().take(i as int) =~= all.deep_view());
    join_texts(&kept, "\n")
}

/// Removes the noise blocks of a prompt, and tidies what is left. A prompt without noise blocks
/// is only tidied.
pub fn strip_snapshot_noise_blocks(raw: &str) -> (out: String)
    ensures
        out@ == denoised(raw@),
        lacks_noise(raw@) ==> out@ == tidied(raw@),
{
    let mut cleaned = raw.to_string();
    let mut left: u8 = 4;
    while left > 0
        invariant_except_break
            left <= 4,
            noise_rounds(raw@, 4) == noise_rounds(cleaned@, left as nat),
            lacks_noise(raw@) ==> cleaned@ == raw@,
        ensures
            noise_rounds(raw@, 4) == cleaned@,
            lacks_noise(raw@) ==> cleaned@ == raw@,
        decreases left,
    {
        let next = remove_noise_once(cleaned.as_str());
        left -= 1;
        if next == cleaned {
            proof {
                lemma_noise_rounds_settle(cleaned@, left as nat);
            }
            break;
        }
        cleaned = next;
    }
    tidy_lines(cleaned.as_str())
}

// ---- The summary in a response ----

/// The summary that a cleaned response holds: what stands between its `<summary>` tags, or
/// else all of it.
pub open spec fn summary_text(cleaned: Seq<char>) -> Option<Seq<char>> {
    let whole = trimmed(cleaned);
    if whole.len() == 0 {
        None
    } else {
        match (
            first_place(lowered(whole), "<summary>"@),
            last_place(lowered(whole), "</summary>"@),
        ) {
            (Some(start), Some(end)) => {
                let from = start + "<summary>"@.len();
                if from < end && trimmed(whole.subrange(from, end)).len() > 0 {
                    Some(trimmed(whole.subrange(from, end)))
                } else {
                    Some(whole)
                }
            },
            _ => Some(whole),
        }
    }
}

/// Picks the summary out of a cleaned response.
pub fn summary_of_cleaned(cleaned: &str) -> (summary: Option<String>)
    ensures
        summary.deep_view() == summary_text(cleaned@),
{
    let whole = trim(cleaned);
    if whole.is_empty() {
        return None;
    }
    let low = lower_chars(whole);
    if let (Some(start), Some(end)) = (find_first(&low, "<summary>"), find_last(&low, "</summary>")) {
        assert(start + "<summary>"@.len() <= low.len());
        let from: usize = start + "<summary>".unicode_len();
        if end > from {
            let inner = trim(whole.substring_char(from, end));
            if !inner.is_empty() {
                return Some(inner.to_string());
            }
        }
    }
    Some(whole.to_string())
}

/// Picks the compacted summary out of a response, which may still hold noise blocks.
pub fn compacted_summary_from_response(raw: &str) -> (summary: Option<String>)
    ensures
        summary.deep_view() == summary_text(denoised(raw@)),
        lacks_noise(raw@) ==> summary.deep_view() == summary_text(tidied(raw@)),
{
    let cleaned = strip_snapshot_noise_blocks(raw);
    summary_of_cleaned(cleaned.as_str())
}

// ---- Redaction ----

/// A line that looks like code, or like the contents of a file.
pub open spec fn is_code_like(line: Seq<char>) -> bool {
    let t = trimmed(line);
    let low = lowered(t);
    let size = encode_utf8(t).len();
    &&& t.len() > 0
    &&& {
        ||| size > 140 && (t.contains('{') || t.contains('='))
        ||| occurs_at(t, "fn "@, 0)
        ||| occurs_at(t, "pub "@, 0)
        ||| occurs_at(t, "use "@, 0)
        ||| occurs_at(t, "impl "@, 0)
        ||| occurs_at(t, "class "@, 0)
        ||| occurs_at(t, "def "@, 0)
        ||| occurs_at(t, "function "@, 0)
        ||| occurs_at(t, "import "@, 0)
        ||| occurs_at(low, "stack trace"@, 0)
        ||| occurs_at(low, "thread '"@, 0)
        ||| t.last() == ';' && (t.contains('=') || contains_text(t, "::"@))
        ||| t.contains('{') && t.contains('}') && size > 30
        ||| contains_text(low, "begin file"@)
        ||| contains_text(low, "file contents"@)
    }
}

/// The lines, with each stretch of code-like ones replaced by a single notice.
pub open spec fn code_redacted(all: Seq<Seq<char>>) -> Seq<Seq<char>>
    decreases all.len(),
{
    if all.len() == 0 {
        Seq::empty()
    } else {
        let before = code_redacted(all.drop_last());
        if !is_code_like(all.last()) {
            before.push(all.last())
        } else if all.len() >= 2 && is_code_like(all[all.len() - 2]) {
            before
        } else {
            before.push("<code/file content redacted>"@)
        }
    }
}

/// The text without command output, command tags and fenced code.
pub open spec fn blocks_redacted(text: Seq<char>) -> Seq<char> {
    let a = regex_replaced(COMMAND_OUTPUT@, text, "<command output redacted>"@);
    let b = regex_replaced(COMMAND_TAG@, a, "<command context redacted>"@);
    regex_replaced(FENCED_CODE@, b, "<code block redacted>"@)
}

/// The text without query strings, paths and secrets.
pub open spec fn details_redacted(text: Seq<char>) -> Seq<char> {
    let a = regex_replaced(URL_QUERY@, text, "${1}?<redacted>"@);
    let b = regex_replaced(UNIX_PATH@, a, "${prefix}<path>"@);
    let c = regex_replaced(WINDOWS_PATH@, b, "<path>"@);
    let d = regex_replaced(SECRET_ASSIGNMENT@, c, "$1=<redacted>"@);
    let e = regex_replaced(SECRET_TOKEN@, d, "<secret>"@);
    regex_replaced(LONG_SECRET_LIKE@, e, "<secret-like>"@)
}

/// The text with its code-like lines replaced by notices.
pub open spec fn lines_redacted(text: Seq<char>) -> Seq<char> {
    joined(code_redacted(lines(text)), "\n"@)
}

/// The text holds no command output, no command tag and no fenced code.
pub open spec fn lacks_blocks(text: Seq<char>) -> bool {
    &&& cannot_match(COMMAND_OUTPUT@, text)
    &&& cannot_match(COMMAND_TAG@, text)
    &&& cannot_match(FENCED_CODE@, text)
}

/// The text holds no query string, path or secret.
pub open spec fn lacks_details(text: Seq<char>) -> bool {
    &&& cannot_match(URL_QUERY@, text)
    &&& cannot_match(UNIX_PATH@, text)
    &&& cannot_match(WINDOWS_PATH@, text)
    &&& cannot_match(SECRET_ASSIGNMENT@, text)
    &&& cannot_match(SECRET_TOKEN@, text)
    &&& cannot_match(LONG_SECRET_LIKE@, text)
}

/// The text holds nothing that is redacted but code-like lines.
pub open spec fn lacks_secrets(text: Seq<char>) -> bool {
    lacks_blocks(text) && lacks_details(lines_redacted(text))
}

/// The text as a safe excerpt may show it: blocks, then code-like lines, then query strings,
/// paths and secrets are replaced by notices, and white space is collapsed.
pub open spec fn redacted(text: Seq<char>) -> Seq<char> {
    collapsed(details_redacted(lines_redacted(blocks_redacted(text))))
}

/// Decides whether a line looks like code, or like the contents of a file.
pub fn looks_like_code_or_file_content(line: &str) -> (held: bool)
    ensures
        held == is_code_like(line@),
{
    let short = trim(line);
    if short.is_empty() {
        return false;
    }
    let t = chars_of(short);
    let size: usize = short.as_bytes().len();
    if size > 140 && (has_char(&t, '{') || has_char(&t, '=')) {
        return true;
    }
    let low = lower_chars(short);
    begins_with(&t, "fn ") || begins_with(&t, "pub ") || begins_with(&t, "use ") || begins_with(
        &t,
        "impl ",
    ) || begins_with(&t, "class ") || begins_with(&t, "def ") || begins_with(&t, "function ")
        || begins_with(&t, "import ") || begins_with(&low, "stack trace") || begins_with(
        &low,
        "thread '",
    ) || (t[t.len() - 1] == ';' && (has_char(&t, '=') || has_text(&t, "::"))) || (has_char(&t, '{')
        && has_char(&t, '}') && size > 30) || has_text(&low, "begin file") || has_text(
        &low,
        "file contents",
    )
}

/// Replaces each stretch of code-like lines by a single notice.
pub fn redact_code_like_lines(value: &str) -> (out: String)
    ensures
        out@ == lines_redacted(value@),
{
    let all = split_lines(value);
    let mut kept: Vec<String> = Vec::new();
    let mut in_block: bool = false;
    let mut i: usize = 0;
    assert(kept.deep_view() =~= Seq::<Seq<char>>::empty());
    while i < all.len()
        invariant
            i <= all@.len(),
            kept.deep_view() == code_redacted(all.deep_view().take(i as int)),
            in_block == (i > 0 && is_code_like(all.deep_view()[i - 1])),
        decreases all@.len() - i,
    {
        let ghost before = kept.deep_view();
        proof {
            let longer = all.deep_view().take(i + 1);
            assert(longer.drop_last() =~= all.deep_view().take(i as int));
        }
        if looks_like_code_or_file_content(all[i].as_str()) {
            if !in_block {
                kept.push("<code/file content redacted>".to_string());
                assert(kept.deep_view() =~= before.push("<code/file content redacted>"@));
                in_block = true;
            }
        } else {
            in_block = false;
            kept.push(all[i].clone());
            assert(kept.deep_view() =~= before.push(all.deep_view()[i as int]));
        }
        i += 1;
    }
    assert(all.deep_view().take(i as int) =~= all.deep_view());
    join_texts(&kept, "\n")
}

/// Redacts what a safe excerpt must not show. Of a text that holds nothing of the kind only the
/// code-like lines and the white space change.
pub fn redact_safe_text(value: &str) -> (out: String)
    ensures
        out@ == redacted(value@),
        lacks_secrets(value@) ==> out@ == collapsed(lines_redacted(value@)),
{
    let a = replace_all(COMMAND_OUTPUT, value, "<command output redacted>");
    let b = replace_all(COMMAND_TAG, a.as_str(), "<command context redacted>");
    let c = replace_all(FENCED_CODE, b.as_str(), "<code block redacted>");
    let d = redact_code_like_lines(c.as_str());
    let e = replace_all(URL_QUERY, d.as_str(), "${1}?<redacted>");
    let f = replace_all(UNIX_PATH, e.as_str(), "${prefix}<path>");
    let g = replace_all(WINDOWS_PATH, f.as_str(), "<path>");
    let h = replace_all(SECRET_ASSIGNMENT, g.as_str(), "$1=<redacted>");
    let i = replace_all(SECRET_TOKEN, h.as_str(), "<secret>");
    let j = replace_all(LONG_SECRET_LIKE, i.as_str(), "<secret-like>");
    collapse_white_space(j.as_str())
}

} // verus!

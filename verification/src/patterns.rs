//! The regular expressions by which prompts are cleaned and redacted, and their use.
use vstd::prelude::*;

use crate::chars::{is_ascii_digit, is_ascii_letter};
use crate::text::contains_text;

verus! {

// Blocks that a client adds to a prompt and that say nothing of the user's request.
pub const SYSTEM_REMINDER: &'static str = r"(?s)<system-reminder\b[^>]*>.*?</system-reminder>";

pub const COMMAND_NAME: &'static str = r"(?s)<command-name\b[^>]*>.*?</command-name>";

pub const COMMAND_MESSAGE: &'static str = r"(?s)<command-message\b[^>]*>.*?</command-message>";

pub const COMMAND_ARGS: &'static str = r"(?s)<command-args\b[^>]*>.*?</command-args>";

pub const COMMAND_STDOUT: &'static str =
    r"(?s)<local-command-stdout\b[^>]*>.*?</local-command-stdout>";

pub const COMMAND_STDERR: &'static str =
    r"(?s)<local-command-stderr\b[^>]*>.*?</local-command-stderr>";

// What a safe excerpt must not show.
pub const COMMAND_OUTPUT: &'static str =
    r#"(?s)<local-command-(stdout|stderr)\b[^>]*>.*?</local-command-(stdout|stderr)>"#;

pub const COMMAND_TAG: &'static str =
    r#"(?s)<command-(name|message|args)\b[^>]*>.*?</command-(name|message|args)>"#;

pub const FENCED_CODE: &'static str = r#"(?s)```[A-Za-z0-9_-]*\n.*?```"#;

pub const URL_QUERY: &'static str = r#"(https?://[^\s<>"'\)\]]+)\?[^\s<>"'\)\]]*"#;

pub const UNIX_PATH: &'static str =
    r#"(?P<prefix>^|[\s\(\["'=])/(Users|home|private|tmp|var|etc|opt|Volumes|data)(/[^\s,;\)"'\]]+)+"#;

pub const WINDOWS_PATH: &'static str = r#"(?i)\b[A-Z]:\\[^\s,;\)"'\]]+"#;

pub const SECRET_ASSIGNMENT: &'static str =
    r#"(?i)\b(api[_-]?key|token|secret|password|authorization|bearer)\s*[:=]\s*["']?[^"'\s,;\)]+["']?"#;

pub const SECRET_TOKEN: &'static str =
    r#"(?i)\b(sk-ant-[A-Za-z0-9_-]+|sk-[A-Za-z0-9_-]{12,}|xox[baprs]-[A-Za-z0-9_-]+|gh[pousr]_[A-Za-z0-9_]{12,})\b"#;

pub const LONG_SECRET_LIKE: &'static str = r#"\b[A-Za-z0-9+/=_-]{40,}\b"#;

/// The pattern is one of this module's, all of which are well formed.
pub open spec fn is_pattern(pattern: Seq<char>) -> bool {
    ||| pattern == SYSTEM_REMINDER@
    ||| pattern == COMMAND_NAME@
    ||| pattern == COMMAND_MESSAGE@
    ||| pattern == COMMAND_ARGS@
    ||| pattern == COMMAND_STDOUT@
    ||| pattern == COMMAND_STDERR@
    ||| pattern == COMMAND_OUTPUT@
    ||| pattern == COMMAND_TAG@
    ||| pattern == FENCED_CODE@
    ||| pattern == URL_QUERY@
    ||| pattern == UNIX_PATH@
    ||| pattern == WINDOWS_PATH@
    ||| pattern == SECRET_ASSIGNMENT@
    ||| pattern == SECRET_TOKEN@
    ||| pattern == LONG_SECRET_LIKE@
}

/// A letter, a digit or a sign that an encoded secret may hold.
pub open spec fn is_secret_like(c: char) -> bool {
    ||| is_ascii_letter(c) || is_ascii_digit(c)
    ||| c == '+' || c == '/' || c == '=' || c == '_' || c == '-'
}

/// Forty characters that an encoded secret may hold stand in a row, from `i` on.
pub open spec fn has_long_run(text: Seq<char>, i: int) -> bool {
    &&& 0 <= i && i + 40 <= text.len()
    &&& forall|j: int| i <= j < i + 40 ==> is_secret_like(#[trigger] text[j])
}

/// The text holds no beginning of a web address.
pub open spec fn lacks_url(text: Seq<char>) -> bool {
    !contains_text(text, "http://"@) && !contains_text(text, "https://"@)
}

/// The text names none of the root directories whose contents are private, with a slash before
/// and behind it.
pub open spec fn lacks_root(text: Seq<char>) -> bool {
    &&& !contains_text(text, "/Users/"@)
    &&& !contains_text(text, "/home/"@)
    &&& !contains_text(text, "/private/"@)
    &&& !contains_text(text, "/tmp/"@)
    &&& !contains_text(text, "/var/"@)
    &&& !contains_text(text, "/etc/"@)
    &&& !contains_text(text, "/opt/"@)
    &&& !contains_text(text, "/Volumes/"@)
    &&& !contains_text(text, "/data/"@)
}

/// The text lacks something that every match of the pattern holds: the opening tag or fence;
/// the address and the question mark of a query string; the root of a path; the signs without
/// which there is no assignment or token; or a run that is long enough.
pub open spec fn cannot_match(pattern: Seq<char>, text: Seq<char>) -> bool {
    ||| pattern == SYSTEM_REMINDER@ && !contains_text(text, "<system-reminder"@)
    ||| pattern == COMMAND_NAME@ && !contains_text(text, "<command-name"@)
    ||| pattern == COMMAND_MESSAGE@ && !contains_text(text, "<command-message"@)
    ||| pattern == COMMAND_ARGS@ && !contains_text(text, "<command-args"@)
    ||| pattern == COMMAND_STDOUT@ && !contains_text(text, "<local-command-stdout"@)
    ||| pattern == COMMAND_STDERR@ && !contains_text(text, "<local-command-stderr"@)
    ||| pattern == COMMAND_OUTPUT@ && !contains_text(text, "<local-command-"@)
    ||| pattern == COMMAND_TAG@ && !contains_text(text, "<command-"@)
    ||| pattern == FENCED_CODE@ && !contains_text(text, "```"@)
    ||| pattern == URL_QUERY@ && (!text.contains('?') || lacks_url(text))
    ||| pattern == UNIX_PATH@ && lacks_root(text)
    ||| pattern == WINDOWS_PATH@ && !contains_text(text, ":\\"@)
    ||| pattern == SECRET_ASSIGNMENT@ && !text.contains(':') && !text.contains('=')
    ||| pattern == SECRET_TOKEN@ && !text.contains('-') && !text.contains('_')
    ||| pattern == LONG_SECRET_LIKE@ && forall|i: int| !#[trigger] has_long_run(text, i)
}

/// What `Regex::replace_all` gives for a text: the text with every match of the pattern
/// replaced by the replacement, in which `$1` and `${name}` stand for what a group matched.
pub uninterp spec fn regex_replaced(
    pattern: Seq<char>,
    text: Seq<char>,
    replacement: Seq<char>,
) -> Seq<char>;

/// Calls `regex::Regex::replace_all`, of the pattern that `regex::Regex::new` compiles. The
/// contract claims that the result is a function of the pattern, the text and the replacement;
/// that a text which lacks what every match holds comes back as it is; and, by its `requires`,
/// that the patterns of this module compile. What becomes of a text with matches is not stated.
#[verifier::external_body]
pub(crate) fn replace_all(pattern: &str, text: &str, replacement: &str) -> (out: String)
    requires
        is_pattern(pattern@),
    ensures
        out@ == regex_replaced(pattern@, text@, replacement@),
        cannot_match(pattern@, text@) ==> out@ == text@,
{
    let regex = regex::Regex::new(pattern).expect("the pattern is well formed");
    regex.replace_all(text, replacement).into_owned()
}

} // verus!

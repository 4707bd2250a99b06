//! Excerpts of prompts.
use vstd::prelude::*;
use vstd::string::*;

use crate::redact::{lacks_secrets, lines_redacted, redact_safe_text, redacted};
use crate::text::{collapsed, trim, trimmed};

verus! {

/// A shortened text, with what became of it on the way.
#[derive(Debug, PartialEq, Eq)]
pub struct PromptExcerpt {
    pub text: String,
    pub source_chars: usize,
    pub rendered_chars: usize,
    pub truncated: bool,
    pub redacted: bool,
}

/// The model of an excerpt.
pub struct ExcerptView {
    pub text: Seq<char>,
    pub source_chars: nat,
    pub rendered_chars: nat,
    pub truncated: bool,
    pub redacted: bool,
}

impl DeepView for PromptExcerpt {
    type V = ExcerptView;

    open spec fn deep_view(&self) -> ExcerptView {
        ExcerptView {
            text: self.text@,
            source_chars: self.source_chars as nat,
            rendered_chars: self.rendered_chars as nat,
            truncated: self.truncated,
            redacted: self.redacted,
        }
    }
}

impl Clone for PromptExcerpt {
    fn clone(&self) -> (copy: Self)
        ensures
            copy.deep_view() == self.deep_view(),
    {
        PromptExcerpt {
            text: self.text.clone(),
            source_chars: self.source_chars,
            rendered_chars: self.rendered_chars,
            truncated: self.truncated,
            redacted: self.redacted,
        }
    }
}

/// The text in at most `max` characters, where `max` is three or more: a longer text loses its
/// tail to three dots.
pub open spec fn capped(s: Seq<char>, max: nat) -> Seq<char> {
    if s.len() <= max {
        s
    } else {
        s.take(if max >= 3 {
            max - 3
        } else {
            0
        }) + "..."@
    }
}

/// Caps a text, and tells whether it lost its tail.
pub fn cap_with_metadata(value: &str, max_chars: usize) -> (out: (String, bool))
    ensures
        out.0@ == capped(value@, max_chars as nat),
        out.1 == (value@.len() > max_chars),
{
    if value.unicode_len() <= max_chars {
        return (value.to_string(), false);
    }
    let take: usize = if max_chars >= 3 {
        max_chars - 3
    } else {
        0
    };
    let mut out = value.substring_char(0, take).to_string();
    out.append("...");
    (out, true)
}

/// The excerpt of a text that became `shown` on the way to it.
pub open spec fn excerpt_of(
    source: Seq<char>,
    shown: Seq<char>,
    max: nat,
    redacted: bool,
) -> ExcerptView {
    ExcerptView {
        text: capped(shown, max),
        source_chars: source.len(),
        rendered_chars: capped(shown, max).len(),
        truncated: shown.len() > max || shown.len() < source.len(),
        redacted,
    }
}

/// The safe excerpt of a text: trimmed, redacted and capped. A blank text has none.
pub open spec fn safe_excerpt_of(value: Seq<char>, max: nat) -> Option<ExcerptView> {
    let source = trimmed(value);
    if source.len() == 0 {
        None
    } else {
        Some(excerpt_of(source, redacted(source), max, true))
    }
}

/// The text, trimmed, holds nothing that is redacted but code-like lines.
pub open spec fn shows_plainly(value: Seq<char>) -> bool {
    lacks_secrets(trimmed(value))
}

/// The safe excerpt of a text that holds nothing that is redacted but code-like lines.
pub open spec fn plain_excerpt_of(value: Seq<char>, max: nat) -> Option<ExcerptView> {
    let source = trimmed(value);
    if source.len() == 0 {
        None
    } else {
        Some(excerpt_of(source, collapsed(lines_redacted(source)), max, true))
    }
}

/// The raw excerpt of a text: trimmed and capped. A blank text has none.
pub open spec fn raw_excerpt_of(value: Seq<char>, max: nat) -> Option<ExcerptView> {
    let source = trimmed(value);
    if source.len() == 0 {
        None
    } else {
        Some(excerpt_of(source, source, max, false))
    }
}

/// Makes the excerpt of a text that became `shown` on the way to it.
pub fn make_excerpt(source: &str, shown: &str, max_chars: usize, redacted: bool) -> (excerpt:
    PromptExcerpt)
    ensures
        excerpt.deep_view() == excerpt_of(source@, shown@, max_chars as nat, redacted),
{
    let source_chars: usize = source.unicode_len();
    let (text, cut) = cap_with_metadata(shown, max_chars);
    let rendered_chars: usize = text.as_str().unicode_len();
    PromptExcerpt {
        text,
        source_chars,
        rendered_chars,
        truncated: cut || shown.unicode_len() < source_chars,
        redacted,
    }
}

/// Makes the safe excerpt of a text.
pub fn safe_excerpt(value: &str, max_chars: usize) -> (excerpt: Option<PromptExcerpt>)
    ensures
        excerpt.deep_view() == safe_excerpt_of(value@, max_chars as nat),
        shows_plainly(value@) ==> excerpt.deep_view() == plain_excerpt_of(value@, max_chars as nat),
{
    let source = trim(value);
    if source.is_empty() {
        return None;
    }
    let shown = redact_safe_text(source);
    Some(make_excerpt(source, shown.as_str(), max_chars, true))
}

/// Makes the raw excerpt of a text.
pub fn raw_excerpt(value: &str, max_chars: usize) -> (excerpt: Option<PromptExcerpt>)
    ensures
        excerpt.deep_view() == raw_excerpt_of(value@, max_chars as nat),
{
    let source = trim(value);
    if source.is_empty() {
        return None;
    }
    Some(make_excerpt(source, source, max_chars, false))
}

} // verus!

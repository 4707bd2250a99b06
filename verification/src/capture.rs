//! How much of a prompt may be kept.
use vstd::prelude::*;

use crate::text::{lower_chars, spells, trim};
use crate::text::{lowered, trimmed};

verus! {

/// The setting that says how much of a prompt is kept.
pub const CAPTURE_PROMPTS_ENV: &'static str = "CC_BLACKBOX_CAPTURE_PROMPTS";

/// How much of a prompt a snapshot keeps.
#[derive(Clone, Copy, Debug, PartialEq, Eq, Structural)]
pub enum PromptCaptureMode {
    /// Redacted and shortened excerpts only.
    Safe,
    /// The excerpts, and beside them the text as it was.
    Full,
}

/// The mode that a setting names, whatever its letter case and the white space around it. A
/// setting that names none turns the capture off.
pub open spec fn mode_named(setting: Seq<char>) -> Option<PromptCaptureMode> {
    let name = lowered(trimmed(setting));
    if name == "1"@ || name == "true"@ || name == "yes"@ || name == "on"@ || name == "summary"@
        || name == "redacted"@ || name == "safe"@ {
        Some(PromptCaptureMode::Safe)
    } else if name == "full"@ || name == "raw"@ || name == "full_local"@ {
        Some(PromptCaptureMode::Full)
    } else {
        None
    }
}

impl PromptCaptureMode {
    /// The label of a mode.
    pub open spec fn label(self) -> Seq<char> {
        match self {
            PromptCaptureMode::Safe => "safe_redacted"@,
            PromptCaptureMode::Full => "full_local"@,
        }
    }

    /// Reads the mode from a setting; without one the capture is off.
    pub fn from_env_value(value: Option<&str>) -> (mode: Option<Self>)
        ensures
            mode == match value {
                Some(setting) => mode_named(setting@),
                None => None,
            },
    {
        match value {
            None => None,
            Some(setting) => {
                let name = lower_chars(trim(setting));
                if spells(&name, "1") || spells(&name, "true") || spells(&name, "yes") || spells(
                    &name,
                    "on",
                ) || spells(&name, "summary") || spells(&name, "redacted") || spells(
                    &name,
                    "safe",
                ) {
                    Some(PromptCaptureMode::Safe)
                } else if spells(&name, "full") || spells(&name, "raw") || spells(
                    &name,
                    "full_local",
                ) {
                    Some(PromptCaptureMode::Full)
                } else {
                    None
                }
            },
        }
    }

    /// The label of the mode.
    pub fn as_label(self) -> (label: &'static str)
        ensures
            label@ == self.label(),
    {
        match self {
            PromptCaptureMode::Safe => "safe_redacted",
            PromptCaptureMode::Full => "full_local",
        }
    }
}

} // verus!

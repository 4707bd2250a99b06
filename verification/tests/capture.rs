use cc_blackbox_core::capture::PromptCaptureMode;

#[test]
fn capture_mode_parses_disabled_safe_and_full_values() {
    assert_eq!(PromptCaptureMode::from_env_value(None), None);
    assert_eq!(PromptCaptureMode::from_env_value(Some("")), None);
    assert_eq!(PromptCaptureMode::from_env_value(Some("0")), None);
    assert_eq!(PromptCaptureMode::from_env_value(Some("false")), None);
    assert_eq!(
        PromptCaptureMode::from_env_value(Some("1")),
        Some(PromptCaptureMode::Safe)
    );
    assert_eq!(
        PromptCaptureMode::from_env_value(Some("redacted")),
        Some(PromptCaptureMode::Safe)
    );
    assert_eq!(
        PromptCaptureMode::from_env_value(Some("full")),
        Some(PromptCaptureMode::Full)
    );
}

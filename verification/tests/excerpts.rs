use cc_blackbox_core::excerpt::safe_excerpt;

#[test]
fn safe_excerpt_redacts_and_caps_secrets_code_command_output_and_file_content() {
    let raw = "token=sk-ant-secretvalue\n\
<local-command-stdout>PRIVATE_COMMAND_OUTPUT</local-command-stdout>\n\
```rust\nfn secret() { println!(\"do not leak\"); }\n```\n\
pub fn file_content() { let password = \"hunter2\"; }\n\
See /Users/pradeep/code/private/src/main.rs and https://example.com/a?token=secret";
    let excerpt = safe_excerpt(raw, 180).expect("excerpt");
    assert!(!excerpt.text.contains("sk-ant-secretvalue"));
    assert!(!excerpt.text.contains("PRIVATE_COMMAND_OUTPUT"));
    assert!(!excerpt.text.contains("println!"));
    assert!(!excerpt.text.contains("hunter2"));
    assert!(!excerpt.text.contains("/Users/pradeep"));
    assert!(!excerpt.text.contains("token=secret"));
    assert!(excerpt.text.contains("<command output redacted>"));
    assert!(
        excerpt.text.contains("<code block redacted>")
            || excerpt.text.contains("<code/file content redacted>")
    );
    assert!(excerpt.rendered_chars <= 180);
    assert!(excerpt.redacted);
}

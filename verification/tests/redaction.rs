use cc_blackbox_core::candidate::{
    choose_summary, contains_explicit_compaction_marker, looks_like_compact_summary,
};
use cc_blackbox_core::excerpt::{cap_with_metadata, make_excerpt, raw_excerpt, safe_excerpt};
use cc_blackbox_core::redact::{
    compacted_summary_from_response, looks_like_code_or_file_content, redact_code_like_lines,
    redact_safe_text, strip_snapshot_noise_blocks, summary_of_cleaned,
};

#[test]
fn noise_blocks_are_removed() {
    let raw = "<command-name>/x</command-name>\n  keep me  \n\n\
<command-message>m</command-message><command-args a=\"1\">a</command-args>\n\
<local-command-stdout>out</local-command-stdout>\n\
<local-command-stderr>err</local-command-stderr>\n\
<system-reminder>one\ntwo</system-reminder>and me";
    assert_eq!(strip_snapshot_noise_blocks(raw), "keep me\nand me");
}

#[test]
fn noise_blocks_that_others_hide_are_removed_in_later_rounds() {
    let raw = "<system-<command-name>x</command-name>reminder>y</system-reminder>left";
    assert_eq!(strip_snapshot_noise_blocks(raw), "left");
}

#[test]
fn text_without_noise_is_only_tidied() {
    assert_eq!(strip_snapshot_noise_blocks(" one <b>two</b> \n\n three "), "one <b>two</b>\nthree");
}

#[test]
fn summaries_are_picked_from_their_tags() {
    assert_eq!(summary_of_cleaned("  "), None);
    assert_eq!(summary_of_cleaned(" plain "), Some("plain".to_string()));
    assert_eq!(
        summary_of_cleaned("a <SUMMARY> inner </Summary> b"),
        Some("inner".to_string())
    );
    assert_eq!(
        summary_of_cleaned("<summary>  </summary>"),
        Some("<summary>  </summary>".to_string())
    );
    assert_eq!(
        summary_of_cleaned("</summary> x <summary>"),
        Some("</summary> x <summary>".to_string())
    );
    assert_eq!(
        compacted_summary_from_response("<system-reminder>s</system-reminder><summary>in</summary>"),
        Some("in".to_string())
    );
    assert_eq!(compacted_summary_from_response("<system-reminder>s</system-reminder>"), None);
}

#[test]
fn each_kind_of_detail_is_redacted() {
    let cases = [
        ("a <local-command-stderr>e</local-command-stderr> b", "a <command output redacted> b"),
        ("a <command-args>e</command-args> b", "a <command context redacted> b"),
        ("a ```sh\nls\n``` b", "a <code block redacted> b"),
        ("see https://example.com/a?b=c now", "see https://example.com/a?<redacted> now"),
        ("see /home/me/file.txt now", "see <path> now"),
        ("see C:\\temp\\file now", "see <path> now"),
        ("the password: hunter2 now", "the password=<redacted> now"),
        ("key ghp_abcdefghijkl now", "key <secret> now"),
        (
            "run abcdefghijabcdefghijabcdefghijabcdefghij now",
            "run <secret-like> now",
        ),
        ("fn main() {}\nlet a = b;\ntext", "<code/file content redacted> text"),
    ];
    for (raw, expected) in cases {
        assert_eq!(redact_safe_text(raw), expected);
    }
}

#[test]
fn harmless_text_keeps_its_words() {
    assert_eq!(
        redact_safe_text("  keep this   plain text,\n and this too.  "),
        "keep this plain text, and this too."
    );
}

#[test]
fn slashes_and_addresses_without_secrets_stay() {
    let kept = [
        "this and/or that",
        "see src/main.rs",
        "see /usr/lib/x and /homes/me",
        "http://example.com/a/b has no query",
        "why? because of a\\b",
        "file://x?y=",
    ];
    for text in kept {
        assert_eq!(redact_safe_text(text), text);
    }
    assert_eq!(redact_safe_text("one\nuse x;\ntwo"), "one <code/file content redacted> two");
}

#[test]
fn a_stretch_of_code_becomes_one_notice() {
    let notice = "<code/file content redacted>";
    assert_eq!(
        redact_code_like_lines("use a;\npub fn b() {}\ntext\nimport c"),
        format!("{notice}\ntext\n{notice}")
    );
    assert!(!looks_like_code_or_file_content(notice));
    for line in redact_code_like_lines("def f\nx\nlet y = z;\nBEGIN FILE a").lines() {
        assert!(!looks_like_code_or_file_content(line));
    }
}

#[test]
fn lines_look_like_code_by_their_signs() {
    for line in [
        "fn f", "pub x", "use y", "impl Z", "class A", "def b", "function c", "import d",
        "Stack trace: x", "thread 'main' panicked", "x = y;", "std::mem::drop(x);",
        "{ \"key\": \"a value that is long\" }", "the Begin File marker", "File contents follow",
    ] {
        assert!(looks_like_code_or_file_content(line), "{line}");
    }
    for line in ["", "   ", "fnord", "x;", "{ a }", "a = b", "publish this"] {
        assert!(!looks_like_code_or_file_content(line), "{line}");
    }
    let long = "x".repeat(140);
    assert!(!looks_like_code_or_file_content(&long));
    assert!(looks_like_code_or_file_content(&format!("{long}=")));
}

#[test]
fn excerpts_are_capped_and_tell_of_it() {
    assert_eq!(cap_with_metadata("abcdef", 6), ("abcdef".to_string(), false));
    assert_eq!(cap_with_metadata("abcdef", 5), ("ab...".to_string(), true));
    assert_eq!(cap_with_metadata("abcdef", 2), ("...".to_string(), true));
    for max in 0..=9usize {
        let cut = raw_excerpt("abcdef", max).expect("raw excerpt");
        assert!(cut.rendered_chars <= max.max(3));
        assert_eq!(cut.truncated, max < 6);
    }

    let raw = raw_excerpt("  abcdef ", 5).expect("raw excerpt");
    assert_eq!(raw.text, "ab...");
    assert_eq!((raw.source_chars, raw.rendered_chars), (6, 5));
    assert!(raw.truncated && !raw.redacted);
    assert!(!raw_excerpt("abcdef", 6).expect("raw excerpt").truncated);
    assert!(raw_excerpt(" \n", 5).is_none());

    let safe = safe_excerpt("one   two", 240).expect("safe excerpt");
    assert_eq!(safe.text, "one two");
    assert!(safe.truncated && safe.redacted);
    assert!(safe_excerpt("", 240).is_none());

    let made = make_excerpt("abc", "abcdef", 10, true);
    assert!(!made.truncated);
    assert_eq!((made.source_chars, made.rendered_chars), (3, 6));
}

#[test]
fn summaries_are_known_by_mark_or_by_two_phrases() {
    for text in [
        "Compaction Summary: x", "compact summary: x", "conversation summary: x",
        "SESSION SUMMARY: x", "conversation compacted", "the conversation was compacted",
        "previous conversation has been summarized", "previous conversation was summarized",
    ] {
        assert!(contains_explicit_compaction_marker(text), "{text}");
    }
    assert!(!contains_explicit_compaction_marker("a summary of compaction"));
    assert!(looks_like_compact_summary("Summary with next steps"));
    assert!(looks_like_compact_summary("session summary"));
    assert!(!looks_like_compact_summary("summary"));
    assert!(!looks_like_compact_summary("handoff"));

    let texts = vec![
        "plain".to_string(),
        "summary and next steps".to_string(),
        "session summary: marked".to_string(),
    ];
    assert_eq!(choose_summary(&texts), Some("session summary: marked".to_string()));
    assert_eq!(choose_summary(&texts[..2].to_vec()), Some("summary and next steps".to_string()));
    assert_eq!(choose_summary(&texts[..1].to_vec()), None);
}

//! Tests for the standalone-script detector and the subprocess decoder.
use project_model::abs_path::AbsPath;
use project_model::error::ProjectError;
use project_model::script::{script_accepted_exec, RustScriptMeta, ScriptCandidate, Span, TextPosition};
use project_model::subprocess::{utf8_stdout, CommandOutcome};

fn path(parts: &[&str]) -> AbsPath {
    AbsPath { components: parts.iter().map(|s| s.as_bytes().to_vec()).collect() }
}

fn candidate(name: &str, head: &[u8], rest: &[u8]) -> ScriptCandidate {
    ScriptCandidate {
        path: path(&["d", name]),
        is_dir: false,
        head: Some(head.to_vec()),
        first_line_rest: Some(rest.to_vec()),
    }
}

#[test]
fn env_shebang_is_detected() {
    // First line: #!/usr/bin/env rust-script
    let c = candidate("tool.rs", b"#!/", b"usr/bin/env rust-script");
    assert!(script_accepted_exec(&c));
}

#[test]
fn attribute_syntax_is_not_a_shebang() {
    // First line: #![allow(dead_code)] — the third byte fails the
    // separator-or-whitespace check.
    let c = candidate("lib.rs", b"#![", b"allow(dead_code)]");
    assert!(!script_accepted_exec(&c));
}

#[test]
fn shebang_without_the_marker_is_not_detected() {
    // First line: #!/bin/sh — no marker substring anywhere on the line.
    let c = candidate("run.rs", b"#!/", b"bin/sh");
    assert!(!script_accepted_exec(&c));
}

#[test]
fn whitespace_after_the_shebang_is_accepted() {
    let c = candidate("tool.ers", b"#! ", b"rust-script");
    assert!(script_accepted_exec(&c));
}

#[test]
fn unrecognized_extension_is_rejected() {
    let c = candidate("tool.txt", b"#!/", b"usr/bin/env rust-script");
    assert!(!script_accepted_exec(&c));
}

#[test]
fn hidden_file_has_no_extension() {
    // A leading dot marks a hidden file, not an `rs` extension.
    let c = candidate(".rs", b"#!/", b"usr/bin/env rust-script");
    assert!(!script_accepted_exec(&c));
}

#[test]
fn directories_are_rejected() {
    let mut c = candidate("dir.rs", b"#!/", b"usr/bin/env rust-script");
    c.is_dir = true;
    assert!(!script_accepted_exec(&c));
}

#[test]
fn unreadable_head_excludes_the_candidate() {
    let mut c = candidate("tool.rs", b"", b"");
    c.head = None;
    c.first_line_rest = None;
    assert!(!script_accepted_exec(&c));
}

#[test]
fn short_read_excludes_the_candidate() {
    let c = candidate("tool.rs", b"#!", b"");
    assert!(!script_accepted_exec(&c));
}

#[test]
fn missing_first_line_remainder_excludes_the_candidate() {
    let mut c = candidate("tool.rs", b"#!/", b"");
    c.first_line_rest = None;
    assert!(!script_accepted_exec(&c));
}

#[test]
fn script_metadata_carries_path_and_optional_span() {
    let bare = RustScriptMeta { script_file: path(&["d", "tool.rs"]), manifest_span: None };
    let located = RustScriptMeta {
        script_file: path(&["d", "tool.rs"]),
        manifest_span: Some(Span {
            start: TextPosition { line: 2, character: 0 },
            end: TextPosition { line: 7, character: 3 },
        }),
    };
    assert_ne!(bare, located);
    assert_eq!(bare.script_file, located.script_file);
    assert_eq!(located.manifest_span.unwrap().start.line, 2);
}

fn outcome(success: bool, stdout: &[u8], stderr: &[u8]) -> CommandOutcome {
    CommandOutcome {
        invocation: "\"cargo\" \"metadata\"".to_string(),
        status: "exit status: 1".to_string(),
        success,
        stdout: stdout.to_vec(),
        stderr: stderr.to_vec(),
    }
}

#[test]
fn failed_command_embeds_stderr_verbatim() {
    let out = outcome(false, b"", b"boom: missing manifest");
    match utf8_stdout(out) {
        Err(ProjectError::CommandFailed(m)) => {
            assert!(m.contains("boom: missing manifest"));
            assert_eq!(
                m,
                "\"cargo\" \"metadata\" failed, exit status: 1\nstderr:\nboom: missing manifest"
            );
        },
        _ => panic!("expected CommandFailed"),
    }
}

#[test]
fn failed_command_with_empty_stderr_reports_status_only() {
    let out = outcome(false, b"", b"");
    match utf8_stdout(out) {
        Err(ProjectError::CommandFailed(m)) => {
            assert_eq!(m, "\"cargo\" \"metadata\" failed, exit status: 1");
        },
        _ => panic!("expected CommandFailed"),
    }
}

#[test]
fn failed_command_with_undecodable_stderr_reports_status_only() {
    let out = outcome(false, b"", &[0xff, 0xfe]);
    match utf8_stdout(out) {
        Err(ProjectError::CommandFailed(m)) => {
            assert_eq!(m, "\"cargo\" \"metadata\" failed, exit status: 1");
        },
        _ => panic!("expected CommandFailed"),
    }
}

#[test]
fn successful_output_is_trimmed() {
    let out = outcome(true, b"  value\n", b"");
    assert_eq!(utf8_stdout(out).unwrap(), "value");
}

#[test]
fn undecodable_stdout_is_an_encoding_error() {
    let out = outcome(true, &[0xff, 0xfe, 0x00], b"");
    assert!(matches!(utf8_stdout(out), Err(ProjectError::EncodingError)));
}

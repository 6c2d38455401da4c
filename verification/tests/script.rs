//! Script literal building and exit interpretation on concrete inputs.

use trash::codec::percent_encode;
use trash::error::Error;
use trash::script::{build_finder_script, esc_quote, interpret_script_exit, ScriptExit};

fn esc(bytes: &[u8]) -> Vec<u8> {
    esc_quote(&bytes.to_vec())
}

fn script_for(paths: &[&[u8]]) -> Vec<u8> {
    let texts: Vec<Vec<u8>> = paths.iter().map(|p| percent_encode(&p.to_vec())).collect();
    build_finder_script(&texts)
}

#[test]
fn quotes_and_backslashes_are_escaped() {
    assert_eq!(esc(br#"a"b"#), br#"a\"b"#.to_vec());
    assert_eq!(esc(br"a\b"), br"a\\b".to_vec());
    assert_eq!(esc(br#""\"#), br#"\"\\"#.to_vec());
    assert_eq!(esc(b"plain, text"), b"plain, text".to_vec());
}

#[test]
fn single_path_script() {
    let script = script_for(&[b"/tmp/file.txt"]);
    let expected: &[u8] = br#"tell application "Finder" to delete { POSIX file "/tmp/file.txt" }"#;
    assert_eq!(script, expected.to_vec());
}

#[test]
fn batch_script_preserves_order() {
    let script = script_for(&[b"/a", b"/b", b"/c"]);
    let expected: &[u8] = br#"tell application "Finder" to delete { POSIX file "/a", POSIX file "/b", POSIX file "/c" }"#;
    assert_eq!(script, expected.to_vec());
}

#[test]
fn empty_batch_script() {
    let script = script_for(&[]);
    let expected: &[u8] = br#"tell application "Finder" to delete {  }"#;
    assert_eq!(script, expected.to_vec());
}

#[test]
fn quoted_name_cannot_break_out_of_its_literal() {
    // the file name the end-to-end scenario uses: a"b,
    let script = script_for(&[br#"/tmp/trash-test.a"b,"#]);
    let expected: &[u8] =
        br#"tell application "Finder" to delete { POSIX file "/tmp/trash-test.a\"b," }"#;
    assert_eq!(script, expected.to_vec());
}

#[test]
fn hostile_name_is_embedded_inert() {
    // marker, backslash, quote and comma all in one name
    let script = script_for(&[br#"/tmp/t.x80=%80 slash=\ pc=% quote=" comma=,"#]);
    let expected: &[u8] = br#"tell application "Finder" to delete { POSIX file "/tmp/t.x80=%2580 slash=\\ pc=%25 quote=\" comma=," }"#;
    assert_eq!(script, expected.to_vec());
}

#[test]
fn invalid_text_name_yields_plain_ascii_script() {
    let script = script_for(&[b"/tmp/trash-test.\x80a\"b"]);
    let expected: &[u8] =
        br#"tell application "Finder" to delete { POSIX file "/tmp/trash-test.%80a\"b" }"#;
    assert_eq!(script, expected.to_vec());
}

#[test]
fn exit_zero_is_success() {
    assert!(interpret_script_exit(ScriptExit::Exited(0), Vec::new()).is_ok());
}

#[test]
fn nonzero_exit_reports_code_and_diagnostic() {
    let r = interpret_script_exit(ScriptExit::Exited(1), b"syntax error".to_vec());
    match r {
        Err(Error::Process { code, diagnostic }) => {
            assert_eq!(code, Some(1));
            assert_eq!(diagnostic, b"syntax error".to_vec());
        },
        _ => panic!("expected a process error with an exit code"),
    }
}

#[test]
fn signal_termination_reports_no_code() {
    let r = interpret_script_exit(ScriptExit::Signaled, b"killed".to_vec());
    match r {
        Err(Error::Process { code, diagnostic }) => {
            assert_eq!(code, None);
            assert_eq!(diagnostic, b"killed".to_vec());
        },
        _ => panic!("expected a process error without an exit code"),
    }
}

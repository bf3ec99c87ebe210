use watch_run::bash_shell::{assemble_result, compose_script, join_lines, tag_line, CommandResult};
use watch_run::errors::CustomErrorKind;

#[test]
fn script_wraps_the_command_in_the_preamble_and_exit_line() {
    let script = compose_script("cargo build");
    assert_eq!(script, "set -exu\ncargo build\nexit $?;\n");
}

#[test]
fn script_keeps_the_command_verbatim() {
    let script = compose_script("echo 'a b'  &&  ls");
    assert_eq!(script, "set -exu\necho 'a b'  &&  ls\nexit $?;\n");
}

#[test]
fn three_stdout_lines_join_with_newlines_restored() {
    let lines = vec!["A".to_string(), "B".to_string(), "C".to_string()];
    assert_eq!(join_lines(&lines), "A\nB\nC\n");
}

#[test]
fn no_lines_join_to_the_empty_text() {
    let lines: Vec<String> = Vec::new();
    assert_eq!(join_lines(&lines), "");
}

#[test]
fn captured_lines_keep_their_order() {
    let lines = vec!["first".to_string(), "second".to_string()];
    assert_eq!(join_lines(&lines), "first\nsecond\n");
}

#[test]
fn log_lines_carry_the_stream_tag() {
    assert_eq!(tag_line("OUT", "hello"), "OUT | hello");
    assert_eq!(tag_line("ERR", "oops"), "ERR | oops");
}

#[test]
fn exit_zero_is_a_success() {
    let r = assemble_result("true", Some(0), String::new(), String::new());
    assert_eq!(r.status_code, Some(0));
    assert!(r.success);
    assert_eq!(r.command, "true");
}

#[test]
fn exit_seven_reports_the_code_and_no_success() {
    let r = assemble_result("exit 7", Some(7), String::new(), String::new());
    assert_eq!(r.status_code, Some(7));
    assert!(!r.success);
}

#[test]
fn signal_termination_is_never_a_success() {
    let r = assemble_result("sleep 100", None, String::new(), String::new());
    assert_eq!(r.status_code, None);
    assert!(!r.success);
}

#[test]
fn streams_are_stored_as_captured() {
    let r = assemble_result("ls", Some(0), "A\nB\nC\n".to_string(), "".to_string());
    assert_eq!(r.stdout, "A\nB\nC\n");
    assert_eq!(r.stderr, "");
}

#[test]
fn successful_result_passes_through_as_result() {
    let r = assemble_result("true", Some(0), "out".to_string(), "err".to_string());
    let ok = r.as_result().unwrap();
    assert_eq!(ok.command, "true");
    assert_eq!(ok.stdout, "out");
}

#[test]
fn failed_result_converts_to_an_error_naming_the_command() {
    let r = assemble_result("make all -j4", Some(2), String::new(), String::new());
    let err = r.as_result().unwrap_err();
    match err.kind {
        CustomErrorKind::ErrorMessage(message) => {
            assert!(message.contains("make all -j4"));
            assert_eq!(
                message,
                "A command exited with a non 0 exit code or with a signal. 'make all -j4'"
            );
        }
        other => panic!("unexpected error kind: {:?}", other),
    }
}

#[test]
fn signal_terminated_result_converts_to_an_error() {
    let r = CommandResult {
        status_code: None,
        stdout: String::new(),
        stderr: String::new(),
        command: "run".to_string(),
        success: false,
    };
    let err = r.as_result().unwrap_err();
    assert!(err.to_string().contains("'run'"));
}

use csv_to_db_bridge::{interpret_output, interpret_text, CsvToDbResult, ProcessOutput};

fn output(exit_code: Option<i32>, stdout: &[u8], stderr: &[u8]) -> ProcessOutput {
    ProcessOutput { exit_code, stdout: stdout.to_vec(), stderr: stderr.to_vec() }
}

#[test]
fn success_reports_stdout_and_count() {
    let result = interpret_output(&output(
        Some(0),
        "インポートされたレコード数: 42".as_bytes(),
        b"",
    ));
    assert!(result.success());
    assert_eq!(result.message(), "インポートされたレコード数: 42");
    assert_eq!(result.records_imported(), Some(42));
}

#[test]
fn failure_reports_stderr() {
    let result = interpret_output(&output(Some(1), b"", b"file not found"));
    assert!(!result.success());
    assert_eq!(result.message(), "file not found");
    assert_eq!(result.records_imported(), None);
}

#[test]
fn success_without_marker_has_no_count() {
    let result = interpret_output(&output(Some(0), b"nothing to import\n", b""));
    assert!(result.success());
    assert_eq!(result.message(), "nothing to import\n");
    assert_eq!(result.records_imported(), None);
}

#[test]
fn failure_ignores_a_marker_on_stdout() {
    let result = interpret_output(&output(
        Some(2),
        "インポートされたレコード数: 42\n".as_bytes(),
        b"disk full\n",
    ));
    assert!(!result.success());
    assert_eq!(result.message(), "disk full\n");
    assert_eq!(result.records_imported(), None);
}

#[test]
fn success_ignores_stderr() {
    let result = interpret_output(&output(
        Some(0),
        "インポートされたレコード数: 3\n".as_bytes(),
        b"warning: slow disk\n",
    ));
    assert!(result.success());
    assert_eq!(result.message(), "インポートされたレコード数: 3\n");
    assert_eq!(result.records_imported(), Some(3));
}

#[test]
fn a_process_without_exit_code_failed() {
    let result = interpret_output(&output(
        None,
        "インポートされたレコード数: 42\n".as_bytes(),
        b"killed",
    ));
    assert!(!result.success());
    assert_eq!(result.message(), "killed");
    assert_eq!(result.records_imported(), None);
}

#[test]
fn every_nonzero_exit_code_is_a_failure() {
    for code in [1, 2, 101, 255, -1, i32::MIN, i32::MAX] {
        let result = interpret_output(&output(Some(code), b"out", b"err"));
        assert!(!result.success(), "exit code {}", code);
        assert_eq!(result.message(), "err");
        assert_eq!(result.records_imported(), None);
    }
}

#[test]
fn silent_success_has_an_empty_message() {
    let result = interpret_output(&output(Some(0), b"", b"ignored"));
    assert!(result.success());
    assert_eq!(result.message(), "");
    assert_eq!(result.records_imported(), None);
}

#[test]
fn ill_formed_bytes_are_replaced() {
    let result = interpret_output(&output(Some(0), b"ok \xff\xfe done\n", b""));
    assert!(result.success());
    assert_eq!(result.message(), "ok \u{fffd}\u{fffd} done\n");
    assert_eq!(result.records_imported(), None);
}

#[test]
fn ill_formed_bytes_on_stderr_are_replaced() {
    let result = interpret_output(&output(Some(1), b"", b"bad \xc3\x28 name"));
    assert!(!result.success());
    assert_eq!(result.message(), "bad \u{fffd}( name");
}

#[test]
fn ill_formed_bytes_beside_the_marker_line() {
    let mut stdout = b"\x80\x80\n".to_vec();
    stdout.extend_from_slice("インポートされたレコード数: 5\n".as_bytes());
    let result = interpret_output(&output(Some(0), &stdout, b""));
    assert_eq!(
        result.message(),
        "\u{fffd}\u{fffd}\nインポートされたレコード数: 5\n"
    );
    assert_eq!(result.records_imported(), Some(5));
}

#[test]
fn ill_formed_bytes_inside_the_number() {
    let mut stdout = "インポートされたレコード数: 4".as_bytes().to_vec();
    stdout.push(0xff);
    stdout.push(b'2');
    let result = interpret_output(&output(Some(0), &stdout, b""));
    assert_eq!(result.message(), "インポートされたレコード数: 4\u{fffd}2");
    assert_eq!(result.records_imported(), None);
}

#[test]
fn well_formed_output_is_kept_byte_for_byte() {
    let stdout = "読み込み完了\r\nインポートされたレコード数: 12\r\n";
    let result = interpret_output(&output(Some(0), stdout.as_bytes(), b""));
    assert_eq!(result.message().as_bytes(), stdout.as_bytes());
    assert_eq!(result.records_imported(), Some(12));
}

#[test]
fn first_of_several_marker_lines_is_used() {
    let stdout = "インポートされたレコード数: 10\nインポートされたレコード数: 20\n";
    let result = interpret_output(&output(Some(0), stdout.as_bytes(), b""));
    assert_eq!(result.records_imported(), Some(10));
}

#[test]
fn interpret_text_of_a_success() {
    let result = interpret_text(
        true,
        "インポートされたレコード数: 42".to_string(),
        "unused".to_string(),
    );
    assert!(result.success());
    assert_eq!(result.message(), "インポートされたレコード数: 42");
    assert_eq!(result.records_imported(), Some(42));
}

#[test]
fn interpret_text_of_a_failure() {
    let result = interpret_text(
        false,
        "インポートされたレコード数: 42".to_string(),
        "file not found".to_string(),
    );
    assert!(!result.success());
    assert_eq!(result.message(), "file not found");
    assert_eq!(result.records_imported(), None);
}

#[test]
fn only_a_success_has_a_count() {
    let streams: [&[u8]; 4] = [
        b"",
        b"plain",
        "インポートされたレコード数: 1".as_bytes(),
        "インポートされたレコード数: x".as_bytes(),
    ];
    for code in [None, Some(0), Some(1)] {
        for out in streams {
            for err in streams {
                let result = interpret_output(&output(code, out, err));
                assert_eq!(result.success(), code == Some(0));
                if result.records_imported().is_some() {
                    assert!(result.success());
                }
                if !result.success() {
                    assert_eq!(result.records_imported(), None);
                }
            }
        }
    }
}

#[test]
fn succeeded_and_failed_build_the_outcome() {
    let ok = CsvToDbResult::succeeded("out".to_string(), Some(9));
    assert!(ok.success());
    assert_eq!(ok.message(), "out");
    assert_eq!(ok.records_imported(), Some(9));
    let plain = CsvToDbResult::succeeded("out".to_string(), None);
    assert!(plain.success());
    assert_eq!(plain.records_imported(), None);
    let bad = CsvToDbResult::failed("err".to_string());
    assert!(!bad.success());
    assert_eq!(bad.message(), "err");
    assert_eq!(bad.records_imported(), None);
    assert_ne!(ok, plain);
    assert_eq!(bad, CsvToDbResult::failed("err".to_string()));
}

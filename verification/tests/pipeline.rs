//! End-to-end tests of the execution pipeline: compile errors, runtime
//! errors, transcript framing, session persistence and response routing.

use ella_playground::fmt::{info_line_string, u64_to_string};
use ella_playground::runner::{run, Request, Runner, RunResult};
use ella_playground::session::Session;
use ella_playground::sink::OutputSink;

fn stdout_text(r: &RunResult) -> &str {
    match r {
        RunResult::Stdout(s) => s.as_str(),
        RunResult::Error(_) => panic!("expected a Stdout response"),
    }
}

fn error_text(r: &RunResult) -> &str {
    match r {
        RunResult::Error(s) => s.as_str(),
        RunResult::Stdout(_) => panic!("expected an Error response"),
    }
}

#[test]
fn println_simple_sum() {
    let out = run("println(1+1);");
    assert_eq!(out.len(), 2);
    assert_eq!(stdout_text(&out[0]), "[STDOUT] 2\n");
    let last = stdout_text(&out[1]);
    assert!(last.starts_with("[STDOUT] 2\n[INFO] Execution finished in "));
    assert!(last.ends_with(" seconds\n"));
    // The duration is printed with exactly three fractional digits.
    let tail = &last["[STDOUT] 2\n[INFO] Execution finished in ".len()..];
    let dot = tail.find('.').unwrap();
    let frac = &tail[dot + 1..tail.find(' ').unwrap()];
    assert_eq!(frac.len(), 3);
    assert!(frac.chars().all(|c| c.is_ascii_digit()));
}

#[test]
fn syntax_error_yields_single_error_response() {
    let out = run("println(");
    assert_eq!(out.len(), 1);
    assert_eq!(error_text(&out[0]), "syntax error at line 1\n");
}

#[test]
fn unknown_character_is_a_syntax_error() {
    let out = run("println(1, 2);");
    assert_eq!(out.len(), 1);
    assert_eq!(error_text(&out[0]), "syntax error at line 1\n");
}

#[test]
fn oversized_number_literal_is_a_syntax_error() {
    let out = run("println(1234567890123456789);");
    assert_eq!(out.len(), 1);
    assert_eq!(error_text(&out[0]), "syntax error at line 1\n");
}

#[test]
fn type_error_yields_single_error_response() {
    let out = run("1 + true;");
    assert_eq!(out.len(), 1);
    assert_eq!(error_text(&out[0]), "type error: expected a number at line 1\n");
}

#[test]
fn type_errors_accumulate_per_statement() {
    let out = run("1 + true;\n2 * false;");
    assert_eq!(out.len(), 1);
    assert_eq!(
        error_text(&out[0]),
        "type error: expected a number at line 1\ntype error: expected a number at line 2\n"
    );
}

#[test]
fn arity_mismatch_is_a_type_error() {
    let out = run("clock(1);");
    assert_eq!(out.len(), 1);
    assert_eq!(error_text(&out[0]), "type error: wrong number of arguments at line 1\n");
}

#[test]
fn is_nan_rejects_a_boolean_argument() {
    let out = run("is_nan(true);");
    assert_eq!(out.len(), 1);
    assert_eq!(error_text(&out[0]), "type error: expected a number at line 1\n");
}

#[test]
fn calling_a_number_is_not_callable() {
    let out = run("let f = 1; f();");
    assert_eq!(out.len(), 1);
    assert_eq!(error_text(&out[0]), "type error: value is not callable at line 1\n");
}

#[test]
fn division_by_zero_is_a_runtime_error() {
    let out = run("println(1/0);");
    assert_eq!(out.len(), 2);
    let text = "runtime error: division by zero\n   --> repl:1\n";
    assert_eq!(stdout_text(&out[0]), text);
    assert_eq!(error_text(&out[1]), text);
}

#[test]
fn undefined_variable_is_a_runtime_error() {
    let out = run("println(x);");
    assert_eq!(out.len(), 2);
    let text = "runtime error: undefined variable\n   --> repl:1\n";
    assert_eq!(stdout_text(&out[0]), text);
    assert_eq!(error_text(&out[1]), text);
}

#[test]
fn runtime_error_reports_its_source_line() {
    let out = run("println(1);\n1/0;");
    assert_eq!(out.len(), 3);
    assert_eq!(stdout_text(&out[0]), "[STDOUT] 1\n");
    assert_eq!(
        stdout_text(&out[1]),
        "[STDOUT] 1\nruntime error: division by zero\n   --> repl:2\n"
    );
    assert_eq!(error_text(&out[2]), "runtime error: division by zero\n   --> repl:2\n");
}

#[test]
fn partial_output_is_preserved_before_a_trap() {
    let out = run("println(7); println(8/0);");
    assert_eq!(stdout_text(&out[0]), "[STDOUT] 7\n");
    assert_eq!(
        stdout_text(&out[1]),
        "[STDOUT] 7\nruntime error: division by zero\n   --> repl:1\n"
    );
    assert!(matches!(out[2], RunResult::Error(_)));
}

#[test]
fn precedence_and_parentheses() {
    let out = run("println(1+2*3); println((1+2)*3);");
    assert_eq!(stdout_text(&out[0]), "[STDOUT] 7\n");
    assert_eq!(stdout_text(&out[1]), "[STDOUT] 7\n[STDOUT] 9\n");
}

#[test]
fn subtraction_is_left_associative() {
    let out = run("println(10-2-3);");
    assert_eq!(stdout_text(&out[0]), "[STDOUT] 5\n");
}

#[test]
fn division_truncates_toward_zero() {
    let out = run("println(7/2); println((0-7)/2); println(-7/2);");
    let last = stdout_text(&out[2]);
    assert_eq!(last, "[STDOUT] 3\n[STDOUT] -3\n[STDOUT] -3\n");
}

#[test]
fn unary_minus_and_negative_rendering() {
    let out = run("println(-5);");
    assert_eq!(stdout_text(&out[0]), "[STDOUT] -5\n");
}

#[test]
fn booleans_print_as_words() {
    let out = run("println(true); println(false);");
    assert_eq!(stdout_text(&out[1]), "[STDOUT] true\n[STDOUT] false\n");
}

#[test]
fn str_renders_and_parse_number_round_trips() {
    let out = run("println(str(42)); println(parse_number(str(123)) + 1);");
    assert_eq!(stdout_text(&out[1]), "[STDOUT] 42\n[STDOUT] 124\n");
}

#[test]
fn parse_number_of_a_negative_rendering() {
    let out = run("println(parse_number(str(-31)));");
    assert_eq!(stdout_text(&out[0]), "[STDOUT] -31\n");
}

#[test]
fn is_nan_of_an_integer_is_false() {
    let out = run("println(is_nan(3));");
    assert_eq!(stdout_text(&out[0]), "[STDOUT] false\n");
}

#[test]
fn clock_returns_a_number() {
    let out = run("println(clock());");
    let s = stdout_text(&out[0]);
    assert!(s.starts_with("[STDOUT] "));
    assert!(s.ends_with("\n"));
    let body = &s["[STDOUT] ".len()..s.len() - 1];
    assert!(body.chars().all(|c| c.is_ascii_digit()));
}

#[test]
fn multiplication_overflow_traps() {
    let out = run("let big = 999999999999999999; println(big * big);");
    let text = "runtime error: number overflow\n   --> repl:1\n";
    assert_eq!(stdout_text(&out[0]), text);
    assert_eq!(error_text(&out[1]), text);
}

#[test]
fn empty_source_completes_with_timing_line_only() {
    let out = run("");
    assert_eq!(out.len(), 1);
    let s = stdout_text(&out[0]);
    assert!(s.starts_with("[INFO] Execution finished in "));
    assert!(s.ends_with(" seconds\n"));
}

#[test]
fn globals_persist_across_requests_in_one_session() {
    let mut runner = Runner::create();
    let first = runner.handle_input(Request::ExecuteCode("let x = 1;".to_string()), 1);
    assert!(first.iter().all(|r| matches!(r.result, RunResult::Stdout(_))));
    let second = runner.handle_input(Request::ExecuteCode("println(x);".to_string()), 2);
    assert_eq!(stdout_text(&second[0].result), "[STDOUT] 1\n");
}

#[test]
fn a_fresh_session_does_not_see_old_globals() {
    let mut runner = Runner::create();
    let _ = runner.handle_input(Request::ExecuteCode("let x = 1;".to_string()), 1);
    // A different engine session knows nothing of `x`.
    let out = run("println(x);");
    assert_eq!(stdout_text(&out[0]), "runtime error: undefined variable\n   --> repl:1\n");
}

#[test]
fn engine_stays_usable_after_a_runtime_error() {
    let mut runner = Runner::create();
    let first = runner.handle_input(Request::ExecuteCode("1/0;".to_string()), 1);
    assert!(matches!(first.last().unwrap().result, RunResult::Error(_)));
    let second = runner.handle_input(Request::ExecuteCode("println(2+2);".to_string()), 2);
    assert_eq!(stdout_text(&second[0].result), "[STDOUT] 4\n");
}

#[test]
fn responses_carry_the_originating_request_id() {
    let mut runner = Runner::create();
    let a = runner.handle_input(Request::ExecuteCode("println(1);".to_string()), 17);
    let b = runner.handle_input(Request::ExecuteCode("println(".to_string()), 42);
    assert!(!a.is_empty() && !b.is_empty());
    assert!(a.iter().all(|r| r.id == 17));
    assert!(b.iter().all(|r| r.id == 42));
}

#[test]
fn shadowing_a_builtin_changes_its_type() {
    let mut runner = Runner::create();
    let first = runner.handle_input(Request::ExecuteCode("let println = 5;".to_string()), 1);
    assert!(first.iter().all(|r| matches!(r.result, RunResult::Stdout(_))));
    let second = runner.handle_input(Request::ExecuteCode("println(1);".to_string()), 2);
    assert_eq!(
        error_text(&second[0].result),
        "type error: value is not callable at line 1\n"
    );
}

#[test]
fn disposed_sink_keeps_appending_without_delivering() {
    let mut session = Session::new();
    let mut sink = OutputSink::new();
    sink.dispose();
    assert!(!sink.is_alive());
    let _ = session.execute("println(1+1);", &mut sink);
    // The transcript grew, but nothing was delivered and nothing failed.
    let transcript = sink.transcript();
    assert!(transcript.starts_with("[STDOUT] 2\n[INFO] Execution finished in "));
    assert_eq!(sink.delivery_count(), 0);
}

#[test]
fn live_sink_delivers_the_full_transcript_each_time() {
    let mut session = Session::new();
    let mut sink = OutputSink::new();
    let _ = session.execute("println(1); println(2);", &mut sink);
    assert_eq!(sink.delivery_count(), 3);
    assert_eq!(sink.delivery_at(0).as_str(), "[STDOUT] 1\n");
    assert_eq!(sink.delivery_at(1).as_str(), "[STDOUT] 1\n[STDOUT] 2\n");
    assert!(sink.delivery_at(2).starts_with("[STDOUT] 1\n[STDOUT] 2\n[INFO] "));
}

#[test]
fn compile_error_delivers_nothing_through_the_sink() {
    let mut session = Session::new();
    let mut sink = OutputSink::new();
    let status = session.execute("1 + true;", &mut sink);
    assert!(matches!(
        status,
        ella_playground::session::ExecuteStatus::CompileFailed { .. }
    ));
    assert_eq!(sink.delivery_count(), 0);
    assert_eq!(sink.transcript(), "");
}

#[test]
fn let_reads_the_outer_binding_first() {
    // The initializer is resolved before the name is bound, so `let x = x;`
    // reads the (undefined) outer `x` and traps at run time.
    let out = run("let x = x;");
    assert_eq!(stdout_text(&out[0]), "runtime error: undefined variable\n   --> repl:1\n");
}

#[test]
fn timing_line_rendering_is_millisecond_exact() {
    assert_eq!(info_line_string(1234), "[INFO] Execution finished in 1.234 seconds\n");
    assert_eq!(info_line_string(0), "[INFO] Execution finished in 0.000 seconds\n");
    assert_eq!(info_line_string(999), "[INFO] Execution finished in 0.999 seconds\n");
    assert_eq!(info_line_string(60_001), "[INFO] Execution finished in 60.001 seconds\n");
    assert_eq!(u64_to_string(0), "0");
    assert_eq!(u64_to_string(9007199254740993), "9007199254740993");
}

#[test]
fn keywords_do_not_swallow_longer_identifiers() {
    let out = run("let lettuce = 2; println(lettuce);");
    assert_eq!(stdout_text(&out[0]), "[STDOUT] 2\n");
}

#[test]
fn rebinding_a_name_reuses_its_slot() {
    let out = run("let a = 1; let a = a + 1; println(a);");
    assert_eq!(stdout_text(&out[0]), "[STDOUT] 2\n");
}

#[test]
fn windows_line_endings_count_lines_once() {
    let out = run("println(1);\r\n1/0;");
    assert_eq!(
        error_text(out.last().unwrap()),
        "runtime error: division by zero\n   --> repl:2\n"
    );
}

#[test]
fn deeply_nested_parentheses_parse() {
    let out = run("println(((((1+2)))));");
    assert_eq!(stdout_text(&out[0]), "[STDOUT] 3\n");
}

#[test]
fn clock_is_non_decreasing_across_requests() {
    let mut runner = Runner::create();
    let a = runner.handle_input(Request::ExecuteCode("println(clock());".to_string()), 1);
    let b = runner.handle_input(Request::ExecuteCode("println(clock());".to_string()), 2);
    let read = |r: &RunResult| -> u64 {
        let s = stdout_text(r);
        s["[STDOUT] ".len()..s.find('\n').unwrap()].parse().unwrap()
    };
    assert!(read(&b[0].result) >= read(&a[0].result));
}

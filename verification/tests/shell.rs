use rustpython_vm::driver::{
    handle_exception, run_command, run_input, run_script, run_string, select_invocation, Invocation, Mode, ScriptPlan,
    SCRIPT_FAILURE_STATUS,
};
use rustpython_vm::exceptions::{kind_name, Exception, ExceptionKind};
use rustpython_vm::pyobject::ObjRef;
use rustpython_vm::shell::{attempted, shell_exec, strip, Attempted, Shell, ShellAction, ShellEvent, ShellState};

fn refused(message: &str) -> Option<Exception> {
    Some(Exception::with_message(ExceptionKind::CompileError, message))
}

#[test]
fn a_complete_line_is_attempted_and_discarded() {
    let mut shell = Shell::new();
    assert_eq!(shell.action(), ShellAction::ReadLine);
    assert_eq!(shell.prompt(), ">>>>> ");
    assert_eq!(shell.step(ShellEvent::Line("x = (1, 2, 3)\n".to_string())), ShellAction::Attempt);
    assert_eq!(shell.buffer, "x = (1, 2, 3)\n");
    assert_eq!(shell.step(ShellEvent::Attempted(attempted(&None))), ShellAction::ReadLine);
    assert_eq!(shell.state, ShellState::Fresh);
    assert_eq!(shell.buffer, "");
    assert_eq!(shell.step(ShellEvent::Line("x[1:]\n".to_string())), ShellAction::Attempt);
    assert_eq!(shell.buffer, "x[1:]\n");
}

#[test]
fn an_incomplete_input_is_completed_and_attempted_whole() {
    let mut shell = Shell::new();
    assert_eq!(shell.step(ShellEvent::Line("(\n".to_string())), ShellAction::Attempt);
    let how = attempted(&refused("Unexpected end of input."));
    assert_eq!(how, Attempted::Incomplete);
    assert_eq!(shell.step(ShellEvent::Attempted(how)), ShellAction::ReadLine);
    assert_eq!(shell.state, ShellState::Collecting);
    assert_eq!(shell.prompt(), "..... ");
    assert_eq!(shell.step(ShellEvent::Line("1)\r\n".to_string())), ShellAction::ReadLine);
    assert_eq!(shell.buffer, "(\n1)\n");
    assert_eq!(shell.step(ShellEvent::Line("\n".to_string())), ShellAction::Attempt);
    assert_eq!(shell.buffer, "(\n1)\n");
    assert_eq!(shell.step(ShellEvent::Attempted(attempted(&None))), ShellAction::ReadLine);
    assert_eq!(shell.state, ShellState::Fresh);
    assert_eq!(shell.buffer, "");
    assert_eq!(shell.prompt(), ">>>>> ");
}

#[test]
fn an_input_that_is_still_incomplete_keeps_collecting() {
    let mut shell = Shell::new();
    shell.step(ShellEvent::Line("(\n".to_string()));
    shell.step(ShellEvent::Attempted(Attempted::Incomplete));
    shell.step(ShellEvent::Line("(\n".to_string()));
    assert_eq!(shell.step(ShellEvent::Line("\r\n".to_string())), ShellAction::Attempt);
    assert_eq!(shell.step(ShellEvent::Attempted(Attempted::Incomplete)), ShellAction::ReadLine);
    assert_eq!(shell.state, ShellState::Collecting);
    assert_eq!(shell.buffer, "(\n(\n");
    shell.step(ShellEvent::Line("1))\n".to_string()));
    assert_eq!(shell.step(ShellEvent::Line("".to_string())), ShellAction::Attempt);
    assert_eq!(shell.buffer, "(\n(\n1))\n");
}

#[test]
fn any_other_compile_failure_discards_the_input() {
    let mut shell = Shell::new();
    shell.step(ShellEvent::Line("1 +* 2\n".to_string()));
    let how = attempted(&refused("Unexpected token."));
    assert_eq!(how, Attempted::Complete);
    assert_eq!(shell.step(ShellEvent::Attempted(how)), ShellAction::ReadLine);
    assert_eq!(shell.state, ShellState::Fresh);
    assert_eq!(shell.buffer, "");
}

#[test]
fn the_end_of_input_closes_the_shell() {
    let mut shell = Shell::new();
    assert_eq!(shell.step(ShellEvent::EndOfInput), ShellAction::Exit);
    assert_eq!(shell.state, ShellState::Closed);
    assert_eq!(shell.step(ShellEvent::Line("1\n".to_string())), ShellAction::Exit);
    assert_eq!(shell.prompt(), "");
    let mut shell = Shell::new();
    shell.step(ShellEvent::Line("(\n".to_string()));
    shell.step(ShellEvent::Attempted(Attempted::Incomplete));
    assert_eq!(shell.step(ShellEvent::EndOfInput), ShellAction::Exit);
}

#[test]
fn events_that_are_not_awaited_change_nothing() {
    let mut shell = Shell::new();
    assert_eq!(shell.step(ShellEvent::Attempted(Attempted::Incomplete)), ShellAction::ReadLine);
    assert_eq!(shell.state, ShellState::Fresh);
    shell.step(ShellEvent::Line("1\n".to_string()));
    assert_eq!(shell.step(ShellEvent::Line("2\n".to_string())), ShellAction::Attempt);
    assert_eq!(shell.buffer, "1\n");
    assert_eq!(shell.step(ShellEvent::EndOfInput), ShellAction::Attempt);
    assert_eq!(shell.state, ShellState::Ready);
}

#[test]
fn strip_removes_trailing_line_endings_only() {
    assert_eq!(strip("abc\n"), "abc");
    assert_eq!(strip("abc\r\n"), "abc");
    assert_eq!(strip("abc\n\r\n\n"), "abc");
    assert_eq!(strip("a\nb\n"), "a\nb");
    assert_eq!(strip("\n abc"), "\n abc");
    assert_eq!(strip("abc  "), "abc  ");
    assert_eq!(strip("\r\n"), "");
    assert_eq!(strip(""), "");
    assert_eq!(strip("h\u{e9}\n"), "h\u{e9}");
}

#[test]
fn only_the_end_of_input_message_means_incomplete() {
    assert!(shell_exec(&None));
    assert!(!shell_exec(&refused("Unexpected end of input.")));
    assert!(shell_exec(&refused("Unexpected end of input")));
    assert!(shell_exec(&refused("unexpected end of input.")));
    assert!(shell_exec(&refused("")));
}

#[test]
fn the_command_goes_before_the_module_and_the_script() {
    let s = |x: &str| Some(x.to_string());
    assert_eq!(
        select_invocation(s("c"), s("m"), s("f")),
        Invocation::Command { source: "c".to_string() }
    );
    assert_eq!(select_invocation(None, s("m"), s("f")), Invocation::Module { name: "m".to_string() });
    assert_eq!(select_invocation(None, None, s("f")), Invocation::Script { path: "f".to_string() });
    assert_eq!(select_invocation(None, None, None), Invocation::Shell);
    assert_eq!(select_invocation(s(""), None, None), Invocation::Command { source: "".to_string() });
}

#[test]
fn a_command_gets_a_trailing_line_feed() {
    let c = run_command("print((1,))".to_string());
    assert_eq!(c.source, "print((1,))\n");
    assert_eq!(c.mode, Mode::Exec);
    assert_eq!(c.source_path, None);
    assert_eq!(run_command("".to_string()).source, "\n");
}

#[test]
fn source_text_runs_as_a_module_and_input_as_a_statement() {
    let c = run_string("x = 1\n".to_string(), Some("a.py".to_string()));
    assert_eq!((c.source.as_str(), c.mode, c.source_path), ("x = 1\n", Mode::Exec, Some("a.py".to_string())));
    let c = run_input("x\n".to_string());
    assert_eq!((c.source.as_str(), c.mode, c.source_path), ("x\n", Mode::Single, None));
}

#[test]
fn a_script_that_was_read_is_run_from_its_path() {
    match run_script("dir/a.py", Ok("print((1,))\n".to_string())) {
        ScriptPlan::Run { compilation } => {
            assert_eq!(compilation.source, "print((1,))\n");
            assert_eq!(compilation.mode, Mode::Exec);
            assert_eq!(compilation.source_path, Some("dir/a.py".to_string()));
        }
        other => panic!("not run: {:?}", other),
    }
}

#[test]
fn a_script_that_cannot_be_read_is_not_run() {
    let plan = run_script("missing.py", Err("No such file or directory (os error 2)".to_string()));
    assert_eq!(
        plan,
        ScriptPlan::Abort {
            status: 1,
            message: "Parsing went horribly wrong: No such file or directory (os error 2)".to_string(),
        }
    );
    assert_ne!(SCRIPT_FAILURE_STATUS, 0);
}

#[test]
fn an_escaped_exception_is_reported_by_kind_and_message() {
    let ok: Result<ObjRef, Exception> = Ok(ObjRef { index: 0 });
    assert_eq!(handle_exception(&ok), None);
    let failed: Result<ObjRef, Exception> = Err(Exception::with_message(ExceptionKind::IndexError, "Index out of bounds!"));
    assert_eq!(handle_exception(&failed), Some("IndexError: Index out of bounds!".to_string()));
}

#[test]
fn exceptions_have_a_kind_a_message_and_maybe_a_cause() {
    let e = Exception::new(ExceptionKind::ImportError, "No module named 'x'".to_string());
    assert_eq!(e.cause, None);
    assert_eq!(e.report(), "ImportError: No module named 'x'");
    let f = Exception::with_message(ExceptionKind::TypeError, "bad").caused_by(ObjRef { index: 3 });
    assert_eq!(f.kind, ExceptionKind::TypeError);
    assert_eq!(f.message, "bad");
    assert_eq!(f.cause, Some(ObjRef { index: 3 }));
    assert_eq!(f.report(), "TypeError: bad");
    assert_eq!(kind_name(ExceptionKind::CompileError), "CompileError");
    assert_eq!(kind_name(ExceptionKind::AttributeError), "AttributeError");
    assert_eq!(kind_name(ExceptionKind::TypeError), "TypeError");
    assert_eq!(kind_name(ExceptionKind::IndexError), "IndexError");
    assert_eq!(kind_name(ExceptionKind::UnsupportedOperation), "UnsupportedOperation");
    assert_eq!(kind_name(ExceptionKind::ImportError), "ImportError");
}

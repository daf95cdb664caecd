//! The top-level driver: what a request to the runtime asks for, and what
//! to do about how it went.

use vstd::prelude::*;
use crate::exceptions::{report_text, Exception};

verus! {

/// How source text is compiled.
#[derive(Clone, Copy, PartialEq, Eq, Structural, Debug)]
pub enum Mode {
    /// A module: a sequence of statements whose results are not reported.
    Exec,
    /// One interactive statement: a result other than `None` is printed.
    Single,
    /// An expression.
    Eval,
}

/// What the runtime was started for.
#[derive(Clone, PartialEq, Eq, Debug)]
pub enum Invocation {
    /// Run the given source text.
    Command { source: String },
    /// Run the named module as a script.
    Module { name: String },
    /// Run the script at the given path.
    Script { path: String },
    /// Talk to the user.
    Shell,
}

/// The mathematical content of an [`Invocation`].
pub enum InvocationView {
    Command { source: Seq<char> },
    Module { name: Seq<char> },
    Script { path: Seq<char> },
    Shell,
}

impl View for Invocation {
    type V = InvocationView;

    open spec fn view(&self) -> InvocationView {
        match *self {
            Invocation::Command { source } => InvocationView::Command { source: source@ },
            Invocation::Module { name } => InvocationView::Module { name: name@ },
            Invocation::Script { path } => InvocationView::Script { path: path@ },
            Invocation::Shell => InvocationView::Shell,
        }
    }
}

/// What is to be compiled, how, and where it came from.
#[derive(Clone, PartialEq, Eq, Debug)]
pub struct Compilation {
    pub source: String,
    pub mode: Mode,
    pub source_path: Option<String>,
}

/// What to do about a script, once reading it was tried.
#[derive(Clone, PartialEq, Eq, Debug)]
pub enum ScriptPlan {
    /// Compile and execute the text that was read.
    Run { compilation: Compilation },
    /// Log the message and end the process with the status; nothing is
    /// executed.
    Abort { status: i32, message: String },
}

/// The status with which the process ends when a script cannot be read.
pub const SCRIPT_FAILURE_STATUS: i32 = 1;

/// The request that the command line makes: a command given with `-c` goes
/// before a module given with `-m`, that before a script path, and with
/// none of them the shell is started.
pub open spec fn selected(command: Option<String>, module: Option<String>, script: Option<String>) -> InvocationView {
    match command {
        Some(source) => InvocationView::Command { source: source@ },
        None => match module {
            Some(name) => InvocationView::Module { name: name@ },
            None => match script {
                Some(path) => InvocationView::Script { path: path@ },
                None => InvocationView::Shell,
            },
        },
    }
}

/// The text that is compiled for a command: the command and a line feed,
/// since the front end does not take a statement that ends with the input.
pub open spec fn command_text(source: Seq<char>) -> Seq<char> {
    source + "\n"@
}

/// The message logged when a script cannot be read.
pub open spec fn script_failure_text(cause: Seq<char>) -> Seq<char> {
    "Parsing went horribly wrong: "@ + cause
}

/// Selects the request that the command line makes.
pub fn select_invocation(command: Option<String>, module: Option<String>, script: Option<String>) -> (invocation:
    Invocation)
    ensures
        invocation@ == selected(command, module, script),
{
    match command {
        Some(source) => Invocation::Command { source },
        None => match module {
            Some(name) => Invocation::Module { name },
            None => match script {
                Some(path) => Invocation::Script { path },
                None => Invocation::Shell,
            },
        },
    }
}

/// What is compiled to run source text as a module: the text itself, with
/// the path it came from if it came from a file.
pub fn run_string(source: String, source_path: Option<String>) -> (compilation: Compilation)
    ensures
        compilation.source == source,
        compilation.mode == Mode::Exec,
        compilation.source_path == source_path,
{
    Compilation { source, mode: Mode::Exec, source_path }
}

/// What is compiled to run a command: the command followed by a line feed,
/// as a module that came from no file.
pub fn run_command(source: String) -> (compilation: Compilation)
    ensures
        compilation.source@ == command_text(source@),
        compilation.mode == Mode::Exec,
        compilation.source_path is None,
{
    let mut source = source;
    source.append("\n");
    run_string(source, None)
}

/// What is compiled for the input of the shell: the input as one
/// interactive statement that came from no file.
pub fn run_input(source: String) -> (compilation: Compilation)
    ensures
        compilation.source == source,
        compilation.mode == Mode::Single,
        compilation.source_path is None,
{
    Compilation { source, mode: Mode::Single, source_path: None }
}

/// What to do about the script at `script_file`, given the text read from
/// it or the reason why it could not be read.
///
/// A script that was read is run as a module that came from that path. A
/// script that could not be read is never run: the failure is logged and
/// the process ends with a status that is not zero.
pub fn run_script(script_file: &str, read: Result<String, String>) -> (plan: ScriptPlan)
    ensures
        match read {
            Ok(source) => {
                &&& plan matches ScriptPlan::Run { compilation }
                &&& compilation.source == source
                &&& compilation.mode == Mode::Exec
                &&& compilation.source_path matches Some(path)
                &&& path@ == script_file@
            },
            Err(cause) => {
                &&& plan matches ScriptPlan::Abort { status, message }
                &&& status == SCRIPT_FAILURE_STATUS
                &&& status != 0
                &&& message@ == script_failure_text(cause@)
            },
        },
{
    match read {
        Ok(source) => ScriptPlan::Run { compilation: run_string(source, Some(String::from_str(script_file))) },
        Err(cause) => {
            let mut message = String::from_str("Parsing went horribly wrong: ");
            message.append(cause.as_str());
            ScriptPlan::Abort { status: SCRIPT_FAILURE_STATUS, message }
        },
    }
}

/// The report to print for how a run ended: that of the exception, if one
/// escaped; nothing otherwise.
pub fn handle_exception<T>(result: &Result<T, Exception>) -> (report: Option<String>)
    ensures
        match *result {
            Ok(_) => report is None,
            Err(e) => {
                &&& report matches Some(text)
                &&& text@ == report_text(e@)
            },
        },
{
    match result {
        Ok(_value) => None,
        Err(err) => Some(err.report()),
    }
}

} // verus!

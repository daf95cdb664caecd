//! The interactive shell: which line to read next, when to attempt what has
//! been entered, and when to stop.
//!
//! The shell itself reads lines and runs code; what it decides is here. A
//! driver asks the shell what is due, does it, and reports back: the line
//! it read, or how the attempt went.

use vstd::prelude::*;
use vstd::string::StrSliceExecFns;
use crate::exceptions::Exception;

verus! {

/// Where the shell stands.
#[derive(Clone, Copy, PartialEq, Eq, Structural, Debug)]
pub enum ShellState {
    /// Nothing has been entered: the next line begins an input.
    Fresh,
    /// The input so far is incomplete: further lines are collected until a
    /// blank one.
    Collecting,
    /// The input is ready to be compiled and executed.
    Ready,
    /// The input has ended.
    Closed,
}

/// What the driver is to do next.
#[derive(Clone, Copy, PartialEq, Eq, Structural, Debug)]
pub enum ShellAction {
    /// Print the prompt and read a line.
    ReadLine,
    /// Compile the buffer as one interactive statement and execute it.
    Attempt,
    /// Leave the shell.
    Exit,
}

/// How an attempt went.
#[derive(Clone, Copy, PartialEq, Eq, Structural, Debug)]
pub enum Attempted {
    /// The input was executed, or its failure was reported.
    Complete,
    /// The input ended before the statement did.
    Incomplete,
}

/// What the driver reports to the shell.
#[derive(Clone, PartialEq, Eq, Debug)]
pub enum ShellEvent {
    /// A line was read; it is given as read, line ending included.
    Line(String),
    /// The input has ended: reading yielded nothing.
    EndOfInput,
    /// The buffer was attempted.
    Attempted(Attempted),
}

/// The mathematical content of a [`ShellEvent`].
pub enum EventView {
    Line(Seq<char>),
    EndOfInput,
    Attempted(Attempted),
}

impl View for ShellEvent {
    type V = EventView;

    open spec fn view(&self) -> EventView {
        match *self {
            ShellEvent::Line(line) => EventView::Line(line@),
            ShellEvent::EndOfInput => EventView::EndOfInput,
            ShellEvent::Attempted(how) => EventView::Attempted(how),
        }
    }
}

/// The shell: its state and the input entered so far.
#[derive(Clone, PartialEq, Eq, Debug)]
pub struct Shell {
    pub state: ShellState,
    pub buffer: String,
}

/// The mathematical content of a [`Shell`].
pub struct ShellView {
    pub state: ShellState,
    pub buffer: Seq<char>,
}

impl View for Shell {
    type V = ShellView;

    open spec fn view(&self) -> ShellView {
        ShellView { state: self.state, buffer: self.buffer@ }
    }
}

/// The message with which the front end rejects input that ends before the
/// statement does.
pub open spec fn incomplete_message() -> Seq<char> {
    "Unexpected end of input."@
}

/// A line without the carriage returns and line feeds at its end.
pub open spec fn strip_line_end(line: Seq<char>) -> Seq<char>
    decreases line.len(),
{
    if line.len() > 0 && (line.last() == '\r' || line.last() == '\n') {
        strip_line_end(line.drop_last())
    } else {
        line
    }
}

/// What is due in a state.
pub open spec fn due(state: ShellState) -> ShellAction {
    match state {
        ShellState::Fresh => ShellAction::ReadLine,
        ShellState::Collecting => ShellAction::ReadLine,
        ShellState::Ready => ShellAction::Attempt,
        ShellState::Closed => ShellAction::Exit,
    }
}

/// The prompt of a state in which a line is read.
pub open spec fn prompt_text(state: ShellState) -> Seq<char> {
    match state {
        ShellState::Fresh => ">>>>> "@,
        ShellState::Collecting => "..... "@,
        _ => ""@,
    }
}

/// The shell after an event.
///
/// A first line makes the input, which is then ready. While lines are
/// collected, a line that is blank once its line ending is stripped makes
/// the input ready, and any other line is added to the input, stripped and
/// followed by a line feed. The end of the input closes the shell. An
/// attempt that found the input incomplete makes the shell collect further
/// lines; any other attempt discards the input. An event that is not
/// awaited changes nothing.
pub open spec fn next(shell: ShellView, event: EventView) -> ShellView {
    match (shell.state, event) {
        (ShellState::Fresh, EventView::Line(line)) => ShellView {
            state: ShellState::Ready,
            buffer: shell.buffer + line,
        },
        (ShellState::Fresh, EventView::EndOfInput) => ShellView { state: ShellState::Closed, buffer: shell.buffer },
        (ShellState::Collecting, EventView::Line(line)) => if strip_line_end(line).len() == 0 {
            ShellView { state: ShellState::Ready, buffer: shell.buffer }
        } else {
            ShellView { state: ShellState::Collecting, buffer: shell.buffer + strip_line_end(line) + "\n"@ }
        },
        (ShellState::Collecting, EventView::EndOfInput) => ShellView {
            state: ShellState::Closed,
            buffer: shell.buffer,
        },
        (ShellState::Ready, EventView::Attempted(Attempted::Incomplete)) => ShellView {
            state: ShellState::Collecting,
            buffer: shell.buffer,
        },
        (ShellState::Ready, EventView::Attempted(Attempted::Complete)) => ShellView {
            state: ShellState::Fresh,
            buffer: Seq::empty(),
        },
        _ => shell,
    }
}

/// The invariant of a shell: before the first line of an input, nothing is
/// buffered.
pub open spec fn shell_wf(shell: ShellView) -> bool {
    shell.state == ShellState::Fresh ==> shell.buffer.len() == 0
}

/// Every event leaves the shell well formed.
pub proof fn lemma_next_wf(shell: ShellView, event: EventView)
    requires
        shell_wf(shell),
    ensures
        shell_wf(next(shell, event)),
{
}

/// An input that is incomplete after its first line is attempted again,
/// whole, once further lines and a blank line have been entered: the first
/// line as read, then each further line without its line ending and
/// followed by a line feed.
pub proof fn lemma_continuation(first: Seq<char>, more: Seq<char>, blank: Seq<char>)
    requires
        strip_line_end(more).len() > 0,
        strip_line_end(blank).len() == 0,
    ensures
        ({
            let fresh = ShellView { state: ShellState::Fresh, buffer: Seq::empty() };
            let entered = next(fresh, EventView::Line(first));
            let incomplete = next(entered, EventView::Attempted(Attempted::Incomplete));
            let collected = next(incomplete, EventView::Line(more));
            let ready = next(collected, EventView::Line(blank));
            &&& entered.state == ShellState::Ready
            &&& incomplete.state == ShellState::Collecting
            &&& collected.state == ShellState::Collecting
            &&& ready.state == ShellState::Ready
            &&& ready.buffer == first + strip_line_end(more) + "\n"@
        }),
{
}

/// A line without the carriage returns and line feeds at its end.
pub fn strip(line: &str) -> (stripped: String)
    ensures
        stripped@ == strip_line_end(line@),
{
    let mut end: usize = line.unicode_len();
    let mut scanning = true;
    assert(line@.take(end as int) =~= line@);
    while scanning && end > 0
        invariant
            end <= line@.len(),
            strip_line_end(line@) == strip_line_end(line@.take(end as int)),
            !scanning ==> end > 0 && line@[end - 1] != '\r' && line@[end - 1] != '\n',
        decreases end + (if scanning { 1int } else { 0int }),
    {
        let c = line.get_char(end - 1);
        if c == '\r' || c == '\n' {
            proof {
                assert(line@.take(end as int).drop_last() =~= line@.take(end - 1));
            }
            end = end - 1;
        } else {
            scanning = false;
        }
    }
    String::from_str(line.substring_char(0, end))
}

/// Whether an attempt was complete, given the failure of its compilation if
/// it failed: it was not exactly when the front end found that the input
/// ended before the statement did.
pub fn shell_exec(failure: &Option<Exception>) -> (complete: bool)
    ensures
        complete == !(failure matches Some(e) && e.message@ == incomplete_message()),
{
    match failure {
        Some(e) => {
            let incomplete = String::from_str("Unexpected end of input.");
            !(e.message == incomplete)
        },
        None => true,
    }
}

/// How an attempt went, given the failure of its compilation if it failed.
pub fn attempted(failure: &Option<Exception>) -> (how: Attempted)
    ensures
        how == (if failure matches Some(e) && e.message@ == incomplete_message() {
            Attempted::Incomplete
        } else {
            Attempted::Complete
        }),
{
    if shell_exec(failure) {
        Attempted::Complete
    } else {
        Attempted::Incomplete
    }
}

impl Shell {
    /// A shell in which nothing has been entered.
    pub fn new() -> (shell: Shell)
        ensures
            shell@ == (ShellView { state: ShellState::Fresh, buffer: Seq::empty() }),
            shell_wf(shell@),
    {
        Shell { state: ShellState::Fresh, buffer: String::new() }
    }

    /// What the driver is to do next.
    pub fn action(&self) -> (action: ShellAction)
        ensures
            action == due(self.state),
    {
        match self.state {
            ShellState::Fresh => ShellAction::ReadLine,
            ShellState::Collecting => ShellAction::ReadLine,
            ShellState::Ready => ShellAction::Attempt,
            ShellState::Closed => ShellAction::Exit,
        }
    }

    /// The prompt to print before the next line is read.
    pub fn prompt(&self) -> (text: &'static str)
        ensures
            text@ == prompt_text(self.state),
    {
        match self.state {
            ShellState::Fresh => ">>>>> ",
            ShellState::Collecting => "..... ",
            _ => "",
        }
    }

    /// Takes an event in and tells what is due after it.
    pub fn step(&mut self, event: ShellEvent) -> (action: ShellAction)
        requires
            shell_wf(old(self)@),
        ensures
            final(self)@ == next(old(self)@, event@),
            shell_wf(final(self)@),
            action == due(final(self).state),
    {
        match event {
            ShellEvent::Line(line) => {
                match self.state {
                    ShellState::Fresh => {
                        self.buffer.append(line.as_str());
                        self.state = ShellState::Ready;
                    },
                    ShellState::Collecting => {
                        let stripped = strip(line.as_str());
                        if stripped.as_str().is_empty() {
                            self.state = ShellState::Ready;
                        } else {
                            self.buffer.append(stripped.as_str());
                            self.buffer.append("\n");
                        }
                    },
                    _ => {},
                }
            },
            ShellEvent::EndOfInput => {
                match self.state {
                    ShellState::Fresh => {
                        self.state = ShellState::Closed;
                    },
                    ShellState::Collecting => {
                        self.state = ShellState::Closed;
                    },
                    _ => {},
                }
            },
            ShellEvent::Attempted(how) => {
                match self.state {
                    ShellState::Ready => {
                        match how {
                            Attempted::Incomplete => {
                                self.state = ShellState::Collecting;
                            },
                            Attempted::Complete => {
                                self.buffer = String::new();
                                self.state = ShellState::Fresh;
                            },
                        }
                    },
                    _ => {},
                }
            },
        }
        self.action()
    }
}

} // verus!

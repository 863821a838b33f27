//! The client: what it sends for each input of the user, and how it reads
//! the reply, one line at a time, until the reply is complete.

use crate::protocol::ADDRESS;
use crate::text::{eq_text, lowercase_of, starts_with, to_lowercase, trim, trim_text};
use vstd::prelude::*;
use vstd::string::*;

verus! {

/// How long the client waits for a line of the reply, in seconds.
pub const READ_TIMEOUT_SECS: u64 = 3;

/// What the client does with one input of the user.
#[derive(Debug, PartialEq, Eq)]
pub enum Plan {
    /// Say goodbye and stop.
    Quit,
    /// Open a connection and send this request line.
    Ask(String),
}

/// The mathematical value of a [`Plan`].
pub enum PlanView {
    Quit,
    Ask(Seq<char>),
}

impl View for Plan {
    type V = PlanView;

    open spec fn view(&self) -> PlanView {
        match self {
            Plan::Quit => PlanView::Quit,
            Plan::Ask(request) => PlanView::Ask(request@),
        }
    }
}

/// The request line for `word`: a `DEFINE` over every database, ended by
/// CR LF.
pub open spec fn request_line(word: Seq<char>) -> Seq<char> {
    "DEFINE * "@ + word + "\r\n"@
}

/// The plan for the word `word`, given its lowercase form `lowered`.
pub open spec fn plan_for(word: Seq<char>, lowered: Seq<char>) -> PlanView {
    if lowered == "!exit"@ {
        PlanView::Quit
    } else {
        PlanView::Ask(request_line(word))
    }
}

/// The plan for a line of user input: the input is trimmed; `!exit` in any
/// case ends the session, and every other word is asked for as it stands.
pub open spec fn plan(input: Seq<char>) -> PlanView {
    plan_for(trim(input), lowercase_of(trim(input)))
}

/// How far the reading of one reply has come.
#[derive(Clone, Copy, Debug, PartialEq, Eq, Structural)]
pub enum Phase {
    /// No line of the reply has been read yet.
    First,
    /// At least one line has been read, and more are expected.
    Rest,
    /// The reply is complete or was given up.
    Done,
}

/// The outcome of one attempt to read a line of the reply.
#[derive(Debug, PartialEq, Eq)]
pub enum Reading {
    /// A line, given as it came.
    Line(String),
    /// The server closed the stream.
    Eof,
    /// No line came within the time allowed.
    TimedOut,
    /// The read failed otherwise.
    Failed,
}

/// The mathematical value of a [`Reading`].
pub enum ReadingView {
    Line(Seq<char>),
    Eof,
    TimedOut,
    Failed,
}

impl View for Reading {
    type V = ReadingView;

    open spec fn view(&self) -> ReadingView {
        match self {
            Reading::Line(line) => ReadingView::Line(line@),
            Reading::Eof => ReadingView::Eof,
            Reading::TimedOut => ReadingView::TimedOut,
            Reading::Failed => ReadingView::Failed,
        }
    }
}

/// What the user is told after one attempt to read.
#[derive(Debug, PartialEq, Eq)]
pub enum Report {
    /// Nothing.
    Nothing,
    /// A line of the reply, to be shown as it came.
    Line(String),
    /// That the server sent no response at all.
    NoResponse,
    /// That the server took too long.
    Timeout,
    /// That the read failed.
    ReadError,
}

/// The mathematical value of a [`Report`].
pub enum ReportView {
    Nothing,
    Line(Seq<char>),
    NoResponse,
    Timeout,
    ReadError,
}

impl View for Report {
    type V = ReportView;

    open spec fn view(&self) -> ReportView {
        match self {
            Report::Nothing => ReportView::Nothing,
            Report::Line(line) => ReportView::Line(line@),
            Report::NoResponse => ReportView::NoResponse,
            Report::Timeout => ReportView::Timeout,
            Report::ReadError => ReportView::ReadError,
        }
    }
}

/// One move of the reader: what the user is told, and the phase after.
#[derive(Debug, PartialEq, Eq)]
pub struct Turn {
    pub phase: Phase,
    pub report: Report,
}

/// The mathematical value of a [`Turn`].
pub struct TurnView {
    pub phase: Phase,
    pub report: ReportView,
}

impl View for Turn {
    type V = TurnView;

    open spec fn view(&self) -> TurnView {
        TurnView { phase: self.phase, report: self.report@ }
    }
}

/// Whether `line` ends a reply: it begins with the status `250` or `552`.
pub open spec fn is_terminator(line: Seq<char>) -> bool {
    "250"@.is_prefix_of(line) || "552"@.is_prefix_of(line)
}

/// The move of the reader in `phase` on the outcome `read`.
///
/// Every line is shown. The first line never ends the reply; a later one
/// ends it if it is a terminator. A stream that ends before the first line
/// is reported as no response, one that ends later is not reported. A
/// timeout or a failure is reported and ends the reading. Once the reading is
/// done nothing more is shown.
pub open spec fn turn(phase: Phase, read: ReadingView) -> TurnView {
    match (phase, read) {
        (Phase::Done, _) => TurnView { phase: Phase::Done, report: ReportView::Nothing },
        (Phase::First, ReadingView::Line(line)) => TurnView {
            phase: Phase::Rest,
            report: ReportView::Line(line),
        },
        (Phase::Rest, ReadingView::Line(line)) => TurnView {
            phase: if is_terminator(line) {
                Phase::Done
            } else {
                Phase::Rest
            },
            report: ReportView::Line(line),
        },
        (Phase::First, ReadingView::Eof) => TurnView {
            phase: Phase::Done,
            report: ReportView::NoResponse,
        },
        (Phase::Rest, ReadingView::Eof) => TurnView { phase: Phase::Done, report: ReportView::Nothing },
        (_, ReadingView::TimedOut) => TurnView { phase: Phase::Done, report: ReportView::Timeout },
        (_, ReadingView::Failed) => TurnView { phase: Phase::Done, report: ReportView::ReadError },
    }
}

/// A client, which knows where its server is.
pub struct Instance {
    server_socket: String,
}

impl View for Instance {
    type V = Seq<char>;

    /// The address of the server.
    closed spec fn view(&self) -> Seq<char> {
        self.server_socket@
    }
}

impl Instance {
    /// A client of the server at [`ADDRESS`].
    pub fn new() -> (instance: Self)
        ensures
            instance@ == ADDRESS@,
    {
        Self { server_socket: String::from_str(ADDRESS) }
    }

    /// The address of the server.
    pub fn server_socket(&self) -> (address: &str)
        ensures
            address@ == self@,
    {
        self.server_socket.as_str()
    }

    /// The request line that asks for `word`.
    pub fn request(word: &str) -> (line: String)
        ensures
            line@ == request_line(word@),
    {
        let mut line = String::from_str("DEFINE * ");
        line.append(word);
        line.append("\r\n");
        line
    }

    /// Decides what to do with the word `word`, given its lowercase form
    /// `lowered`.
    pub fn decide(word: &str, lowered: &str) -> (plan: Plan)
        ensures
            plan@ == plan_for(word@, lowered@),
    {
        if eq_text(lowered, "!exit") {
            Plan::Quit
        } else {
            Plan::Ask(Self::request(word))
        }
    }

    /// Decides what to do with a line of user input.
    pub fn plan(input: &str) -> (plan: Plan)
        ensures
            plan@ == self::plan(input@),
    {
        let word = trim_text(input);
        let lowered = to_lowercase(word.as_str());
        Self::decide(word.as_str(), lowered.as_str())
    }

    /// Moves the reading of a reply on by one attempt to read a line.
    pub fn read_response(phase: Phase, read: Reading) -> (next: Turn)
        ensures
            next@ == turn(phase, read@),
    {
        match (phase, read) {
            (Phase::Done, _) => Turn { phase: Phase::Done, report: Report::Nothing },
            (Phase::First, Reading::Line(line)) => Turn { phase: Phase::Rest, report: Report::Line(line) },
            (Phase::Rest, Reading::Line(line)) => {
                let ends = starts_with(line.as_str(), "250") || starts_with(line.as_str(), "552");
                let phase = if ends {
                    Phase::Done
                } else {
                    Phase::Rest
                };
                Turn { phase, report: Report::Line(line) }
            },
            (Phase::First, Reading::Eof) => Turn { phase: Phase::Done, report: Report::NoResponse },
            (Phase::Rest, Reading::Eof) => Turn { phase: Phase::Done, report: Report::Nothing },
            (_, Reading::TimedOut) => Turn { phase: Phase::Done, report: Report::Timeout },
            (_, Reading::Failed) => Turn { phase: Phase::Done, report: Report::ReadError },
        }
    }
}

} // verus!

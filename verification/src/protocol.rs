//! The model of the server side of the protocol: the reply to each command
//! line and the state machine of one connection.

use crate::dataset::{
    entry_ending_in, first_match, lemma_entry_ends_in_crlf, lemma_first_match, lookup_ending_in,
    single_lines, LookupView,
};
use crate::text::{
    crlf_lines, holds_no_line_feed, lemma_crlf_lines_after_lines, lemma_crlf_lines_after_text,
    lemma_no_line_feed_in_both, lemma_words_hold_no_line_feed, trim, uppercase_of, words,
};
use vstd::prelude::*;

verus! {

/// Where the server listens and the client connects: the loopback host,
/// port 2628.
pub const ADDRESS: &'static str = "::1:2628";

/// What the server answers to one command line.
#[derive(Debug, PartialEq, Eq)]
pub struct Reply {
    /// The text to send, every line of it ending in CR LF.
    pub text: String,
    /// Whether the connection is closed once the text is sent.
    pub close: bool,
}

/// The mathematical value of a [`Reply`].
pub struct ReplyView {
    pub text: Seq<char>,
    pub close: bool,
}

impl View for Reply {
    type V = ReplyView;

    open spec fn view(&self) -> ReplyView {
        ReplyView { text: self.text@, close: self.close }
    }
}

/// The answer to a `DEFINE` command, given the words of its line: the third
/// word is looked up; fewer than three words are a syntax error. On a match
/// the answer is the status line that names the word, the lines of the
/// entry and the closing status line, each of them ending in CR LF.
pub open spec fn define_reply(tokens: Seq<Seq<char>>, rows: Seq<Seq<char>>) -> Seq<char> {
    if tokens.len() < 3 {
        "501 Syntax error in parameters\r\n"@
    } else {
        match lookup_ending_in(rows, tokens[2], "\r\n"@) {
            LookupView::Entry(body) => "150 Definitions found for \""@ + tokens[2] + "\"\r\n"@
                + body + "250 ok\r\n"@,
            LookupView::NotFound => "552 No match\r\n"@,
            LookupView::EmptyDataset => "552 No match\r\n"@,
        }
    }
}

/// The reply to a command line, given its uppercase form `upper` and its
/// words `tokens`.
pub open spec fn command_reply(
    upper: Seq<char>,
    tokens: Seq<Seq<char>>,
    rows: Seq<Seq<char>>,
) -> ReplyView {
    if upper == "QUIT"@ {
        ReplyView { text: "221 Bye\r\n"@, close: true }
    } else if "DEFINE"@.is_prefix_of(upper) {
        ReplyView { text: define_reply(tokens, rows), close: false }
    } else {
        ReplyView { text: "500 Unknown command\r\n"@, close: false }
    }
}

/// The reply to the command line `line` over the table `rows`.
pub open spec fn reply_to(line: Seq<char>, rows: Seq<Seq<char>>) -> ReplyView {
    command_reply(uppercase_of(line), words(line), rows)
}

/// The state of one connection.
#[derive(Clone, Copy, Debug, PartialEq, Eq, Structural)]
pub enum State {
    /// Accepted; the greeting has not been sent yet.
    Greeting,
    /// Waiting for the next command line.
    AwaitLine,
    /// Done: nothing more is read or written.
    Closed,
}

/// What happened on a connection.
#[derive(Debug, PartialEq, Eq)]
pub enum Event {
    /// The connection was accepted.
    Opened,
    /// A line was read, given as it came.
    Line(String),
    /// The peer closed the stream.
    Eof,
    /// A read or a write failed.
    Failed,
}

/// The mathematical value of an [`Event`].
pub enum EventView {
    Opened,
    Line(Seq<char>),
    Eof,
    Failed,
}

impl View for Event {
    type V = EventView;

    open spec fn view(&self) -> EventView {
        match self {
            Event::Opened => EventView::Opened,
            Event::Line(line) => EventView::Line(line@),
            Event::Eof => EventView::Eof,
            Event::Failed => EventView::Failed,
        }
    }
}

/// One move of a connection: the text to send, if any, and the state after.
#[derive(Debug, PartialEq, Eq)]
pub struct Step {
    pub state: State,
    pub output: Option<String>,
}

/// The mathematical value of a [`Step`].
pub struct StepView {
    pub state: State,
    pub output: Option<Seq<char>>,
}

impl View for Step {
    type V = StepView;

    open spec fn view(&self) -> StepView {
        StepView {
            state: self.state,
            output: match self.output {
                Some(text) => Some(text@),
                None => None,
            },
        }
    }
}

/// The move that ends a connection without a further write.
pub open spec fn close_silently() -> StepView {
    StepView { state: State::Closed, output: None }
}

/// The move of a connection in `state` on `event`.
///
/// A fresh connection is greeted. A line that arrives while the connection
/// waits for one is trimmed and answered, and the connection goes on waiting
/// unless the reply closes it. The end of the stream, a failure, or an event
/// that the state does not expect closes the connection silently.
pub open spec fn step(state: State, event: EventView, rows: Seq<Seq<char>>) -> StepView {
    match (state, event) {
        (State::Greeting, EventView::Opened) => StepView {
            state: State::AwaitLine,
            output: Some("220 DICT server ready\r\n"@),
        },
        (State::AwaitLine, EventView::Line(line)) => {
            let reply = reply_to(trim(line), rows);
            StepView {
                state: if reply.close {
                    State::Closed
                } else {
                    State::AwaitLine
                },
                output: Some(reply.text),
            }
        },
        _ => close_silently(),
    }
}

/// The state of a connection after the given events, from its start.
pub open spec fn state_after(events: Seq<EventView>, rows: Seq<Seq<char>>) -> State
    decreases events.len(),
{
    if events.len() == 0 {
        State::Greeting
    } else {
        step(state_after(events.drop_last(), rows), events.last(), rows).state
    }
}

/// Only `QUIT` closes: a reply ends the connection exactly when the
/// uppercase form of its line is `QUIT`.
pub proof fn lemma_only_quit_closes(line: Seq<char>, rows: Seq<Seq<char>>)
    ensures
        reply_to(line, rows).close <==> uppercase_of(line) == "QUIT"@,
{
}

/// A closed connection stays closed and sends nothing, whatever happens.
pub proof fn lemma_closed_is_final(event: EventView, rows: Seq<Seq<char>>)
    ensures
        step(State::Closed, event, rows) == close_silently(),
{
}

/// The reply to a request does not depend on the connection it arrives on:
/// two connections that both wait for a line, whatever each has seen before,
/// answer the same line with the same text and end in the same state.
pub proof fn lemma_same_request_same_reply(
    before_a: Seq<EventView>,
    before_b: Seq<EventView>,
    line: Seq<char>,
    rows: Seq<Seq<char>>,
)
    requires
        state_after(before_a, rows) == State::AwaitLine,
        state_after(before_b, rows) == State::AwaitLine,
    ensures
        step(state_after(before_a, rows), EventView::Line(line), rows) == step(
            state_after(before_b, rows),
            EventView::Line(line),
            rows,
        ),
        step(state_after(before_a, rows), EventView::Line(line), rows).output == Some(
            reply_to(trim(line), rows).text,
        ),
{
}

/// Each status line that stands alone is one line that ends in CR LF.
pub proof fn lemma_status_lines_end_in_crlf()
    ensures
        crlf_lines("220 DICT server ready\r\n"@),
        crlf_lines("221 Bye\r\n"@),
        crlf_lines("250 ok\r\n"@),
        crlf_lines("500 Unknown command\r\n"@),
        crlf_lines("501 Syntax error in parameters\r\n"@),
        crlf_lines("552 No match\r\n"@),
{
    reveal_strlit("220 DICT server ready\r\n");
    reveal_strlit("221 Bye\r\n");
    reveal_strlit("250 ok\r\n");
    reveal_strlit("500 Unknown command\r\n");
    reveal_strlit("501 Syntax error in parameters\r\n");
    reveal_strlit("552 No match\r\n");
}

/// The answer to a `DEFINE` command is lines that each end in CR LF, if
/// neither the words of the command nor the records of the table hold a
/// line feed.
pub proof fn lemma_define_reply_ends_in_crlf(tokens: Seq<Seq<char>>, rows: Seq<Seq<char>>)
    requires
        single_lines(tokens),
        single_lines(rows),
    ensures
        crlf_lines(define_reply(tokens, rows)),
{
    lemma_status_lines_end_in_crlf();
    if tokens.len() >= 3 && rows.len() > 0 {
        let word = tokens[2];
        lemma_first_match(rows, word, 1);
        if let Some(i) = first_match(rows, word, 1) {
            let opening = "150 Definitions found for \""@;
            let named = "\"\r\n"@;
            let body = entry_ending_in(rows, i, "\r\n"@);
            reveal_strlit("150 Definitions found for \"");
            reveal_strlit("\"\r\n");
            lemma_entry_ends_in_crlf(rows, i);
            assert(holds_no_line_feed(opening));
            assert(crlf_lines(named));
            lemma_no_line_feed_in_both(opening, word);
            lemma_crlf_lines_after_text(opening + word, named);
            lemma_crlf_lines_after_lines(opening + word + named, body);
            lemma_crlf_lines_after_lines(opening + word + named + body, "250 ok\r\n"@);
        }
    }
}

/// The reply to a command, given its uppercase form and its words, is lines
/// that each end in CR LF, if neither the words nor the records of the table
/// hold a line feed.
pub proof fn lemma_command_reply_ends_in_crlf(
    upper: Seq<char>,
    tokens: Seq<Seq<char>>,
    rows: Seq<Seq<char>>,
)
    requires
        single_lines(tokens),
        single_lines(rows),
    ensures
        crlf_lines(command_reply(upper, tokens, rows).text),
{
    lemma_status_lines_end_in_crlf();
    lemma_define_reply_ends_in_crlf(tokens, rows);
}

/// Every reply is lines that each end in CR LF: it is not empty, it ends in
/// CR LF, and every line feed in it stands directly behind a carriage
/// return, if no record of the table holds a line feed.
pub proof fn lemma_reply_ends_in_crlf(line: Seq<char>, rows: Seq<Seq<char>>)
    requires
        single_lines(rows),
    ensures
        crlf_lines(reply_to(line, rows).text),
{
    lemma_words_hold_no_line_feed(line);
    lemma_command_reply_ends_in_crlf(uppercase_of(line), words(line), rows);
}

/// Whatever a connection sends is lines that each end in CR LF, if no record
/// of the table holds a line feed.
pub proof fn lemma_output_ends_in_crlf(state: State, event: EventView, rows: Seq<Seq<char>>)
    requires
        single_lines(rows),
    ensures
        step(state, event, rows).output matches Some(text) ==> crlf_lines(text),
{
    lemma_status_lines_end_in_crlf();
    if let EventView::Line(line) = event {
        lemma_reply_ends_in_crlf(trim(line), rows);
    }
}

} // verus!

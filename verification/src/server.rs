//! The server: the dataset store, the command processor and the handler of
//! one connection, each as a function from plain values to plain values.

use crate::dataset::{
    body_ending_in, checked, entry_body, field_or_empty, fields, first_match,
    lemma_checked_single_lines, line_ending_in, lookup, lookup_ending_in, single_lines, uniform,
    Lookup,
};
use crate::protocol::{
    command_reply, define_reply, lemma_command_reply_ends_in_crlf,
    lemma_define_reply_ends_in_crlf, lemma_output_ends_in_crlf, reply_to, step, Event, Reply,
    State, Step,
};
use crate::text::{
    crlf_lines, eq_ignoring_ascii_case, eq_text, lemma_split_nonempty,
    lemma_words_hold_no_line_feed, lines, split_lines, split_text, split_words, starts_with,
    texts, to_uppercase, trim, trim_text, words, Delimiter,
};
use vstd::prelude::*;
use vstd::string::*;

verus! {

/// Whether the server is asked for: one of the arguments is `-s`.
pub fn is_required(args: &Vec<String>) -> (required: bool)
    ensures
        required == texts(args@).contains("-s"@),
{
    let mut i: usize = 0;
    while i < args.len()
        invariant
            i <= args.len(),
            forall|j: int| 0 <= j < i ==> texts(args@)[j] != "-s"@,
        decreases args.len() - i,
    {
        if eq_text(args[i].as_str(), "-s") {
            assert(texts(args@)[i as int] == "-s"@);
            return true;
        }
        i += 1;
    }
    false
}

/// A server with its table, which never changes once built.
pub struct Instance {
    dataset: Vec<String>,
}

impl View for Instance {
    type V = Seq<Seq<char>>;

    /// The records of the table, the header first.
    closed spec fn view(&self) -> Seq<Seq<char>> {
        texts(self.dataset@)
    }
}

impl Instance {
    #[verifier::type_invariant]
    spec fn well_formed(&self) -> bool {
        uniform(texts(self.dataset@)) && single_lines(texts(self.dataset@))
    }

    /// Builds the server from the raw text of its dataset.
    pub fn new(raw_data: String) -> (instance: Self)
        ensures
            instance@ == checked(raw_data@),
    {
        let vec_data = Self::check(raw_data);
        Self { dataset: vec_data }
    }

    /// The records of the table: every one has as many fields as the first,
    /// and none holds a line feed.
    pub fn dataset(&self) -> (rows: &Vec<String>)
        ensures
            texts(rows@) == self@,
            uniform(self@),
            single_lines(self@),
    {
        proof {
            use_type_invariant(self);
        }
        &self.dataset
    }

    /// Validates a raw text: its lines, if every line has as many fields as
    /// the first one, and nothing at all otherwise.
    pub fn check(input_str: String) -> (rows: Vec<String>)
        ensures
            texts(rows@) == checked(input_str@),
            uniform(texts(rows@)),
            single_lines(texts(rows@)),
    {
        proof {
            lemma_checked_single_lines(input_str@);
        }
        let rows = split_lines(input_str.as_str());
        if rows.len() == 0 {
            return rows;
        }
        let comma = Delimiter::Char(',');
        let header_count: usize = split_text(rows[0].as_str(), &comma).len();
        let mut i: usize = 1;
        while i < rows.len()
            invariant
                comma == Delimiter::Char(','),
                texts(rows@) == lines(input_str@),
                1 <= i <= rows.len(),
                header_count == fields(lines(input_str@)[0]).len(),
                forall|j: int|
                    0 <= j < i ==> fields(#[trigger] lines(input_str@)[j]).len() == header_count,
            decreases rows.len() - i,
        {
            let count: usize = split_text(rows[i].as_str(), &comma).len();
            if count != header_count {
                proof {
                    assert(fields(lines(input_str@)[i as int]).len() != header_count);
                }
                let nothing: Vec<String> = Vec::new();
                return nothing;
            }
            i += 1;
        }
        rows
    }

    /// Formats a record: for each column of the header a line with the
    /// trimmed name and the trimmed value, a missing value counting as empty,
    /// every line closed by a line feed.
    pub fn format_entry(names: &Vec<String>, values: &Vec<String>) -> (body: String)
        ensures
            body@ == entry_body(texts(names@), texts(values@), names.len() as nat),
    {
        Self::format_entry_ending_in(names, values, "\n")
    }

    /// Formats a record as [`Instance::format_entry`] does, every line closed
    /// by `end`.
    pub fn format_entry_ending_in(
        names: &Vec<String>,
        values: &Vec<String>,
        end: &str,
    ) -> (body: String)
        ensures
            body@ == body_ending_in(texts(names@), texts(values@), names.len() as nat, end@),
    {
        let mut body = String::new();
        let mut i: usize = 0;
        while i < names.len()
            invariant
                i <= names.len(),
                body@ == body_ending_in(texts(names@), texts(values@), i as nat, end@),
            decreases names.len() - i,
        {
            let name = trim_text(names[i].as_str());
            let value = if i < values.len() {
                trim_text(values[i].as_str())
            } else {
                String::new()
            };
            let ghost before = body@;
            body.append(name.as_str());
            body.append(" : ");
            body.append(value.as_str());
            body.append(end);
            proof {
                assert(body@ == before + line_ending_in(
                    texts(names@)[i as int],
                    field_or_empty(texts(values@), i as int),
                    end@,
                ));
            }
            i += 1;
        }
        body
    }

    /// Looks `word` up in the table `dict`; the lines of the entry found are
    /// closed by a line feed.
    pub fn get(word: &str, dict: &Vec<String>) -> (found: Lookup)
        ensures
            found@ == lookup(texts(dict@), word@),
    {
        Self::get_ending_in(word, dict, "\n")
    }

    /// Looks `word` up in the table `dict` as [`Instance::get`] does; the
    /// lines of the entry found are closed by `end`.
    pub fn get_ending_in(word: &str, dict: &Vec<String>, end: &str) -> (found: Lookup)
        ensures
            found@ == lookup_ending_in(texts(dict@), word@, end@),
    {
        if dict.len() == 0 {
            return Lookup::EmptyDataset;
        }
        let comma = Delimiter::Char(',');
        let names = split_text(dict[0].as_str(), &comma);
        let mut i: usize = 1;
        while i < dict.len()
            invariant
                comma == Delimiter::Char(','),
                1 <= i <= dict.len(),
                texts(names@) == fields(texts(dict@)[0]),
                first_match(texts(dict@), word@, 1) == first_match(texts(dict@), word@, i as int),
            decreases dict.len() - i,
        {
            let values = split_text(dict[i].as_str(), &comma);
            proof {
                lemma_split_nonempty(dict[i as int]@, comma);
            }
            if eq_ignoring_ascii_case(values[0].as_str(), word) {
                let body = Self::format_entry_ending_in(&names, &values, end);
                return Lookup::Entry(body);
            }
            i += 1;
        }
        Lookup::NotFound
    }

    /// Answers a `DEFINE` command, given the words of its line.
    pub fn define(tokens: &Vec<String>, dataset: &Vec<String>) -> (text: String)
        ensures
            text@ == define_reply(texts(tokens@), texts(dataset@)),
            single_lines(texts(tokens@)) && single_lines(texts(dataset@)) ==> crlf_lines(text@),
    {
        proof {
            if single_lines(texts(tokens@)) && single_lines(texts(dataset@)) {
                lemma_define_reply_ends_in_crlf(texts(tokens@), texts(dataset@));
            }
        }
        if tokens.len() >= 3 {
            let word = tokens[2].as_str();
            match Self::get_ending_in(word, dataset, "\r\n") {
                Lookup::Entry(body) => {
                    let mut text = String::from_str("150 Definitions found for \"");
                    text.append(word);
                    text.append("\"\r\n");
                    text.append(body.as_str());
                    text.append("250 ok\r\n");
                    text
                },
                Lookup::NotFound => String::from_str("552 No match\r\n"),
                Lookup::EmptyDataset => String::from_str("552 No match\r\n"),
            }
        } else {
            String::from_str("501 Syntax error in parameters\r\n")
        }
    }

    /// Answers a `DEFINE` line: its third word is looked up.
    pub fn process_define(line: &str, dataset: &Vec<String>) -> (text: String)
        ensures
            text@ == define_reply(words(line@), texts(dataset@)),
            single_lines(texts(dataset@)) ==> crlf_lines(text@),
    {
        proof {
            lemma_words_hold_no_line_feed(line@);
        }
        let parts = split_words(line);
        Self::define(&parts, dataset)
    }

    /// Answers the command line `line`, given its uppercase form `upper`.
    pub fn dispatch(line: &str, upper: &str, dataset: &Vec<String>) -> (reply: Reply)
        ensures
            reply@ == command_reply(upper@, words(line@), texts(dataset@)),
            single_lines(texts(dataset@)) ==> crlf_lines(reply.text@),
    {
        proof {
            lemma_words_hold_no_line_feed(line@);
            if single_lines(texts(dataset@)) {
                lemma_command_reply_ends_in_crlf(upper@, words(line@), texts(dataset@));
            }
        }
        if eq_text(upper, "QUIT") {
            Reply { text: String::from_str("221 Bye\r\n"), close: true }
        } else if starts_with(upper, "DEFINE") {
            Reply { text: Self::process_define(line, dataset), close: false }
        } else {
            Reply { text: String::from_str("500 Unknown command\r\n"), close: false }
        }
    }

    /// Answers one command line. A command is recognised whatever its case.
    pub fn handle_command(line: &str, dataset: &Vec<String>) -> (reply: Reply)
        ensures
            reply@ == reply_to(line@, texts(dataset@)),
            single_lines(texts(dataset@)) ==> crlf_lines(reply.text@),
    {
        let upper = to_uppercase(line);
        Self::dispatch(line, upper.as_str(), dataset)
    }

    /// Moves a connection on by one event: decides what is sent and in which
    /// state the connection is afterwards.
    pub fn handle_client(state: State, event: &Event, dataset: &Vec<String>) -> (next: Step)
        ensures
            next@ == step(state, event@, texts(dataset@)),
            single_lines(texts(dataset@)) ==> (next@.output matches Some(text)
                ==> crlf_lines(text)),
    {
        proof {
            if single_lines(texts(dataset@)) {
                lemma_output_ends_in_crlf(state, event@, texts(dataset@));
            }
        }
        match (state, event) {
            (State::Greeting, Event::Opened) => Step {
                state: State::AwaitLine,
                output: Some(String::from_str("220 DICT server ready\r\n")),
            },
            (State::AwaitLine, Event::Line(line)) => {
                let trimmed = trim_text(line.as_str());
                let reply = Self::handle_command(trimmed.as_str(), dataset);
                let state = if reply.close {
                    State::Closed
                } else {
                    State::AwaitLine
                };
                Step { state, output: Some(reply.text) }
            },
            _ => Step { state: State::Closed, output: None },
        }
    }
}

} // verus!

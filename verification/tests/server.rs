use lexicon::protocol::{Event, Reply, State, Step};
use lexicon::server::{is_required, Instance};

fn owned(parts: &[&str]) -> Vec<String> {
    parts.iter().map(|p| p.to_string()).collect()
}

fn furniture() -> Vec<String> {
    Instance::check("english,french\nchair,chaise\n".to_string())
}

fn reply(text: &str, close: bool) -> Reply {
    Reply { text: text.to_string(), close }
}

fn reply_lines(text: &str) -> Vec<String> {
    text.lines().map(|l| l.to_string()).collect()
}

#[test]
fn server_is_required_by_the_flag() {
    assert!(is_required(&owned(&["lexicon", "-s"])));
    assert!(is_required(&owned(&["-s"])));
    assert!(is_required(&owned(&["lexicon", "-v", "-s", "x"])));
}

#[test]
fn server_is_not_required_without_the_flag() {
    assert!(!is_required(&owned(&[])));
    assert!(!is_required(&owned(&["lexicon"])));
    assert!(!is_required(&owned(&["lexicon", "-S"])));
    assert!(!is_required(&owned(&["lexicon", "-s "])));
    assert!(!is_required(&owned(&["lexicon", "--s", "s"])));
}

#[test]
fn define_of_a_known_word() {
    let answer = Instance::handle_command("DEFINE * chair", &furniture());
    assert!(!answer.close);
    assert_eq!(
        reply_lines(&answer.text),
        owned(&["150 Definitions found for \"chair\"", "english : chair", "french : chaise", "250 ok"])
    );
    assert_eq!(
        answer.text,
        "150 Definitions found for \"chair\"\r\nenglish : chair\r\nfrench : chaise\r\n250 ok\r\n"
    );
}

#[test]
fn define_keeps_the_case_of_the_word() {
    let answer = Instance::handle_command("define * ChAiR", &furniture());
    assert_eq!(
        answer.text,
        "150 Definitions found for \"ChAiR\"\r\nenglish : chair\r\nfrench : chaise\r\n250 ok\r\n"
    );
}

#[test]
fn define_of_an_unknown_word() {
    assert_eq!(Instance::handle_command("DEFINE * table", &furniture()), reply("552 No match\r\n", false));
}

#[test]
fn define_over_an_empty_dataset() {
    assert_eq!(Instance::handle_command("DEFINE * chair", &owned(&[])), reply("552 No match\r\n", false));
    let broken = Instance::new("english,french\nchair\n".to_string());
    assert_eq!(
        Instance::handle_command("DEFINE * chair", broken.dataset()),
        reply("552 No match\r\n", false)
    );
}

#[test]
fn define_with_too_few_words() {
    let expected = reply("501 Syntax error in parameters\r\n", false);
    assert_eq!(Instance::handle_command("DEFINE chair", &furniture()), expected);
    assert_eq!(Instance::handle_command("DEFINE", &furniture()), expected);
    assert_eq!(Instance::handle_command("DEFINE *", &furniture()), expected);
    assert_eq!(Instance::handle_command("definechair", &furniture()), expected);
}

#[test]
fn define_ignores_what_follows_the_word() {
    assert_eq!(
        Instance::handle_command("DEFINE  fd-eng-fra   chair  now", &furniture()).text,
        "150 Definitions found for \"chair\"\r\nenglish : chair\r\nfrench : chaise\r\n250 ok\r\n"
    );
}

#[test]
fn unknown_command() {
    let expected = reply("500 Unknown command\r\n", false);
    assert_eq!(Instance::handle_command("HELLO", &furniture()), expected);
    assert_eq!(Instance::handle_command("", &furniture()), expected);
    assert_eq!(Instance::handle_command("QUIT now", &furniture()), expected);
    assert_eq!(Instance::handle_command(" DEFINE * chair", &furniture()), expected);
}

#[test]
fn quit_closes() {
    let expected = reply("221 Bye\r\n", true);
    assert_eq!(Instance::handle_command("QUIT", &furniture()), expected);
    assert_eq!(Instance::handle_command("quit", &furniture()), expected);
    assert_eq!(Instance::handle_command("QuIt", &owned(&[])), expected);
}

#[test]
fn commands_are_recognised_by_their_uppercase_form() {
    assert_eq!(Instance::handle_command("qu\u{131}t", &furniture()), reply("221 Bye\r\n", true));
    assert_eq!(
        Instance::handle_command("de\u{fb01}ne * table", &furniture()),
        reply("552 No match\r\n", false)
    );
}

#[test]
fn dispatch_goes_by_the_uppercase_form_it_is_given() {
    let table = furniture();
    assert_eq!(Instance::dispatch("anything", "QUIT", &table), reply("221 Bye\r\n", true));
    assert_eq!(Instance::dispatch("QUIT", "quit", &table), reply("500 Unknown command\r\n", false));
    assert_eq!(Instance::dispatch("x * table", "DEFINE * TABLE", &table), reply("552 No match\r\n", false));
    assert_eq!(
        Instance::dispatch("x", "DEFINED", &table),
        reply("501 Syntax error in parameters\r\n", false)
    );
    assert_eq!(Instance::dispatch("DEFINE * chair", "HELLO", &table), reply("500 Unknown command\r\n", false));
}

#[test]
fn process_define_looks_the_third_word_up() {
    let table = furniture();
    assert_eq!(Instance::process_define("DEFINE * table", &table), "552 No match\r\n");
    assert_eq!(Instance::process_define("a b", &table), "501 Syntax error in parameters\r\n");
    assert_eq!(
        Instance::process_define("a b CHAIR", &table),
        "150 Definitions found for \"CHAIR\"\r\nenglish : chair\r\nfrench : chaise\r\n250 ok\r\n"
    );
}

#[test]
fn define_takes_the_words_as_given() {
    let table = furniture();
    assert_eq!(Instance::define(&owned(&["DEFINE", "*"]), &table), "501 Syntax error in parameters\r\n");
    assert_eq!(Instance::define(&owned(&[]), &table), "501 Syntax error in parameters\r\n");
    assert_eq!(Instance::define(&owned(&["DEFINE", "*", "sofa"]), &table), "552 No match\r\n");
    assert_eq!(Instance::define(&owned(&["DEFINE", "*", "chair"]), &owned(&[])), "552 No match\r\n");
    assert_eq!(
        Instance::define(&owned(&["DEFINE", "*", "chair", "x"]), &table),
        "150 Definitions found for \"chair\"\r\nenglish : chair\r\nfrench : chaise\r\n250 ok\r\n"
    );
}

#[test]
fn same_input_same_reply() {
    let table = furniture();
    for line in ["DEFINE * chair", "DEFINE * table", "DEFINE chair", "HELLO", "QUIT", ""] {
        assert_eq!(Instance::handle_command(line, &table), Instance::handle_command(line, &table));
    }
}

#[test]
fn connection_is_greeted_first() {
    let next = Instance::handle_client(State::Greeting, &Event::Opened, &furniture());
    assert_eq!(
        next,
        Step { state: State::AwaitLine, output: Some("220 DICT server ready\r\n".to_string()) }
    );
}

#[test]
fn connection_answers_a_line_and_waits_on() {
    let table = furniture();
    let next = Instance::handle_client(State::AwaitLine, &Event::Line("DEFINE * table\r\n".to_string()), &table);
    assert_eq!(next, Step { state: State::AwaitLine, output: Some("552 No match\r\n".to_string()) });
    let next = Instance::handle_client(State::AwaitLine, &Event::Line("  HELLO \n".to_string()), &table);
    assert_eq!(next, Step { state: State::AwaitLine, output: Some("500 Unknown command\r\n".to_string()) });
    let next = Instance::handle_client(State::AwaitLine, &Event::Line("\r\n".to_string()), &table);
    assert_eq!(next, Step { state: State::AwaitLine, output: Some("500 Unknown command\r\n".to_string()) });
}

#[test]
fn connection_closes_after_quit() {
    let table = furniture();
    let next = Instance::handle_client(State::AwaitLine, &Event::Line("QUIT\r\n".to_string()), &table);
    assert_eq!(next, Step { state: State::Closed, output: Some("221 Bye\r\n".to_string()) });
    let after = Instance::handle_client(next.state, &Event::Line("DEFINE * chair\r\n".to_string()), &table);
    assert_eq!(after, Step { state: State::Closed, output: None });
}

#[test]
fn connection_closes_silently_on_end_or_failure() {
    let table = furniture();
    let silent = Step { state: State::Closed, output: None };
    assert_eq!(Instance::handle_client(State::AwaitLine, &Event::Eof, &table), silent);
    assert_eq!(Instance::handle_client(State::AwaitLine, &Event::Failed, &table), silent);
    assert_eq!(Instance::handle_client(State::Greeting, &Event::Failed, &table), silent);
    assert_eq!(Instance::handle_client(State::Greeting, &Event::Eof, &table), silent);
    assert_eq!(Instance::handle_client(State::Closed, &Event::Opened, &table), silent);
    assert_eq!(Instance::handle_client(State::Closed, &Event::Eof, &table), silent);
}

#[test]
fn connection_closes_on_an_event_out_of_turn() {
    let table = furniture();
    let silent = Step { state: State::Closed, output: None };
    assert_eq!(Instance::handle_client(State::Greeting, &Event::Line("QUIT".to_string()), &table), silent);
    assert_eq!(Instance::handle_client(State::AwaitLine, &Event::Opened, &table), silent);
}

fn converse(lines: &[&str], table: &Vec<String>) -> (Vec<String>, State) {
    let mut sent = Vec::new();
    let mut step = Instance::handle_client(State::Greeting, &Event::Opened, table);
    let mut at = 0;
    loop {
        if let Some(text) = step.output {
            sent.push(text);
        }
        if step.state == State::Closed {
            return (sent, State::Closed);
        }
        let event = if at < lines.len() { Event::Line(format!("{}\r\n", lines[at])) } else { Event::Eof };
        at += 1;
        step = Instance::handle_client(step.state, &event, table);
    }
}

#[test]
fn whole_session_with_a_definition() {
    let (sent, state) = converse(&["DEFINE * chair"], &furniture());
    assert_eq!(state, State::Closed);
    assert_eq!(
        sent,
        owned(&[
            "220 DICT server ready\r\n",
            "150 Definitions found for \"chair\"\r\nenglish : chair\r\nfrench : chaise\r\n250 ok\r\n",
        ])
    );
}

#[test]
fn whole_session_ends_at_quit() {
    let (sent, state) = converse(&["HELLO", "QUIT", "DEFINE * chair"], &furniture());
    assert_eq!(state, State::Closed);
    assert_eq!(sent, owned(&["220 DICT server ready\r\n", "500 Unknown command\r\n", "221 Bye\r\n"]));
}

#[test]
fn same_request_on_two_connections_gets_the_same_bytes() {
    let table = furniture();
    let (first, _) = converse(&["DEFINE * chair"], &table);
    let (second, _) = converse(&["DEFINE * chair"], &table);
    assert_eq!(first, second);
    let (later, _) = converse(&["HELLO", "DEFINE chair", "DEFINE * chair"], &table);
    assert_eq!(later[3], first[1]);
}

fn ends_every_line_in_crlf(text: &str) -> bool {
    let bytes = text.as_bytes();
    let framed = (0..bytes.len()).all(|i| bytes[i] != b'\n' || (i > 0 && bytes[i - 1] == b'\r'));
    framed && text.ends_with("\r\n")
}

#[test]
fn every_reply_line_ends_in_cr_lf() {
    let tables = [
        furniture(),
        Instance::check("a,b,c\n x , y ,z\n\tp,q,\n".to_string()),
        Instance::check("one\r\ntwo\r\nthree\r\n".to_string()),
        Instance::check("a,b\nx\n".to_string()),
        Instance::check(String::new()),
    ];
    let lines = [
        "DEFINE * chair",
        "define * CHAIR extra",
        "DEFINE * x",
        "DEFINE * p",
        "DEFINE * two",
        "DEFINE * table",
        "DEFINE chair",
        "DEFINE",
        "HELLO",
        "QUIT",
        "",
    ];
    for table in &tables {
        for line in lines {
            let reply = Instance::handle_command(line, table);
            assert!(ends_every_line_in_crlf(&reply.text), "{:?} gives {:?}", line, reply.text);
            assert_eq!(Instance::process_define(line, table).matches('\n').count(),
                Instance::process_define(line, table).matches("\r\n").count());
        }
    }
}

#[test]
fn whatever_a_connection_sends_ends_in_cr_lf() {
    let (sent, _) = converse(&["DEFINE * chair", "DEFINE * sofa", "DEFINE", "NOOP", "QUIT"], &furniture());
    assert_eq!(sent.len(), 6);
    for text in sent {
        assert!(ends_every_line_in_crlf(&text), "{:?}", text);
    }
}

#[test]
fn matched_define_has_one_line_for_each_column() {
    let table = Instance::check(" k ,v,w\na,\tb , c \n".to_string());
    assert_eq!(
        Instance::handle_command("DEFINE * A", &table).text,
        "150 Definitions found for \"A\"\r\nk : a\r\nv : b\r\nw : c\r\n250 ok\r\n"
    );
    let single = Instance::check("a,b\nx,y\n".to_string());
    assert_eq!(
        Instance::handle_command("DEFINE * x", &single).text,
        "150 Definitions found for \"x\"\r\na : x\r\nb : y\r\n250 ok\r\n"
    );
}

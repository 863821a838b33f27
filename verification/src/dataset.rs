//! The model of the dataset: a table given as lines of comma-separated
//! fields, its validation and the lookup of an entry by its first field.

use crate::text::{
    crlf_lines, eq_ignore_ascii_case, holds_no_line_feed, lemma_crlf_lines_after_lines,
    lemma_crlf_lines_after_text, lemma_lines_hold_no_line_feed, lemma_no_line_feed_in_both,
    lemma_split_keeps_line_feeds_out, lemma_split_nonempty, lemma_trim_keeps_line_feeds_out, lines,
    split, trim, Delimiter,
};
use vstd::prelude::*;

verus! {

/// The outcome of a lookup.
#[derive(Debug, PartialEq, Eq)]
pub enum Lookup {
    /// The formatted body of the first matching entry.
    Entry(String),
    /// The table has entries, none of which matches.
    NotFound,
    /// The table holds nothing at all.
    EmptyDataset,
}

/// The mathematical value of a [`Lookup`].
pub enum LookupView {
    Entry(Seq<char>),
    NotFound,
    EmptyDataset,
}

impl View for Lookup {
    type V = LookupView;

    open spec fn view(&self) -> LookupView {
        match self {
            Lookup::Entry(body) => LookupView::Entry(body@),
            Lookup::NotFound => LookupView::NotFound,
            Lookup::EmptyDataset => LookupView::EmptyDataset,
        }
    }
}

/// The fields of one record: the pieces of `line` between commas.
pub open spec fn fields(line: Seq<char>) -> Seq<Seq<char>> {
    split(line, Delimiter::Char(','))
}

/// Whether every record has as many fields as the first one, the header.
pub open spec fn uniform(rows: Seq<Seq<char>>) -> bool {
    forall|i: int| 0 <= i < rows.len() ==> fields(#[trigger] rows[i]).len() == fields(rows[0]).len()
}

/// The table built from a raw text: its lines if they all have the same
/// number of fields, and nothing otherwise.
pub open spec fn checked(input: Seq<char>) -> Seq<Seq<char>> {
    if uniform(lines(input)) {
        lines(input)
    } else {
        Seq::empty()
    }
}

/// Whether the key of `row`, its first field, is `word` up to ASCII case.
pub open spec fn has_key(row: Seq<char>, word: Seq<char>) -> bool {
    eq_ignore_ascii_case(fields(row)[0], word)
}

/// The index of the first record at or after `from` whose key is `word`.
pub open spec fn first_match(rows: Seq<Seq<char>>, word: Seq<char>, from: int) -> Option<int>
    decreases rows.len() - from,
{
    if from >= rows.len() {
        None
    } else if has_key(rows[from], word) {
        Some(from)
    } else {
        first_match(rows, word, from + 1)
    }
}

/// The `i`-th field of a record, or the empty text where the record is too
/// short to have one.
pub open spec fn field_or_empty(values: Seq<Seq<char>>, i: int) -> Seq<char> {
    if 0 <= i < values.len() {
        values[i]
    } else {
        Seq::empty()
    }
}

/// One line of a formatted entry, closed by the line end `end`: the trimmed
/// name, a colon between two spaces, the trimmed value.
pub open spec fn line_ending_in(name: Seq<char>, value: Seq<char>, end: Seq<char>) -> Seq<char> {
    trim(name) + " : "@ + trim(value) + end
}

/// The formatted lines for the first `n` columns, in header order, each
/// closed by `end`.
pub open spec fn body_ending_in(
    names: Seq<Seq<char>>,
    values: Seq<Seq<char>>,
    n: nat,
    end: Seq<char>,
) -> Seq<char>
    decreases n,
{
    if n == 0 {
        Seq::empty()
    } else {
        body_ending_in(names, values, (n - 1) as nat, end) + line_ending_in(
            names[n - 1],
            field_or_empty(values, n - 1),
            end,
        )
    }
}

/// The formatted entry of record `i`, one line for each column of the
/// header, each closed by `end`.
pub open spec fn entry_ending_in(rows: Seq<Seq<char>>, i: int, end: Seq<char>) -> Seq<char> {
    body_ending_in(fields(rows[0]), fields(rows[i]), fields(rows[0]).len(), end)
}

/// What looking `word` up in the table `rows` gives, the lines of the entry
/// closed by `end`: record 0 is the header, the entries follow, and the
/// first entry whose key matches wins.
pub open spec fn lookup_ending_in(
    rows: Seq<Seq<char>>,
    word: Seq<char>,
    end: Seq<char>,
) -> LookupView {
    if rows.len() == 0 {
        LookupView::EmptyDataset
    } else {
        match first_match(rows, word, 1) {
            Some(i) => LookupView::Entry(entry_ending_in(rows, i, end)),
            None => LookupView::NotFound,
        }
    }
}

/// One line of a formatted entry, closed by a line feed.
pub open spec fn entry_line(name: Seq<char>, value: Seq<char>) -> Seq<char> {
    line_ending_in(name, value, "\n"@)
}

/// The formatted lines for the first `n` columns, in header order.
pub open spec fn entry_body(names: Seq<Seq<char>>, values: Seq<Seq<char>>, n: nat) -> Seq<char> {
    body_ending_in(names, values, n, "\n"@)
}

/// The formatted entry of record `i`: one line for each column of the header.
pub open spec fn entry(rows: Seq<Seq<char>>, i: int) -> Seq<char> {
    entry_ending_in(rows, i, "\n"@)
}

/// What looking `word` up in the table `rows` gives, each line of the entry
/// closed by a line feed.
pub open spec fn lookup(rows: Seq<Seq<char>>, word: Seq<char>) -> LookupView {
    lookup_ending_in(rows, word, "\n"@)
}

/// `first_match` gives an index in range whose record has the key, and no
/// record before it (from `from` on) has it.
pub proof fn lemma_first_match(rows: Seq<Seq<char>>, word: Seq<char>, from: int)
    requires
        0 <= from,
    ensures
        match first_match(rows, word, from) {
            Some(i) => {
                &&& from <= i < rows.len()
                &&& has_key(rows[i], word)
                &&& forall|j: int| from <= j < i ==> !has_key(#[trigger] rows[j], word)
            },
            None => forall|j: int| from <= j < rows.len() ==> !has_key(#[trigger] rows[j], word),
        },
    decreases rows.len() - from,
{
    if from < rows.len() && !has_key(rows[from], word) {
        lemma_first_match(rows, word, from + 1);
    }
}

/// Two words that differ only in ASCII case find the same record.
pub proof fn lemma_first_match_ignores_case(
    rows: Seq<Seq<char>>,
    a: Seq<char>,
    b: Seq<char>,
    from: int,
)
    requires
        eq_ignore_ascii_case(a, b),
    ensures
        first_match(rows, a, from) == first_match(rows, b, from),
    decreases rows.len() - from,
{
    if from < rows.len() {
        lemma_first_match_ignores_case(rows, a, b, from + 1);
    }
}

/// A lookup does not depend on the letter case of the word: a word that
/// equals the key of some entry up to ASCII case finds an entry, and the
/// same one, with the same formatted body, as the key itself does, whatever
/// closes the lines of the body.
pub proof fn lemma_lookup_ignores_case(
    rows: Seq<Seq<char>>,
    word: Seq<char>,
    i: int,
    end: Seq<char>,
)
    requires
        1 <= i < rows.len(),
        has_key(rows[i], word),
    ensures
        lookup(rows, word) is Entry,
        lookup(rows, word) == lookup(rows, fields(rows[i])[0]),
        lookup_ending_in(rows, word, end) is Entry,
        lookup_ending_in(rows, word, end) == lookup_ending_in(rows, fields(rows[i])[0], end),
{
    let key = fields(rows[i])[0];
    lemma_first_match_ignores_case(rows, word, key, 1);
    lemma_first_match(rows, word, 1);
}

/// A raw text in which some line has another number of fields than the
/// first line gives the empty table, and every lookup in it reports an empty
/// dataset.
pub proof fn lemma_mismatch_empties_table(
    input: Seq<char>,
    i: int,
    word: Seq<char>,
    end: Seq<char>,
)
    requires
        0 <= i < lines(input).len(),
        fields(lines(input)[i]).len() != fields(lines(input)[0]).len(),
    ensures
        checked(input) == Seq::<Seq<char>>::empty(),
        lookup(checked(input), word) == LookupView::EmptyDataset,
        lookup_ending_in(checked(input), word, end) == LookupView::EmptyDataset,
{
}

/// The table built from any raw text is uniform.
pub proof fn lemma_checked_uniform(input: Seq<char>)
    ensures
        uniform(checked(input)),
{
}

/// Whether no record holds a line feed.
pub open spec fn single_lines(rows: Seq<Seq<char>>) -> bool {
    forall|i: int| 0 <= i < rows.len() ==> holds_no_line_feed(#[trigger] rows[i])
}

/// No record of the table built from a raw text holds a line feed.
pub proof fn lemma_checked_single_lines(input: Seq<char>)
    ensures
        single_lines(checked(input)),
{
    lemma_lines_hold_no_line_feed(input);
    assert forall|i: int| 0 <= i < lines(input).len() implies holds_no_line_feed(
        #[trigger] lines(input)[i],
    ) by {
        assert forall|j: int| 0 <= j < lines(input)[i].len() implies #[trigger] lines(input)[i][j]
            != '\n' by {}
    }
}

/// A line of an entry closed by CR LF ends in CR LF and holds no other line
/// feed, if its name and value hold none.
pub proof fn lemma_line_ends_in_crlf(name: Seq<char>, value: Seq<char>)
    requires
        holds_no_line_feed(name),
        holds_no_line_feed(value),
    ensures
        crlf_lines(line_ending_in(name, value, "\r\n"@)),
{
    reveal_strlit(" : ");
    reveal_strlit("\r\n");
    lemma_trim_keeps_line_feeds_out(name);
    lemma_trim_keeps_line_feeds_out(value);
    lemma_no_line_feed_in_both(trim(name), " : "@);
    lemma_no_line_feed_in_both(trim(name) + " : "@, trim(value));
    lemma_crlf_lines_after_text(trim(name) + " : "@ + trim(value), "\r\n"@);
}

/// The lines of an entry closed by CR LF are nothing, or lines that each end
/// in CR LF, if names and values hold no line feed.
pub proof fn lemma_body_ends_in_crlf(names: Seq<Seq<char>>, values: Seq<Seq<char>>, n: nat)
    requires
        n <= names.len(),
        single_lines(names),
        single_lines(values),
    ensures
        n == 0 ==> body_ending_in(names, values, n, "\r\n"@).len() == 0,
        n > 0 ==> crlf_lines(body_ending_in(names, values, n, "\r\n"@)),
    decreases n,
{
    if n > 0 {
        let before = (n - 1) as nat;
        lemma_body_ends_in_crlf(names, values, before);
        lemma_line_ends_in_crlf(names[n - 1], field_or_empty(values, n - 1));
        lemma_crlf_lines_after_lines(
            body_ending_in(names, values, before, "\r\n"@),
            line_ending_in(names[n - 1], field_or_empty(values, n - 1), "\r\n"@),
        );
    }
}

/// The entry of a record, closed by CR LF, is lines that each end in CR LF,
/// if no record of the table holds a line feed.
pub proof fn lemma_entry_ends_in_crlf(rows: Seq<Seq<char>>, i: int)
    requires
        0 <= i < rows.len(),
        single_lines(rows),
    ensures
        crlf_lines(entry_ending_in(rows, i, "\r\n"@)),
{
    let comma = Delimiter::Char(',');
    lemma_split_nonempty(rows[0], comma);
    lemma_split_keeps_line_feeds_out(rows[0], comma);
    lemma_split_keeps_line_feeds_out(rows[i], comma);
    lemma_body_ends_in_crlf(fields(rows[0]), fields(rows[i]), fields(rows[0]).len());
}

} // verus!
